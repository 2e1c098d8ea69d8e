//! The resolver: from the dependencies of a manifest, and what the
//! sources know, to the graph of releases that the project needs.

use crate::DEFAULT_INDEX_NAME;
use crate::lockfile::{
    DeclaredDependency, DependencyGraph, DependencyGraphNode, Edge, GraphEntry, PackageRef,
    SourceKind, free_in_after_taking
};
use crate::manifest::target::{Target, TargetKind};
use crate::manifest::{Dependency, Manifest, Named, lookup};
use crate::names::PackageName;
use crate::resolver::laws::{
    free_count_after_replacing, node_failure_stays, peers_failure_stays, resolved_graph_is_closed
};
use crate::resolver::model::{
    Context, GraphErrorView, NodeView, StateView, candidate_spec, conflicts_spec, dev_items,
    expanded_spec, first_items, first_package, free_count, git_location_spec, graph_view,
    is_normal, item_of, items_spec, kind_fits_spec, label_spec, location_spec, merged_spec,
    missing_spec, node_keys, node_peers_spec, node_view, peers_spec, pick_spec, preferred,
    provider_spec, provides, reaches, resolved_spec, root_item, run_spec, step_spec, with_edge
};
use crate::source::specifiers::{DependencySpecifiers, DependencyType, VersionTypeOrReq, opt_view};
use crate::source::version_id::{Version, VersionId};
use crate::text::{concat3, str_eq};
use vstd::prelude::*;
use vstd::string::*;

pub mod laws;
pub mod model;

verus! {

/// One release that a source knows of.
#[derive(Debug)]
pub struct Release {
    /// The version of the release.
    pub version: Version,
    /// What the release is built for.
    pub target: Target,
    /// The dependencies that it declares.
    pub dependencies: Vec<DeclaredDependency>,
}

impl Release {
    /// The release: its version, and the kind that it is built for.
    pub open spec fn id_spec(self) -> VersionId {
        VersionId { version: self.version, target: self.target.kind_spec() }
    }

    /// The release: its version, and the kind that it is built for.
    pub fn id(&self) -> (r: VersionId)
        ensures
            r == self.id_spec(),
    {
        VersionId { version: self.version.duplicate(), target: self.target.kind() }
    }
}

/// A package as one source knows it.
#[derive(Debug)]
pub struct SourcePackage {
    /// The kind of the source.
    pub source: SourceKind,
    /// Where the source lives: the URL of the index for the registries;
    /// for a git repository its URL, `#`, the revision and, where the
    /// package does not live at the root, `#` and its directory; for a
    /// workspace member its path.
    pub location: String,
    /// The name of the package.
    pub name: PackageName,
    /// The releases that the source has of it.
    pub releases: Vec<Release>,
}

/// Why the dependencies of a project cannot be resolved.
#[derive(Debug)]
pub enum DependencyGraphError {
    /// The manifest's `indices` have no entry under this alias.
    IndexNotFound(String),
    /// The manifest's `wally_indices` have no entry under this alias.
    WallyIndexNotFound(String),
    /// No source has a release that satisfies this dependency.
    NotFound(String),
    /// No node of the graph satisfies this peer dependency of a node: what
    /// a release expects of its consumers, they do not bring.
    UnsatisfiedPeer(String),
    /// Two versions of this package, built for one kind, are both needed
    /// outside of development.
    Conflict(String),
    /// The releases depend on one another in a circle.
    Cycle,
}

/// A dependency that waits to be resolved.
#[derive(Debug)]
pub struct WorkItem {
    /// The position, in the graph, of the node that declares the
    /// dependency; none for a dependency of the project itself.
    pub consumer: Option<usize>,
    /// What is depended on.
    pub specifier: DependencySpecifiers,
    /// The name under which the consumer requires it.
    pub alias: String,
    /// How it is depended on.
    pub ty: DependencyType,
}

/// The name by which a dependency is reported.
pub fn label(specifier: &DependencySpecifiers) -> (r: String)
    ensures
        r@ == label_spec(*specifier),
{
    match specifier {
        DependencySpecifiers::Pesde(s) => s.name.text(),
        DependencySpecifiers::Wally(s) => s.name.text(),
        DependencySpecifiers::Git(s) => s.text(),
        DependencySpecifiers::Workspace(s) => s.name.text(),
    }
}

/// The error for a dependency that no release satisfies.
fn missing(item: &WorkItem) -> (r: DependencyGraphError)
    ensures
        r@ == missing_spec(*item),
{
    DependencyGraphError::NotFound(label(&item.specifier))
}

/// Whether the kind `kind` of a release is what the dependency allows a
/// consumer of kind `consumer`.
pub fn kind_fits(specifier: &DependencySpecifiers, kind: TargetKind, consumer: TargetKind) -> (r:
    bool)
    ensures
        r == kind_fits_spec(*specifier, kind, consumer),
{
    let wanted = match specifier {
        DependencySpecifiers::Pesde(s) => s.target,
        DependencySpecifiers::Workspace(s) => s.target,
        _ => None,
    };
    match wanted {
        Some(wanted) => wanted == kind,
        None => consumer.is_compatible_with(&kind),
    }
}

/// Whether the version of a release is what the dependency admits, given
/// what its requirement, where it has one, says of the version.
pub fn is_candidate_given(
    specifier: &DependencySpecifiers,
    id: &VersionId,
    consumer: TargetKind,
    admitted: bool,
) -> (r: bool)
    ensures
        r == ((admitted || match *specifier {
            DependencySpecifiers::Git(_) => true,
            DependencySpecifiers::Workspace(s) => s.version is VersionType,
            _ => false,
        }) && kind_fits_spec(*specifier, id.target, consumer)),
{
    let free = match specifier {
        DependencySpecifiers::Git(_) => true,
        DependencySpecifiers::Workspace(s) => match &s.version {
            VersionTypeOrReq::VersionType(_) => true,
            VersionTypeOrReq::Req(_) => false,
        },
        _ => false,
    };
    (admitted || free) && kind_fits(specifier, id.target, consumer)
}

/// Whether the release `id` satisfies the dependency for a consumer of
/// kind `consumer`.
pub fn is_candidate(specifier: &DependencySpecifiers, id: &VersionId, consumer: TargetKind) -> (r:
    bool)
    ensures
        r == candidate_spec(*specifier, *id, consumer),
{
    let admitted = match specifier {
        DependencySpecifiers::Pesde(s) => s.version.matches(&id.version),
        DependencySpecifiers::Wally(s) => s.version.matches(&id.version),
        DependencySpecifiers::Git(_) => false,
        DependencySpecifiers::Workspace(s) => match &s.version {
            VersionTypeOrReq::Req(req) => req.matches(&id.version),
            VersionTypeOrReq::VersionType(_) => false,
        },
    };
    is_candidate_given(specifier, id, consumer, admitted)
}

/// Whether release `a` is to be preferred to release `b` by a consumer of
/// kind `consumer`.
pub fn is_preferred(a: &VersionId, b: &VersionId, consumer: TargetKind) -> (r: bool)
    ensures
        r == preferred(*a, *b, consumer),
{
    let a_own = a.target == consumer;
    let b_own = b.target == consumer;
    b.version.precedes(&a.version) || (a.version.same_as(&b.version) && ((a_own && !b_own) || (a_own
        == b_own && a.target.rank() < b.target.rank())))
}

/// The position of the release that is picked for a dependency.
pub fn pick(releases: &Vec<Release>, specifier: &DependencySpecifiers, consumer: TargetKind) -> (r:
    Option<usize>)
    ensures
        match r {
            Some(at) => pick_spec(releases@, *specifier, consumer, releases@.len() as int) == Some(
                at as int,
            ) && at < releases@.len(),
            None => pick_spec(releases@, *specifier, consumer, releases@.len() as int) is None,
        },
{
    let mut best: Option<usize> = None;
    let mut i: usize = 0;
    while i < releases.len()
        invariant
            i <= releases@.len(),
            match best {
                Some(at) => pick_spec(releases@, *specifier, consumer, i as int) == Some(at as int)
                    && at < i,
                None => pick_spec(releases@, *specifier, consumer, i as int) is None,
            },
        decreases releases@.len() - i,
    {
        if is_candidate(specifier, &releases[i].id(), consumer) {
            let better = match best {
                None => true,
                Some(at) => is_preferred(&releases[i].id(), &releases[at].id(), consumer),
            };
            if better {
                best = Some(i);
            }
        }
        i += 1;
    }
    best
}

/// Where a git dependency lives, as the `location` of a source package
/// writes it.
pub fn git_location(repo: &str, rev: &str, path: &Option<String>) -> (r: String)
    ensures
        r@ == git_location_spec(repo@, rev@, *path),
{
    let base = concat3(repo, "#", rev);
    match path {
        Some(p) => concat3(base.as_str(), "#", p.as_str()),
        None => {
            assert(base@ + Seq::<char>::empty() == base@);
            base
        },
    }
}

/// What the sources know and what the manifest says, as the resolver
/// needs it.
pub struct Resolver<'a> {
    /// What the sources know.
    pub snapshot: &'a Vec<SourcePackage>,
    /// The registry indices of the manifest by alias.
    pub indices: &'a Vec<Named>,
    /// The Wally indices of the manifest by alias.
    pub wally_indices: &'a Vec<Named>,
    /// The kind of the project.
    pub root: TargetKind,
}

impl<'a> Resolver<'a> {
    /// What the resolver is given.
    pub open spec fn ctx(&self) -> Context {
        Context {
            snapshot: self.snapshot@,
            indices: self.indices@,
            wally_indices: self.wally_indices@,
            root: self.root,
        }
    }

    /// The location of the source that a dependency names.
    fn location(&self, item: &WorkItem) -> (r: Result<Option<String>, DependencyGraphError>)
        ensures
            match r {
                Ok(found) => location_spec(self.ctx(), *item) == Ok::<
                    Option<Seq<char>>,
                    GraphErrorView,
                >(opt_view(found)),
                Err(e) => location_spec(self.ctx(), *item) == Err::<
                    Option<Seq<char>>,
                    GraphErrorView,
                >(e@),
            },
    {
        match &item.specifier {
            DependencySpecifiers::Pesde(s) => {
                let alias = match &s.index {
                    Some(a) => a.clone(),
                    None => String::from_str(DEFAULT_INDEX_NAME),
                };
                if item.consumer.is_none() {
                    match lookup(self.indices, alias.as_str()) {
                        Some(url) => Ok(Some(url.clone())),
                        None => Err(DependencyGraphError::IndexNotFound(alias)),
                    }
                } else {
                    Ok(Some(alias))
                }
            },
            DependencySpecifiers::Wally(s) => {
                let alias = match &s.index {
                    Some(a) => a.clone(),
                    None => String::from_str(DEFAULT_INDEX_NAME),
                };
                if item.consumer.is_none() {
                    match lookup(self.wally_indices, alias.as_str()) {
                        Some(url) => Ok(Some(url.clone())),
                        None => Err(DependencyGraphError::WallyIndexNotFound(alias)),
                    }
                } else {
                    Ok(Some(alias))
                }
            },
            DependencySpecifiers::Git(s) => Ok(
                Some(git_location(s.repo.as_str(), s.rev.as_str(), &s.path)),
            ),
            DependencySpecifiers::Workspace(_) => Ok(None),
        }
    }

    /// The position of the first package that the dependency names.
    fn find_package(&self, specifier: &DependencySpecifiers, location: &Option<String>) -> (r:
        Option<usize>)
        ensures
            match r {
                Some(at) => first_package(self.snapshot@, *specifier, opt_view(*location), 0)
                    == Some(at as int) && at < self.snapshot@.len(),
                None => first_package(self.snapshot@, *specifier, opt_view(*location), 0) is None,
            },
    {
        let mut i: usize = 0;
        while i < self.snapshot.len()
            invariant
                i <= self.snapshot@.len(),
                first_package(self.snapshot@, *specifier, opt_view(*location), i as int)
                    == first_package(self.snapshot@, *specifier, opt_view(*location), 0),
            decreases self.snapshot@.len() - i,
        {
            let package = &self.snapshot[i];
            let here = match location {
                Some(l) => str_eq(package.location.as_str(), l.as_str()),
                None => true,
            };
            let named = match specifier {
                DependencySpecifiers::Pesde(s) => (match package.source {
                    SourceKind::Pesde => true,
                    _ => false,
                }) && package.name.same_as(&s.name),
                DependencySpecifiers::Wally(s) => (match package.source {
                    SourceKind::Wally => true,
                    _ => false,
                }) && package.name.same_as(&s.name),
                DependencySpecifiers::Git(_) => match package.source {
                    SourceKind::Git => true,
                    _ => false,
                },
                DependencySpecifiers::Workspace(s) => (match package.source {
                    SourceKind::Workspace => true,
                    _ => false,
                }) && package.name.same_as(&s.name),
            };
            if here && named {
                return Some(i);
            }
            i += 1;
        }
        None
    }
}

/// Marks the release `r` of package `p` as taken into the graph.
fn mark(taken: &mut Vec<Vec<bool>>, p: usize, r: usize)
    requires
        p < old(taken)@.len(),
        r < old(taken)@[p as int]@.len(),
        !old(taken)@[p as int]@[r as int],
    ensures
        final(taken)@.len() == old(taken)@.len(),
        forall|i: int|
            0 <= i < old(taken)@.len() ==> (#[trigger] final(taken)@[i])@.len()
                == old(taken)@[i]@.len(),
        forall|i: int, j: int|
            0 <= i < old(taken)@.len() && 0 <= j < old(taken)@[i]@.len()
                ==> (#[trigger] final(taken)@[i]@[j]) == (old(taken)@[i]@[j] || (i == p && j == r)),
        free_count(final(taken)@) + 1 == free_count(old(taken)@),
{
    let mut row: Vec<bool> = Vec::new();
    let mut j: usize = 0;
    let width = taken[p].len();
    while j < width
        invariant
            p < taken@.len(),
            taken@ == old(taken)@,
            width == taken@[p as int]@.len(),
            j <= width,
            row@.len() == j,
            forall|k: int| 0 <= k < j ==> row@[k] == (taken@[p as int]@[k] || k == r),
        decreases width - j,
    {
        let was = taken[p][j];
        row.push(was || j == r);
        j += 1;
    }
    proof {
        assert(row@ =~= taken@[p as int]@.update(r as int, true));
        free_in_after_taking(taken@[p as int]@, r as int);
        free_count_after_replacing(taken@, p as int, row);
    }
    taken.set(p, row);
}

/// Adds `edge` to the node of the consumer, if the consumer is a node.
fn add_edge(graph: &mut DependencyGraph, consumer: Option<usize>, edge: Edge)
    requires
        consumer matches Some(c) ==> c < old(graph).entries@.len(),
    ensures
        graph_view(*final(graph)) == with_edge(graph_view(*old(graph)), consumer, edge),
        node_keys(graph_view(*final(graph))) == node_keys(graph_view(*old(graph))),
        final(graph).entries@.len() == old(graph).entries@.len(),
{
    match consumer {
        Some(c) => {
            let mut entry = graph.entries.remove(c);
            entry.node.dependencies.push(edge);
            graph.entries.insert(c, entry);
            proof {
                assert(graph_view(*graph) =~= with_edge(graph_view(*old(graph)), consumer, edge));
                assert(node_keys(graph_view(*graph)) =~= node_keys(graph_view(*old(graph))));
            }
        },
        None => {},
    }
}

/// Records that the node at `at` was reached once more, through `item`,
/// which counts as `ty`.
fn merge_node(graph: &mut DependencyGraph, at: usize, item: &WorkItem, ty: DependencyType)
    requires
        at < old(graph).entries@.len(),
    ensures
        graph_view(*final(graph)) == graph_view(*old(graph)).update(
            at as int,
            merged_spec(graph_view(*old(graph))[at as int], *item, ty),
        ),
        node_keys(graph_view(*final(graph))) == node_keys(graph_view(*old(graph))),
        final(graph).entries@.len() == old(graph).entries@.len(),
{
    let mut entry = graph.entries.remove(at);
    if entry.node.direct.is_none() && item.consumer.is_none() {
        entry.node.direct = Some(item.alias.clone());
    }
    let was_dev = match entry.node.ty {
        DependencyType::Dev => true,
        _ => false,
    };
    if was_dev {
        entry.node.ty = ty;
    }
    graph.entries.insert(at, entry);
    proof {
        assert(graph_view(*graph) =~= graph_view(*old(graph)).update(
            at as int,
            merged_spec(graph_view(*old(graph))[at as int], *item, ty),
        ));
        assert(node_keys(graph_view(*graph)) =~= node_keys(graph_view(*old(graph))));
    }
}

/// Whether a release of `name` for the kind of `id`, at another version,
/// is among the nodes that are needed outside of development.
fn conflicts(graph: &DependencyGraph, name: &PackageName, id: &VersionId) -> (r: bool)
    ensures
        r == conflicts_spec(graph_view(*graph), name@, *id),
{
    let mut m: usize = 0;
    while m < graph.entries.len()
        invariant
            m <= graph.entries@.len(),
            forall|k: int|
                0 <= k < m ==> !((#[trigger] graph_view(*graph)[k]).name@ == name@ && graph_view(
                    *graph,
                )[k].id.target == id.target && graph_view(*graph)[k].id.version@ != id.version@
                    && graph_view(*graph)[k].ty != DependencyType::Dev),
        decreases graph.entries@.len() - m,
    {
        let entry = &graph.entries[m];
        let dev = match entry.node.ty {
            DependencyType::Dev => true,
            _ => false,
        };
        if entry.name.same_as(name) && entry.version_id.target == id.target
            && !entry.version_id.version.same_as(&id.version) && !dev {
            proof {
                let found = graph_view(*graph)[m as int];
                assert(found.name@ == name@ && found.id.target == id.target && found.id.version@
                    != id.version@ && found.ty != DependencyType::Dev);
            }
            return true;
        }
        proof {
            let here = graph_view(*graph)[m as int];
            assert(here == node_view(graph.entries@[m as int]));
        }
        m += 1;
    }
    false
}

/// A copy of the declared dependencies.
fn copy_declared(declared: &Vec<DeclaredDependency>) -> (r: Vec<DeclaredDependency>)
    ensures
        r@ == declared@,
{
    let mut out: Vec<DeclaredDependency> = Vec::new();
    let mut i: usize = 0;
    while i < declared.len()
        invariant
            i <= declared@.len(),
            out@ == declared@.subrange(0, i as int),
        decreases declared@.len() - i,
    {
        let d = &declared[i];
        out.push(
            DeclaredDependency {
                alias: d.alias.clone(),
                specifier: d.specifier.duplicate(),
                ty: d.ty,
            },
        );
        proof {
            assert(out@ =~= declared@.subrange(0, i + 1));
        }
        i += 1;
    }
    proof {
        assert(declared@.subrange(0, declared@.len() as int) == declared@);
    }
    out
}

/// Queues the normal dependencies of the new node at `consumer`.
fn push_items(queue: &mut Vec<WorkItem>, declared: &Vec<DeclaredDependency>, consumer: usize)
    ensures
        final(queue)@ == old(queue)@ + items_spec(declared@, consumer),
{
    let mut i: usize = 0;
    proof {
        reveal(Seq::filter);
        assert(declared@.subrange(0, 0) == Seq::<DeclaredDependency>::empty());
        assert(queue@ =~= old(queue)@ + items_spec(declared@.subrange(0, 0), consumer));
    }
    while i < declared.len()
        invariant
            i <= declared@.len(),
            queue@ == old(queue)@ + items_spec(declared@.subrange(0, i as int), consumer),
        decreases declared@.len() - i,
    {
        let d = &declared[i];
        let ghost seen = declared@.subrange(0, i as int);
        proof {
            broadcast use Seq::lemma_filter_push, Seq::lemma_push_map_commute;

            assert(declared@.subrange(0, i + 1) == seen.push(*d));
            assert(seen.push(*d).filter(is_normal()) == if is_normal()(*d) {
                seen.filter(is_normal()).push(*d)
            } else {
                seen.filter(is_normal())
            });
            assert(seen.filter(is_normal()).push(*d).map_values(item_of(consumer)) == seen.filter(
                is_normal(),
            ).map_values(item_of(consumer)).push(item_of(consumer)(*d)));
        }
        let normal = match d.ty {
            DependencyType::Normal => true,
            _ => false,
        };
        if normal {
            let ghost before = queue@;
            queue.push(
                WorkItem {
                    consumer: Some(consumer),
                    specifier: d.specifier.duplicate(),
                    alias: d.alias.clone(),
                    ty: d.ty,
                },
            );
            proof {
                assert(queue@ == before.push(item_of(consumer)(*d)));
                assert(queue@ =~= old(queue)@ + items_spec(declared@.subrange(0, i + 1), consumer));
            }
        }
        i += 1;
    }
    proof {
        assert(declared@.subrange(0, declared@.len() as int) == declared@);
    }
}

/// The state of a resolution: the graph so far, the dependencies that
/// wait, and which releases of the snapshot are in the graph.
struct Work {
    graph: DependencyGraph,
    queue: Vec<WorkItem>,
    head: usize,
    taken: Vec<Vec<bool>>,
}

impl Work {
    /// What the resolver has found, and what it has left to do.
    spec fn view(&self) -> StateView {
        StateView { nodes: graph_view(self.graph), queue: self.queue@.skip(self.head as int) }
    }

    /// Whether the state is in order: the marks have the shape of the
    /// snapshot, every marked release is in the graph, and every consumer
    /// is a node.
    spec fn inv(&self, ctx: Context) -> bool {
        &&& self.head <= self.queue@.len()
        &&& self.taken@.len() == ctx.snapshot.len()
        &&& forall|p: int|
            0 <= p < ctx.snapshot.len() ==> (#[trigger] self.taken@[p])@.len()
                == ctx.snapshot[p].releases@.len()
        &&& forall|p: int, r: int|
            0 <= p < ctx.snapshot.len() && 0 <= r < ctx.snapshot[p].releases@.len()
                && #[trigger] self.taken@[p]@[r] ==> node_keys(graph_view(self.graph)).contains(
                (ctx.snapshot[p].name@, ctx.snapshot[p].releases@[r].id_spec()@),
            )
        &&& forall|i: int|
            0 <= i < self.queue@.len() ==> ((#[trigger] self.queue@[i]).consumer matches Some(c)
                ==> c < self.graph.entries@.len())
    }
}

impl<'a> Resolver<'a> {
    /// Resolves the dependency at the head of the queue.
    fn step(&self, w: &mut Work) -> (r: Result<(), DependencyGraphError>)
        requires
            old(w).inv(self.ctx()),
            old(w).head < old(w).queue@.len(),
        ensures
            match r {
                Ok(()) => {
                    &&& final(w).inv(self.ctx())
                    &&& step_spec(self.ctx(), old(w)@) == Ok::<StateView, GraphErrorView>(final(w)@)
                    &&& (free_count(final(w).taken@) < free_count(old(w).taken@) || (free_count(
                        final(w).taken@,
                    ) == free_count(old(w).taken@) && final(w).queue@.len() - final(w).head
                        < old(w).queue@.len() - old(w).head))
                },
                Err(e) => step_spec(self.ctx(), old(w)@) == Err::<StateView, GraphErrorView>(e@),
            },
    {
        let ghost ctx = self.ctx();
        let ghost before = w@;
        proof {
            assert(before.queue[0] == w.queue@[w.head as int]);
        }
        let waiting = w.queue.len();
        let next = w.head + 1;
        let item = &w.queue[w.head];
        let consumer = item.consumer;
        let consumer_kind = match consumer {
            Some(c) => w.graph.entries[c].version_id.target,
            None => self.root,
        };
        let ty = match consumer {
            Some(c) => match w.graph.entries[c].node.ty {
                DependencyType::Dev => DependencyType::Dev,
                _ => item.ty,
            },
            None => item.ty,
        };
        let location = match self.location(item) {
            Ok(found) => found,
            Err(e) => {
                return Err(e);
            },
        };
        let p = match self.find_package(&item.specifier, &location) {
            Some(p) => p,
            None => {
                return Err(missing(item));
            },
        };
        let package = &self.snapshot[p];
        let r = match pick(&package.releases, &item.specifier, consumer_kind) {
            Some(r) => r,
            None => {
                return Err(missing(item));
            },
        };
        let release = &package.releases[r];
        let id = release.id();
        let edge = Edge {
            name: package.name.duplicate(),
            version_id: id.duplicate(),
            alias: item.alias.clone(),
        };
        let ghost key = (package.name@, id@);
        proof {
            assert(w.graph.keys() =~= node_keys(graph_view(w.graph)));
            node_keys(before.nodes).index_of_first_ensures(key);
        }
        match w.graph.position(&package.name, &id) {
            Some(n) => {
                proof {
                    assert(node_keys(before.nodes).index_of_first(key) == Some(n as int));
                    assert(before.nodes[n as int] == node_view(w.graph.entries@[n as int]));
                }
                let was_dev = match w.graph.entries[n].node.ty {
                    DependencyType::Dev => true,
                    _ => false,
                };
                let is_dev = match ty {
                    DependencyType::Dev => true,
                    _ => false,
                };
                if was_dev && !is_dev && conflicts(&w.graph, &package.name, &id) {
                    return Err(DependencyGraphError::Conflict(package.name.text()));
                }
                merge_node(&mut w.graph, n, item, ty);
                add_edge(&mut w.graph, consumer, edge);
                w.head = next;
                proof {
                    assert(w.queue@.skip(w.head as int) =~= before.queue.skip(1));
                }
                Ok(())
            },
            None => {
                proof {
                    assert(node_keys(before.nodes).index_of_first(key) is None);
                }
                let dev = match ty {
                    DependencyType::Dev => true,
                    _ => false,
                };
                if !dev && conflicts(&w.graph, &package.name, &id) {
                    return Err(DependencyGraphError::Conflict(package.name.text()));
                }
                let at = w.graph.entries.len();
                let direct = if consumer.is_none() {
                    Some(item.alias.clone())
                } else {
                    None
                };
                let ghost old_entries = w.graph.entries@;
                w.graph.entries.push(
                    GraphEntry {
                        name: package.name.duplicate(),
                        version_id: id,
                        node: DependencyGraphNode {
                            direct,
                            pkg_ref: PackageRef {
                                source: package.source,
                                location: package.location.clone(),
                                target: release.target.duplicate(),
                                dependencies: copy_declared(&release.dependencies),
                            },
                            dependencies: Vec::new(),
                            ty,
                        },
                    },
                );
                let ghost pushed = graph_view(w.graph);
                proof {
                    assert(pushed =~= before.nodes.push(
                        NodeView {
                            name: package.name,
                            id: release.id_spec(),
                            direct: if consumer is None {
                                Some(item.alias)
                            } else {
                                None
                            },
                            ty,
                            source: package.source,
                            location: package.location,
                            target: release.target@,
                            edges: Seq::empty(),
                            declared: release.dependencies@,
                        },
                    ));
                    assert(node_keys(pushed) =~= node_keys(before.nodes).push(key));
                }
                add_edge(&mut w.graph, consumer, edge);
                let ghost old_queue = w.queue@;
                push_items(&mut w.queue, &release.dependencies, at);
                proof {
                    assert(!w.taken@[p as int]@[r as int]);
                }
                mark(&mut w.taken, p, r);
                w.head = next;
                proof {
                    let items = items_spec(release.dependencies@, at);
                    assert(w.queue@.skip(w.head as int) =~= before.queue.skip(1) + items);
                    let keys = node_keys(graph_view(w.graph));
                    assert(keys == node_keys(before.nodes).push(key));
                    assert(keys[keys.len() - 1] == key);
                    assert forall|a: int, b: int|
                        0 <= a < ctx.snapshot.len() && 0 <= b < ctx.snapshot[a].releases@.len()
                            && #[trigger] w.taken@[a]@[b] implies keys.contains(
                        (ctx.snapshot[a].name@, ctx.snapshot[a].releases@[b].id_spec()@),
                    ) by {
                        let wanted = (ctx.snapshot[a].name@, ctx.snapshot[a].releases@[b].id_spec()@);
                        if a == p && b == r {
                            assert(keys[keys.len() - 1] == wanted);
                        } else {
                            assert(old(w).taken@[a]@[b]);
                            let old_keys = node_keys(before.nodes);
                            assert(old_keys.contains(wanted));
                            let k = choose|k: int| 0 <= k < old_keys.len() && old_keys[k] == wanted;
                            assert(keys[k] == wanted);
                        }
                    }
                    assert forall|i: int| 0 <= i < w.queue@.len() implies ((
                    #[trigger] w.queue@[i]).consumer matches Some(c) ==> c
                        < w.graph.entries@.len()) by {
                        if i < old_queue.len() {
                            assert(w.queue@[i] == old_queue[i]);
                        } else {
                            assert(w.queue@[i] == items[i - old_queue.len()]);
                            assert(w.queue@[i].consumer == Some(at));
                        }
                    }
                }
                Ok(())
            },
        }
    }
}

impl<'a> Resolver<'a> {
    /// Resolves dependencies until none is left, or one cannot be
    /// resolved.
    fn drain(&self, w: &mut Work) -> (r: Result<(), DependencyGraphError>)
        requires
            old(w).inv(self.ctx()),
        ensures
            match r {
                Ok(()) => final(w).inv(self.ctx()) && final(w).head == final(w).queue@.len()
                    && reaches(self.ctx(), old(w)@, Ok(final(w)@)),
                Err(e) => reaches(self.ctx(), old(w)@, Err(e@)),
            },
    {
        let ghost start = w@;
        let ghost mut steps: nat = 0;
        while w.head < w.queue.len()
            invariant
                w.inv(self.ctx()),
                start == old(w)@,
                run_spec(self.ctx(), start, steps) == Ok::<StateView, GraphErrorView>(w@),
            decreases free_count(w.taken@), w.queue@.len() - w.head,
        {
            let ghost here = w@;
            proof {
                assert(here.queue.len() > 0);
            }
            match self.step(w) {
                Err(e) => {
                    proof {
                        assert(run_spec(self.ctx(), start, steps + 1) == Err::<
                            StateView,
                            GraphErrorView,
                        >(e@));
                    }
                    return Err(e);
                },
                Ok(()) => {
                    proof {
                        assert(run_spec(self.ctx(), start, steps + 1) == Ok::<
                            StateView,
                            GraphErrorView,
                        >(w@));
                        steps = steps + 1;
                    }
                },
            }
        }
        proof {
            assert(w@.queue.len() == 0);
        }
        Ok(())
    }
}

/// Queues the dependencies `deps` of the project itself, which count as
/// `ty`.
fn push_root_items(queue: &mut Vec<WorkItem>, deps: &Vec<Dependency>, ty: DependencyType)
    ensures
        final(queue)@ == old(queue)@ + deps@.map_values(root_item(ty)),
{
    let mut i: usize = 0;
    proof {
        assert(queue@ =~= old(queue)@ + deps@.subrange(0, 0).map_values(root_item(ty)));
    }
    while i < deps.len()
        invariant
            i <= deps@.len(),
            queue@ == old(queue)@ + deps@.subrange(0, i as int).map_values(root_item(ty)),
        decreases deps@.len() - i,
    {
        let d = &deps[i];
        queue.push(
            WorkItem {
                consumer: None,
                specifier: d.specifier.duplicate(),
                alias: d.alias.clone(),
                ty,
            },
        );
        proof {
            assert(queue@ =~= old(queue)@ + deps@.subrange(0, i + 1).map_values(root_item(ty)));
        }
        i += 1;
    }
    proof {
        assert(deps@.subrange(0, deps@.len() as int) == deps@);
    }
}

/// Marks for a snapshot of which no release is in the graph.
fn no_marks(snapshot: &Vec<SourcePackage>) -> (taken: Vec<Vec<bool>>)
    ensures
        taken@.len() == snapshot@.len(),
        forall|p: int|
            0 <= p < snapshot@.len() ==> (#[trigger] taken@[p])@.len()
                == snapshot@[p].releases@.len(),
        forall|p: int, r: int|
            0 <= p < snapshot@.len() && 0 <= r < snapshot@[p].releases@.len()
                ==> !#[trigger] taken@[p]@[r],
{
    let mut taken: Vec<Vec<bool>> = Vec::new();
    let mut p: usize = 0;
    while p < snapshot.len()
        invariant
            p <= snapshot@.len(),
            taken@.len() == p,
            forall|a: int|
                0 <= a < p ==> (#[trigger] taken@[a])@.len() == snapshot@[a].releases@.len(),
            forall|a: int, b: int|
                0 <= a < p && 0 <= b < snapshot@[a].releases@.len() ==> !#[trigger] taken@[a]@[b],
        decreases snapshot@.len() - p,
    {
        let mut row: Vec<bool> = Vec::new();
        let width = snapshot[p].releases.len();
        let mut r: usize = 0;
        while r < width
            invariant
                r <= width,
                row@.len() == r,
                forall|b: int| 0 <= b < r ==> !row@[b],
            decreases width - r,
        {
            row.push(false);
            r += 1;
        }
        taken.push(row);
        p += 1;
    }
    taken
}

/// Resolves the dependencies of `manifest` against what the sources know.
///
/// The dependencies wait in a queue, those of the project first. Each is
/// resolved to the release that its source has for it, that satisfies
/// it, and that the consumer prefers; a release that is new to the graph
/// brings its normal dependencies. Then every peer dependency of a node
/// is given an edge to the node of the graph that provides it. The
/// resolution fails where an index alias is unknown, where no release
/// satisfies a dependency, where two versions of a package, built for
/// one kind, would both be needed outside of development, where no
/// node provides a peer dependency, and where the releases depend on one
/// another in a circle.
pub fn resolve(manifest: &Manifest, snapshot: &Vec<SourcePackage>) -> (r: Result<
    DependencyGraph,
    DependencyGraphError,
>)
    ensures
        resolved_spec(
            Context {
                snapshot: snapshot@,
                indices: manifest.indices@,
                wally_indices: manifest.wally_indices@,
                root: manifest.target.kind_spec(),
            },
            *manifest,
            match r {
                Ok(graph) => Ok(graph_view(graph)),
                Err(e) => Err(e@),
            },
        ),
        r matches Ok(graph) ==> graph.well_formed(),
        r matches Ok(graph) ==> forall|i: int|
            0 <= i < graph.entries@.len() ==> (#[trigger] graph.entries@[i]).node.pkg_ref.target.kind_spec()
                == graph.entries@[i].version_id.target,
        r matches Ok(graph) ==> crate::resolver::model::no_conflict(graph_view(graph)),
        r matches Ok(graph) ==> graph.acyclic(),
{
    let resolver = Resolver {
        snapshot,
        indices: &manifest.indices,
        wally_indices: &manifest.wally_indices,
        root: manifest.target.kind(),
    };
    let ghost ctx = resolver.ctx();
    let mut w = Work {
        graph: DependencyGraph { entries: Vec::new() },
        queue: Vec::new(),
        head: 0,
        taken: no_marks(snapshot),
    };
    push_root_items(&mut w.queue, &manifest.dependencies, DependencyType::Normal);
    push_root_items(&mut w.queue, &manifest.peer_dependencies, DependencyType::Peer);
    let ghost first = StateView { nodes: Seq::empty(), queue: first_items(*manifest) };
    proof {
        assert(w@.queue =~= first_items(*manifest));
        assert(w@.nodes =~= Seq::<NodeView>::empty());
        assert(w@ == first);
    }
    match resolver.drain(&mut w) {
        Err(e) => {
            proof {
                assert(expanded_spec(ctx, *manifest, Err(e@)));
            }
            return Err(e);
        },
        Ok(()) => {},
    }
    let ghost mid = w@;
    let ghost kept = w.queue@;
    push_root_items(&mut w.queue, &manifest.dev_dependencies, DependencyType::Dev);
    let ghost second = StateView { nodes: mid.nodes, queue: dev_items(*manifest) };
    proof {
        assert(w@.queue =~= dev_items(*manifest));
        assert(w@ == second);
        assert forall|i: int| 0 <= i < w.queue@.len() implies ((#[trigger] w.queue@[i]).consumer
            matches Some(c) ==> c < w.graph.entries@.len()) by {
            if i < kept.len() {
                assert(w.queue@[i] == kept[i]);
            } else {
                assert(w.queue@[i] == dev_items(*manifest)[i - kept.len()]);
            }
        }
    }
    match resolver.drain(&mut w) {
        Err(e) => {
            proof {
                assert(reaches(ctx, first, Ok(mid)));
                assert(expanded_spec(ctx, *manifest, Err(e@)));
            }
            return Err(e);
        },
        Ok(()) => {},
    }
    let mut graph = w.graph;
    let ghost expanded = graph_view(graph);
    proof {
        assert(w@.queue =~= Seq::<WorkItem>::empty());
        assert(w@ == StateView { nodes: expanded, queue: Seq::empty() });
        assert(reaches(ctx, first, Ok(mid)));
        assert(expanded_spec(ctx, *manifest, Ok(expanded)));
    }
    match link_peers(&mut graph) {
        Err(e) => Err(e),
        Ok(()) => {
            let total = graph.entries.len();
            proof {
                cycles_are_those_of_the_nodes(graph);
            }
            if !graph.is_acyclic() {
                return Err(DependencyGraphError::Cycle);
            }
            proof {
                assert(graph_view(graph).len() == total);
                assert(resolved_spec(ctx, *manifest, Ok(graph_view(graph))));
                resolved_graph_is_closed(ctx, *manifest, graph_view(graph));
                let nodes = graph_view(graph);
                assert(graph.keys() =~= node_keys(nodes));
                assert forall|i: int| 0 <= i < graph.entries@.len() implies (
                #[trigger] graph.entries@[i]).node.pkg_ref.target.kind_spec()
                    == graph.entries@[i].version_id.target by {
                    assert(nodes[i].target.kind == nodes[i].id.target);
                }
                assert forall|i: int, j: int|
                    0 <= i < graph.entries@.len() && 0 <= j
                        < graph.entries@[i].node.dependencies@.len() implies graph.keys().contains(
                    (
                        (#[trigger] graph.entries@[i].node.dependencies@[j]).name@,
                        graph.entries@[i].node.dependencies@[j].version_id@,
                    ),
                ) by {
                    assert(nodes[i].edges[j] == graph.entries@[i].node.dependencies@[j]);
                }
            }
            Ok(graph)
        },
    }
}

/// Whether `node` is a release of what the dependency names.
fn is_provider(entry: &GraphEntry, specifier: &DependencySpecifiers) -> (r: bool)
    ensures
        r == provides(node_view(*entry), *specifier),
{
    let pkg_ref = &entry.node.pkg_ref;
    match specifier {
        DependencySpecifiers::Pesde(s) => (match pkg_ref.source {
            SourceKind::Pesde => true,
            _ => false,
        }) && entry.name.same_as(&s.name) && match &s.index {
            Some(url) => str_eq(pkg_ref.location.as_str(), url.as_str()),
            None => true,
        },
        DependencySpecifiers::Wally(s) => (match pkg_ref.source {
            SourceKind::Wally => true,
            _ => false,
        }) && entry.name.same_as(&s.name) && match &s.index {
            Some(url) => str_eq(pkg_ref.location.as_str(), url.as_str()),
            None => true,
        },
        DependencySpecifiers::Git(s) => {
            let location = git_location(s.repo.as_str(), s.rev.as_str(), &s.path);
            (match pkg_ref.source {
                SourceKind::Git => true,
                _ => false,
            }) && str_eq(pkg_ref.location.as_str(), location.as_str())
        },
        DependencySpecifiers::Workspace(s) => (match pkg_ref.source {
            SourceKind::Workspace => true,
            _ => false,
        }) && entry.name.same_as(&s.name),
    }
}

/// The position of the node that provides a peer dependency to a consumer
/// of kind `consumer`.
fn find_provider(graph: &DependencyGraph, specifier: &DependencySpecifiers, consumer: TargetKind) -> (r:
    Option<usize>)
    ensures
        match r {
            Some(at) => provider_spec(
                graph_view(*graph),
                *specifier,
                consumer,
                graph.entries@.len() as int,
            ) == Some(at as int) && at < graph.entries@.len(),
            None => provider_spec(
                graph_view(*graph),
                *specifier,
                consumer,
                graph.entries@.len() as int,
            ) is None,
        },
{
    let mut best: Option<usize> = None;
    let mut i: usize = 0;
    while i < graph.entries.len()
        invariant
            i <= graph.entries@.len(),
            match best {
                Some(at) => provider_spec(graph_view(*graph), *specifier, consumer, i as int)
                    == Some(at as int) && at < i,
                None => provider_spec(graph_view(*graph), *specifier, consumer, i as int) is None,
            },
        decreases graph.entries@.len() - i,
    {
        let entry = &graph.entries[i];
        proof {
            assert(graph_view(*graph)[i as int] == node_view(*entry));
        }
        if is_provider(entry, specifier) && is_candidate(specifier, &entry.version_id, consumer) {
            let better = match best {
                None => true,
                Some(at) => {
                    proof {
                        assert(graph_view(*graph)[at as int] == node_view(graph.entries@[at as int]));
                    }
                    is_preferred(&entry.version_id, &graph.entries[at].version_id, consumer)
                },
            };
            if better {
                best = Some(i);
            }
        }
        i += 1;
    }
    best
}

/// A graph has a cycle exactly if the nodes that it stands for have one.
proof fn cycles_are_those_of_the_nodes(graph: DependencyGraph)
    ensures
        graph.acyclic() == crate::resolver::model::has_no_cycle(graph_view(graph)),
{
    let nodes = graph_view(graph);
    assert(graph.keys() =~= node_keys(nodes));
    assert forall|i: int, k: int, j: int|
        graph.edge_to(i, k, j) == crate::resolver::model::edge_ends_at(nodes, i, k, j) by {
        if 0 <= i < graph.entries@.len() {
            assert(nodes[i] == node_view(graph.entries@[i]));
        }
    }
    if graph.acyclic() {
        let rank = choose|rank: Seq<nat>| graph.ordered_by(rank);
        assert(rank.len() == nodes.len());
        assert forall|i: int, k: int, j: int| #[trigger]
            crate::resolver::model::edge_ends_at(nodes, i, k, j) implies rank[j] < rank[i] by {
            assert(graph.edge_to(i, k, j));
        }
    }
    if crate::resolver::model::has_no_cycle(nodes) {
        let rank = choose|rank: Seq<nat>|
            #![trigger rank.len()]
            rank.len() == nodes.len() && forall|i: int, k: int, j: int| #[trigger]
                crate::resolver::model::edge_ends_at(nodes, i, k, j) ==> rank[j] < rank[i];
        assert forall|i: int, k: int, j: int| #[trigger] graph.edge_to(i, k, j) implies rank[j]
            < rank[i] by {
            assert(crate::resolver::model::edge_ends_at(nodes, i, k, j));
        }
        assert(graph.ordered_by(rank));
    }
}

/// Gives every peer dependency of every node its edge to the node that
/// provides it.
fn link_peers(graph: &mut DependencyGraph) -> (r: Result<(), DependencyGraphError>)
    ensures
        match r {
            Ok(()) => peers_spec(graph_view(*old(graph)), old(graph).entries@.len() as int) == Ok::<
                Seq<NodeView>,
                GraphErrorView,
            >(graph_view(*final(graph))),
            Err(e) => peers_spec(graph_view(*old(graph)), old(graph).entries@.len() as int) == Err::<
                Seq<NodeView>,
                GraphErrorView,
            >(e@),
        },
{
    let n = graph.entries.len();
    let ghost start = graph_view(*graph);
    let mut i: usize = 0;
    while i < n
        invariant
            i <= n,
            n == start.len(),
            n == old(graph).entries@.len(),
            graph.entries@.len() == n,
            start == graph_view(*old(graph)),
            peers_spec(start, i as int) == Ok::<Seq<NodeView>, GraphErrorView>(graph_view(*graph)),
        decreases n - i,
    {
        let ghost before = graph_view(*graph);
        let count = graph.entries[i].node.pkg_ref.dependencies.len();
        proof {
            assert(before[i as int] == node_view(graph.entries@[i as int]));
        }
        let mut k: usize = 0;
        while k < count
            invariant
                i < n,
                k <= count,
                n == start.len(),
                n == old(graph).entries@.len(),
                start == graph_view(*old(graph)),
                graph.entries@.len() == n,
                before.len() == n,
                peers_spec(start, i as int) == Ok::<Seq<NodeView>, GraphErrorView>(before),
                count == before[i as int].declared.len(),
                graph_view(*graph)[i as int].declared == before[i as int].declared,
                node_peers_spec(before, i as int, k as int) == Ok::<Seq<NodeView>, GraphErrorView>(
                    graph_view(*graph),
                ),
            decreases count - k,
        {
            let ghost here = graph_view(*graph);
            proof {
                assert(here[i as int] == node_view(graph.entries@[i as int]));
            }
            let declared = &graph.entries[i].node.pkg_ref.dependencies[k];
            let peer = match declared.ty {
                DependencyType::Peer => true,
                _ => false,
            };
            if peer {
                let consumer = graph.entries[i].version_id.target;
                match find_provider(graph, &declared.specifier, consumer) {
                    None => {
                        let e = DependencyGraphError::UnsatisfiedPeer(label(&declared.specifier));
                        proof {
                            assert(node_peers_spec(before, i as int, k + 1) == Err::<
                                Seq<NodeView>,
                                GraphErrorView,
                            >(e@));
                            node_failure_stays(before, i as int, k + 1, count as int);
                            assert(peers_spec(start, i + 1) == Err::<Seq<NodeView>, GraphErrorView>(e@));
                            peers_failure_stays(start, i + 1, n as int);
                        }
                        return Err(e);
                    },
                    Some(q) => {
                        proof {
                            assert(here[q as int] == node_view(graph.entries@[q as int]));
                        }
                        let edge = Edge {
                            name: graph.entries[q].name.duplicate(),
                            version_id: graph.entries[q].version_id.duplicate(),
                            alias: declared.alias.clone(),
                        };
                        add_edge(graph, Some(i), edge);
                        proof {
                            assert(graph_view(*graph)[i as int] == node_view(
                                graph.entries@[i as int],
                            ));
                        }
                    },
                }
            }
            k += 1;
        }
        i += 1;
    }
    Ok(())
}

} // verus!
