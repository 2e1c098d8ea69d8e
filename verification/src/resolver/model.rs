//! What resolving means: the states that a resolution passes through, the
//! step from one to the next, and the graph that it ends with.

use crate::DEFAULT_INDEX_NAME;
use crate::lockfile::{DeclaredDependency, DependencyGraph, Edge, GraphEntry, SourceKind, free_in};
use crate::manifest::target::{TargetKind, TargetView};
use crate::manifest::{Dependency, Manifest, Named, lookup_spec};
use crate::names::PackageName;
use crate::resolver::{DependencyGraphError, Release, SourcePackage, WorkItem};
use crate::source::specifiers::{DependencySpecifiers, DependencyType, VersionTypeOrReq};
use crate::source::version_id::{VersionId, VersionIdView};
use vstd::prelude::*;

verus! {

/// What a resolver error says, with its strings as sequences.
pub ghost enum GraphErrorView {
    IndexNotFound(Seq<char>),
    WallyIndexNotFound(Seq<char>),
    NotFound(Seq<char>),
    UnsatisfiedPeer(Seq<char>),
    Conflict(Seq<char>),
    Cycle,
}

impl View for DependencyGraphError {
    type V = GraphErrorView;

    open spec fn view(&self) -> GraphErrorView {
        match self {
            DependencyGraphError::IndexNotFound(a) => GraphErrorView::IndexNotFound(a@),
            DependencyGraphError::WallyIndexNotFound(a) => GraphErrorView::WallyIndexNotFound(a@),
            DependencyGraphError::NotFound(a) => GraphErrorView::NotFound(a@),
            DependencyGraphError::UnsatisfiedPeer(a) => GraphErrorView::UnsatisfiedPeer(a@),
            DependencyGraphError::Conflict(a) => GraphErrorView::Conflict(a@),
            DependencyGraphError::Cycle => GraphErrorView::Cycle,
        }
    }
}

/// A node of the graph as the resolver sees it.
pub ghost struct NodeView {
    pub name: PackageName,
    pub id: VersionId,
    pub direct: Option<String>,
    pub ty: DependencyType,
    pub source: SourceKind,
    pub location: String,
    pub target: TargetView,
    pub edges: Seq<Edge>,
    pub declared: Seq<DeclaredDependency>,
}

/// What the resolver has found, and what it has left to do.
pub ghost struct StateView {
    pub nodes: Seq<NodeView>,
    pub queue: Seq<WorkItem>,
}

/// What the resolver is given: what the sources know, the indices of the
/// manifest by alias, and the kind of the project.
pub ghost struct Context {
    pub snapshot: Seq<SourcePackage>,
    pub indices: Seq<Named>,
    pub wally_indices: Seq<Named>,
    pub root: TargetKind,
}

/// The node that a graph entry stands for.
pub open spec fn node_view(entry: GraphEntry) -> NodeView {
    NodeView {
        name: entry.name,
        id: entry.version_id,
        direct: entry.node.direct,
        ty: entry.node.ty,
        source: entry.node.pkg_ref.source,
        location: entry.node.pkg_ref.location,
        target: entry.node.pkg_ref.target@,
        edges: entry.node.dependencies@,
        declared: entry.node.pkg_ref.dependencies@,
    }
}

/// The nodes that a graph stands for.
pub open spec fn graph_view(graph: DependencyGraph) -> Seq<NodeView> {
    graph.entries@.map_values(|e: GraphEntry| node_view(e))
}

/// The name by which a dependency is reported: the package name, or for
/// a git dependency the repository and the revision.
pub open spec fn label_spec(specifier: DependencySpecifiers) -> Seq<char> {
    match specifier {
        DependencySpecifiers::Pesde(s) => s.name.text_spec(),
        DependencySpecifiers::Wally(s) => s.name.text_spec(),
        DependencySpecifiers::Git(s) => s.text_spec(),
        DependencySpecifiers::Workspace(s) => s.name.text_spec(),
    }
}

/// The error for a dependency that no release satisfies.
pub open spec fn missing_spec(item: WorkItem) -> GraphErrorView {
    GraphErrorView::NotFound(label_spec(item.specifier))
}

/// Where a git dependency lives, as the `location` of a source package
/// writes it.
pub open spec fn git_location_spec(repo: Seq<char>, rev: Seq<char>, path: Option<String>) -> Seq<
    char,
> {
    repo + "#"@ + rev + match path {
        Some(p) => "#"@ + p@,
        None => Seq::empty(),
    }
}

/// The location of the source that a dependency names; none where any
/// location will do, as for workspace members. A dependency of the
/// project itself names an index by its alias in the manifest; any other
/// carries the URL.
pub open spec fn location_spec(ctx: Context, item: WorkItem) -> Result<
    Option<Seq<char>>,
    GraphErrorView,
> {
    match item.specifier {
        DependencySpecifiers::Pesde(s) => {
            let alias = match s.index {
                Some(a) => a@,
                None => DEFAULT_INDEX_NAME@,
            };
            if item.consumer is None {
                match lookup_spec(ctx.indices, alias) {
                    Some(url) => Ok(Some(url)),
                    None => Err(GraphErrorView::IndexNotFound(alias)),
                }
            } else {
                Ok(Some(alias))
            }
        },
        DependencySpecifiers::Wally(s) => {
            let alias = match s.index {
                Some(a) => a@,
                None => DEFAULT_INDEX_NAME@,
            };
            if item.consumer is None {
                match lookup_spec(ctx.wally_indices, alias) {
                    Some(url) => Ok(Some(url)),
                    None => Err(GraphErrorView::WallyIndexNotFound(alias)),
                }
            } else {
                Ok(Some(alias))
            }
        },
        DependencySpecifiers::Git(s) => Ok(Some(git_location_spec(s.repo@, s.rev@, s.path))),
        DependencySpecifiers::Workspace(_) => Ok(None),
    }
}

/// Whether `package` is what the dependency names, in the source at
/// `location`: it comes from the kind of source that the specifier is
/// for, from that location, and, but for git, has the name.
pub open spec fn package_matches(
    package: SourcePackage,
    specifier: DependencySpecifiers,
    location: Option<Seq<char>>,
) -> bool {
    &&& match location {
        Some(l) => package.location@ == l,
        None => true,
    }
    &&& match specifier {
        DependencySpecifiers::Pesde(s) => package.source == SourceKind::Pesde && package.name@
            == s.name@,
        DependencySpecifiers::Wally(s) => package.source == SourceKind::Wally && package.name@
            == s.name@,
        DependencySpecifiers::Git(_) => package.source == SourceKind::Git,
        DependencySpecifiers::Workspace(s) => package.source == SourceKind::Workspace
            && package.name@ == s.name@,
    }
}

/// The position of the first package, from `from` on, that the
/// dependency names.
pub open spec fn first_package(
    snapshot: Seq<SourcePackage>,
    specifier: DependencySpecifiers,
    location: Option<Seq<char>>,
    from: int,
) -> Option<int>
    decreases snapshot.len() - from,
{
    if from < 0 || from >= snapshot.len() {
        None
    } else if package_matches(snapshot[from], specifier, location) {
        Some(from)
    } else {
        first_package(snapshot, specifier, location, from + 1)
    }
}

/// Whether the release `id` satisfies the dependency for a consumer of
/// kind `consumer`: its version is admitted, and its kind is the one that
/// is asked for or, where none is, one that the consumer may depend on.
pub open spec fn candidate_spec(
    specifier: DependencySpecifiers,
    id: VersionId,
    consumer: TargetKind,
) -> bool {
    match specifier {
        DependencySpecifiers::Pesde(s) => s.version.admits(id.version@) && match s.target {
            Some(kind) => kind == id.target,
            None => consumer.compatible_spec(id.target),
        },
        DependencySpecifiers::Wally(s) => s.version.admits(id.version@) && consumer.compatible_spec(
            id.target,
        ),
        DependencySpecifiers::Git(_) => consumer.compatible_spec(id.target),
        DependencySpecifiers::Workspace(s) => (match s.version {
            VersionTypeOrReq::Req(req) => req.admits(id.version@),
            VersionTypeOrReq::VersionType(_) => true,
        }) && match s.target {
            Some(kind) => kind == id.target,
            None => consumer.compatible_spec(id.target),
        },
    }
}

/// Whether release `a` is to be preferred to release `b` by a consumer of
/// kind `consumer`: it has the later version; or the same version and the
/// consumer's own kind, which `b` has not; or the same version and a kind
/// that ranks before that of `b`, where both or neither have the
/// consumer's kind.
pub open spec fn preferred(a: VersionId, b: VersionId, consumer: TargetKind) -> bool {
    b.version.precedes_spec(a.version) || (a.version@ == b.version@ && (((a.target == consumer)
        && !(b.target == consumer)) || (((a.target == consumer) == (b.target == consumer))
        && a.target.rank_spec() < b.target.rank_spec())))
}

/// The position of the release that is picked among the first `upto`:
/// of those that satisfy the dependency the one that is preferred to all
/// others.
pub open spec fn pick_spec(
    releases: Seq<Release>,
    specifier: DependencySpecifiers,
    consumer: TargetKind,
    upto: int,
) -> Option<int>
    decreases upto,
{
    if upto <= 0 {
        None
    } else {
        let before = pick_spec(releases, specifier, consumer, upto - 1);
        let here = releases[upto - 1].id_spec();
        if candidate_spec(specifier, here, consumer) && (before is None || preferred(
            here,
            releases[before->0].id_spec(),
            consumer,
        )) {
            Some(upto - 1)
        } else {
            before
        }
    }
}

/// The kind of the consumer of a dependency: that of the node that
/// declares it, or that of the project.
pub open spec fn consumer_kind_spec(ctx: Context, nodes: Seq<NodeView>, item: WorkItem) -> TargetKind {
    match item.consumer {
        Some(c) => nodes[c as int].id.target,
        None => ctx.root,
    }
}

/// How a dependency counts: as it is declared if the project or a node
/// that is needed outside of development declares it, and as a dev
/// dependency if a dev dependency declares it.
pub open spec fn effective_type_spec(nodes: Seq<NodeView>, item: WorkItem) -> DependencyType {
    match item.consumer {
        Some(c) => if nodes[c as int].ty == DependencyType::Dev {
            DependencyType::Dev
        } else {
            item.ty
        },
        None => item.ty,
    }
}

/// The keys of the nodes, in order.
pub open spec fn node_keys(nodes: Seq<NodeView>) -> Seq<((Seq<char>, Seq<char>), VersionIdView)> {
    nodes.map_values(|n: NodeView| (n.name@, n.id@))
}

/// Whether a release of `name` for the kind of `id`, at another version,
/// is among the nodes that are needed outside of development.
pub open spec fn conflicts_spec(nodes: Seq<NodeView>, name: (Seq<char>, Seq<char>), id: VersionId) -> bool {
    exists|m: int|
        0 <= m < nodes.len() && (#[trigger] nodes[m]).name@ == name && nodes[m].id.target
            == id.target && nodes[m].id.version@ != id.version@ && nodes[m].ty != DependencyType::Dev
}

/// The test that keeps the normal dependencies: a release brings neither
/// its dev dependencies, which only its own development needs, nor its
/// peer dependencies, which its consumers provide.
pub open spec fn is_normal() -> spec_fn(DeclaredDependency) -> bool {
    |d: DeclaredDependency| d.ty == DependencyType::Normal
}

/// The work item for a dependency that the node at `consumer` declares.
pub open spec fn item_of(consumer: usize) -> spec_fn(DeclaredDependency) -> WorkItem {
    |d: DeclaredDependency|
        WorkItem { consumer: Some(consumer), specifier: d.specifier, alias: d.alias, ty: d.ty }
}

/// The work that a new node at `consumer` brings: its normal
/// dependencies.
pub open spec fn items_spec(declared: Seq<DeclaredDependency>, consumer: usize) -> Seq<WorkItem> {
    declared.filter(is_normal()).map_values(item_of(consumer))
}

/// The nodes with `edge` added to the node at `at`.
pub open spec fn with_edge_at(nodes: Seq<NodeView>, at: int, edge: Edge) -> Seq<NodeView> {
    nodes.update(at, NodeView { edges: nodes[at].edges.push(edge), ..nodes[at] })
}

/// The nodes with `edge` added to the node of the consumer, if the
/// consumer is a node.
pub open spec fn with_edge(nodes: Seq<NodeView>, consumer: Option<usize>, edge: Edge) -> Seq<
    NodeView,
> {
    match consumer {
        Some(c) => with_edge_at(nodes, c as int, edge),
        None => nodes,
    }
}

/// A node after it was reached once more: it is direct if it was, or if
/// the project itself reaches it now; and it counts as it did, unless it
/// was a dev dependency, which takes the new type.
pub open spec fn merged_spec(node: NodeView, item: WorkItem, ty: DependencyType) -> NodeView {
    NodeView {
        direct: if node.direct is None && item.consumer is None {
            Some(item.alias)
        } else {
            node.direct
        },
        ty: if node.ty == DependencyType::Dev {
            ty
        } else {
            node.ty
        },
        ..node
    }
}

/// What resolving the first dependency of the queue gives: the next
/// state, or the error that ends the resolution.
pub open spec fn step_spec(ctx: Context, s: StateView) -> Result<StateView, GraphErrorView> {
    let item = s.queue[0];
    let consumer = consumer_kind_spec(ctx, s.nodes, item);
    let ty = effective_type_spec(s.nodes, item);
    match location_spec(ctx, item) {
        Err(e) => Err(e),
        Ok(location) => match first_package(ctx.snapshot, item.specifier, location, 0) {
            None => Err(missing_spec(item)),
            Some(p) => {
                let package = ctx.snapshot[p];
                match pick_spec(
                    package.releases@,
                    item.specifier,
                    consumer,
                    package.releases@.len() as int,
                ) {
                    None => Err(missing_spec(item)),
                    Some(r) => {
                        let release = package.releases@[r];
                        let edge = Edge {
                            name: package.name,
                            version_id: release.id_spec(),
                            alias: item.alias,
                        };
                        match node_keys(s.nodes).index_of_first((package.name@, release.id_spec()@)) {
                            Some(n) => if s.nodes[n].ty == DependencyType::Dev && ty
                                != DependencyType::Dev && conflicts_spec(
                                s.nodes,
                                package.name@,
                                release.id_spec(),
                            ) {
                                Err(GraphErrorView::Conflict(package.name.text_spec()))
                            } else {
                                Ok(
                                    StateView {
                                        nodes: with_edge(
                                            s.nodes.update(n, merged_spec(s.nodes[n], item, ty)),
                                            item.consumer,
                                            edge,
                                        ),
                                        queue: s.queue.skip(1),
                                    },
                                )
                            },
                            None => if ty != DependencyType::Dev && conflicts_spec(
                                s.nodes,
                                package.name@,
                                release.id_spec(),
                            ) {
                                Err(GraphErrorView::Conflict(package.name.text_spec()))
                            } else {
                                Ok(
                                    StateView {
                                        nodes: with_edge(
                                            s.nodes.push(
                                                NodeView {
                                                    name: package.name,
                                                    id: release.id_spec(),
                                                    direct: if item.consumer is None {
                                                        Some(item.alias)
                                                    } else {
                                                        None
                                                    },
                                                    ty,
                                                    source: package.source,
                                                    location: package.location,
                                                    target: release.target@,
                                                    edges: Seq::empty(),
                                                    declared: release.dependencies@,
                                                },
                                            ),
                                            item.consumer,
                                            edge,
                                        ),
                                        queue: s.queue.skip(1) + items_spec(
                                            release.dependencies@,
                                            s.nodes.len() as usize,
                                        ),
                                    },
                                )
                            },
                        }
                    },
                }
            },
        },
    }
}

/// Whether the resolution has ended: with an error, or with nothing left
/// to resolve.
pub open spec fn is_final(outcome: Result<StateView, GraphErrorView>) -> bool {
    match outcome {
        Ok(s) => s.queue.len() == 0,
        Err(_) => true,
    }
}

/// Where the resolution stands after at most `steps` steps from `start`.
/// Once it has ended, further steps change nothing.
pub open spec fn run_spec(ctx: Context, start: StateView, steps: nat) -> Result<
    StateView,
    GraphErrorView,
>
    decreases steps,
{
    if steps == 0 {
        Ok(start)
    } else {
        match run_spec(ctx, start, (steps - 1) as nat) {
            Err(e) => Err(e),
            Ok(s) => if s.queue.len() == 0 {
                Ok(s)
            } else {
                step_spec(ctx, s)
            },
        }
    }
}

/// Whether the resolution that starts at `start` ends with `outcome`.
pub open spec fn reaches(
    ctx: Context,
    start: StateView,
    outcome: Result<StateView, GraphErrorView>,
) -> bool {
    is_final(outcome) && exists|steps: nat| run_spec(ctx, start, steps) == outcome
}

/// Whether the kind `kind` of a release is what the dependency allows a
/// consumer of kind `consumer`: the kind that is asked for or, where none
/// is, one that the consumer may depend on.
pub open spec fn kind_fits_spec(
    specifier: DependencySpecifiers,
    kind: TargetKind,
    consumer: TargetKind,
) -> bool {
    match specifier {
        DependencySpecifiers::Pesde(s) => match s.target {
            Some(wanted) => wanted == kind,
            None => consumer.compatible_spec(kind),
        },
        DependencySpecifiers::Workspace(s) => match s.target {
            Some(wanted) => wanted == kind,
            None => consumer.compatible_spec(kind),
        },
        _ => consumer.compatible_spec(kind),
    }
}

/// How many releases were not taken into the graph yet.
pub open spec fn free_count(rows: Seq<Vec<bool>>) -> nat
    decreases rows.len(),
{
    if rows.len() == 0 {
        0
    } else {
        free_count(rows.drop_last()) + free_in(rows.last()@)
    }
}

/// The work item for a dependency of the project itself that counts as
/// `ty`.
pub open spec fn root_item(ty: DependencyType) -> spec_fn(Dependency) -> WorkItem {
    |d: Dependency| WorkItem { consumer: None, specifier: d.specifier, alias: d.alias, ty }
}

/// The work that the project itself brings first: its normal
/// dependencies, then its peer dependencies.
pub open spec fn first_items(manifest: Manifest) -> Seq<WorkItem> {
    manifest.dependencies@.map_values(root_item(DependencyType::Normal))
        + manifest.peer_dependencies@.map_values(root_item(DependencyType::Peer))
}

/// The work that the project itself brings last: its dev dependencies.
pub open spec fn dev_items(manifest: Manifest) -> Seq<WorkItem> {
    manifest.dev_dependencies@.map_values(root_item(DependencyType::Dev))
}

/// Whether expanding the dependencies of `manifest` ends with `outcome`.
/// What the project needs outside of development is resolved first, from
/// an empty graph, until nothing is left to resolve; then the dev
/// dependencies are resolved into the same graph.
pub open spec fn expanded_spec(
    ctx: Context,
    manifest: Manifest,
    outcome: Result<Seq<NodeView>, GraphErrorView>,
) -> bool {
    let first = StateView { nodes: Seq::empty(), queue: first_items(manifest) };
    match outcome {
        Ok(nodes) => exists|mid: StateView|
            #![trigger reaches(ctx, first, Ok(mid))]
            reaches(ctx, first, Ok(mid)) && reaches(
                ctx,
                StateView { nodes: mid.nodes, queue: dev_items(manifest) },
                Ok(StateView { nodes, queue: Seq::empty() }),
            ),
        Err(e) => reaches(ctx, first, Err(e)) || exists|mid: StateView|
            #![trigger reaches(ctx, first, Ok(mid))]
            reaches(ctx, first, Ok(mid)) && reaches(
                ctx,
                StateView { nodes: mid.nodes, queue: dev_items(manifest) },
                Err(e),
            ),
    }
}

/// Whether no two nodes that are needed outside of development are two
/// versions of one package, built for one kind.
pub open spec fn no_conflict(nodes: Seq<NodeView>) -> bool {
    forall|i: int, j: int|
        0 <= i < nodes.len() && 0 <= j < nodes.len() && (#[trigger] nodes[i]).ty
            != DependencyType::Dev && (#[trigger] nodes[j]).ty != DependencyType::Dev
            && nodes[i].name@ == nodes[j].name@ && nodes[i].id.target == nodes[j].id.target
            ==> nodes[i].id.version@ == nodes[j].id.version@
}

/// Whether a state of the resolution is in order: each release is a node
/// once, no two nodes are in conflict, every edge ends at a node, and
/// every waiting dependency is declared by the project or by a node.
pub open spec fn state_ok(s: StateView) -> bool {
    &&& node_keys(s.nodes).no_duplicates()
    &&& no_conflict(s.nodes)
    &&& forall|i: int| 0 <= i < s.nodes.len() ==> (#[trigger] s.nodes[i]).target.kind == s.nodes[i].id.target
    &&& forall|i: int, j: int|
        0 <= i < s.nodes.len() && 0 <= j < s.nodes[i].edges.len() ==> node_keys(s.nodes).contains(
            ((#[trigger] s.nodes[i].edges[j]).name@, s.nodes[i].edges[j].version_id@),
        )
    &&& forall|q: int|
        0 <= q < s.queue.len() ==> ((#[trigger] s.queue[q]).consumer matches Some(c) ==> c
            < s.nodes.len())
}

/// Whether the edge `edge` of `node` is justified: the node declares a
/// dependency under the alias of the edge, and the release at the end of
/// the edge satisfies it for a consumer of the node's kind.
pub open spec fn edge_justified(node: NodeView, edge: Edge) -> bool {
    exists|k: int|
        0 <= k < node.declared.len() && (#[trigger] node.declared[k]).alias == edge.alias
            && candidate_spec(node.declared[k].specifier, edge.version_id, node.id.target)
}

/// Whether the direct node `node` is justified: the project has a
/// dependency under the alias of the node, and the node's release
/// satisfies it for a consumer of the project's kind.
pub open spec fn direct_justified(ctx: Context, roots: Seq<WorkItem>, node: NodeView) -> bool {
    node.direct matches Some(alias) ==> exists|k: int|
        0 <= k < roots.len() && (#[trigger] roots[k]).alias == alias && candidate_spec(
            roots[k].specifier,
            node.id,
            ctx.root,
        )
}

/// Whether a waiting dependency is one that its consumer declares.
pub open spec fn item_declared(nodes: Seq<NodeView>, roots: Seq<WorkItem>, item: WorkItem) -> bool {
    match item.consumer {
        Some(c) => nodes[c as int].declared.contains(
            DeclaredDependency { alias: item.alias, specifier: item.specifier, ty: item.ty },
        ),
        None => roots.contains(item),
    }
}

/// Whether every edge and every direct node of a state is justified, and
/// every waiting dependency declared.
pub open spec fn state_sound(ctx: Context, roots: Seq<WorkItem>, s: StateView) -> bool {
    &&& forall|i: int, j: int|
        0 <= i < s.nodes.len() && 0 <= j < s.nodes[i].edges.len() ==> edge_justified(
            s.nodes[i],
            #[trigger] s.nodes[i].edges[j],
        )
    &&& forall|i: int| 0 <= i < s.nodes.len() ==> direct_justified(ctx, roots, #[trigger] s.nodes[i])
    &&& forall|q: int| 0 <= q < s.queue.len() ==> item_declared(s.nodes, roots, #[trigger] s.queue[q])
}

/// Whether a dependency leaves the kind of its release to the consumer,
/// or asks for a Roblox kind.
pub open spec fn asks_no_foreign_kind(specifier: DependencySpecifiers) -> bool {
    match specifier {
        DependencySpecifiers::Pesde(s) => s.target matches Some(kind) ==> kind.is_roblox_spec(),
        DependencySpecifiers::Workspace(s) => s.target matches Some(kind) ==> kind.is_roblox_spec(),
        _ => true,
    }
}

/// Whether no dependency that a release of the snapshot declares asks for
/// a kind that is not a Roblox kind.
pub open spec fn snapshot_asks_no_foreign_kind(snapshot: Seq<SourcePackage>) -> bool {
    forall|p: int, r: int, k: int|
        0 <= p < snapshot.len() && 0 <= r < snapshot[p].releases@.len() && 0 <= k
            < snapshot[p].releases@[r].dependencies@.len() ==> asks_no_foreign_kind(
            (#[trigger] snapshot[p].releases@[r].dependencies@[k]).specifier,
        )
}

/// Whether every node that is needed outside of development is built for
/// Roblox, and no waiting dependency asks for another kind.
pub open spec fn state_roblox(s: StateView) -> bool {
    &&& forall|i: int|
        0 <= i < s.nodes.len() && (#[trigger] s.nodes[i]).ty != DependencyType::Dev
            ==> s.nodes[i].id.target.is_roblox_spec()
    &&& forall|q: int| 0 <= q < s.queue.len() ==> asks_no_foreign_kind((#[trigger] s.queue[q]).specifier)
}

/// Whether `node` is a release of what the dependency names: it comes
/// from the kind of source that the specifier is for, from the location
/// that the specifier gives, where it gives one, and, but for git, has the
/// name.
pub open spec fn provides(node: NodeView, specifier: DependencySpecifiers) -> bool {
    match specifier {
        DependencySpecifiers::Pesde(s) => node.source == SourceKind::Pesde && node.name@
            == s.name@ && match s.index {
            Some(url) => node.location@ == url@,
            None => true,
        },
        DependencySpecifiers::Wally(s) => node.source == SourceKind::Wally && node.name@
            == s.name@ && match s.index {
            Some(url) => node.location@ == url@,
            None => true,
        },
        DependencySpecifiers::Git(s) => node.source == SourceKind::Git && node.location@
            == git_location_spec(s.repo@, s.rev@, s.path),
        DependencySpecifiers::Workspace(s) => node.source == SourceKind::Workspace && node.name@
            == s.name@,
    }
}

/// The position of the node, among the first `upto`, that provides a peer
/// dependency to a consumer of kind `consumer`: of the nodes that are
/// releases of what the dependency names and satisfy it, the one that is
/// preferred to all others.
pub open spec fn provider_spec(
    nodes: Seq<NodeView>,
    specifier: DependencySpecifiers,
    consumer: TargetKind,
    upto: int,
) -> Option<int>
    decreases upto,
{
    if upto <= 0 {
        None
    } else {
        let before = provider_spec(nodes, specifier, consumer, upto - 1);
        let here = nodes[upto - 1];
        if provides(here, specifier) && candidate_spec(specifier, here.id, consumer) && (before
            is None || preferred(here.id, nodes[before->0].id, consumer)) {
            Some(upto - 1)
        } else {
            before
        }
    }
}

/// The graph after the declared dependency `k` of the node at `at` was
/// looked at: a peer dependency becomes an edge to the node that provides
/// it, and fails where no node does; any other dependency changes
/// nothing.
pub open spec fn peer_edge_spec(nodes: Seq<NodeView>, at: int, k: int) -> Result<
    Seq<NodeView>,
    GraphErrorView,
> {
    let declared = nodes[at].declared[k];
    if declared.ty != DependencyType::Peer {
        Ok(nodes)
    } else {
        match provider_spec(nodes, declared.specifier, nodes[at].id.target, nodes.len() as int) {
            None => Err(GraphErrorView::UnsatisfiedPeer(label_spec(declared.specifier))),
            Some(q) => Ok(
                with_edge_at(
                    nodes,
                    at,
                    Edge { name: nodes[q].name, version_id: nodes[q].id, alias: declared.alias },
                ),
            ),
        }
    }
}

/// The graph after the first `upto` declared dependencies of the node at
/// `at` were looked at.
pub open spec fn node_peers_spec(nodes: Seq<NodeView>, at: int, upto: int) -> Result<
    Seq<NodeView>,
    GraphErrorView,
>
    decreases upto,
{
    if upto <= 0 {
        Ok(nodes)
    } else {
        match node_peers_spec(nodes, at, upto - 1) {
            Err(e) => Err(e),
            Ok(before) => peer_edge_spec(before, at, upto - 1),
        }
    }
}

/// The graph after the peer dependencies of its first `upto` nodes were
/// given their edges, node by node and, within a node, in the order in
/// which they are declared.
pub open spec fn peers_spec(nodes: Seq<NodeView>, upto: int) -> Result<Seq<NodeView>, GraphErrorView>
    decreases upto,
{
    if upto <= 0 {
        Ok(nodes)
    } else {
        match peers_spec(nodes, upto - 1) {
            Err(e) => Err(e),
            Ok(before) => node_peers_spec(
                before,
                upto - 1,
                before[upto - 1].declared.len() as int,
            ),
        }
    }
}

/// Whether resolving the dependencies of `manifest` ends with `outcome`:
/// the dependencies are expanded into a graph, then every peer
/// dependency of a node of that graph is given an edge to the node that
/// provides it, and the graph that comes of it is refused if it has a
/// cycle.
pub open spec fn resolved_spec(
    ctx: Context,
    manifest: Manifest,
    outcome: Result<Seq<NodeView>, GraphErrorView>,
) -> bool {
    exists|expanded: Result<Seq<NodeView>, GraphErrorView>|
        #![trigger expanded_spec(ctx, manifest, expanded)]
        expanded_spec(ctx, manifest, expanded) && outcome == match expanded {
            Err(e) => Err(e),
            Ok(nodes) => checked_spec(peers_spec(nodes, nodes.len() as int)),
        }
}

/// Whether edge `k` of node `i` ends at node `j`.
pub open spec fn edge_ends_at(nodes: Seq<NodeView>, i: int, k: int, j: int) -> bool {
    &&& 0 <= i < nodes.len()
    &&& 0 <= k < nodes[i].edges.len()
    &&& 0 <= j < nodes.len()
    &&& node_keys(nodes)[j] == (nodes[i].edges[k].name@, nodes[i].edges[k].version_id@)
}

/// Whether the graph has no cycle: its nodes can be ranked so that every
/// edge leads to a node of lower rank.
pub open spec fn has_no_cycle(nodes: Seq<NodeView>) -> bool {
    exists|rank: Seq<nat>|
        #![trigger rank.len()]
        rank.len() == nodes.len() && forall|i: int, k: int, j: int| #[trigger]
            edge_ends_at(nodes, i, k, j) ==> rank[j] < rank[i]
}

/// How a resolution ends once the peer dependencies have their edges: a
/// graph with a cycle is refused.
pub open spec fn checked_spec(peers: Result<Seq<NodeView>, GraphErrorView>) -> Result<
    Seq<NodeView>,
    GraphErrorView,
> {
    match peers {
        Err(e) => Err(e),
        Ok(nodes) => if has_no_cycle(nodes) {
            Ok(nodes)
        } else {
            Err(GraphErrorView::Cycle)
        },
    }
}

/// Whether two graphs have the same nodes, but for the edges of the nodes.
pub open spec fn same_but_edges(a: Seq<NodeView>, b: Seq<NodeView>) -> bool {
    a.len() == b.len() && forall|i: int|
        0 <= i < a.len() ==> (#[trigger] b[i]).name == a[i].name && b[i].id == a[i].id
            && b[i].direct == a[i].direct && b[i].ty == a[i].ty && b[i].source == a[i].source
            && b[i].location == a[i].location && b[i].target == a[i].target && b[i].declared
            == a[i].declared
}

/// Whether every edge of a graph ends at a node of the graph and is
/// justified by a dependency that its node declares.
pub open spec fn edges_ok(nodes: Seq<NodeView>) -> bool {
    forall|i: int, j: int|
        0 <= i < nodes.len() && 0 <= j < nodes[i].edges.len() ==> node_keys(nodes).contains(
            ((#[trigger] nodes[i].edges[j]).name@, nodes[i].edges[j].version_id@),
        ) && edge_justified(nodes[i], nodes[i].edges[j])
}

} // verus!
