//! The dependency graph, as it is resolved and as it is locked.

use crate::manifest::target::{Target, TargetKind};
use crate::names::PackageName;
use crate::source::specifiers::{DependencySpecifiers, DependencyType};
use crate::source::version_id::{parts_are_apart, Version, VersionId, VersionIdView, VersionView};
use crate::text::{
    concat3, text_before, text_order_is_irreflexive, text_order_is_total, text_order_is_transitive,
    text_precedes,
};
use vstd::prelude::*;
use vstd::string::*;

verus! {

/// The kind of source a package came from.
#[derive(Debug, Clone, Copy, PartialEq, Eq, Structural, Hash)]
pub enum SourceKind {
    /// The registry.
    Pesde,
    /// A Wally registry.
    Wally,
    /// A git repository.
    Git,
    /// The workspace the project belongs to.
    Workspace,
}

/// A dependency that a release declares.
#[derive(Debug)]
pub struct DeclaredDependency {
    /// The name under which the release requires the package.
    pub alias: String,
    /// What is depended on.
    pub specifier: DependencySpecifiers,
    /// How it is depended on.
    pub ty: DependencyType,
}

/// What a source needs to know to fetch one release.
#[derive(Debug)]
pub struct PackageRef {
    /// The kind of source the release came from.
    pub source: SourceKind,
    /// Where the source lives: the URL of an index or of a repository, or
    /// the path of a workspace member.
    pub location: String,
    /// What the release is built for, as its source records it.
    pub target: Target,
    /// The dependencies that the release declares.
    pub dependencies: Vec<DeclaredDependency>,
}

impl PackageRef {
    /// Whether the release is laid out as Wally lays packages out.
    pub open spec fn like_wally_spec(self) -> bool {
        self.source == SourceKind::Wally
    }

    /// Whether the release is laid out as Wally lays packages out.
    pub fn like_wally(&self) -> (r: bool)
        ensures
            r == self.like_wally_spec(),
    {
        match self.source {
            SourceKind::Wally => true,
            _ => false,
        }
    }

    /// Whether the dependencies of the release are its siblings in the
    /// packages folder; otherwise they are linked into the directory above
    /// its container, as Wally does.
    pub fn use_new_structure(&self) -> (r: bool)
        ensures
            r == !self.like_wally_spec(),
    {
        !self.like_wally()
    }

    /// The kind the release is built for.
    pub fn target_kind(&self) -> (r: TargetKind)
        ensures
            r == self.target.kind_spec(),
    {
        self.target.kind()
    }
}

/// A dependency of a node on another node of the graph.
#[derive(Debug)]
pub struct Edge {
    /// The name of the package depended on.
    pub name: PackageName,
    /// The release depended on.
    pub version_id: VersionId,
    /// The name under which the node requires it.
    pub alias: String,
}

/// What the graph knows of one release.
#[derive(Debug)]
pub struct DependencyGraphNode {
    /// The alias under which the root depends on the release, if it does.
    pub direct: Option<String>,
    /// How to fetch the release.
    pub pkg_ref: PackageRef,
    /// The releases that this one depends on.
    pub dependencies: Vec<Edge>,
    /// How the release is depended on.
    pub ty: DependencyType,
}

/// The key of a node: the package's scope and name and its release.
pub type NodeKey = ((Seq<char>, Seq<char>), VersionIdView);

/// The relative path of the directory that holds one release:
/// `base/scope+name/version`.
pub open spec fn container_folder_spec(base: Seq<char>, name: PackageName, version: VersionView) -> Seq<
    char,
> {
    base + "/"@ + name.escaped_spec() + "/"@ + version.text_spec()
}

/// Every release has a container of its own: below one directory, two
/// releases of well-formed names share a container only if they are the
/// same package at the same version. The pre-release parts of the
/// versions must hold no `+`.
pub proof fn containers_are_unique(
    base: Seq<char>,
    name_a: PackageName,
    version_a: VersionView,
    name_b: PackageName,
    version_b: VersionView,
)
    requires
        name_a.well_formed(),
        name_b.well_formed(),
        parts_are_apart(version_a),
        parts_are_apart(version_b),
        container_folder_spec(base, name_a, version_a) == container_folder_spec(
            base,
            name_b,
            version_b,
        ),
    ensures
        name_a@ == name_b@,
        version_a == version_b,
{
    reveal_strlit("/");
    reveal_strlit("+");
    assert("/"@ =~= seq!['/']);
    let slash = seq!['/'];
    let (ea, eb) = (name_a.escaped_spec(), name_b.escaped_spec());
    let (ta, tb) = (version_a.text_spec(), version_b.text_spec());
    let x = container_folder_spec(base, name_a, version_a);
    let y = container_folder_spec(base, name_b, version_b);
    let skip = (base.len() + 1) as int;
    assert(x.skip(skip) =~= ea + slash + ta);
    assert(y.skip(skip) =~= eb + slash + tb);
    assert forall|i: int| 0 <= i < ea.len() implies ea[i] != '/' by {
        let m = name_a.scope@.len() as int;
        if i < m {
            assert(ea[i] == name_a.scope@[i]);
        } else if i > m {
            assert(ea[i] == name_a.name@[i - m - 1]);
        }
    }
    assert forall|i: int| 0 <= i < eb.len() implies eb[i] != '/' by {
        let m = name_b.scope@.len() as int;
        if i < m {
            assert(eb[i] == name_b.scope@[i]);
        } else if i > m {
            assert(eb[i] == name_b.name@[i - m - 1]);
        }
    }
    crate::text::split_is_unique(ea, ta, eb, tb, '/');
    crate::names::escaped_determines_name(name_a, name_b);
    crate::source::version_id::text_determines_version(version_a, version_b);
}

impl DependencyGraphNode {
    /// The directory, relative to the container of this release, into
    /// which the shims of its dependencies of kind `dependency` go.
    pub open spec fn base_folder_spec(self, dependency: TargetKind) -> Seq<char> {
        if self.pkg_ref.like_wally_spec() {
            ".."@
        } else {
            self.pkg_ref.target.kind_spec().packages_folder_spec(dependency)
        }
    }

    /// The directory, relative to the container of this release, into
    /// which the shims of its dependencies of kind `dependency` go.
    pub fn base_folder(&self, dependency: TargetKind) -> (r: String)
        ensures
            r@ == self.base_folder_spec(dependency),
    {
        if self.pkg_ref.use_new_structure() {
            self.pkg_ref.target_kind().packages_folder(&dependency)
        } else {
            String::from_str("..")
        }
    }

    /// The directory that holds the release `name` at `version` below
    /// `base`.
    pub fn container_folder(&self, base: &str, name: &PackageName, version: &Version) -> (r: String)
        ensures
            r@ == container_folder_spec(base@, *name, version@),
    {
        let escaped = name.escaped();
        let version = version.text();
        let upper = concat3(base, "/", escaped.as_str());
        concat3(upper.as_str(), "/", version.as_str())
    }
}

/// A node of the resolved graph under its key.
#[derive(Debug)]
pub struct GraphEntry {
    /// The name of the package.
    pub name: PackageName,
    /// The release.
    pub version_id: VersionId,
    /// What the graph knows of it.
    pub node: DependencyGraphNode,
}

impl GraphEntry {
    /// The key of the entry.
    pub open spec fn key(self) -> NodeKey {
        (self.name@, self.version_id@)
    }
}

/// The resolved dependencies of a project.
#[derive(Debug)]
pub struct DependencyGraph {
    /// The nodes, in the order in which they were found.
    pub entries: Vec<GraphEntry>,
}

impl DependencyGraph {
    /// The keys of the nodes, in order.
    pub open spec fn keys(self) -> Seq<NodeKey> {
        self.entries@.map_values(|e: GraphEntry| e.key())
    }

    /// Whether each release occurs once, is built for the kind that its
    /// source records, and every edge ends at a node.
    pub open spec fn well_formed(self) -> bool {
        &&& self.keys().no_duplicates()
        &&& forall|i: int|
            0 <= i < self.entries@.len() ==> (#[trigger] self.entries@[i]).node.pkg_ref.target.kind_spec()
                == self.entries@[i].version_id.target
        &&& forall|i: int, j: int|
            0 <= i < self.entries@.len() && 0 <= j < self.entries@[i].node.dependencies@.len()
                ==> self.keys().contains(
                (
                    (#[trigger] self.entries@[i].node.dependencies@[j]).name@,
                    self.entries@[i].node.dependencies@[j].version_id@,
                ),
            )
    }

    /// The position of the node with the given key, if the graph has one.
    pub fn position(&self, name: &PackageName, version_id: &VersionId) -> (r: Option<usize>)
        ensures
            match r {
                Some(at) => at < self.entries@.len() && self.keys()[at as int] == (
                    name@,
                    version_id@,
                ) && forall|k: int| 0 <= k < at ==> self.keys()[k] != (name@, version_id@),
                None => !self.keys().contains((name@, version_id@)),
            },
    {
        let mut i: usize = 0;
        while i < self.entries.len()
            invariant
                i <= self.entries@.len(),
                forall|k: int| 0 <= k < i ==> self.keys()[k] != (name@, version_id@),
            decreases self.entries@.len() - i,
        {
            let entry = &self.entries[i];
            if entry.name.same_as(name) && entry.version_id.same_as(version_id) {
                assert(self.keys()[i as int] == (name@, version_id@));
                return Some(i);
            }
            assert(self.keys()[i as int] != (name@, version_id@));
            i += 1;
        }
        None
    }
}

/// A node of the graph, with what its package turned out to declare once
/// it was unpacked.
#[derive(Debug)]
pub struct DownloadedDependencyGraphNode {
    /// The node as it was resolved.
    pub node: DependencyGraphNode,
    /// The target that the unpacked package declares.
    pub target: Target,
}

/// A node of the downloaded graph under its key.
#[derive(Debug)]
pub struct DownloadedEntry {
    /// The name of the package.
    pub name: PackageName,
    /// The release.
    pub version_id: VersionId,
    /// What the graph knows of it.
    pub node: DownloadedDependencyGraphNode,
}

impl DownloadedEntry {
    /// The key of the entry.
    pub open spec fn key(self) -> NodeKey {
        (self.name@, self.version_id@)
    }
}

/// The dependencies of a project after they were fetched.
#[derive(Debug)]
pub struct DownloadedGraph {
    /// The nodes, in the order of their keys.
    pub entries: Vec<DownloadedEntry>,
}

/// Whether the key `a` comes before the key `b`: by the scope of the
/// package, then by its name, then by the version of the release as
/// versions are kept in order, then by the kind that it is built for.
pub open spec fn key_before(a: NodeKey, b: NodeKey) -> bool {
    if a.0.0 != b.0.0 {
        text_before(a.0.0, b.0.0)
    } else if a.0.1 != b.0.1 {
        text_before(a.0.1, b.0.1)
    } else if a.1.version != b.1.version {
        a.1.version.stands_before(b.1.version)
    } else {
        a.1.target.rank_spec() < b.1.target.rank_spec()
    }
}

/// Whether the keys stand in their order, each before all that follow.
pub open spec fn in_key_order(keys: Seq<NodeKey>) -> bool {
    forall|i: int, j: int| 0 <= i < j < keys.len() ==> key_before(#[trigger] keys[i], #[trigger] keys[j])
}

/// Whether the release `id` of the package `name` comes before the release
/// `other_id` of the package `other_name` in the order of keys.
pub fn key_precedes(
    name: &PackageName,
    id: &VersionId,
    other_name: &PackageName,
    other_id: &VersionId,
) -> (r: bool)
    ensures
        r == key_before((name@, id@), (other_name@, other_id@)),
{
    if name.scope != other_name.scope {
        text_precedes(name.scope.as_str(), other_name.scope.as_str())
    } else if name.name != other_name.name {
        text_precedes(name.name.as_str(), other_name.name.as_str())
    } else if !id.version.same_as(&other_id.version) {
        id.version.stands_before(&other_id.version)
    } else {
        id.target.rank() < other_id.target.rank()
    }
}

/// No key comes before itself.
pub proof fn key_order_is_irreflexive(a: NodeKey)
    ensures
        !key_before(a, a),
{
}

/// The order of keys is transitive.
pub proof fn key_order_is_transitive(a: NodeKey, b: NodeKey, c: NodeKey)
    requires
        key_before(a, b),
        key_before(b, c),
    ensures
        key_before(a, c),
{
    if a.0.0 != b.0.0 && b.0.0 != c.0.0 {
        text_order_is_transitive(a.0.0, b.0.0, c.0.0);
        text_order_is_irreflexive(a.0.0);
    } else if a.0.0 == b.0.0 && b.0.0 == c.0.0 && a.0.1 != b.0.1 && b.0.1 != c.0.1 {
        text_order_is_transitive(a.0.1, b.0.1, c.0.1);
        text_order_is_irreflexive(a.0.1);
    } else if a.0 == b.0 && b.0 == c.0 && a.1.version != b.1.version && b.1.version
        != c.1.version {
        crate::source::version_id::standing_is_transitive(a.1.version, b.1.version, c.1.version);
        crate::source::version_id::standing_is_irreflexive(a.1.version);
    }
}

/// Of two different keys one comes before the other.
pub proof fn key_order_is_total(a: NodeKey, b: NodeKey)
    ensures
        a == b || key_before(a, b) || key_before(b, a),
{
    text_order_is_total(a.0.0, b.0.0);
    text_order_is_total(a.0.1, b.0.1);
    crate::source::version_id::standing_is_total(a.1.version, b.1.version);
}

/// Keys that stand in their order hold no key twice.
pub proof fn key_order_has_no_duplicates(keys: Seq<NodeKey>)
    requires
        in_key_order(keys),
    ensures
        keys.no_duplicates(),
{
    assert forall|i: int, j: int| 0 <= i < keys.len() && 0 <= j < keys.len() && i != j implies keys[i]
        != keys[j] by {
        if i < j {
            assert(key_before(keys[i], keys[j]));
        } else {
            assert(key_before(keys[j], keys[i]));
        }
    }
}

/// The order of a graph's nodes depends on nothing but the keys: two
/// lists that hold the same keys, each in the order of keys, are one
/// list. So a graph is the same in whatever order its nodes came in.
pub proof fn key_order_is_unique(a: Seq<NodeKey>, b: Seq<NodeKey>)
    requires
        in_key_order(a),
        in_key_order(b),
        forall|k: NodeKey| a.contains(k) <==> b.contains(k),
    ensures
        a == b,
    decreases a.len(),
{
    if a.len() == 0 {
        if b.len() > 0 {
            assert(b.contains(b[0]));
        }
        assert(a =~= b);
    } else {
        assert(a.contains(a.last()));
        let j = choose|j: int| 0 <= j < b.len() && b[j] == a.last();
        assert(b.contains(b.last()));
        let i = choose|i: int| 0 <= i < a.len() && a[i] == b.last();
        if i < a.len() - 1 {
            assert(key_before(a[i], a[a.len() - 1]));
            if j < b.len() - 1 {
                assert(key_before(b[j], b[b.len() - 1]));
                key_order_is_transitive(a[i], a.last(), b.last());
            }
        }
        assert(a.last() == b.last());
        let x = a.drop_last();
        let y = b.drop_last();
        assert forall|k: NodeKey| x.contains(k) <==> y.contains(k) by {
            if x.contains(k) {
                let n = choose|n: int| 0 <= n < x.len() && x[n] == k;
                assert(a[n] == k);
                assert(a.contains(k));
                let m = choose|m: int| 0 <= m < b.len() && b[m] == k;
                assert(key_before(a[n], a[a.len() - 1]));
                assert(y[m] == k);
            }
            if y.contains(k) {
                let m = choose|m: int| 0 <= m < y.len() && y[m] == k;
                assert(b[m] == k);
                assert(b.contains(k));
                let n = choose|n: int| 0 <= n < a.len() && a[n] == k;
                assert(key_before(b[m], b[b.len() - 1]));
                assert(x[n] == k);
            }
        }
        assert(in_key_order(x)) by {
            assert forall|p: int, q: int| 0 <= p < q < x.len() implies key_before(
                #[trigger] x[p],
                #[trigger] x[q],
            ) by {
                assert(key_before(a[p], a[q]));
            }
        }
        assert(in_key_order(y)) by {
            assert forall|p: int, q: int| 0 <= p < q < y.len() implies key_before(
                #[trigger] y[p],
                #[trigger] y[q],
            ) by {
                assert(key_before(b[p], b[q]));
            }
        }
        key_order_is_unique(x, y);
        assert(a =~= x.push(a.last()));
        assert(b =~= y.push(b.last()));
    }
}

/// The keys of the nodes, in order.
pub open spec fn entry_keys(entries: Seq<DownloadedEntry>) -> Seq<NodeKey> {
    entries.map_values(|e: DownloadedEntry| e.key())
}

impl DownloadedGraph {
    /// The keys of the nodes, in order.
    pub open spec fn keys(self) -> Seq<NodeKey> {
        entry_keys(self.entries@)
    }

    /// Whether the nodes stand in the order of their keys, and so each
    /// release once.
    pub open spec fn well_formed(self) -> bool {
        in_key_order(self.keys())
    }

    /// The position of the node with the given key, if the graph has one.
    pub fn position(&self, name: &PackageName, version_id: &VersionId) -> (r: Option<usize>)
        ensures
            match r {
                Some(at) => at < self.entries@.len() && self.keys()[at as int] == (
                    name@,
                    version_id@,
                ) && forall|k: int| 0 <= k < at ==> self.keys()[k] != (name@, version_id@),
                None => !self.keys().contains((name@, version_id@)),
            },
    {
        let mut i: usize = 0;
        while i < self.entries.len()
            invariant
                i <= self.entries@.len(),
                forall|k: int| 0 <= k < i ==> self.keys()[k] != (name@, version_id@),
            decreases self.entries@.len() - i,
        {
            let entry = &self.entries[i];
            if entry.name.same_as(name) && entry.version_id.same_as(version_id) {
                assert(self.keys()[i as int] == (name@, version_id@));
                return Some(i);
            }
            assert(self.keys()[i as int] != (name@, version_id@));
            i += 1;
        }
        None
    }
}

/// The digest of a manifest, by which a lockfile knows the manifest that
/// it was made from.
pub open spec fn manifest_digest_spec(manifest: Seq<char>) -> Seq<char> {
    crate::source::fs::sha256_hex(vstd::utf8::encode_utf8(manifest))
}

/// The digest of the text of a manifest.
pub fn manifest_digest(manifest: &str) -> (r: String)
    ensures
        r@ == manifest_digest_spec(manifest@),
{
    crate::source::fs::hash(manifest.as_bytes())
}

/// The fetched graph of a project as it is kept on disk, with the digest
/// of the manifest that it was made from.
#[derive(Debug)]
pub struct Lockfile {
    /// The digest of the manifest.
    pub manifest_digest: String,
    /// The graph.
    pub graph: DownloadedGraph,
}

impl Lockfile {
    /// The lockfile for `graph`, made from the manifest with the text
    /// `manifest`.
    pub fn new(manifest: &str, graph: DownloadedGraph) -> (r: Lockfile)
        ensures
            r.graph == graph,
            r.manifest_digest@ == manifest_digest_spec(manifest@),
    {
        Lockfile { manifest_digest: manifest_digest(manifest), graph }
    }

    /// Whether the lockfile was made from the manifest with the text
    /// `manifest`, so that nothing has to be resolved again.
    pub fn is_up_to_date(&self, manifest: &str) -> (r: bool)
        ensures
            r == (self.manifest_digest@ == manifest_digest_spec(manifest@)),
    {
        let digest = manifest_digest(manifest);
        self.manifest_digest == digest
    }
}

/// The lockfile, if there is one and it was made from the manifest with
/// the text `manifest`.
pub fn up_to_date_lockfile(lockfile: Option<Lockfile>, manifest: &str) -> (r: Option<Lockfile>)
    ensures
        r == match lockfile {
            Some(found) => if found.manifest_digest@ == manifest_digest_spec(manifest@) {
                Some(found)
            } else {
                None
            },
            None => None,
        },
{
    match lockfile {
        Some(found) => {
            if found.is_up_to_date(manifest) {
                Some(found)
            } else {
                None
            }
        },
        None => None,
    }
}

/// How many of the marks are not set.
pub open spec fn free_in(row: Seq<bool>) -> nat
    decreases row.len(),
{
    if row.len() == 0 {
        0
    } else {
        free_in(row.drop_last()) + if row.last() {
            0nat
        } else {
            1nat
        }
    }
}

/// Setting a mark that was not set leaves one fewer that is not set.
pub proof fn free_in_after_taking(row: Seq<bool>, at: int)
    requires
        0 <= at < row.len(),
        !row[at],
    ensures
        free_in(row.update(at, true)) + 1 == free_in(row),
    decreases row.len(),
{
    let after = row.update(at, true);
    if at == row.len() - 1 {
        assert(after.drop_last() == row.drop_last());
    } else {
        assert(after.drop_last() == row.drop_last().update(at, true));
        free_in_after_taking(row.drop_last(), at);
    }
}

/// Where no mark is unset, every mark is set.
pub proof fn none_free(row: Seq<bool>)
    requires
        free_in(row) == 0,
    ensures
        forall|i: int| 0 <= i < row.len() ==> row[i],
    decreases row.len(),
{
    if row.len() > 0 {
        none_free(row.drop_last());
        assert forall|i: int| 0 <= i < row.len() implies row[i] by {
            if i < row.len() - 1 {
                assert(row.drop_last()[i] == row[i]);
            }
        }
    }
}

/// Where a mark is unset, the number of unset marks is not zero.
pub proof fn some_free(row: Seq<bool>, at: int)
    requires
        0 <= at < row.len(),
        !row[at],
    ensures
        free_in(row) > 0,
    decreases row.len(),
{
    if at < row.len() - 1 {
        some_free(row.drop_last(), at);
    }
}

impl DependencyGraph {
    /// Whether edge `k` of node `i` ends at node `j`.
    pub open spec fn edge_to(self, i: int, k: int, j: int) -> bool {
        &&& 0 <= i < self.entries@.len()
        &&& 0 <= k < self.entries@[i].node.dependencies@.len()
        &&& 0 <= j < self.entries@.len()
        &&& self.keys()[j] == (
            self.entries@[i].node.dependencies@[k].name@,
            self.entries@[i].node.dependencies@[k].version_id@,
        )
    }

    /// Whether `rank` orders the nodes so that every edge leads to a node
    /// of lower rank.
    pub open spec fn ordered_by(self, rank: Seq<nat>) -> bool {
        rank.len() == self.entries@.len() && forall|i: int, k: int, j: int| #[trigger]
            self.edge_to(i, k, j) ==> rank[j] < rank[i]
    }

    /// Whether the graph has no cycle: its nodes can be ranked so that
    /// every edge leads to a node of lower rank.
    pub open spec fn acyclic(self) -> bool {
        exists|rank: Seq<nat>| self.ordered_by(rank)
    }

    /// Whether every edge of node `i` ends at nodes that are marked.
    pub open spec fn ready(self, marks: Seq<bool>, i: int) -> bool {
        forall|k: int, j: int| #[trigger] self.edge_to(i, k, j) ==> marks[j]
    }

    /// Whether every edge of node `i` ends at nodes that are marked.
    fn is_ready(&self, marks: &Vec<bool>, i: usize) -> (r: bool)
        requires
            i < self.entries@.len(),
            marks@.len() == self.entries@.len(),
        ensures
            r == self.ready(marks@, i as int),
    {
        let edges = &self.entries[i].node.dependencies;
        let mut k: usize = 0;
        while k < edges.len()
            invariant
                i < self.entries@.len(),
                marks@.len() == self.entries@.len(),
                edges == &self.entries@[i as int].node.dependencies,
                k <= edges@.len(),
                forall|a: int, j: int| a < k && #[trigger] self.edge_to(i as int, a, j) ==> marks@[j],
            decreases edges@.len() - k,
        {
            let mut j: usize = 0;
            while j < self.entries.len()
                invariant
                    i < self.entries@.len(),
                    marks@.len() == self.entries@.len(),
                    edges == &self.entries@[i as int].node.dependencies,
                    k < edges@.len(),
                    j <= self.entries@.len(),
                    forall|a: int, b: int|
                        a < k && #[trigger] self.edge_to(i as int, a, b) ==> marks@[b],
                    forall|b: int| b < j && #[trigger] self.edge_to(i as int, k as int, b) ==> marks@[b],
                decreases self.entries@.len() - j,
            {
                let other = &self.entries[j];
                if other.name.same_as(&edges[k].name) && other.version_id.same_as(&edges[k].version_id)
                    && !marks[j] {
                    assert(self.edge_to(i as int, k as int, j as int));
                    return false;
                }
                j += 1;
            }
            k += 1;
        }
        true
    }

    /// Whether the graph has no cycle.
    pub fn is_acyclic(&self) -> (r: bool)
        ensures
            r == self.acyclic(),
    {
        let n = self.entries.len();
        let mut marks: Vec<bool> = Vec::new();
        let mut remaining: usize = 0;
        while remaining < n
            invariant
                remaining <= n,
                marks@.len() == remaining,
                free_in(marks@) == remaining,
                forall|i: int| 0 <= i < remaining ==> !marks@[i],
            decreases n - remaining,
        {
            let ghost before = marks@;
            marks.push(false);
            proof {
                assert(marks@.drop_last() == before);
            }
            remaining += 1;
        }
        let ghost mut rank: Seq<nat> = Seq::new(n as nat, |i: int| 0nat);
        let ghost mut next: nat = 1;
        let mut progress = true;
        while progress
            invariant
                n == self.entries@.len(),
                marks@.len() == n,
                rank.len() == n,
                remaining == free_in(marks@),
                forall|i: int| 0 <= i < n && marks@[i] ==> rank[i] < next,
                forall|i: int, k: int, j: int|
                    marks@[i] && #[trigger] self.edge_to(i, k, j) ==> marks@[j] && rank[j]
                        < rank[i],
                !progress ==> forall|i: int|
                    0 <= i < n && !marks@[i] ==> !#[trigger] self.ready(marks@, i),
            decreases
                    remaining,
                    if progress {
                        1nat
                    } else {
                        0nat
                    },
        {
            progress = false;
            let ghost start = marks@;
            let mut i: usize = 0;
            while i < n
                invariant
                    n == self.entries@.len(),
                    marks@.len() == n,
                    rank.len() == n,
                    i <= n,
                    remaining == free_in(marks@),
                    forall|a: int| 0 <= a < n && marks@[a] ==> rank[a] < next,
                    forall|a: int, k: int, j: int|
                        marks@[a] && #[trigger] self.edge_to(a, k, j) ==> marks@[j] && rank[j]
                            < rank[a],
                    !progress ==> marks@ == start,
                    !progress ==> forall|a: int|
                        0 <= a < i && !marks@[a] ==> !#[trigger] self.ready(marks@, a),
                    progress ==> free_in(marks@) < free_in(start),
                decreases n - i,
            {
                if !marks[i] && self.is_ready(&marks, i) {
                    proof {
                        free_in_after_taking(marks@, i as int);
                        some_free(marks@, i as int);
                        assert forall|k: int, j: int| #[trigger]
                            self.edge_to(i as int, k, j) implies j != i by {
                            if j == i {
                                assert(marks@[j]);
                            }
                        }
                    }
                    marks.set(i, true);
                    remaining -= 1;
                    progress = true;
                    proof {
                        rank = rank.update(i as int, next);
                        next = next + 1;
                    }
                }
                i += 1;
            }
        }
        proof {
            if remaining == 0 {
                none_free(marks@);
                assert(self.ordered_by(rank));
            } else {
                if self.acyclic() {
                    let ranks = choose|ranks: Seq<nat>| self.ordered_by(ranks);
                    assert forall|i: int| 0 <= i < n implies marks@[i] by {
                        self.ranked_nodes_are_marked(marks@, ranks, i);
                    }
                    all_taken(marks@);
                }
            }
        }
        remaining == 0
    }

    /// Where every unmarked node has an edge to an unmarked node, and a
    /// ranking orders the graph, every node is marked: from an unmarked
    /// node one could go on to lower and lower ranks without end.
    proof fn ranked_nodes_are_marked(self, marks: Seq<bool>, rank: Seq<nat>, at: int)
        requires
            marks.len() == self.entries@.len(),
            self.ordered_by(rank),
            forall|i: int|
                0 <= i < self.entries@.len() && !marks[i] ==> !#[trigger] self.ready(marks, i),
            0 <= at < self.entries@.len(),
        ensures
            marks[at],
        decreases rank[at],
    {
        if !marks[at] {
            assert(!self.ready(marks, at));
            let (k, j) = choose|k: int, j: int| #[trigger] self.edge_to(at, k, j) && !marks[j];
            assert(rank[j] < rank[at]);
            self.ranked_nodes_are_marked(marks, rank, j);
        }
    }
}

/// Where every mark is set, none is unset.
pub proof fn all_taken(row: Seq<bool>)
    requires
        forall|i: int| 0 <= i < row.len() ==> row[i],
    ensures
        free_in(row) == 0,
    decreases row.len(),
{
    if row.len() > 0 {
        assert forall|i: int| 0 <= i < row.drop_last().len() implies row.drop_last()[i] by {
            assert(row.drop_last()[i] == row[i]);
        }
        all_taken(row.drop_last());
    }
}

} // verus!
