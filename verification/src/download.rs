//! Planning of package downloads: which sources to refresh, where each
//! package goes, and how the fetched packages are collected.

use crate::lockfile::{
    container_folder_spec, entry_keys, in_key_order, key_before, key_order_is_total, key_order_is_transitive,
    key_precedes, DependencyGraph, DownloadedDependencyGraphNode, DownloadedEntry, DownloadedGraph,
    GraphEntry, NodeKey, SourceKind,
};
use crate::lockfile::{DeclaredDependency, DependencyGraphNode, Edge, PackageRef, key_order_is_unique};
use crate::manifest::target::{Target, TargetKind};
use crate::names::PackageName;
use crate::source::version_id::VersionId;
use crate::text::{concat3, str_eq};
use crate::{Project, PACKAGES_CONTAINER_NAME};
use vstd::prelude::*;
use vstd::string::*;

verus! {

/// Why downloading a dependency graph failed.
#[derive(Debug, Clone, Copy, PartialEq, Eq, Structural)]
pub enum DownloadGraphError {
    /// The project manifest could not be read.
    ManifestDeserializationFailed,
    /// A package source could not be refreshed.
    RefreshFailed,
    /// The filesystem refused an operation.
    Io,
    /// A package could not be downloaded.
    DownloadFailed,
}

/// A source of packages: its kind and where it lives.
#[derive(Debug)]
pub struct PackageSources {
    /// The kind of the source.
    pub kind: SourceKind,
    /// The URL of its index or repository, or the path of the workspace
    /// member.
    pub location: String,
}

impl View for PackageSources {
    type V = (SourceKind, Seq<char>);

    open spec fn view(&self) -> (SourceKind, Seq<char>) {
        (self.kind, self.location@)
    }
}

/// What a list of sources holds.
pub open spec fn source_views(sources: Seq<PackageSources>) -> Seq<(SourceKind, Seq<char>)> {
    sources.map_values(|s: PackageSources| s@)
}

/// The source that the node of `entry` is fetched from.
pub open spec fn source_of(entry: GraphEntry) -> (SourceKind, Seq<char>) {
    (entry.node.pkg_ref.source, entry.node.pkg_ref.location@)
}

/// One package to fetch.
#[derive(Debug)]
pub struct DownloadTask {
    /// The position of the package's node in the graph.
    pub node: usize,
    /// The source to fetch it from.
    pub source: PackageSources,
    /// Whether the source has to be refreshed before this package is
    /// fetched.
    pub refresh: bool,
    /// The directory that the package is unpacked into.
    pub container_folder: String,
}

/// The directory that holds the release of `entry` for a project of kind
/// `root` in the directory `package_dir`:
/// `package_dir/<kind>_packages/.pesde/scope+name/version`.
pub open spec fn destination_spec(package_dir: Seq<char>, root: TargetKind, entry: GraphEntry) -> Seq<
    char,
> {
    container_folder_spec(
        package_dir + "/"@ + root.packages_folder_spec(entry.node.pkg_ref.target.kind_spec()) + "/"@
            + PACKAGES_CONTAINER_NAME@,
        entry.name,
        entry.version_id.version@,
    )
}

/// Whether the source of node `at` has to be refreshed when that node is
/// reached: it was not refreshed before this run, and no earlier node has
/// the same source.
pub open spec fn needs_refresh(
    graph: DependencyGraph,
    refreshed: Seq<(SourceKind, Seq<char>)>,
    at: int,
) -> bool {
    !refreshed.contains(source_of(graph.entries@[at])) && forall|k: int|
        0 <= k < at ==> source_of(#[trigger] graph.entries@[k]) != source_of(graph.entries@[at])
}

/// Whether `source` was refreshed before the run or is the source of one of
/// the first `upto` nodes.
pub open spec fn seen_spec(
    graph: DependencyGraph,
    refreshed: Seq<(SourceKind, Seq<char>)>,
    upto: int,
    source: (SourceKind, Seq<char>),
) -> bool {
    refreshed.contains(source) || exists|k: int|
        0 <= k < upto && source_of(#[trigger] graph.entries@[k]) == source
}

/// What one more node adds to the sources that were seen.
proof fn seen_step(
    graph: DependencyGraph,
    refreshed: Seq<(SourceKind, Seq<char>)>,
    upto: int,
    source: (SourceKind, Seq<char>),
)
    requires
        0 <= upto < graph.entries@.len(),
    ensures
        seen_spec(graph, refreshed, upto + 1, source) <==> (seen_spec(
            graph,
            refreshed,
            upto,
            source,
        ) || source_of(graph.entries@[upto]) == source),
{
    if seen_spec(graph, refreshed, upto + 1, source) && !refreshed.contains(source) {
        let k = choose|k: int|
            0 <= k < upto + 1 && source_of(#[trigger] graph.entries@[k]) == source;
        if k < upto {
            assert(seen_spec(graph, refreshed, upto, source));
        }
    }
    if seen_spec(graph, refreshed, upto, source) && !refreshed.contains(source) {
        let k = choose|k: int| 0 <= k < upto && source_of(#[trigger] graph.entries@[k]) == source;
        assert(0 <= k < upto + 1 && source_of(graph.entries@[k]) == source);
    }
    if source_of(graph.entries@[upto]) == source {
        assert(0 <= upto < upto + 1 && source_of(graph.entries@[upto]) == source);
    }
}

/// Whether `sources` holds a source equal to `source`.
fn has_source(sources: &Vec<PackageSources>, kind: SourceKind, location: &str) -> (r: bool)
    ensures
        r == source_views(sources@).contains((kind, location@)),
{
    let mut i: usize = 0;
    while i < sources.len()
        invariant
            i <= sources@.len(),
            forall|k: int| 0 <= k < i ==> source_views(sources@)[k] != (kind, location@),
        decreases sources@.len() - i,
    {
        if sources[i].kind == kind && str_eq(sources[i].location.as_str(), location) {
            assert(source_views(sources@)[i as int] == (kind, location@));
            return true;
        }
        i += 1;
    }
    false
}

impl Project {
    /// Plans the download of every node of `graph` into this project, which
    /// is of kind `root`, in the order of the graph. Each source that
    /// `refreshed` does not hold yet is refreshed once, before the first
    /// package that comes from it, and is added to `refreshed`.
    pub fn download_graph(
        &self,
        graph: &DependencyGraph,
        root: TargetKind,
        refreshed: &mut Vec<PackageSources>,
    ) -> (tasks: Vec<DownloadTask>)
        ensures
            tasks@.len() == graph.entries@.len(),
            forall|i: int|
                0 <= i < tasks@.len() ==> {
                    &&& (#[trigger] tasks@[i]).node == i
                    &&& tasks@[i].source@ == source_of(graph.entries@[i])
                    &&& tasks@[i].refresh == needs_refresh(*graph, source_views(old(refreshed)@), i)
                    &&& tasks@[i].container_folder@ == destination_spec(
                        self.package_dir_spec(),
                        root,
                        graph.entries@[i],
                    )
                },
            forall|s: (SourceKind, Seq<char>)| #[trigger]
                source_views(final(refreshed)@).contains(s) <==> seen_spec(
                    *graph,
                    source_views(old(refreshed)@),
                    graph.entries@.len() as int,
                    s,
                ),
    {
        let mut tasks: Vec<DownloadTask> = Vec::new();
        let ghost before = source_views(refreshed@);
        let mut i: usize = 0;
        while i < graph.entries.len()
            invariant
                i <= graph.entries@.len(),
                before == source_views(old(refreshed)@),
                tasks@.len() == i,
                forall|k: int|
                    0 <= k < i ==> {
                        &&& (#[trigger] tasks@[k]).node == k
                        &&& tasks@[k].source@ == source_of(graph.entries@[k])
                        &&& tasks@[k].refresh == needs_refresh(*graph, before, k)
                        &&& tasks@[k].container_folder@ == destination_spec(
                            self.package_dir_spec(),
                            root,
                            graph.entries@[k],
                        )
                    },
                forall|s: (SourceKind, Seq<char>)| #[trigger]
                    source_views(refreshed@).contains(s) <==> seen_spec(*graph, before, i as int, s),
            decreases graph.entries@.len() - i,
        {
            let entry = &graph.entries[i];
            let pkg_ref = &entry.node.pkg_ref;
            let ghost here = source_of(*entry);
            let ghost known = source_views(refreshed@);
            let refresh = !has_source(refreshed, pkg_ref.source, pkg_ref.location.as_str());
            proof {
                assert(known.contains(here) <==> seen_spec(*graph, before, i as int, here));
                if needs_refresh(*graph, before, i as int) {
                    if seen_spec(*graph, before, i as int, here) {
                        let k = choose|k: int|
                            0 <= k < i && source_of(#[trigger] graph.entries@[k]) == here;
                        assert(false);
                    }
                }
                assert(refresh == needs_refresh(*graph, before, i as int));
            }
            if refresh {
                refreshed.push(
                    PackageSources { kind: pkg_ref.source, location: pkg_ref.location.clone() },
                );
                proof {
                    assert(source_views(refreshed@) == known.push(here));
                }
            }
            proof {
                assert forall|s: (SourceKind, Seq<char>)| #[trigger]
                    source_views(refreshed@).contains(s) <==> seen_spec(
                        *graph,
                        before,
                        i + 1,
                        s,
                    ) by {
                    seen_step(*graph, before, i as int, s);
                    assert(known.contains(s) <==> seen_spec(*graph, before, i as int, s));
                    if refresh {
                        if known.contains(s) {
                            let k = choose|k: int| 0 <= k < known.len() && known[k] == s;
                            assert(known.push(here)[k] == s);
                        }
                        if s == here {
                            assert(known.push(here)[known.len() as int] == s);
                        }
                    }
                }
            }
            let folder = root.packages_folder(&pkg_ref.target_kind());
            let inside = concat3(self.package_dir(), "/", folder.as_str());
            let base = concat3(inside.as_str(), "/", PACKAGES_CONTAINER_NAME);
            let container_folder = entry.node.container_folder(
                base.as_str(),
                &entry.name,
                &entry.version_id.version,
            );
            tasks.push(
                DownloadTask {
                    node: i,
                    source: PackageSources { kind: pkg_ref.source, location: pkg_ref.location.clone() },
                    refresh,
                    container_folder,
                },
            );
            i += 1;
        }
        tasks
    }
}

/// Among the nodes that share a source which was not refreshed before,
/// the first is the one that refreshes it: every such source is refreshed
/// by some node, and by no two.
pub proof fn each_source_is_refreshed_once(
    graph: DependencyGraph,
    refreshed: Seq<(SourceKind, Seq<char>)>,
    at: int,
)
    requires
        0 <= at < graph.entries@.len(),
        !refreshed.contains(source_of(graph.entries@[at])),
    ensures
        exists|first: int|
            0 <= first <= at && source_of(#[trigger] graph.entries@[first]) == source_of(
                graph.entries@[at],
            ) && needs_refresh(graph, refreshed, first),
        forall|a: int, b: int|
            0 <= a < b < graph.entries@.len() && source_of(graph.entries@[a]) == source_of(
                graph.entries@[b],
            ) ==> !needs_refresh(graph, refreshed, b),
{
    first_with_source(graph, at, at);
}

/// The first node that has the source of node `at`, looked for among the
/// nodes up to `upto`.
proof fn first_with_source(graph: DependencyGraph, at: int, upto: int)
    requires
        0 <= upto <= at < graph.entries@.len(),
        source_of(graph.entries@[upto]) == source_of(graph.entries@[at]),
    ensures
        exists|first: int|
            0 <= first <= upto && source_of(#[trigger] graph.entries@[first]) == source_of(
                graph.entries@[at],
            ) && forall|k: int|
                0 <= k < first ==> source_of(#[trigger] graph.entries@[k]) != source_of(
                    graph.entries@[at],
                ),
    decreases upto,
{
    if exists|k: int|
        0 <= k < upto && source_of(#[trigger] graph.entries@[k]) == source_of(graph.entries@[at]) {
        let k = choose|k: int|
            0 <= k < upto && source_of(#[trigger] graph.entries@[k]) == source_of(
                graph.entries@[at],
            );
        first_with_source(graph, at, k);
    } else {
        assert(source_of(graph.entries@[upto]) == source_of(graph.entries@[at]));
    }
}

/// Where a node with the key `key` belongs among nodes with the keys
/// `keys`: behind the keys at the front that come before it.
pub open spec fn slot_spec(keys: Seq<NodeKey>, key: NodeKey) -> int
    decreases keys.len(),
{
    if keys.len() == 0 || !key_before(keys[0], key) {
        0
    } else {
        1 + slot_spec(keys.skip(1), key)
    }
}

/// The nodes once `entry` is recorded: in the place of the node with its
/// key, if that stands where the key belongs; else put in where the key
/// belongs.
pub open spec fn recorded_spec(entries: Seq<DownloadedEntry>, entry: DownloadedEntry) -> Seq<
    DownloadedEntry,
> {
    let at = slot_spec(entry_keys(entries), entry.key());
    if at < entries.len() && entries[at].key() == entry.key() {
        entries.update(at, entry)
    } else {
        entries.insert(at, entry)
    }
}

/// The place that `slot_spec` gives lies within the list, every key
/// before it comes before `key`, and the key at it, if there is one, does
/// not.
pub proof fn slot_divides(keys: Seq<NodeKey>, key: NodeKey)
    ensures
        0 <= slot_spec(keys, key) <= keys.len(),
        forall|k: int| 0 <= k < slot_spec(keys, key) ==> key_before(#[trigger] keys[k], key),
        slot_spec(keys, key) < keys.len() ==> !key_before(keys[slot_spec(keys, key)], key),
    decreases keys.len(),
{
    if keys.len() > 0 && key_before(keys[0], key) {
        let rest = keys.skip(1);
        slot_divides(rest, key);
        assert forall|k: int| 0 <= k < slot_spec(keys, key) implies key_before(
            #[trigger] keys[k],
            key,
        ) by {
            if k > 0 {
                assert(rest[k - 1] == keys[k]);
            }
        }
        if slot_spec(keys, key) < keys.len() {
            assert(rest[slot_spec(rest, key)] == keys[slot_spec(keys, key)]);
        }
    }
}

/// Recording a node keeps the nodes in the order of their keys, and the
/// keys are then those that were there and the key of the node.
pub proof fn recording_keeps_key_order(entries: Seq<DownloadedEntry>, entry: DownloadedEntry)
    requires
        in_key_order(entry_keys(entries)),
    ensures
        in_key_order(entry_keys(recorded_spec(entries, entry))),
        forall|k: NodeKey| #[trigger]
            entry_keys(recorded_spec(entries, entry)).contains(k) <==> (entry_keys(
                entries,
            ).contains(k) || k == entry.key()),
{
    let keys = entry_keys(entries);
    let key = entry.key();
    let at = slot_spec(keys, key);
    let after = entry_keys(recorded_spec(entries, entry));
    slot_divides(keys, key);
    if at < entries.len() && entries[at].key() == key {
        assert(after =~= keys);
        assert(keys[at] == key);
    } else {
        assert(after =~= keys.insert(at, key));
        assert forall|i: int, j: int| 0 <= i < j < after.len() implies key_before(
            #[trigger] after[i],
            #[trigger] after[j],
        ) by {
            if i == at {
                assert(after[j] == keys[j - 1]);
                key_order_is_total(keys[at], key);
                if j - 1 > at {
                    assert(key_before(keys[at], keys[j - 1]));
                    key_order_is_transitive(key, keys[at], keys[j - 1]);
                }
            } else if j == at {
                assert(after[i] == keys[i]);
            } else if i < at && j > at {
                assert(after[i] == keys[i]);
                assert(after[j] == keys[j - 1]);
                assert(key_before(keys[i], keys[j - 1]));
            } else if i < at {
                assert(key_before(keys[i], keys[j]));
            } else {
                assert(key_before(keys[i - 1], keys[j - 1]));
            }
        }
        assert forall|k: NodeKey| after.contains(k) <==> (keys.contains(k) || k == key) by {
            if after.contains(k) {
                let n = choose|n: int| 0 <= n < after.len() && after[n] == k;
                if n < at {
                    assert(keys[n] == k);
                } else if n > at {
                    assert(keys[n - 1] == k);
                }
            }
            if keys.contains(k) {
                let n = choose|n: int| 0 <= n < keys.len() && keys[n] == k;
                if n < at {
                    assert(after[n] == k);
                } else {
                    assert(after[n + 1] == k);
                }
            }
            if k == key {
                assert(after[at] == k);
            }
        }
    }
}

/// The nodes once each of `arrived` is recorded, one after the other,
/// in a graph that was empty.
pub open spec fn recorded_all(arrived: Seq<DownloadedEntry>) -> Seq<DownloadedEntry>
    decreases arrived.len(),
{
    if arrived.len() == 0 {
        Seq::empty()
    } else {
        recorded_spec(recorded_all(arrived.drop_last()), arrived.last())
    }
}

/// The graph that records the fetched packages holds exactly their keys,
/// in the order of keys, in whatever order the packages arrived.
pub proof fn all_that_arrived_is_recorded(arrived: Seq<DownloadedEntry>)
    ensures
        in_key_order(entry_keys(recorded_all(arrived))),
        forall|k: NodeKey| #[trigger]
            entry_keys(recorded_all(arrived)).contains(k) <==> entry_keys(arrived).contains(k),
    decreases arrived.len(),
{
    if arrived.len() > 0 {
        let before = arrived.drop_last();
        let last = arrived.last();
        all_that_arrived_is_recorded(before);
        recording_keeps_key_order(recorded_all(before), last);
        let keys = entry_keys(arrived);
        assert forall|k: NodeKey| #[trigger]
            entry_keys(recorded_all(arrived)).contains(k) <==> keys.contains(k) by {
            if entry_keys(before).contains(k) {
                let n = choose|n: int| 0 <= n < before.len() && entry_keys(before)[n] == k;
                assert(keys[n] == k);
            }
            if k == last.key() {
                assert(keys[arrived.len() - 1] == k);
            }
            if keys.contains(k) {
                let n = choose|n: int| 0 <= n < keys.len() && keys[n] == k;
                if n < before.len() {
                    assert(entry_keys(before)[n] == k);
                }
            }
        }
    }
}

/// The order in which the packages arrive changes nothing of the keys of
/// the graph that records them, nor of their order.
pub proof fn order_of_arrival_is_immaterial(a: Seq<DownloadedEntry>, b: Seq<DownloadedEntry>)
    requires
        forall|k: NodeKey| entry_keys(a).contains(k) <==> entry_keys(b).contains(k),
    ensures
        entry_keys(recorded_all(a)) == entry_keys(recorded_all(b)),
{
    all_that_arrived_is_recorded(a);
    all_that_arrived_is_recorded(b);
    let x = entry_keys(recorded_all(a));
    let y = entry_keys(recorded_all(b));
    assert forall|k: NodeKey| x.contains(k) <==> y.contains(k) by {
        assert(x.contains(k) <==> entry_keys(a).contains(k));
        assert(y.contains(k) <==> entry_keys(b).contains(k));
    }
    key_order_is_unique(x, y);
}

/// Whether `copy` says of a release what `node` says.
pub open spec fn same_node(copy: DependencyGraphNode, node: DependencyGraphNode) -> bool {
    &&& copy.direct == node.direct
    &&& copy.ty == node.ty
    &&& copy.pkg_ref.source == node.pkg_ref.source
    &&& copy.pkg_ref.location == node.pkg_ref.location
    &&& copy.pkg_ref.target@ == node.pkg_ref.target@
    &&& copy.pkg_ref.dependencies@ == node.pkg_ref.dependencies@
    &&& copy.dependencies@ == node.dependencies@
}

/// Whether `recorded` is the node of the resolved graph `entry` once its
/// package was fetched and turned out to have the target `target`.
pub open spec fn stands_for(recorded: DownloadedEntry, entry: GraphEntry, target: Target) -> bool {
    &&& recorded.name == entry.name
    &&& recorded.version_id == entry.version_id
    &&& same_node(recorded.node.node, entry.node)
    &&& recorded.node.target == target
}

/// A copy of a node of the resolved graph.
pub fn copy_node(node: &DependencyGraphNode) -> (r: DependencyGraphNode)
    ensures
        same_node(r, *node),
{
    let mut declared: Vec<DeclaredDependency> = Vec::new();
    let mut i: usize = 0;
    while i < node.pkg_ref.dependencies.len()
        invariant
            i <= node.pkg_ref.dependencies@.len(),
            declared@ == node.pkg_ref.dependencies@.subrange(0, i as int),
        decreases node.pkg_ref.dependencies@.len() - i,
    {
        let d = &node.pkg_ref.dependencies[i];
        declared.push(
            DeclaredDependency { alias: d.alias.clone(), specifier: d.specifier.duplicate(), ty: d.ty },
        );
        proof {
            assert(declared@ =~= node.pkg_ref.dependencies@.subrange(0, i + 1));
        }
        i += 1;
    }
    let mut edges: Vec<Edge> = Vec::new();
    let mut k: usize = 0;
    while k < node.dependencies.len()
        invariant
            k <= node.dependencies@.len(),
            edges@ == node.dependencies@.subrange(0, k as int),
        decreases node.dependencies@.len() - k,
    {
        let e = &node.dependencies[k];
        edges.push(
            Edge { name: e.name.duplicate(), version_id: e.version_id.duplicate(), alias: e.alias.clone() },
        );
        proof {
            assert(edges@ =~= node.dependencies@.subrange(0, k + 1));
        }
        k += 1;
    }
    proof {
        assert(declared@ =~= node.pkg_ref.dependencies@);
        assert(edges@ =~= node.dependencies@);
    }
    DependencyGraphNode {
        direct: match &node.direct {
            Some(alias) => Some(alias.clone()),
            None => None,
        },
        pkg_ref: PackageRef {
            source: node.pkg_ref.source,
            location: node.pkg_ref.location.clone(),
            target: node.pkg_ref.target.duplicate(),
            dependencies: declared,
        },
        dependencies: edges,
        ty: node.ty,
    }
}

impl DownloadedGraph {
    /// A graph without nodes.
    pub fn new() -> (r: DownloadedGraph)
        ensures
            r.entries@.len() == 0,
            r.well_formed(),
    {
        DownloadedGraph { entries: Vec::new() }
    }

    /// Records a fetched package under its key, where the key belongs in
    /// the order of keys. A node that the graph holds there under that key
    /// is replaced. A graph whose nodes stand in the order of their keys
    /// stays so, in whatever order the packages come in.
    pub fn insert(
        &mut self,
        name: PackageName,
        version_id: VersionId,
        node: DownloadedDependencyGraphNode,
    )
        ensures
            final(self).entries@ == recorded_spec(
                old(self).entries@,
                DownloadedEntry { name, version_id, node },
            ),
            old(self).well_formed() ==> final(self).well_formed(),
            forall|k: NodeKey|
                old(self).well_formed() ==> (#[trigger] final(self).keys().contains(k) <==> (old(
                    self,
                ).keys().contains(k) || k == (name@, version_id@))),
    {
        let ghost keys = self.keys();
        let ghost key = (name@, version_id@);
        let mut at: usize = 0;
        proof {
            assert(keys.skip(0) == keys);
        }
        while at < self.entries.len() && key_precedes(
            &self.entries[at].name,
            &self.entries[at].version_id,
            &name,
            &version_id,
        )
            invariant
                at <= self.entries@.len(),
                *self == *old(self),
                keys == self.keys(),
                key == (name@, version_id@),
                slot_spec(keys, key) == at + slot_spec(keys.skip(at as int), key),
            decreases self.entries@.len() - at,
        {
            proof {
                assert(keys.skip(at as int)[0] == keys[at as int]);
                assert(keys.skip(at as int).skip(1) == keys.skip(at + 1));
            }
            at += 1;
        }
        proof {
            if at < self.entries@.len() {
                assert(keys.skip(at as int)[0] == keys[at as int]);
            }
            assert(slot_spec(keys, key) == at);
            if old(self).well_formed() {
                recording_keeps_key_order(
                    old(self).entries@,
                    DownloadedEntry { name, version_id, node },
                );
            }
        }
        if at < self.entries.len() && self.entries[at].name.same_as(&name)
            && self.entries[at].version_id.same_as(&version_id) {
            self.entries.set(at, DownloadedEntry { name, version_id, node });
        } else {
            self.entries.insert(at, DownloadedEntry { name, version_id, node });
        }
    }

    /// Records that the package of the node `entry` of the resolved graph
    /// was fetched and has the target `target`: the node is kept as it
    /// was resolved, under its key.
    pub fn record(&mut self, entry: &GraphEntry, target: Target)
        ensures
            exists|recorded: DownloadedEntry|
                stands_for(recorded, *entry, target) && final(self).entries@ == #[trigger] recorded_spec(
                    old(self).entries@,
                    recorded,
                ),
            old(self).well_formed() ==> final(self).well_formed(),
            forall|k: NodeKey|
                old(self).well_formed() ==> (#[trigger] final(self).keys().contains(k) <==> (old(
                    self,
                ).keys().contains(k) || k == entry.key())),
    {
        let name = entry.name.duplicate();
        let version_id = entry.version_id.duplicate();
        let node = DownloadedDependencyGraphNode { node: copy_node(&entry.node), target };
        let ghost recorded = DownloadedEntry { name, version_id, node };
        self.insert(name, version_id, node);
        proof {
            assert(stands_for(recorded, *entry, target));
            assert(final(self).entries@ == recorded_spec(old(self).entries@, recorded));
        }
    }
}

} // verus!
