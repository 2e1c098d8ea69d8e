//! What holds of every resolution: it ends in one way only, and the graph
//! that it ends with is in order.

use crate::lockfile::{DeclaredDependency, Edge, free_in};
use crate::manifest::Manifest;
use crate::manifest::target::TargetKind;
use crate::resolver::model::{
    checked_spec, conflicts_spec, has_no_cycle, no_conflict, Context, GraphErrorView, NodeView, StateView, asks_no_foreign_kind, candidate_spec,
    consumer_kind_spec, dev_items, direct_justified, edge_justified, edges_ok, effective_type_spec,
    expanded_spec, first_items, first_package, free_count, is_final, is_normal, item_declared,
    item_of, items_spec, location_spec, merged_spec, node_keys, node_peers_spec, package_matches,
    peer_edge_spec, peers_spec, pick_spec, preferred, provider_spec, provides, reaches,
    resolved_spec, run_spec, same_but_edges, snapshot_asks_no_foreign_kind, state_ok, state_roblox,
    state_sound, step_spec, with_edge, with_edge_at
};
use crate::resolver::{Release, SourcePackage, WorkItem};
use crate::source::specifiers::{DependencySpecifiers, DependencyType};
use crate::source::version_id::{VersionId, VersionIdView};
use vstd::prelude::*;

verus! {

/// Once the resolution has ended, further steps change nothing.
pub proof fn final_outcome_stays(ctx: Context, start: StateView, steps: nat, more: nat)
    requires
        is_final(run_spec(ctx, start, steps)),
    ensures
        run_spec(ctx, start, steps + more) == run_spec(ctx, start, steps),
    decreases more,
{
    if more > 0 {
        final_outcome_stays(ctx, start, steps, (more - 1) as nat);
    }
}

/// Resolution is deterministic: from one start it ends with one outcome.
pub proof fn resolution_is_deterministic(
    ctx: Context,
    start: StateView,
    a: Result<StateView, GraphErrorView>,
    b: Result<StateView, GraphErrorView>,
)
    requires
        reaches(ctx, start, a),
        reaches(ctx, start, b),
    ensures
        a == b,
{
    let m = choose|steps: nat| run_spec(ctx, start, steps) == a;
    let n = choose|steps: nat| run_spec(ctx, start, steps) == b;
    if m <= n {
        final_outcome_stays(ctx, start, m, (n - m) as nat);
    } else {
        final_outcome_stays(ctx, start, n, (m - n) as nat);
    }
}

/// Putting another row in the place of a row changes the number of free
/// releases by the difference between the two rows.
pub(crate) proof fn free_count_after_replacing(rows: Seq<Vec<bool>>, at: int, row: Vec<bool>)
    requires
        0 <= at < rows.len(),
    ensures
        free_count(rows.update(at, row)) + free_in(rows[at]@) == free_count(rows) + free_in(row@),
    decreases rows.len(),
{
    let after = rows.update(at, row);
    if at == rows.len() - 1 {
        assert(after.drop_last() == rows.drop_last());
    } else {
        assert(after.drop_last() == rows.drop_last().update(at, row));
        free_count_after_replacing(rows.drop_last(), at, row);
    }
}

/// Expansion is deterministic: the same manifest and the same snapshot
/// of the sources give the same graph, or the same error.
pub proof fn expansion_is_deterministic(
    ctx: Context,
    manifest: Manifest,
    a: Result<Seq<NodeView>, GraphErrorView>,
    b: Result<Seq<NodeView>, GraphErrorView>,
)
    requires
        expanded_spec(ctx, manifest, a),
        expanded_spec(ctx, manifest, b),
    ensures
        a == b,
{
    let first = StateView { nodes: Seq::empty(), queue: first_items(manifest) };
    let mid_a = first_outcome(ctx, manifest, a);
    let mid_b = first_outcome(ctx, manifest, b);
    resolution_is_deterministic(ctx, first, mid_a, mid_b);
    match mid_a {
        Err(e) => {},
        Ok(mid) => {
            let second = StateView { nodes: mid.nodes, queue: dev_items(manifest) };
            let end_a = match a {
                Ok(nodes) => Ok(StateView { nodes, queue: Seq::empty() }),
                Err(e) => Err(e),
            };
            let end_b = match b {
                Ok(nodes) => Ok(StateView { nodes, queue: Seq::empty() }),
                Err(e) => Err(e),
            };
            resolution_is_deterministic(ctx, second, end_a, end_b);
        },
    }
}

/// How the first part of a resolution ended, given how the whole ended.
pub(crate) proof fn first_outcome(
    ctx: Context,
    manifest: Manifest,
    outcome: Result<Seq<NodeView>, GraphErrorView>,
) -> (mid: Result<StateView, GraphErrorView>)
    requires
        expanded_spec(ctx, manifest, outcome),
    ensures
        reaches(ctx, StateView { nodes: Seq::empty(), queue: first_items(manifest) }, mid),
        match mid {
            Err(e) => outcome == Err::<Seq<NodeView>, GraphErrorView>(e),
            Ok(s) => reaches(
                ctx,
                StateView { nodes: s.nodes, queue: dev_items(manifest) },
                match outcome {
                    Ok(nodes) => Ok(StateView { nodes, queue: Seq::empty() }),
                    Err(e) => Err(e),
                },
            ),
        },
{
    let first = StateView { nodes: Seq::empty(), queue: first_items(manifest) };
    match outcome {
        Ok(nodes) => {
            let mid = choose|mid: StateView|
                #![trigger reaches(ctx, first, Ok(mid))]
                reaches(ctx, first, Ok(mid)) && reaches(
                    ctx,
                    StateView { nodes: mid.nodes, queue: dev_items(manifest) },
                    Ok(StateView { nodes, queue: Seq::empty() }),
                );
            Ok(mid)
        },
        Err(e) => {
            if reaches(ctx, first, Err(e)) {
                Err(e)
            } else {
                let mid = choose|mid: StateView|
                    #![trigger reaches(ctx, first, Ok(mid))]
                    reaches(ctx, first, Ok(mid)) && reaches(
                        ctx,
                        StateView { nodes: mid.nodes, queue: dev_items(manifest) },
                        Err(e),
                    );
                Ok(mid)
            }
        },
    }
}

/// Adding an edge to a node changes no key.
pub(crate) proof fn keys_with_edge(nodes: Seq<NodeView>, consumer: Option<usize>, edge: Edge)
    requires
        consumer matches Some(c) ==> c < nodes.len(),
    ensures
        node_keys(with_edge(nodes, consumer, edge)) == node_keys(nodes),
        with_edge(nodes, consumer, edge).len() == nodes.len(),
{
    assert(node_keys(with_edge(nodes, consumer, edge)) =~= node_keys(nodes));
}

/// A sequence holds what is pushed onto it, and what it held.
pub(crate) proof fn keys_after_push(
    keys: Seq<((Seq<char>, Seq<char>), VersionIdView)>,
    key: ((Seq<char>, Seq<char>), VersionIdView),
)
    ensures
        keys.push(key).contains(key),
        forall|k: ((Seq<char>, Seq<char>), VersionIdView)|
            keys.contains(k) ==> #[trigger] keys.push(key).contains(k),
{
    assert(keys.push(key)[keys.len() as int] == key);
    assert forall|k: ((Seq<char>, Seq<char>), VersionIdView)| keys.contains(k) implies #[trigger]
        keys.push(key).contains(k) by {
        let i = choose|i: int| 0 <= i < keys.len() && keys[i] == k;
        assert(keys.push(key)[i] == k);
    }
}

/// A step of the resolution keeps the state in order.
pub proof fn step_keeps_order(ctx: Context, s: StateView)
    requires
        state_ok(s),
        s.queue.len() > 0,
        step_spec(ctx, s) is Ok,
    ensures
        state_ok(step_spec(ctx, s)->Ok_0),
{
    let item = s.queue[0];
    let consumer = consumer_kind_spec(ctx, s.nodes, item);
    let ty = effective_type_spec(s.nodes, item);
    let location = location_spec(ctx, item)->Ok_0;
    let p = first_package(ctx.snapshot, item.specifier, location, 0)->0;
    let package = ctx.snapshot[p];
    let r = pick_spec(
        package.releases@,
        item.specifier,
        consumer,
        package.releases@.len() as int,
    )->0;
    let release = package.releases@[r];
    let edge = Edge { name: package.name, version_id: release.id_spec(), alias: item.alias };
    let key = (package.name@, release.id_spec()@);
    let keys = node_keys(s.nodes);
    let after = step_spec(ctx, s)->Ok_0;
    keys.index_of_first_ensures(key);
    assert(item.consumer matches Some(c) ==> c < s.nodes.len());
    match keys.index_of_first(key) {
        Some(n) => {
            let merged = s.nodes.update(n, merged_spec(s.nodes[n], item, ty));
            assert(node_keys(merged) =~= keys);
            keys_with_edge(merged, item.consumer, edge);
            assert(after.nodes == with_edge(merged, item.consumer, edge));
            assert(node_keys(after.nodes) == keys);
            assert forall|i: int, j: int|
                0 <= i < after.nodes.len() && 0 <= j < after.nodes[i].edges.len() implies keys.contains(
                ((#[trigger] after.nodes[i].edges[j]).name@, after.nodes[i].edges[j].version_id@),
            ) by {
                if j < s.nodes[i].edges.len() {
                    assert(after.nodes[i].edges[j] == s.nodes[i].edges[j]);
                } else {
                    assert(after.nodes[i].edges[j] == edge);
                }
            }
            assert forall|q: int| 0 <= q < after.queue.len() implies ((
            #[trigger] after.queue[q]).consumer matches Some(c) ==> c < after.nodes.len()) by {
                assert(after.queue[q] == s.queue[q + 1]);
            }
        },
        None => {
            let node = NodeView {
                name: package.name,
                id: release.id_spec(),
                direct: if item.consumer is None {
                    Some(item.alias)
                } else {
                    None
                },
                ty,
                source: package.source,
                location: package.location,
                target: release.target@,
                edges: Seq::empty(),
                declared: release.dependencies@,
            };
            let pushed = s.nodes.push(node);
            assert(node_keys(pushed) =~= keys.push(key));
            keys_with_edge(pushed, item.consumer, edge);
            assert(after.nodes == with_edge(pushed, item.consumer, edge));
            let new_keys = node_keys(after.nodes);
            assert(new_keys == keys.push(key));
            keys_after_push(keys, key);
            assert(new_keys.no_duplicates());
            assert forall|i: int, j: int|
                0 <= i < after.nodes.len() && 0 <= j < after.nodes[i].edges.len() implies new_keys.contains(
                ((#[trigger] after.nodes[i].edges[j]).name@, after.nodes[i].edges[j].version_id@),
            ) by {
                if i < s.nodes.len() && j < s.nodes[i].edges.len() {
                    assert(after.nodes[i].edges[j] == s.nodes[i].edges[j]);
                    assert(keys.contains((s.nodes[i].edges[j].name@, s.nodes[i].edges[j].version_id@)));
                } else {
                    assert(after.nodes[i].edges[j] == edge);
                }
            }
            let items = items_spec(release.dependencies@, s.nodes.len() as usize);
            assert forall|q: int| 0 <= q < after.queue.len() implies ((
            #[trigger] after.queue[q]).consumer matches Some(c) ==> c < after.nodes.len()) by {
                if q < s.queue.len() - 1 {
                    assert(after.queue[q] == s.queue[q + 1]);
                } else {
                    assert(after.queue[q] == items[q - (s.queue.len() - 1)]);
                }
            }
        },
    }
}

/// A second version is a conflict: where the release picked for a
/// dependency that is needed outside of development is a version of a
/// package of which the graph already needs another version, built for
/// the same kind, outside of development, the resolution ends there in a
/// conflict named for the package.
pub proof fn second_version_is_a_conflict(ctx: Context, s: StateView, p: int, r: int)
    requires
        state_ok(s),
        s.queue.len() > 0,
        location_spec(ctx, s.queue[0]) matches Ok(location) && first_package(
            ctx.snapshot,
            s.queue[0].specifier,
            location,
            0,
        ) == Some(p),
        pick_spec(
            ctx.snapshot[p].releases@,
            s.queue[0].specifier,
            consumer_kind_spec(ctx, s.nodes, s.queue[0]),
            ctx.snapshot[p].releases@.len() as int,
        ) == Some(r),
        effective_type_spec(s.nodes, s.queue[0]) != DependencyType::Dev,
        conflicts_spec(s.nodes, ctx.snapshot[p].name@, ctx.snapshot[p].releases@[r].id_spec()),
    ensures
        step_spec(ctx, s) == Err::<StateView, GraphErrorView>(
            GraphErrorView::Conflict(ctx.snapshot[p].name.text_spec()),
        ),
{
    let name = ctx.snapshot[p].name@;
    let id = ctx.snapshot[p].releases@[r].id_spec();
    let keys = node_keys(s.nodes);
    match keys.index_of_first((name, id@)) {
        Some(n) => {
            keys.index_of_first_ensures((name, id@));
            assert(keys[n] == (name, id@));
            let m = choose|m: int|
                0 <= m < s.nodes.len() && (#[trigger] s.nodes[m]).name@ == name
                    && s.nodes[m].id.target == id.target && s.nodes[m].id.version@ != id.version@
                    && s.nodes[m].ty != DependencyType::Dev;
            if s.nodes[n].ty != DependencyType::Dev {
                assert(s.nodes[n].name@ == s.nodes[m].name@);
                assert(s.nodes[n].id.version@ == s.nodes[m].id.version@);
            }
        },
        None => {},
    }
}

/// Every state that the resolution passes through is in order.
pub proof fn run_keeps_order(ctx: Context, start: StateView, steps: nat)
    requires
        state_ok(start),
        run_spec(ctx, start, steps) is Ok,
    ensures
        state_ok(run_spec(ctx, start, steps)->Ok_0),
    decreases steps,
{
    if steps > 0 {
        let before = run_spec(ctx, start, (steps - 1) as nat);
        run_keeps_order(ctx, start, (steps - 1) as nat);
        if before->Ok_0.queue.len() > 0 {
            step_keeps_order(ctx, before->Ok_0);
        }
    }
}

/// In a resolved graph each release is a node once, is built for the kind
/// that its source records, and every edge ends at a node of the graph;
/// and no two nodes that are needed outside of development are two
/// versions of one package, built for one kind: a resolution that would
/// need both ends in a conflict, and gives no graph.
pub proof fn expanded_graph_is_closed(ctx: Context, manifest: Manifest, nodes: Seq<NodeView>)
    requires
        expanded_spec(ctx, manifest, Ok(nodes)),
    ensures
        node_keys(nodes).no_duplicates(),
        no_conflict(nodes),
        forall|i: int| 0 <= i < nodes.len() ==> (#[trigger] nodes[i]).target.kind == nodes[i].id.target,
        forall|i: int, j: int|
            0 <= i < nodes.len() && 0 <= j < nodes[i].edges.len() ==> node_keys(nodes).contains(
                ((#[trigger] nodes[i].edges[j]).name@, nodes[i].edges[j].version_id@),
            ),
{
    let first = StateView { nodes: Seq::empty(), queue: first_items(manifest) };
    let mid = choose|mid: StateView|
        #![trigger reaches(ctx, first, Ok(mid))]
        reaches(ctx, first, Ok(mid)) && reaches(
            ctx,
            StateView { nodes: mid.nodes, queue: dev_items(manifest) },
            Ok(StateView { nodes, queue: Seq::empty() }),
        );
    let second = StateView { nodes: mid.nodes, queue: dev_items(manifest) };
    let last = StateView { nodes, queue: Seq::empty() };
    let m = choose|steps: nat| run_spec(ctx, first, steps) == Ok::<StateView, GraphErrorView>(mid);
    assert(state_ok(first));
    run_keeps_order(ctx, first, m);
    assert(state_ok(second));
    let n = choose|steps: nat| run_spec(ctx, second, steps) == Ok::<StateView, GraphErrorView>(last);
    run_keeps_order(ctx, second, n);
}

/// The package that `first_package` gives is one of the snapshot, and it
/// is what the dependency names.
pub proof fn first_package_matches(
    snapshot: Seq<SourcePackage>,
    specifier: DependencySpecifiers,
    location: Option<Seq<char>>,
    from: int,
)
    requires
        0 <= from,
    ensures
        first_package(snapshot, specifier, location, from) matches Some(p) ==> from <= p
            < snapshot.len() && package_matches(snapshot[p], specifier, location),
    decreases snapshot.len() - from,
{
    if from < snapshot.len() && !package_matches(snapshot[from], specifier, location) {
        first_package_matches(snapshot, specifier, location, from + 1);
    }
}

/// The release that is picked satisfies the dependency, and no release
/// that satisfies it has a version with later numbers.
pub proof fn picked_release_is_best(
    releases: Seq<Release>,
    specifier: DependencySpecifiers,
    consumer: TargetKind,
    upto: int,
)
    requires
        0 <= upto <= releases.len(),
    ensures
        match pick_spec(releases, specifier, consumer, upto) {
            Some(r) => {
                &&& 0 <= r < upto
                &&& candidate_spec(specifier, releases[r].id_spec(), consumer)
                &&& forall|k: int|
                    0 <= k < upto && candidate_spec(specifier, (#[trigger] releases[k]).id_spec(), consumer)
                        ==> !releases[r].version@.numbers_before(releases[k].version@)
            },
            None => forall|k: int|
                0 <= k < upto ==> !candidate_spec(specifier, (#[trigger] releases[k]).id_spec(), consumer),
        },
    decreases upto,
{
    if upto > 0 {
        picked_release_is_best(releases, specifier, consumer, upto - 1);
    }
}

/// A step of the resolution keeps every edge and every direct node
/// justified.
pub proof fn step_keeps_sound(ctx: Context, roots: Seq<WorkItem>, s: StateView)
    requires
        state_ok(s),
        state_sound(ctx, roots, s),
        s.queue.len() > 0,
        step_spec(ctx, s) is Ok,
        step_spec(ctx, s)->Ok_0.nodes.len() <= usize::MAX,
    ensures
        state_sound(ctx, roots, step_spec(ctx, s)->Ok_0),
{
    let item = s.queue[0];
    let consumer = consumer_kind_spec(ctx, s.nodes, item);
    let ty = effective_type_spec(s.nodes, item);
    let location = location_spec(ctx, item)->Ok_0;
    let p = first_package(ctx.snapshot, item.specifier, location, 0)->0;
    first_package_matches(ctx.snapshot, item.specifier, location, 0);
    let package = ctx.snapshot[p];
    let r = pick_spec(
        package.releases@,
        item.specifier,
        consumer,
        package.releases@.len() as int,
    )->0;
    picked_release_is_best(
        package.releases@,
        item.specifier,
        consumer,
        package.releases@.len() as int,
    );
    let release = package.releases@[r];
    let edge = Edge { name: package.name, version_id: release.id_spec(), alias: item.alias };
    let key = (package.name@, release.id_spec()@);
    let keys = node_keys(s.nodes);
    let after = step_spec(ctx, s)->Ok_0;
    keys.index_of_first_ensures(key);
    assert(item.consumer matches Some(c) ==> c < s.nodes.len());
    assert(item_declared(s.nodes, roots, item));
    assert(candidate_spec(item.specifier, release.id_spec(), consumer));
    let base = match keys.index_of_first(key) {
        Some(n) => s.nodes.update(n, merged_spec(s.nodes[n], item, ty)),
        None => s.nodes.push(
            NodeView {
                name: package.name,
                id: release.id_spec(),
                direct: if item.consumer is None {
                    Some(item.alias)
                } else {
                    None
                },
                ty,
                source: package.source,
                location: package.location,
                target: release.target@,
                edges: Seq::empty(),
                declared: release.dependencies@,
            },
        ),
    };
    assert(after.nodes == with_edge(base, item.consumer, edge));
    // what the nodes declare, and of which kind they are, is what it was
    assert forall|i: int| 0 <= i < s.nodes.len() implies (#[trigger] after.nodes[i]).declared
        == s.nodes[i].declared && after.nodes[i].id == s.nodes[i].id by {}
    assert forall|i: int, j: int|
        0 <= i < after.nodes.len() && 0 <= j < after.nodes[i].edges.len() implies edge_justified(
        after.nodes[i],
        #[trigger] after.nodes[i].edges[j],
    ) by {
        let e = after.nodes[i].edges[j];
        if i < s.nodes.len() && j < s.nodes[i].edges.len() {
            assert(e == s.nodes[i].edges[j]);
            assert(edge_justified(s.nodes[i], s.nodes[i].edges[j]));
            let k = choose|k: int|
                0 <= k < s.nodes[i].declared.len() && (#[trigger] s.nodes[i].declared[k]).alias
                    == e.alias && candidate_spec(
                    s.nodes[i].declared[k].specifier,
                    e.version_id,
                    s.nodes[i].id.target,
                );
            assert(after.nodes[i].declared[k].alias == e.alias);
        } else {
            // the edge that this step added, at the node of the consumer
            assert(item.consumer == Some(i as usize));
            assert(e == edge);
            let d = DeclaredDependency {
                alias: item.alias,
                specifier: item.specifier,
                ty: item.ty,
            };
            assert(s.nodes[i].declared.contains(d));
            let k = choose|k: int| 0 <= k < s.nodes[i].declared.len() && s.nodes[i].declared[k] == d;
            assert(after.nodes[i].declared[k].alias == e.alias);
        }
    }
    assert forall|i: int| 0 <= i < after.nodes.len() implies direct_justified(
        ctx,
        roots,
        #[trigger] after.nodes[i],
    ) by {
        let node = after.nodes[i];
        if node.direct is Some {
            if i < s.nodes.len() && s.nodes[i].direct is Some {
                assert(direct_justified(ctx, roots, s.nodes[i]));
                assert(node.direct == s.nodes[i].direct);
            } else {
                // the node became direct in this step
                assert(item.consumer is None);
                assert(node.direct == Some(item.alias));
                assert(node.id@ == release.id_spec()@);
                assert(roots.contains(item));
                let k = choose|k: int| 0 <= k < roots.len() && roots[k] == item;
                assert(roots[k].alias == item.alias);
            }
        }
    }
    let items = items_spec(release.dependencies@, s.nodes.len() as usize);
    assert forall|q: int| 0 <= q < after.queue.len() implies item_declared(
        after.nodes,
        roots,
        #[trigger] after.queue[q],
    ) by {
        let waiting = after.queue[q];
        if q < s.queue.len() - 1 {
            assert(waiting == s.queue[q + 1]);
            assert(item_declared(s.nodes, roots, s.queue[q + 1]));
        } else {
            let at = q - (s.queue.len() - 1);
            assert(keys.index_of_first(key) is None);
            assert(waiting == items[at]);
            let kept = release.dependencies@.filter(is_normal());
            assert(waiting == item_of(s.nodes.len() as usize)(kept[at]));
            assert(kept.contains(kept[at]));
            release.dependencies@.lemma_filter_contains_rev(is_normal(), kept[at]);
            assert(after.nodes[s.nodes.len() as int].declared == release.dependencies@);
        }
    }
}

/// A step of the resolution removes no node.
pub proof fn step_keeps_nodes(ctx: Context, s: StateView)
    requires
        state_ok(s),
        s.queue.len() > 0,
        step_spec(ctx, s) is Ok,
    ensures
        step_spec(ctx, s)->Ok_0.nodes.len() >= s.nodes.len(),
{
    let item = s.queue[0];
    let consumer = consumer_kind_spec(ctx, s.nodes, item);
    let ty = effective_type_spec(s.nodes, item);
    let location = location_spec(ctx, item)->Ok_0;
    let p = first_package(ctx.snapshot, item.specifier, location, 0)->0;
    let package = ctx.snapshot[p];
    let r = pick_spec(
        package.releases@,
        item.specifier,
        consumer,
        package.releases@.len() as int,
    )->0;
    let release = package.releases@[r];
    let edge = Edge { name: package.name, version_id: release.id_spec(), alias: item.alias };
    let key = (package.name@, release.id_spec()@);
    let keys = node_keys(s.nodes);
    keys.index_of_first_ensures(key);
    assert(item.consumer matches Some(c) ==> c < s.nodes.len());
    let base = match keys.index_of_first(key) {
        Some(n) => s.nodes.update(n, merged_spec(s.nodes[n], item, ty)),
        None => s.nodes.push(
            NodeView {
                name: package.name,
                id: release.id_spec(),
                direct: if item.consumer is None {
                    Some(item.alias)
                } else {
                    None
                },
                ty,
                source: package.source,
                location: package.location,
                target: release.target@,
                edges: Seq::empty(),
                declared: release.dependencies@,
            },
        ),
    };
    keys_with_edge(base, item.consumer, edge);
    assert(step_spec(ctx, s)->Ok_0.nodes == with_edge(base, item.consumer, edge));
}

/// Every state that the resolution passes through has its edges and its
/// direct nodes justified.
pub proof fn run_keeps_sound(ctx: Context, roots: Seq<WorkItem>, start: StateView, steps: nat)
    requires
        state_ok(start),
        state_sound(ctx, roots, start),
        run_spec(ctx, start, steps) is Ok,
        run_spec(ctx, start, steps)->Ok_0.nodes.len() <= usize::MAX,
    ensures
        state_ok(run_spec(ctx, start, steps)->Ok_0),
        state_sound(ctx, roots, run_spec(ctx, start, steps)->Ok_0),
        start.nodes.len() <= run_spec(ctx, start, steps)->Ok_0.nodes.len(),
    decreases steps,
{
    if steps > 0 {
        let before = run_spec(ctx, start, (steps - 1) as nat);
        run_keeps_order(ctx, start, (steps - 1) as nat);
        if before->Ok_0.queue.len() > 0 {
            step_keeps_nodes(ctx, before->Ok_0);
        }
        run_keeps_sound(ctx, roots, start, (steps - 1) as nat);
        if before->Ok_0.queue.len() > 0 {
            step_keeps_order(ctx, before->Ok_0);
            step_keeps_sound(ctx, roots, before->Ok_0);
        }
    }
}

/// In a resolved graph every edge, the peer edges among them, ends at a
/// release that satisfies the dependency which the node declares under
/// the alias of the edge; and every direct node is a release that
/// satisfies a dependency of the project.
pub proof fn expanded_edges_satisfy(ctx: Context, manifest: Manifest, nodes: Seq<NodeView>)
    requires
        expanded_spec(ctx, manifest, Ok(nodes)),
        nodes.len() <= usize::MAX,
    ensures
        forall|i: int, j: int|
            0 <= i < nodes.len() && 0 <= j < nodes[i].edges.len() ==> edge_justified(
                nodes[i],
                #[trigger] nodes[i].edges[j],
            ),
        forall|i: int|
            0 <= i < nodes.len() ==> direct_justified(
                ctx,
                first_items(manifest) + dev_items(manifest),
                #[trigger] nodes[i],
            ),
{
    let roots = first_items(manifest) + dev_items(manifest);
    let first = StateView { nodes: Seq::empty(), queue: first_items(manifest) };
    let mid = choose|mid: StateView|
        #![trigger reaches(ctx, first, Ok(mid))]
        reaches(ctx, first, Ok(mid)) && reaches(
            ctx,
            StateView { nodes: mid.nodes, queue: dev_items(manifest) },
            Ok(StateView { nodes, queue: Seq::empty() }),
        );
    let second = StateView { nodes: mid.nodes, queue: dev_items(manifest) };
    let last = StateView { nodes, queue: Seq::empty() };
    let m = choose|steps: nat| run_spec(ctx, first, steps) == Ok::<StateView, GraphErrorView>(mid);
    let n = choose|steps: nat| run_spec(ctx, second, steps) == Ok::<StateView, GraphErrorView>(last);
    assert(state_ok(first));
    run_keeps_order(ctx, first, m);
    assert(state_ok(second));
    nodes_never_shrink(ctx, second, n);
    assert forall|q: int| 0 <= q < first.queue.len() implies item_declared(
        first.nodes,
        roots,
        #[trigger] first.queue[q],
    ) by {
        assert(roots[q] == first.queue[q]);
        assert(first.queue[q].consumer is None);
    }
    run_keeps_sound(ctx, roots, first, m);
    assert forall|q: int| 0 <= q < second.queue.len() implies item_declared(
        second.nodes,
        roots,
        #[trigger] second.queue[q],
    ) by {
        assert(roots[first_items(manifest).len() + q] == second.queue[q]);
        assert(second.queue[q].consumer is None);
    }
    run_keeps_sound(ctx, roots, second, n);
}

/// The resolution removes no node.
pub proof fn nodes_never_shrink(ctx: Context, start: StateView, steps: nat)
    requires
        state_ok(start),
        run_spec(ctx, start, steps) is Ok,
    ensures
        start.nodes.len() <= run_spec(ctx, start, steps)->Ok_0.nodes.len(),
    decreases steps,
{
    if steps > 0 {
        let before = run_spec(ctx, start, (steps - 1) as nat);
        run_keeps_order(ctx, start, (steps - 1) as nat);
        nodes_never_shrink(ctx, start, (steps - 1) as nat);
        if before->Ok_0.queue.len() > 0 {
            step_keeps_nodes(ctx, before->Ok_0);
        }
    }
}

/// A step of the resolution for a Roblox project keeps every node that is
/// needed outside of development a Roblox package.
pub proof fn step_keeps_roblox(ctx: Context, s: StateView)
    requires
        ctx.root.is_roblox_spec(),
        snapshot_asks_no_foreign_kind(ctx.snapshot),
        state_ok(s),
        state_roblox(s),
        s.queue.len() > 0,
        step_spec(ctx, s) is Ok,
        step_spec(ctx, s)->Ok_0.nodes.len() <= usize::MAX,
    ensures
        state_roblox(step_spec(ctx, s)->Ok_0),
{
    let item = s.queue[0];
    let consumer = consumer_kind_spec(ctx, s.nodes, item);
    let ty = effective_type_spec(s.nodes, item);
    let location = location_spec(ctx, item)->Ok_0;
    let p = first_package(ctx.snapshot, item.specifier, location, 0)->0;
    first_package_matches(ctx.snapshot, item.specifier, location, 0);
    let package = ctx.snapshot[p];
    let r = pick_spec(
        package.releases@,
        item.specifier,
        consumer,
        package.releases@.len() as int,
    )->0;
    picked_release_is_best(
        package.releases@,
        item.specifier,
        consumer,
        package.releases@.len() as int,
    );
    let release = package.releases@[r];
    let edge = Edge { name: package.name, version_id: release.id_spec(), alias: item.alias };
    let key = (package.name@, release.id_spec()@);
    let keys = node_keys(s.nodes);
    let after = step_spec(ctx, s)->Ok_0;
    keys.index_of_first_ensures(key);
    assert(item.consumer matches Some(c) ==> c < s.nodes.len());
    assert(asks_no_foreign_kind(item.specifier));
    assert(candidate_spec(item.specifier, release.id_spec(), consumer));
    // a release that is needed outside of development has a consumer of a
    // Roblox kind, and satisfies a dependency that asks for no other kind
    assert(ty != DependencyType::Dev ==> release.id_spec().target.is_roblox_spec()) by {
        if ty != DependencyType::Dev {
            match item.consumer {
                Some(c) => {
                    assert(s.nodes[c as int].ty != DependencyType::Dev);
                },
                None => {},
            }
            assert(consumer.is_roblox_spec());
        }
    }
    let base = match keys.index_of_first(key) {
        Some(n) => s.nodes.update(n, merged_spec(s.nodes[n], item, ty)),
        None => s.nodes.push(
            NodeView {
                name: package.name,
                id: release.id_spec(),
                direct: if item.consumer is None {
                    Some(item.alias)
                } else {
                    None
                },
                ty,
                source: package.source,
                location: package.location,
                target: release.target@,
                edges: Seq::empty(),
                declared: release.dependencies@,
            },
        ),
    };
    assert(after.nodes == with_edge(base, item.consumer, edge));
    assert forall|i: int|
        0 <= i < after.nodes.len() && (#[trigger] after.nodes[i]).ty
            != DependencyType::Dev implies after.nodes[i].id.target.is_roblox_spec() by {
        if i < s.nodes.len() {
            assert(after.nodes[i].id == s.nodes[i].id);
            if s.nodes[i].ty == DependencyType::Dev {
                // the node counts for more than it did: it is the release of this step
                assert(keys.index_of_first(key) == Some(i));
                assert(keys[i] == key);
                assert(s.nodes[i].id@ == release.id_spec()@);
            }
        }
    }
    let items = items_spec(release.dependencies@, s.nodes.len() as usize);
    assert forall|q: int| 0 <= q < after.queue.len() implies asks_no_foreign_kind(
        (#[trigger] after.queue[q]).specifier,
    ) by {
        if q < s.queue.len() - 1 {
            assert(after.queue[q] == s.queue[q + 1]);
        } else {
            let at = q - (s.queue.len() - 1);
            assert(keys.index_of_first(key) is None);
            assert(after.queue[q] == items[at]);
            let kept = release.dependencies@.filter(is_normal());
            assert(after.queue[q] == item_of(s.nodes.len() as usize)(kept[at]));
            assert(kept.contains(kept[at]));
            release.dependencies@.lemma_filter_contains_rev(is_normal(), kept[at]);
            let k = choose|k: int|
                0 <= k < release.dependencies@.len() && release.dependencies@[k] == kept[at];
            assert(asks_no_foreign_kind(ctx.snapshot[p].releases@[r].dependencies@[k].specifier));
        }
    }
}

/// Every state that the resolution for a Roblox project passes through
/// has only Roblox packages among the nodes that are needed outside of
/// development.
pub proof fn run_keeps_roblox(ctx: Context, start: StateView, steps: nat)
    requires
        ctx.root.is_roblox_spec(),
        snapshot_asks_no_foreign_kind(ctx.snapshot),
        state_ok(start),
        state_roblox(start),
        run_spec(ctx, start, steps) is Ok,
        run_spec(ctx, start, steps)->Ok_0.nodes.len() <= usize::MAX,
    ensures
        state_roblox(run_spec(ctx, start, steps)->Ok_0),
    decreases steps,
{
    if steps > 0 {
        let before = run_spec(ctx, start, (steps - 1) as nat);
        run_keeps_order(ctx, start, (steps - 1) as nat);
        if before->Ok_0.queue.len() > 0 {
            step_keeps_nodes(ctx, before->Ok_0);
        }
        run_keeps_roblox(ctx, start, (steps - 1) as nat);
        if before->Ok_0.queue.len() > 0 {
            step_keeps_roblox(ctx, before->Ok_0);
        }
    }
}

/// A Roblox project needs only Roblox packages outside of development:
/// in its resolved graph every node that is no dev dependency is built
/// for a Roblox kind. This holds where no dependency, of the project or
/// of a release that the sources know, asks by name for a kind that is
/// not a Roblox kind: such a dependency is given what it asks for.
pub proof fn expanded_roblox_only(ctx: Context, manifest: Manifest, nodes: Seq<NodeView>)
    requires
        expanded_spec(ctx, manifest, Ok(nodes)),
        nodes.len() <= usize::MAX,
        ctx.root.is_roblox_spec(),
        snapshot_asks_no_foreign_kind(ctx.snapshot),
        forall|k: int|
            0 <= k < manifest.dependencies@.len() ==> asks_no_foreign_kind(
                (#[trigger] manifest.dependencies@[k]).specifier,
            ),
        forall|k: int|
            0 <= k < manifest.peer_dependencies@.len() ==> asks_no_foreign_kind(
                (#[trigger] manifest.peer_dependencies@[k]).specifier,
            ),
        forall|k: int|
            0 <= k < manifest.dev_dependencies@.len() ==> asks_no_foreign_kind(
                (#[trigger] manifest.dev_dependencies@[k]).specifier,
            ),
    ensures
        forall|i: int|
            0 <= i < nodes.len() && (#[trigger] nodes[i]).ty != DependencyType::Dev
                ==> nodes[i].id.target.is_roblox_spec(),
{
    let first = StateView { nodes: Seq::empty(), queue: first_items(manifest) };
    let mid = choose|mid: StateView|
        #![trigger reaches(ctx, first, Ok(mid))]
        reaches(ctx, first, Ok(mid)) && reaches(
            ctx,
            StateView { nodes: mid.nodes, queue: dev_items(manifest) },
            Ok(StateView { nodes, queue: Seq::empty() }),
        );
    let second = StateView { nodes: mid.nodes, queue: dev_items(manifest) };
    let last = StateView { nodes, queue: Seq::empty() };
    let m = choose|steps: nat| run_spec(ctx, first, steps) == Ok::<StateView, GraphErrorView>(mid);
    let n = choose|steps: nat| run_spec(ctx, second, steps) == Ok::<StateView, GraphErrorView>(last);
    assert(state_ok(first));
    run_keeps_order(ctx, first, m);
    assert(state_ok(second));
    nodes_never_shrink(ctx, second, n);
    assert forall|q: int| 0 <= q < first.queue.len() implies asks_no_foreign_kind(
        (#[trigger] first.queue[q]).specifier,
    ) by {
        let normal = manifest.dependencies@.len();
        if q < normal {
            assert(first.queue[q].specifier == manifest.dependencies@[q].specifier);
        } else {
            assert(first.queue[q].specifier == manifest.peer_dependencies@[q - normal].specifier);
        }
    }
    run_keeps_roblox(ctx, first, m);
    assert forall|q: int| 0 <= q < second.queue.len() implies asks_no_foreign_kind(
        (#[trigger] second.queue[q]).specifier,
    ) by {
        assert(second.queue[q].specifier == manifest.dev_dependencies@[q].specifier);
    }
    run_keeps_roblox(ctx, second, n);
}

/// Resolution is deterministic: the same manifest and the same snapshot
/// of the sources give the same graph, or the same error.
pub proof fn resolve_is_deterministic(
    ctx: Context,
    manifest: Manifest,
    a: Result<Seq<NodeView>, GraphErrorView>,
    b: Result<Seq<NodeView>, GraphErrorView>,
)
    requires
        resolved_spec(ctx, manifest, a),
        resolved_spec(ctx, manifest, b),
    ensures
        a == b,
{
    let x = choose|expanded: Result<Seq<NodeView>, GraphErrorView>|
        #![trigger expanded_spec(ctx, manifest, expanded)]
        expanded_spec(ctx, manifest, expanded) && a == match expanded {
            Err(e) => Err(e),
            Ok(nodes) => checked_spec(peers_spec(nodes, nodes.len() as int)),
        };
    let y = choose|expanded: Result<Seq<NodeView>, GraphErrorView>|
        #![trigger expanded_spec(ctx, manifest, expanded)]
        expanded_spec(ctx, manifest, expanded) && b == match expanded {
            Err(e) => Err(e),
            Ok(nodes) => checked_spec(peers_spec(nodes, nodes.len() as int)),
        };
    expansion_is_deterministic(ctx, manifest, x, y);
}

/// Once a peer dependency of a node has no provider, the node fails with
/// that error, whatever it declares further.
pub(crate) proof fn node_failure_stays(nodes: Seq<NodeView>, at: int, failed: int, upto: int)
    requires
        0 <= failed <= upto,
        node_peers_spec(nodes, at, failed) is Err,
    ensures
        node_peers_spec(nodes, at, upto) == node_peers_spec(nodes, at, failed),
    decreases upto - failed,
{
    if failed < upto {
        node_failure_stays(nodes, at, failed, upto - 1);
    }
}

/// Once a node has failed, the graph fails with that error, whatever
/// nodes follow.
pub(crate) proof fn peers_failure_stays(nodes: Seq<NodeView>, failed: int, upto: int)
    requires
        0 <= failed <= upto,
        peers_spec(nodes, failed) is Err,
    ensures
        peers_spec(nodes, upto) == peers_spec(nodes, failed),
    decreases upto - failed,
{
    if failed < upto {
        peers_failure_stays(nodes, failed, upto - 1);
    }
}

/// The node that provides a peer dependency is a node of the graph, a
/// release of what the dependency names, and satisfies it.
pub proof fn provider_satisfies(
    nodes: Seq<NodeView>,
    specifier: DependencySpecifiers,
    consumer: TargetKind,
    upto: int,
)
    requires
        0 <= upto <= nodes.len(),
    ensures
        provider_spec(nodes, specifier, consumer, upto) matches Some(q) ==> 0 <= q < upto
            && provides(nodes[q], specifier) && candidate_spec(specifier, nodes[q].id, consumer),
    decreases upto,
{
    if upto > 0 {
        provider_satisfies(nodes, specifier, consumer, upto - 1);
    }
}

/// Giving a peer dependency its edge changes no node but for its edges,
/// and keeps every edge in order.
pub(crate) proof fn peer_edge_keeps(nodes: Seq<NodeView>, at: int, k: int)
    requires
        0 <= at < nodes.len(),
        0 <= k < nodes[at].declared.len(),
        edges_ok(nodes),
        peer_edge_spec(nodes, at, k) is Ok,
    ensures
        same_but_edges(nodes, peer_edge_spec(nodes, at, k)->Ok_0),
        edges_ok(peer_edge_spec(nodes, at, k)->Ok_0),
{
    let declared = nodes[at].declared[k];
    let after = peer_edge_spec(nodes, at, k)->Ok_0;
    if declared.ty == DependencyType::Peer {
        provider_satisfies(nodes, declared.specifier, nodes[at].id.target, nodes.len() as int);
        let q = provider_spec(
            nodes,
            declared.specifier,
            nodes[at].id.target,
            nodes.len() as int,
        )->0;
        let edge = Edge { name: nodes[q].name, version_id: nodes[q].id, alias: declared.alias };
        assert(after == with_edge_at(nodes, at, edge));
        assert(node_keys(after) =~= node_keys(nodes));
        assert(node_keys(nodes)[q] == (edge.name@, edge.version_id@));
        assert forall|i: int, j: int|
            0 <= i < after.len() && 0 <= j < after[i].edges.len() implies node_keys(after).contains(
            ((#[trigger] after[i].edges[j]).name@, after[i].edges[j].version_id@),
        ) && edge_justified(after[i], after[i].edges[j]) by {
            if j < nodes[i].edges.len() {
                assert(after[i].edges[j] == nodes[i].edges[j]);
                let e = nodes[i].edges[j];
                assert(edge_justified(nodes[i], e));
                let w = choose|w: int|
                    0 <= w < nodes[i].declared.len() && (#[trigger] nodes[i].declared[w]).alias
                        == e.alias && candidate_spec(
                        nodes[i].declared[w].specifier,
                        e.version_id,
                        nodes[i].id.target,
                    );
                assert(after[i].declared[w].alias == e.alias);
            } else {
                assert(i == at);
                assert(after[i].edges[j] == edge);
                assert(after[i].declared[k].alias == edge.alias);
            }
        }
    }
}

/// Looking at the declared dependencies of a node changes no node but for
/// its edges, and keeps every edge in order.
pub(crate) proof fn node_peers_keep(nodes: Seq<NodeView>, at: int, upto: int)
    requires
        0 <= at < nodes.len(),
        0 <= upto <= nodes[at].declared.len(),
        edges_ok(nodes),
        node_peers_spec(nodes, at, upto) is Ok,
    ensures
        same_but_edges(nodes, node_peers_spec(nodes, at, upto)->Ok_0),
        edges_ok(node_peers_spec(nodes, at, upto)->Ok_0),
    decreases upto,
{
    if upto > 0 {
        node_peers_keep(nodes, at, upto - 1);
        let before = node_peers_spec(nodes, at, upto - 1)->Ok_0;
        assert(before[at].declared == nodes[at].declared);
        peer_edge_keeps(before, at, upto - 1);
        let after = peer_edge_spec(before, at, upto - 1)->Ok_0;
        assert forall|i: int| 0 <= i < nodes.len() implies (#[trigger] after[i]).name
            == nodes[i].name && after[i].id == nodes[i].id && after[i].direct == nodes[i].direct
            && after[i].ty == nodes[i].ty && after[i].source == nodes[i].source
            && after[i].location == nodes[i].location && after[i].declared
            == nodes[i].declared by {
            assert(before[i].name == nodes[i].name);
        }
    }
}

/// Giving the peer dependencies their edges changes no node but for its
/// edges, and keeps every edge in order.
pub proof fn peers_keep(nodes: Seq<NodeView>, upto: int)
    requires
        0 <= upto <= nodes.len(),
        edges_ok(nodes),
        peers_spec(nodes, upto) is Ok,
    ensures
        same_but_edges(nodes, peers_spec(nodes, upto)->Ok_0),
        edges_ok(peers_spec(nodes, upto)->Ok_0),
    decreases upto,
{
    if upto > 0 {
        peers_keep(nodes, upto - 1);
        let before = peers_spec(nodes, upto - 1)->Ok_0;
        assert(before[upto - 1].declared == nodes[upto - 1].declared);
        node_peers_keep(before, upto - 1, before[upto - 1].declared.len() as int);
        let after = node_peers_spec(before, upto - 1, before[upto - 1].declared.len() as int)->Ok_0;
        assert forall|i: int| 0 <= i < nodes.len() implies (#[trigger] after[i]).name
            == nodes[i].name && after[i].id == nodes[i].id && after[i].direct == nodes[i].direct
            && after[i].ty == nodes[i].ty && after[i].source == nodes[i].source
            && after[i].location == nodes[i].location && after[i].declared
            == nodes[i].declared by {
            assert(before[i].name == nodes[i].name);
        }
    }
}

/// The graph that was expanded before the peer dependencies of a resolved
/// graph were given their edges.
pub(crate) proof fn expanded_before(ctx: Context, manifest: Manifest, nodes: Seq<NodeView>) -> (expanded: Seq<
    NodeView,
>)
    requires
        resolved_spec(ctx, manifest, Ok(nodes)),
        nodes.len() <= usize::MAX,
    ensures
        expanded_spec(ctx, manifest, Ok(expanded)),
        peers_spec(expanded, expanded.len() as int) == Ok::<Seq<NodeView>, GraphErrorView>(nodes),
        same_but_edges(expanded, nodes),
        edges_ok(nodes),
        node_keys(nodes) == node_keys(expanded),
        has_no_cycle(nodes),
{
    let found = choose|expanded: Result<Seq<NodeView>, GraphErrorView>|
        #![trigger expanded_spec(ctx, manifest, expanded)]
        expanded_spec(ctx, manifest, expanded) && Ok::<Seq<NodeView>, GraphErrorView>(nodes)
            == match expanded {
            Err(e) => Err(e),
            Ok(nodes) => checked_spec(peers_spec(nodes, nodes.len() as int)),
        };
    let expanded = found->Ok_0;
    expanded_graph_is_closed(ctx, manifest, expanded);
    // the peer pass adds no node, so the expanded graph is no larger
    peers_keep_length(expanded, expanded.len() as int);
    expanded_edges_satisfy(ctx, manifest, expanded);
    peers_keep(expanded, expanded.len() as int);
    assert(node_keys(nodes) =~= node_keys(expanded));
    expanded
}

/// Giving one peer dependency its edge adds no node.
pub(crate) proof fn peer_edge_keeps_length(nodes: Seq<NodeView>, at: int, k: int)
    requires
        0 <= at < nodes.len(),
        peer_edge_spec(nodes, at, k) is Ok,
    ensures
        peer_edge_spec(nodes, at, k)->Ok_0.len() == nodes.len(),
        forall|i: int|
            0 <= i < nodes.len() ==> (#[trigger] peer_edge_spec(nodes, at, k)->Ok_0[i]).declared
                == nodes[i].declared,
{
}

/// Looking at the declared dependencies of a node adds no node.
pub(crate) proof fn node_peers_keep_length(nodes: Seq<NodeView>, at: int, upto: int)
    requires
        0 <= at < nodes.len(),
        node_peers_spec(nodes, at, upto) is Ok,
    ensures
        node_peers_spec(nodes, at, upto)->Ok_0.len() == nodes.len(),
        forall|i: int|
            0 <= i < nodes.len() ==> (#[trigger] node_peers_spec(nodes, at, upto)->Ok_0[i]).declared
                == nodes[i].declared,
    decreases upto,
{
    if upto > 0 {
        node_peers_keep_length(nodes, at, upto - 1);
        let before = node_peers_spec(nodes, at, upto - 1)->Ok_0;
        peer_edge_keeps_length(before, at, upto - 1);
        let after = peer_edge_spec(before, at, upto - 1)->Ok_0;
        assert forall|i: int| 0 <= i < nodes.len() implies (#[trigger] after[i]).declared
            == nodes[i].declared by {
            assert(before[i].declared == nodes[i].declared);
        }
    }
}

/// Giving the peer dependencies their edges adds no node.
pub(crate) proof fn peers_keep_length(nodes: Seq<NodeView>, upto: int)
    requires
        0 <= upto <= nodes.len(),
        peers_spec(nodes, upto) is Ok,
    ensures
        peers_spec(nodes, upto)->Ok_0.len() == nodes.len(),
        forall|i: int|
            0 <= i < nodes.len() ==> (#[trigger] peers_spec(nodes, upto)->Ok_0[i]).declared
                == nodes[i].declared,
    decreases upto,
{
    if upto > 0 {
        peers_keep_length(nodes, upto - 1);
        let before = peers_spec(nodes, upto - 1)->Ok_0;
        node_peers_keep_length(before, upto - 1, before[upto - 1].declared.len() as int);
        let after = node_peers_spec(before, upto - 1, before[upto - 1].declared.len() as int)->Ok_0;
        assert forall|i: int| 0 <= i < nodes.len() implies (#[trigger] after[i]).declared
            == nodes[i].declared by {
            assert(before[i].declared == nodes[i].declared);
        }
    }
}

/// In a resolved graph each release is a node once, is built for the kind
/// that its source records, and every edge ends at a node of the graph;
/// no two nodes that are needed outside of development are two
/// versions of one package, built for one kind: a resolution that would
/// need both ends in a conflict, and gives no graph; and the graph has no
/// cycle.
pub proof fn resolved_graph_is_closed(ctx: Context, manifest: Manifest, nodes: Seq<NodeView>)
    requires
        resolved_spec(ctx, manifest, Ok(nodes)),
        nodes.len() <= usize::MAX,
    ensures
        node_keys(nodes).no_duplicates(),
        no_conflict(nodes),
        has_no_cycle(nodes),
        forall|i: int| 0 <= i < nodes.len() ==> (#[trigger] nodes[i]).target.kind == nodes[i].id.target,
        forall|i: int, j: int|
            0 <= i < nodes.len() && 0 <= j < nodes[i].edges.len() ==> node_keys(nodes).contains(
                ((#[trigger] nodes[i].edges[j]).name@, nodes[i].edges[j].version_id@),
            ),
{
    let expanded = expanded_before(ctx, manifest, nodes);
    expanded_graph_is_closed(ctx, manifest, expanded);
    assert forall|i: int| 0 <= i < nodes.len() implies (#[trigger] nodes[i]).target.kind
        == nodes[i].id.target by {
        assert(expanded[i].target.kind == expanded[i].id.target);
    }
    assert forall|i: int, j: int|
        0 <= i < nodes.len() && 0 <= j < nodes.len() && (#[trigger] nodes[i]).ty
            != DependencyType::Dev && (#[trigger] nodes[j]).ty != DependencyType::Dev
            && nodes[i].name@ == nodes[j].name@ && nodes[i].id.target
            == nodes[j].id.target implies nodes[i].id.version@ == nodes[j].id.version@ by {
        assert(expanded[i].ty == nodes[i].ty && expanded[j].ty == nodes[j].ty);
        assert(expanded[i].name == nodes[i].name && expanded[j].name == nodes[j].name);
    }
}

/// In a resolved graph every edge, the peer edges among them, ends at a
/// release that satisfies the dependency which the node declares under
/// the alias of the edge; and every direct node is a release that
/// satisfies a dependency of the project.
pub proof fn edges_satisfy_specifiers(ctx: Context, manifest: Manifest, nodes: Seq<NodeView>)
    requires
        resolved_spec(ctx, manifest, Ok(nodes)),
        nodes.len() <= usize::MAX,
    ensures
        forall|i: int, j: int|
            0 <= i < nodes.len() && 0 <= j < nodes[i].edges.len() ==> edge_justified(
                nodes[i],
                #[trigger] nodes[i].edges[j],
            ),
        forall|i: int|
            0 <= i < nodes.len() ==> direct_justified(
                ctx,
                first_items(manifest) + dev_items(manifest),
                #[trigger] nodes[i],
            ),
{
    let expanded = expanded_before(ctx, manifest, nodes);
    expanded_edges_satisfy(ctx, manifest, expanded);
    assert forall|i: int| 0 <= i < nodes.len() implies direct_justified(
        ctx,
        first_items(manifest) + dev_items(manifest),
        #[trigger] nodes[i],
    ) by {
        assert(direct_justified(ctx, first_items(manifest) + dev_items(manifest), expanded[i]));
        assert(nodes[i].direct == expanded[i].direct && nodes[i].id == expanded[i].id);
    }
}

/// A Roblox project needs only Roblox packages outside of development:
/// in its resolved graph every node that is no dev dependency is built
/// for a Roblox kind. This holds where no dependency, of the project or
/// of a release that the sources know, asks by name for a kind that is
/// not a Roblox kind: such a dependency is given what it asks for.
pub proof fn roblox_needs_only_roblox(ctx: Context, manifest: Manifest, nodes: Seq<NodeView>)
    requires
        resolved_spec(ctx, manifest, Ok(nodes)),
        nodes.len() <= usize::MAX,
        ctx.root.is_roblox_spec(),
        snapshot_asks_no_foreign_kind(ctx.snapshot),
        forall|k: int|
            0 <= k < manifest.dependencies@.len() ==> asks_no_foreign_kind(
                (#[trigger] manifest.dependencies@[k]).specifier,
            ),
        forall|k: int|
            0 <= k < manifest.peer_dependencies@.len() ==> asks_no_foreign_kind(
                (#[trigger] manifest.peer_dependencies@[k]).specifier,
            ),
        forall|k: int|
            0 <= k < manifest.dev_dependencies@.len() ==> asks_no_foreign_kind(
                (#[trigger] manifest.dev_dependencies@[k]).specifier,
            ),
    ensures
        forall|i: int|
            0 <= i < nodes.len() && (#[trigger] nodes[i]).ty != DependencyType::Dev
                ==> nodes[i].id.target.is_roblox_spec(),
{
    let expanded = expanded_before(ctx, manifest, nodes);
    expanded_roblox_only(ctx, manifest, expanded);
    assert forall|i: int|
        0 <= i < nodes.len() && (#[trigger] nodes[i]).ty
            != DependencyType::Dev implies nodes[i].id.target.is_roblox_spec() by {
        assert(expanded[i].ty == nodes[i].ty && expanded[i].id == nodes[i].id);
    }
}

} // verus!
