//! Every input of every node has its tap, and the map finds it.

use crate::document::NodeId;
use crate::evaluation::{find, lemma_find_node, lemma_find_tap, lemma_in_use, lemma_place_of_tap, lemma_slot_bounds, lemma_slots_differ, lemma_tapped_inside, tapped};
use crate::instrument::{is_tap, monitors_at, node_instrumented, node_records, operation, own_record, records_of, records_upto, tap_at, tap_position, tap_slot, TapRecordView};
use crate::network::{distinct_ids, distinct_within, nested_slots, occurs, slots_upto, DocumentNode, DocumentNodeImplementation, NodeInput, NodeNetwork};
use vstd::prelude::*;

verus! {

/// The node that `path` leads to: each id but the last names a node that is
/// implemented by a network, in which the rest of the path is followed.
pub open spec fn node_at(network: NodeNetwork, path: Seq<NodeId>) -> Option<DocumentNode>
    decreases path.len(),
{
    if path.len() == 0 {
        None
    } else {
        match find(network.nodes@, path[0]) {
            None => None,
            Some(i) => if path.len() == 1 {
                Some(network.nodes@[i].1)
            } else {
                match network.nodes@[i].1.implementation {
                    DocumentNodeImplementation::Network(nested) => node_at(nested, path.drop_first()),
                    _ => None,
                }
            },
        }
    }
}

/// The id of the tap on input `j` of the node that `path` leads to, where
/// the slots of the network are counted from `offset`.
pub open spec fn tap_id_at(network: NodeNetwork, tap: spec_fn(int) -> NodeId, offset: int, path: Seq<NodeId>, j: int) -> NodeId
    decreases path.len(),
{
    if path.len() == 0 {
        tap(offset)
    } else {
        match find(network.nodes@, path[0]) {
            None => tap(offset),
            Some(i) => if path.len() == 1 {
                tap(tap_slot(network.nodes@, i, j, offset))
            } else {
                match network.nodes@[i].1.implementation {
                    DocumentNodeImplementation::Network(nested) => tap_id_at(nested, tap, offset + slots_upto(network.nodes@, i), path.drop_first(), j),
                    _ => tap(offset),
                }
            },
        }
    }
}

/// Each of these records lies beyond `prefix`: its path begins with it and
/// goes on.
pub open spec fn all_beyond(records: Seq<TapRecordView>, prefix: Seq<NodeId>) -> bool {
    forall|r: int| 0 <= r < records.len() ==> (#[trigger] records[r]).path.len() >= prefix.len() && records[r].path.take(prefix.len() as int) == prefix
}

/// The records of a node lie beyond the path to the node.
pub proof fn lemma_node_records_beyond(entry: (NodeId, DocumentNode), tap: spec_fn(int) -> NodeId, offset: int, here: Seq<NodeId>)
    ensures
        all_beyond(node_records(entry, tap, offset, here), here.push(entry.0)),
    decreases entry, 0nat,
{
    let prefix = here.push(entry.0);
    let records = node_records(entry, tap, offset, here);
    assert(prefix.take(prefix.len() as int) =~= prefix);
    if let DocumentNodeImplementation::Network(nested) = entry.1.implementation {
        lemma_records_beyond(nested.nodes@, nested.nodes@.len() as int, tap, offset, prefix);
        let inside = records_of(nested, tap, offset, prefix);
        assert forall|r: int| 0 <= r < records.len() implies (#[trigger] records[r]).path.len() >= prefix.len() && records[r].path.take(
            prefix.len() as int,
        ) == prefix by {
            if r < inside.len() {
                assert(records[r] == inside[r]);
            }
        }
    }
}

/// The records of the nodes of a network lie beyond the path to the
/// network.
pub proof fn lemma_records_beyond(nodes: Seq<(NodeId, DocumentNode)>, n: int, tap: spec_fn(int) -> NodeId, offset: int, here: Seq<NodeId>)
    ensures
        all_beyond(records_upto(nodes, n, tap, offset, here), here),
    decreases nodes, n,
{
    if 0 < n <= nodes.len() {
        lemma_records_beyond(nodes, n - 1, tap, offset, here);
        let own = node_records(nodes[n - 1], tap, offset + slots_upto(nodes, n - 1), here);
        lemma_node_records_beyond(nodes[n - 1], tap, offset + slots_upto(nodes, n - 1), here);
        let before = records_upto(nodes, n - 1, tap, offset, here);
        let all = before + own;
        let prefix = here.push(nodes[n - 1].0);
        assert forall|r: int| 0 <= r < all.len() implies (#[trigger] all[r]).path.len() >= here.len() && all[r].path.take(here.len() as int) == here by {
            if r >= before.len() {
                let record = own[r - before.len()];
                assert(record.path.take(prefix.len() as int) == prefix);
                assert(record.path.take(here.len() as int) =~= prefix.take(here.len() as int));
                assert(prefix.take(here.len() as int) =~= here);
            }
        }
    }
}

/// Among records that lie beyond a prefix that `path` does not begin with,
/// none is found under `path`.
pub proof fn lemma_not_beyond(records: Seq<TapRecordView>, prefix: Seq<NodeId>, path: Seq<NodeId>)
    requires
        all_beyond(records, prefix),
        path.len() < prefix.len() || path.take(prefix.len() as int) != prefix,
    ensures
        monitors_at(records, path) is None,
    decreases records.len(),
{
    if records.len() > 0 {
        assert(records.last() == records[records.len() - 1]);
        assert forall|r: int| 0 <= r < records.drop_last().len() implies (#[trigger] records.drop_last()[r]).path.len() >= prefix.len()
            && records.drop_last()[r].path.take(prefix.len() as int) == prefix by {
            assert(records.drop_last()[r] == records[r]);
        }
        lemma_not_beyond(records.drop_last(), prefix, path);
    }
}

/// What is found in two lists of records one after the other: what is found
/// in the second, and failing that what is found in the first.
pub proof fn lemma_found_in_either(first: Seq<TapRecordView>, second: Seq<TapRecordView>, path: Seq<NodeId>)
    ensures
        monitors_at(first + second, path) == if monitors_at(second, path) is Some {
            monitors_at(second, path)
        } else {
            monitors_at(first, path)
        },
    decreases second.len(),
{
    if second.len() == 0 {
        assert(first + second =~= first);
    } else {
        assert((first + second).last() == second.last());
        assert((first + second).drop_last() =~= first + second.drop_last());
        lemma_found_in_either(first, second.drop_last(), path);
    }
}

/// Under a path that goes through node `i`, the records of the first `m`
/// nodes hold what the records of node `i` hold.
pub proof fn lemma_found_at_node(nodes: Seq<(NodeId, DocumentNode)>, m: int, i: int, tap: spec_fn(int) -> NodeId, offset: int, here: Seq<NodeId>, path: Seq<NodeId>)
    requires
        0 <= i < m <= nodes.len(),
        forall|a: int, b: int| 0 <= a < b < nodes.len() ==> nodes[a].0 != nodes[b].0,
        path.len() > here.len(),
        path.take(here.len() as int + 1) == here.push(nodes[i].0),
    ensures
        monitors_at(records_upto(nodes, m, tap, offset, here), path) == monitors_at(
            node_records(nodes[i], tap, offset + slots_upto(nodes, i), here),
            path,
        ),
    decreases m,
{
    let last = node_records(nodes[m - 1], tap, offset + slots_upto(nodes, m - 1), here);
    let before = records_upto(nodes, m - 1, tap, offset, here);
    lemma_found_in_either(before, last, path);
    if m - 1 == i {
        if monitors_at(last, path) is None {
            lemma_none_before(nodes, m - 1, i, tap, offset, here, path);
        }
    } else {
        lemma_node_records_beyond(nodes[m - 1], tap, offset + slots_upto(nodes, m - 1), here);
        assert(here.push(nodes[m - 1].0) != here.push(nodes[i].0)) by {
            assert(here.push(nodes[m - 1].0).last() == nodes[m - 1].0);
            assert(here.push(nodes[i].0).last() == nodes[i].0);
        }
        lemma_not_beyond(last, here.push(nodes[m - 1].0), path);
        lemma_found_at_node(nodes, m - 1, i, tap, offset, here, path);
    }
}

/// Under a path that goes through node `i`, the records of the nodes before
/// it hold nothing.
pub proof fn lemma_none_before(nodes: Seq<(NodeId, DocumentNode)>, m: int, i: int, tap: spec_fn(int) -> NodeId, offset: int, here: Seq<NodeId>, path: Seq<NodeId>)
    requires
        0 <= m <= i < nodes.len(),
        forall|a: int, b: int| 0 <= a < b < nodes.len() ==> nodes[a].0 != nodes[b].0,
        path.len() > here.len(),
        path.take(here.len() as int + 1) == here.push(nodes[i].0),
    ensures
        monitors_at(records_upto(nodes, m, tap, offset, here), path) is None,
    decreases m,
{
    if m > 0 {
        let last = node_records(nodes[m - 1], tap, offset + slots_upto(nodes, m - 1), here);
        let before = records_upto(nodes, m - 1, tap, offset, here);
        lemma_found_in_either(before, last, path);
        lemma_node_records_beyond(nodes[m - 1], tap, offset + slots_upto(nodes, m - 1), here);
        assert(here.push(nodes[m - 1].0) != here.push(nodes[i].0)) by {
            assert(here.push(nodes[m - 1].0).last() == nodes[m - 1].0);
            assert(here.push(nodes[i].0).last() == nodes[i].0);
        }
        lemma_not_beyond(last, here.push(nodes[m - 1].0), path);
        lemma_none_before(nodes, m - 1, i, tap, offset, here, path);
    }
}

/// Every input of every node has its tap, and the map leads to it. Let
/// `after` be `before` with taps, and let `path` lead to a node of `before`,
/// of whatever kind, that has an input `j`. Then the same path leads to a
/// node of `after` whose input `j` comes from output 0 of a tap; that tap
/// stands in the same network as the node and holds what the input held;
/// and the map of the rewrite, asked for input `j` of the node at `path`,
/// gives the path to that very tap.
pub proof fn lemma_every_input_is_tapped(
    before: NodeNetwork,
    after: NodeNetwork,
    tap: spec_fn(int) -> NodeId,
    offset: int,
    here: Seq<NodeId>,
    path: Seq<NodeId>,
    j: int,
)
    requires
        tapped(before, after, tap, offset),
        node_at(before, path) is Some,
        0 <= j < node_at(before, path)->0.inputs@.len(),
    ensures
        ({
            let source = node_at(before, path)->0.inputs@[j];
            let id = tap_id_at(before, tap, offset, path, j);
            &&& node_at(after, path) matches Some(rewritten) && rewritten.inputs@.len() == node_at(before, path)->0.inputs@.len() && rewritten.inputs@[j] == (
                NodeInput::Node { node_id: id, output_index: 0 })
            &&& node_at(after, path.drop_last().push(id)) matches Some(monitor) && is_tap(monitor, source)
            &&& tap_at(records_of(before, tap, offset, here), here + path, j) == Some((here + path).drop_last().push(id))
        }),
    decreases path.len(),
{
    let nodes = before.nodes@;
    let n = nodes.len() as int;
    let i = find(nodes, path[0])->0;
    let id = tap_id_at(before, tap, offset, path, j);
    let inner = offset + slots_upto(nodes, i);
    lemma_find_node(before, after, tap, offset, i);
    assert(node_instrumented(nodes[i].1, after.nodes@[i].1, tap, inner));
    assert((here + path).take(here.len() as int + 1) =~= here.push(nodes[i].0));
    lemma_found_at_node(nodes, n, i, tap, offset, here, here + path);
    if path.len() == 1 {
        let node = nodes[i].1;
        lemma_find_tap(before, after, tap, offset, i, j);
        assert(path.drop_last().push(id) =~= seq![id]);
        assert(seq![id][0] == id);
        let record = own_record(operation(node), here.push(nodes[i].0), node.inputs@.len(), tap, inner + nested_slots(node));
        assert(here + path =~= here.push(nodes[i].0));
        assert(node_records(nodes[i], tap, inner, here).last() == record);
        assert(after.nodes@[i].1.inputs@[j] == (NodeInput::Node { node_id: id, output_index: 0 }));
        assert((here + path).drop_last() =~= here);
        assert(here.push(nodes[i].0).drop_last() =~= here);
    } else {
        let nested = nodes[i].1.implementation->Network_0;
        lemma_tapped_inside(before, after, tap, offset, i);
        let rewritten = after.nodes@[i].1.implementation->Network_0;
        let rest = path.drop_first();
        lemma_every_input_is_tapped(nested, rewritten, tap, inner, here.push(nodes[i].0), rest, j);
        assert(here.push(nodes[i].0) + rest =~= here + path);
        let inside = records_of(nested, tap, inner, here.push(nodes[i].0));
        let all = node_records(nodes[i], tap, inner, here);
        assert(all.last().path.len() != (here + path).len());
        assert(all.drop_last() =~= inside);
        let deeper = path.drop_last().push(id);
        assert(deeper[0] == path[0]);
        assert(deeper.drop_first() =~= rest.drop_last().push(id));
        assert(deeper.len() > 1);
    }
}

/// No tap is shared: two different inputs of the nodes of a network come,
/// after the rewrite, from two different taps.
pub proof fn lemma_no_tap_is_shared(before: NodeNetwork, after: NodeNetwork, tap: spec_fn(int) -> NodeId, offset: int, i: int, j: int, k: int, l: int)
    requires
        tapped(before, after, tap, offset),
        0 <= i < before.nodes@.len(),
        0 <= j < before.nodes@[i].1.inputs@.len(),
        0 <= k < before.nodes@.len(),
        0 <= l < before.nodes@[k].1.inputs@.len(),
        i != k || j != l,
    ensures
        after.nodes@[i].1.inputs@[j] is Node,
        after.nodes@[k].1.inputs@[l] is Node,
        after.nodes@[i].1.inputs@[j]->node_id != after.nodes@[k].1.inputs@[l]->node_id,
{
    let nodes = before.nodes@;
    assert(node_instrumented(nodes[i].1, after.nodes@[i].1, tap, offset + slots_upto(nodes, i)));
    assert(node_instrumented(nodes[k].1, after.nodes@[k].1, tap, offset + slots_upto(nodes, k)));
    lemma_slot_bounds(nodes, i, j, offset);
    lemma_slot_bounds(nodes, k, l, offset);
    lemma_slots_differ(nodes, i, j, k, l, offset);
    assert(after.nodes@[i].1.inputs@[j]->node_id == tap(tap_slot(nodes, i, j, offset)));
    assert(after.nodes@[k].1.inputs@[l]->node_id == tap(tap_slot(nodes, k, l, offset)));
}

/// The rewrite keeps ids distinct: if no two nodes of a network share an
/// id, at any depth, then no two nodes of the rewritten network do, taps
/// included.
pub proof fn lemma_rewrite_keeps_ids_distinct(before: NodeNetwork, after: NodeNetwork, tap: spec_fn(int) -> NodeId, offset: int)
    requires
        tapped(before, after, tap, offset),
    ensures
        distinct_ids(after),
    decreases before, after.nodes@.len() + 1,
{
    let nodes = before.nodes@;
    let n = nodes.len() as int;
    let all = after.nodes@;
    assert forall|p: int, q: int| 0 <= p < q < all.len() implies all[p].0 != all[q].0 by {
        if q < n {
            assert(all[p].0 == nodes[p].0 && all[q].0 == nodes[q].0);
        } else {
            let (k, l) = lemma_place_of_tap(nodes, n, q - n);
            lemma_slot_bounds(nodes, k, l, offset);
            assert(all[tap_position(nodes, k, l)].0 == tap(tap_slot(nodes, k, l, offset)));
            assert(!occurs(before, tap(tap_slot(nodes, k, l, offset))));
            if p < n {
                assert(all[p].0 == nodes[p].0);
                lemma_in_use(nodes, n, p, nodes[p].0);
            } else {
                let (i, j) = lemma_place_of_tap(nodes, n, p - n);
                lemma_slot_bounds(nodes, i, j, offset);
                assert(all[tap_position(nodes, i, j)].0 == tap(tap_slot(nodes, i, j, offset)));
                lemma_slots_differ(nodes, i, j, k, l, offset);
            }
        }
    }
    lemma_rewrite_keeps_ids_distinct_inside(before, after, tap, offset, all.len() as int);
}

/// The networks inside the first `m` nodes of a rewritten network have
/// distinct ids.
pub proof fn lemma_rewrite_keeps_ids_distinct_inside(before: NodeNetwork, after: NodeNetwork, tap: spec_fn(int) -> NodeId, offset: int, m: int)
    requires
        tapped(before, after, tap, offset),
        0 <= m <= after.nodes@.len(),
    ensures
        distinct_within(after.nodes@, m),
    decreases before, m,
{
    if m > 0 {
        let nodes = before.nodes@;
        let n = nodes.len() as int;
        lemma_rewrite_keeps_ids_distinct_inside(before, after, tap, offset, m - 1);
        if m - 1 < n {
            assert(node_instrumented(nodes[m - 1].1, after.nodes@[m - 1].1, tap, offset + slots_upto(nodes, m - 1)));
            if nodes[m - 1].1.implementation is Network {
                lemma_tapped_inside(before, after, tap, offset, m - 1);
                lemma_rewrite_keeps_ids_distinct(
                    nodes[m - 1].1.implementation->Network_0,
                    after.nodes@[m - 1].1.implementation->Network_0,
                    tap,
                    offset + slots_upto(nodes, m - 1),
                );
            }
        } else {
            let (k, l) = lemma_place_of_tap(nodes, n, m - 1 - n);
            assert(is_tap(after.nodes@[tap_position(nodes, k, l)].1, nodes[k].1.inputs@[l]));
        }
    }
}

/// No two of these records stand under the same path.
pub open spec fn distinct_paths(records: Seq<TapRecordView>) -> bool {
    forall|r: int, q: int| 0 <= r < q < records.len() ==> (#[trigger] records[r]).path != (#[trigger] records[q]).path
}

/// The records of the first `n` nodes of a network lie deeper than the
/// network.
pub proof fn lemma_records_are_deeper(nodes: Seq<(NodeId, DocumentNode)>, n: int, tap: spec_fn(int) -> NodeId, offset: int, here: Seq<NodeId>)
    ensures
        forall|r: int| 0 <= r < records_upto(nodes, n, tap, offset, here).len() ==> (#[trigger] records_upto(nodes, n, tap, offset, here)[r]).path.len()
            > here.len(),
    decreases n,
{
    if 0 < n <= nodes.len() {
        lemma_records_are_deeper(nodes, n - 1, tap, offset, here);
        let before = records_upto(nodes, n - 1, tap, offset, here);
        let own = node_records(nodes[n - 1], tap, offset + slots_upto(nodes, n - 1), here);
        lemma_node_records_beyond(nodes[n - 1], tap, offset + slots_upto(nodes, n - 1), here);
        let all = before + own;
        assert forall|r: int| 0 <= r < all.len() implies (#[trigger] all[r]).path.len() > here.len() by {
            if r >= before.len() {
                assert(all[r] == own[r - before.len()]);
            } else {
                assert(all[r] == before[r]);
            }
        }
    }
}

/// The map holds one record for each node: in a network in which no two
/// nodes share an id, no two records of a node and of the nodes inside it
/// stand under the same path.
pub proof fn lemma_node_record_paths_differ(entry: (NodeId, DocumentNode), tap: spec_fn(int) -> NodeId, offset: int, here: Seq<NodeId>)
    requires
        entry.1.implementation matches DocumentNodeImplementation::Network(nested) ==> distinct_ids(nested),
    ensures
        distinct_paths(node_records(entry, tap, offset, here)),
    decreases entry, 0nat,
{
    if let DocumentNodeImplementation::Network(nested) = entry.1.implementation {
        let prefix = here.push(entry.0);
        let n = nested.nodes@.len() as int;
        lemma_record_paths_differ(nested.nodes@, n, tap, offset, prefix);
        lemma_records_are_deeper(nested.nodes@, n, tap, offset, prefix);
        let inside = records_of(nested, tap, offset, prefix);
        let all = node_records(entry, tap, offset, here);
        assert forall|r: int, q: int| 0 <= r < q < all.len() implies (#[trigger] all[r]).path != (#[trigger] all[q]).path by {
            assert(all[r] == inside[r]);
            if q < inside.len() {
                assert(all[q] == inside[q]);
            } else {
                assert(all[q].path.len() == prefix.len());
            }
        }
    }
}

/// In nodes of which no two share an id, at any depth, no two records of
/// the first `n` stand under the same path.
pub proof fn lemma_record_paths_differ(nodes: Seq<(NodeId, DocumentNode)>, n: int, tap: spec_fn(int) -> NodeId, offset: int, here: Seq<NodeId>)
    requires
        0 <= n <= nodes.len(),
        forall|a: int, b: int| 0 <= a < b < nodes.len() ==> nodes[a].0 != nodes[b].0,
        distinct_within(nodes, nodes.len() as int),
    ensures
        distinct_paths(records_upto(nodes, n, tap, offset, here)),
        forall|r: int|
            0 <= r < records_upto(nodes, n, tap, offset, here).len() ==> exists|k: int|
                0 <= k < n && (#[trigger] records_upto(nodes, n, tap, offset, here)[r]).path.take(here.len() as int + 1) == here.push(nodes[k].0),
    decreases nodes, n,
{
    if n > 0 {
        lemma_record_paths_differ(nodes, n - 1, tap, offset, here);
        let before = records_upto(nodes, n - 1, tap, offset, here);
        let inner = offset + slots_upto(nodes, n - 1);
        let own = node_records(nodes[n - 1], tap, inner, here);
        crate::network::lemma_distinct_within_holds_of_each(nodes, nodes.len() as int, n - 1);
        lemma_node_record_paths_differ(nodes[n - 1], tap, inner, here);
        lemma_node_records_beyond(nodes[n - 1], tap, inner, here);
        let prefix = here.push(nodes[n - 1].0);
        let all = before + own;
        assert forall|r: int| 0 <= r < all.len() implies exists|k: int|
            0 <= k < n && (#[trigger] all[r]).path.take(here.len() as int + 1) == here.push(nodes[k].0) by {
            if r < before.len() {
                assert(all[r] == before[r]);
                let k = choose|k: int| 0 <= k < n - 1 && before[r].path.take(here.len() as int + 1) == here.push(nodes[k].0);
                assert(0 <= k < n);
            } else {
                assert(all[r] == own[r - before.len()]);
                assert(own[r - before.len()].path.take(prefix.len() as int) == prefix);
            }
        }
        assert forall|r: int, q: int| 0 <= r < q < all.len() implies (#[trigger] all[r]).path != (#[trigger] all[q]).path by {
            if q < before.len() {
                assert(all[r] == before[r] && all[q] == before[q]);
            } else if r >= before.len() {
                assert(all[r] == own[r - before.len()] && all[q] == own[q - before.len()]);
            } else {
                assert(all[r] == before[r] && all[q] == own[q - before.len()]);
                let k = choose|k: int| 0 <= k < n - 1 && before[r].path.take(here.len() as int + 1) == here.push(nodes[k].0);
                assert(own[q - before.len()].path.take(prefix.len() as int) == prefix);
                assert(here.push(nodes[k].0).last() == nodes[k].0);
                assert(prefix.last() == nodes[n - 1].0);
            }
        }
    }
}

} // verus!
