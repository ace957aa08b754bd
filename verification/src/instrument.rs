//! Recording taps: a rewrite of the graph that routes every input of every
//! node through a node of its own, which passes the value on unchanged and
//! keeps it for later inspection.

use crate::document::NodeId;
use crate::network::{copy_inputs, copy_path, distinct_ids, inputs_upto, nested_slots, node_slots, occurs, occurs_among, refers_to, slots, slots_upto, CallArgument, DocumentNode, DocumentNodeImplementation, NodeInput, NodeNetwork, ProtoNodeIdentifier};
use crate::text::same_text;
use vstd::prelude::*;

verus! {

/// The name of the operation that a recording tap performs.
pub open spec fn monitor_name() -> Seq<char> {
    "graphene_core::memo::MonitorNode"@
}

/// The identifier of the operation that a recording tap performs.
pub fn monitor_identifier() -> (r: ProtoNodeIdentifier)
    ensures
        r.name@ == monitor_name(),
{
    ProtoNodeIdentifier { name: "graphene_core::memo::MonitorNode".to_owned() }
}

/// The ids that are handed out to taps: slot number `t` gets the id `t`
/// above `base`.
pub open spec fn counted(base: u64) -> spec_fn(int) -> NodeId {
    |t: int| NodeId((base + t) as u64)
}

/// `node` is a recording tap on `source`: its one input is `source`, and it
/// performs the recording operation, on an argument of any type, never
/// merged with another node.
pub open spec fn is_tap(node: DocumentNode, source: NodeInput) -> bool {
    &&& node.inputs@ == seq![source]
    &&& node.implementation matches DocumentNodeImplementation::ProtoNode(identifier)
    &&& identifier.name@ == monitor_name()
    &&& node.call_argument == CallArgument::Generic
    &&& node.skip_deduplication
}

/// Where the tap on input `j` of node `i` stands among the nodes of the
/// rewritten network: behind the nodes of the untapped network, in the order of the
/// inputs.
pub open spec fn tap_position(nodes: Seq<(NodeId, DocumentNode)>, i: int, j: int) -> int {
    nodes.len() + inputs_upto(nodes, i) + j
}

/// The number of the slot that input `j` of node `i` has, counting from
/// `offset`: behind the slots of the nodes before it and of the network
/// inside it.
pub open spec fn tap_slot(nodes: Seq<(NodeId, DocumentNode)>, i: int, j: int, offset: int) -> int {
    offset + slots_upto(nodes, i) + nested_slots(nodes[i].1) + j
}

/// `after` is the node `before` with every input led through a tap: input
/// `j` now comes from output 0 of the tap with slot number
/// `offset + nested_slots(before) + j`, the network inside the node, if it
/// has one, is rewritten in the same way from slot `offset` on, and nothing
/// else differs.
pub open spec fn node_instrumented(before: DocumentNode, after: DocumentNode, tap: spec_fn(int) -> NodeId, offset: int) -> bool
    decreases before, 1nat,
{
    &&& after.inputs@.len() == before.inputs@.len()
    &&& forall|j: int|
        0 <= j < before.inputs@.len() ==> #[trigger] after.inputs@[j] == (NodeInput::Node {
            node_id: tap(offset + nested_slots(before) + j),
            output_index: 0,
        })
    &&& after.call_argument == before.call_argument
    &&& after.skip_deduplication == before.skip_deduplication
    &&& match before.implementation {
        DocumentNodeImplementation::Network(nested) => after.implementation matches DocumentNodeImplementation::Network(rewritten) && instrumented(
            nested,
            rewritten,
            tap,
            offset,
        ),
        _ => after.implementation == before.implementation,
    }
}

/// `after` is the network `before` with a tap on every input of every node,
/// at every depth, the taps taking their ids from `tap` by slot number from
/// `offset` on. The nodes of `before` stand first, under their ids and in
/// their order, each rewritten; behind them stands one tap for each input
/// of each of them, holding what that input held. The exports are
/// untouched.
pub open spec fn instrumented(before: NodeNetwork, after: NodeNetwork, tap: spec_fn(int) -> NodeId, offset: int) -> bool
    decreases before, 0nat,
{
    let nodes = before.nodes@;
    &&& after.exports@ == before.exports@
    &&& after.nodes@.len() == nodes.len() + inputs_upto(nodes, nodes.len() as int)
    &&& forall|i: int|
        0 <= i < nodes.len() ==> (#[trigger] after.nodes@[i]).0 == nodes[i].0 && node_instrumented(
            nodes[i].1,
            after.nodes@[i].1,
            tap,
            offset + slots_upto(nodes, i),
        )
    &&& forall|i: int, j: int|
        0 <= i < nodes.len() && 0 <= j < nodes[i].1.inputs@.len() ==> {
            let at = #[trigger] tap_position(nodes, i, j);
            &&& 0 <= at < after.nodes@.len()
            &&& after.nodes@[at].0 == tap(tap_slot(nodes, i, j, offset))
            &&& is_tap(after.nodes@[at].1, nodes[i].1.inputs@[j])
        }
}

/// What the map records of one node: the operation that it performs, if it
/// is primitive, the path to it through the nested networks, and for each of
/// its inputs, in their order, the path to the tap on it.
#[derive(Debug, PartialEq, Eq)]
pub struct TapRecord {
    pub identifier: Option<ProtoNodeIdentifier>,
    pub path: Vec<NodeId>,
    pub monitors: Vec<Vec<NodeId>>,
}

/// A record of the map, as plain values.
pub struct TapRecordView {
    pub name: Option<Seq<char>>,
    pub path: Seq<NodeId>,
    pub monitors: Seq<Seq<NodeId>>,
}

impl View for TapRecord {
    type V = TapRecordView;

    open spec fn view(&self) -> TapRecordView {
        TapRecordView {
            name: match self.identifier {
                Some(identifier) => Some(identifier.name@),
                None => None,
            },
            path: self.path@,
            monitors: Seq::new(self.monitors@.len(), |j: int| self.monitors@[j]@),
        }
    }
}

/// The record of a node that stands at `path` and whose inputs have the
/// slots from `first` on.
pub open spec fn own_record(name: Option<Seq<char>>, path: Seq<NodeId>, inputs: nat, tap: spec_fn(int) -> NodeId, first: int) -> TapRecordView {
    TapRecordView { name, path, monitors: Seq::new(inputs, |j: int| path.drop_last().push(tap(first + j))) }
}

/// The operation that a node performs, if it is primitive.
pub open spec fn operation(node: DocumentNode) -> Option<Seq<char>> {
    match node.implementation {
        DocumentNodeImplementation::ProtoNode(identifier) => Some(identifier.name@),
        _ => None,
    }
}

/// The records of one node and of the nodes inside it: those of the nested
/// network first, then its own.
pub open spec fn node_records(entry: (NodeId, DocumentNode), tap: spec_fn(int) -> NodeId, offset: int, path: Seq<NodeId>) -> Seq<TapRecordView>
    decreases entry, 0nat,
{
    let own = own_record(operation(entry.1), path.push(entry.0), entry.1.inputs@.len(), tap, offset + nested_slots(entry.1));
    match entry.1.implementation {
        DocumentNodeImplementation::Network(nested) => records_of(nested, tap, offset, path.push(entry.0)).push(own),
        _ => seq![own],
    }
}

/// The records of the first `n` of these nodes, in their order.
pub open spec fn records_upto(nodes: Seq<(NodeId, DocumentNode)>, n: int, tap: spec_fn(int) -> NodeId, offset: int, path: Seq<NodeId>) -> Seq<
    TapRecordView,
>
    decreases nodes, n,
{
    if n <= 0 || n > nodes.len() {
        Seq::empty()
    } else {
        records_upto(nodes, n - 1, tap, offset, path) + node_records(nodes[n - 1], tap, offset + slots_upto(nodes, n - 1), path)
    }
}

/// The records of every node of a network that stands at `path`, at every
/// depth.
pub open spec fn records_of(network: NodeNetwork, tap: spec_fn(int) -> NodeId, offset: int, path: Seq<NodeId>) -> Seq<TapRecordView>
    decreases network, 0nat,
{
    records_upto(network.nodes@, network.nodes@.len() as int, tap, offset, path)
}

/// The map from the nodes of the untapped graph to the taps on their
/// inputs.
#[derive(Debug, PartialEq, Eq)]
pub struct Instrumented {
    records: Vec<TapRecord>,
}

impl View for Instrumented {
    type V = Seq<TapRecordView>;

    closed spec fn view(&self) -> Seq<TapRecordView> {
        self.records@.map_values(|r: TapRecord| r@)
    }
}

/// The slots of the nodes before a node are among those of the network.
pub proof fn lemma_slots_grow(nodes: Seq<(NodeId, DocumentNode)>, i: int, n: int)
    requires
        0 <= i <= n <= nodes.len(),
    ensures
        slots_upto(nodes, i) <= slots_upto(nodes, n),
        inputs_upto(nodes, i) <= inputs_upto(nodes, n),
        i < n ==> slots_upto(nodes, i) + node_slots(nodes[i].1) <= slots_upto(nodes, n),
        i < n ==> inputs_upto(nodes, i) + nodes[i].1.inputs@.len() <= inputs_upto(nodes, n),
    decreases n - i,
{
    if i < n {
        lemma_slots_grow(nodes, i + 1, n);
    }
}

/// A recording tap on `source`.
pub fn tap_node(source: NodeInput) -> (r: DocumentNode)
    ensures
        is_tap(r, source),
{
    let mut inputs: Vec<NodeInput> = Vec::new();
    inputs.push(source);
    assert(inputs@ =~= seq![source]);
    DocumentNode {
        inputs,
        implementation: DocumentNodeImplementation::ProtoNode(monitor_identifier()),
        call_argument: CallArgument::Generic,
        skip_deduplication: true,
    }
}

/// The paths of these taps, as plain values.
pub open spec fn paths_view(paths: Seq<Vec<NodeId>>) -> Seq<Seq<NodeId>> {
    Seq::new(paths.len(), |j: int| paths[j]@)
}

/// Hands out the next slots to the inputs of one node. Each input is led
/// through a tap of its own; what it held is noted in `taps` under the id of
/// that tap. Returns the new inputs, and the path to the tap of each.
fn tap_inputs(inputs: &Vec<NodeInput>, path: &Vec<NodeId>, base: u64, next: &mut u64, taps: &mut Vec<(NodeId, NodeInput)>) -> (r: (
    Vec<NodeInput>,
    Vec<Vec<NodeId>>,
))
    requires
        base + *old(next) + inputs@.len() <= u64::MAX,
    ensures
        *final(next) == *old(next) + inputs@.len(),
        final(taps)@.len() == old(taps)@.len() + inputs@.len(),
        final(taps)@.take(old(taps)@.len() as int) == old(taps)@,
        forall|j: int|
            0 <= j < inputs@.len() ==> #[trigger] final(taps)@[old(taps)@.len() + j] == (counted(base)(*old(next) + j), inputs@[j]),
        r.0@.len() == inputs@.len(),
        forall|j: int|
            0 <= j < inputs@.len() ==> #[trigger] r.0@[j] == (NodeInput::Node { node_id: counted(base)(*old(next) + j), output_index: 0 }),
        paths_view(r.1@) == Seq::new(inputs@.len(), |j: int| path@.push(counted(base)(*old(next) + j))),
{
    let mut rewired: Vec<NodeInput> = Vec::new();
    let mut monitors: Vec<Vec<NodeId>> = Vec::new();
    let ghost first = *next as int;
    let ghost noted = taps@;
    let mut j: usize = 0;
    while j < inputs.len()
        invariant
            j <= inputs@.len(),
            base + first + inputs@.len() <= u64::MAX,
            *next == first + j,
            taps@.len() == noted.len() + j,
            taps@.take(noted.len() as int) == noted,
            forall|k: int| 0 <= k < j ==> #[trigger] taps@[noted.len() + k] == (counted(base)(first + k), inputs@[k]),
            rewired@.len() == j,
            forall|k: int| 0 <= k < j ==> #[trigger] rewired@[k] == (NodeInput::Node { node_id: counted(base)(first + k), output_index: 0 }),
            monitors@.len() == j,
            forall|k: int| 0 <= k < j ==> (#[trigger] monitors@[k])@ == path@.push(counted(base)(first + k)),
        decreases inputs@.len() - j,
    {
        let node_id = NodeId(base + *next);
        *next += 1;
        let ghost before = taps@;
        taps.push((node_id, inputs[j].duplicate()));
        assert(taps@.take(noted.len() as int) =~= before.take(noted.len() as int));
        rewired.push(NodeInput::Node { node_id, output_index: 0 });
        let mut monitor = copy_path(path);
        monitor.push(node_id);
        monitors.push(monitor);
        j += 1;
    }
    assert(paths_view(monitors@) =~= Seq::new(inputs@.len(), |j: int| path@.push(counted(base)(first + j))));
    (rewired, monitors)
}

/// The records that `records` holds, as plain values.
pub open spec fn records_view(records: Seq<TapRecord>) -> Seq<TapRecordView> {
    records.map_values(|r: TapRecord| r@)
}

/// Rewrites one network, and those inside it, with a tap on every input.
/// The taps take their ids by slot number from `next` on, above `base`;
/// `path` leads to the network through those around it.
fn instrument_network(network: &NodeNetwork, path: &mut Vec<NodeId>, base: u64, next: &mut u64, records: &mut Vec<TapRecord>) -> (r: NodeNetwork)
    requires
        base + *old(next) + slots(*network) <= u64::MAX,
    ensures
        *final(next) == *old(next) + slots(*network),
        final(path)@ == old(path)@,
        instrumented(*network, r, counted(base), *old(next) as int),
        records_view(final(records)@) == records_view(old(records)@) + records_of(*network, counted(base), *old(next) as int, old(path)@),
    decreases network,
{
    let ghost nodes = network.nodes@;
    let ghost start = *next as int;
    let ghost here = path@;
    let ghost recorded = records_view(records@);
    let ghost tap = counted(base);
    let mut out: Vec<(NodeId, DocumentNode)> = Vec::new();
    let mut taps: Vec<(NodeId, NodeInput)> = Vec::new();
    let mut i: usize = 0;
    assert(recorded + Seq::<TapRecordView>::empty() =~= recorded);
    while i < network.nodes.len()
        invariant
            nodes == network.nodes@,
            tap == counted(base),
            i <= nodes.len(),
            out@.len() == i,
            taps@.len() == inputs_upto(nodes, i as int),
            *next == start + slots_upto(nodes, i as int),
            base + start + slots(*network) <= u64::MAX,
            path@ == here,
            forall|k: int|
                0 <= k < i ==> (#[trigger] out@[k]).0 == nodes[k].0 && node_instrumented(nodes[k].1, out@[k].1, tap, start + slots_upto(nodes, k)),
            forall|k: int, j: int|
                0 <= k < i && 0 <= j < nodes[k].1.inputs@.len() ==> taps@[#[trigger] tap_position(nodes, k, j) - nodes.len()] == (
                    tap(tap_slot(nodes, k, j, start)),
                    nodes[k].1.inputs@[j],
                ),
            records_view(records@) == recorded + records_upto(nodes, i as int, tap, start, here),
        decreases nodes.len() - i,
    {
        let entry = &network.nodes[i];
        let id = entry.0;
        let node = &entry.1;
        let ghost offset = start + slots_upto(nodes, i as int);
        let ghost so_far = records_view(records@);
        proof {
            lemma_slots_grow(nodes, i as int, nodes.len() as int);
        }
        let implementation = match &node.implementation {
            DocumentNodeImplementation::Network(nested) => {
                path.push(id);
                let rewritten = instrument_network(nested, path, base, next, records);
                path.pop();
                assert(path@ =~= here);
                DocumentNodeImplementation::Network(rewritten)
            },
            DocumentNodeImplementation::ProtoNode(identifier) => DocumentNodeImplementation::ProtoNode(identifier.duplicate()),
            DocumentNodeImplementation::Extract => DocumentNodeImplementation::Extract,
        };
        assert(*next == offset + nested_slots(*node));
        let ghost noted = taps@;
        let (inputs, monitors) = tap_inputs(&node.inputs, path, base, next, &mut taps);
        let identifier = match &node.implementation {
            DocumentNodeImplementation::ProtoNode(identifier) => Some(identifier.duplicate()),
            _ => None,
        };
        let mut key = copy_path(path);
        key.push(id);
        let record = TapRecord { identifier, path: key, monitors };
        proof {
            let expected = own_record(operation(*node), here.push(id), node.inputs@.len(), tap, offset + nested_slots(*node));
            assert(here.push(id).drop_last() =~= here);
            assert(record@.monitors =~= expected.monitors);
            assert(record@ == expected);
        }
        let ghost held = records@;
        records.push(record);
        assert(records_view(records@) =~= records_view(held).push(record@));
        assert(records_view(records@) =~= so_far + node_records(*entry, tap, offset, here));
        let rewired = DocumentNode { inputs, implementation, call_argument: node.call_argument, skip_deduplication: node.skip_deduplication };
        assert(node_instrumented(*node, rewired, tap, offset));
        let ghost before_out = out@;
        out.push((id, rewired));
        proof {
            assert forall|k: int, j: int| 0 <= k < i + 1 && 0 <= j < nodes[k].1.inputs@.len() implies taps@[#[trigger] tap_position(nodes, k, j)
                - nodes.len()] == (tap(tap_slot(nodes, k, j, start)), nodes[k].1.inputs@[j]) by {
                if k < i {
                    lemma_slots_grow(nodes, k, i as int);
                    let at = tap_position(nodes, k, j) - nodes.len();
                    assert(noted == taps@.take(noted.len() as int));
                    assert(taps@[at] == noted[at]);
                } else {
                    assert(taps@[noted.len() + j] == (tap(offset + nested_slots(*node) + j), node.inputs@[j]));
                }
            }
            assert forall|k: int| 0 <= k < i + 1 implies (#[trigger] out@[k]).0 == nodes[k].0 && node_instrumented(
                nodes[k].1,
                out@[k].1,
                tap,
                start + slots_upto(nodes, k),
            ) by {
                if k < i {
                    assert(out@[k] == before_out[k]);
                }
            }
        }
        i += 1;
    }
    let ghost rewritten = out@;
    let count = taps.len();
    let mut t: usize = 0;
    while t < count
        invariant
            t <= count,
            count == taps@.len(),
            out@.len() == rewritten.len() + t,
            out@.take(rewritten.len() as int) == rewritten,
            forall|u: int| 0 <= u < t ==> (#[trigger] out@[rewritten.len() + u]).0 == taps@[u].0 && is_tap(out@[rewritten.len() + u].1, taps@[u].1),
        decreases count - t,
    {
        let ghost before_out = out@;
        let monitor_id = taps[t].0;
        let monitor = tap_node(taps[t].1.duplicate());
        out.push((monitor_id, monitor));
        assert(out@.take(rewritten.len() as int) =~= before_out.take(rewritten.len() as int));
        t += 1;
    }
    let exports = copy_inputs(&network.exports);
    let result = NodeNetwork { exports, nodes: out };
    proof {
        let n = nodes.len() as int;
        assert forall|k: int| 0 <= k < n implies (#[trigger] result.nodes@[k]).0 == nodes[k].0 && node_instrumented(
            nodes[k].1,
            result.nodes@[k].1,
            tap,
            start + slots_upto(nodes, k),
        ) by {
            assert(result.nodes@[k] == out@.take(n)[k]);
        }
        assert forall|k: int, j: int| 0 <= k < n && 0 <= j < nodes[k].1.inputs@.len() implies ({
            let at = #[trigger] tap_position(nodes, k, j);
            &&& 0 <= at < result.nodes@.len()
            &&& result.nodes@[at].0 == tap(tap_slot(nodes, k, j, start))
            &&& is_tap(result.nodes@[at].1, nodes[k].1.inputs@[j])
        }) by {
            lemma_slots_grow(nodes, k, n);
            let u = tap_position(nodes, k, j) - n;
            assert(0 <= u < count);
            assert(out@[rewritten.len() + u].0 == taps@[u].0);
        }
    }
    result
}

/// One more than the largest id that the first `n` of these inputs refer
/// to; zero if they refer to none.
pub open spec fn reference_limit(inputs: Seq<NodeInput>, n: int) -> nat
    decreases n,
{
    if n <= 0 || n > inputs.len() {
        0
    } else {
        let before = reference_limit(inputs, n - 1);
        match inputs[n - 1] {
            NodeInput::Node { node_id, .. } if node_id.0 + 1 > before => (node_id.0 + 1) as nat,
            _ => before,
        }
    }
}

/// The largest of three.
pub open spec fn largest(a: nat, b: nat, c: nat) -> nat {
    if a >= b && a >= c {
        a
    } else if b >= c {
        b
    } else {
        c
    }
}

/// One more than the largest id in use among the first `n` of these nodes
/// and inside them; zero if there is none.
pub open spec fn limit_upto(nodes: Seq<(NodeId, DocumentNode)>, n: int) -> nat
    decreases nodes, n,
{
    if n <= 0 || n > nodes.len() {
        0
    } else {
        let before = limit_upto(nodes, n - 1);
        let own = largest((nodes[n - 1].0.0 + 1) as nat, reference_limit(nodes[n - 1].1.inputs@, nodes[n - 1].1.inputs@.len() as int), 0);
        let inside = match nodes[n - 1].1.implementation {
            DocumentNodeImplementation::Network(nested) => id_limit(nested),
            _ => 0,
        };
        largest(before, own, inside)
    }
}

/// One more than the largest id in use in a network, at any depth.
pub open spec fn id_limit(network: NodeNetwork) -> nat
    decreases network, 0nat,
{
    largest(reference_limit(network.exports@, network.exports@.len() as int), limit_upto(network.nodes@, network.nodes@.len() as int), 0)
}

/// Every id that the first `n` inputs refer to lies below their limit.
pub proof fn lemma_references_below_limit(inputs: Seq<NodeInput>, n: int, j: int)
    requires
        0 <= j < n <= inputs.len(),
        inputs[j] is Node,
    ensures
        inputs[j]->node_id.0 < reference_limit(inputs, n),
    decreases n,
{
    if j < n - 1 {
        lemma_references_below_limit(inputs, n - 1, j);
    }
}

/// Every id in use lies below the limit.
pub proof fn lemma_ids_below_limit(network: NodeNetwork, id: NodeId)
    requires
        occurs(network, id),
    ensures
        id.0 < id_limit(network),
    decreases network, 0nat,
{
    if refers_to(network.exports@, id) {
        let j = choose|j: int| 0 <= j < network.exports@.len() && (#[trigger] network.exports@[j] matches NodeInput::Node { node_id, .. } && node_id == id);
        lemma_references_below_limit(network.exports@, network.exports@.len() as int, j);
    } else {
        lemma_ids_below_limit_among(network.nodes@, network.nodes@.len() as int, id);
    }
}

/// Every id in use among the first `n` nodes lies below their limit.
pub proof fn lemma_ids_below_limit_among(nodes: Seq<(NodeId, DocumentNode)>, n: int, id: NodeId)
    requires
        occurs_among(nodes, n, id),
    ensures
        id.0 < limit_upto(nodes, n),
    decreases nodes, n,
{
    if 0 < n <= nodes.len() {
        let inputs = nodes[n - 1].1.inputs@;
        if occurs_among(nodes, n - 1, id) {
            lemma_ids_below_limit_among(nodes, n - 1, id);
        } else if nodes[n - 1].0 == id {
        } else if refers_to(inputs, id) {
            let j = choose|j: int| 0 <= j < inputs.len() && (#[trigger] inputs[j] matches NodeInput::Node { node_id, .. } && node_id == id);
            lemma_references_below_limit(inputs, inputs.len() as int, j);
        } else {
            match nodes[n - 1].1.implementation {
                DocumentNodeImplementation::Network(nested) => {
                    lemma_ids_below_limit(nested, id);
                },
                _ => {},
            }
        }
    }
}

/// The taps with the slots of a network are new to it and differ from one
/// another.
pub open spec fn fresh_taps(network: NodeNetwork, tap: spec_fn(int) -> NodeId, offset: int) -> bool {
    &&& forall|t: int| offset <= t < offset + slots(network) ==> !occurs(network, #[trigger] tap(t))
    &&& forall|t: int, u: int| offset <= t < offset + slots(network) && offset <= u < offset + slots(network) && t != u ==> #[trigger] tap(t) != #[trigger] tap(u)
}

/// One more than the largest id that these inputs refer to, if that is an
/// id itself.
fn find_reference_limit(inputs: &Vec<NodeInput>) -> (r: Option<u64>)
    ensures
        r matches Some(limit) ==> limit == reference_limit(inputs@, inputs@.len() as int),
        r is None ==> reference_limit(inputs@, inputs@.len() as int) > u64::MAX,
{
    let mut limit: u64 = 0;
    let mut j: usize = 0;
    while j < inputs.len()
        invariant
            j <= inputs@.len(),
            limit == reference_limit(inputs@, j as int),
        decreases inputs@.len() - j,
    {
        proof {
            lemma_reference_limit_grows(inputs@, j + 1, inputs@.len() as int);
        }
        if let NodeInput::Node { node_id, .. } = &inputs[j] {
            if node_id.0 == u64::MAX {
                return None;
            }
            if node_id.0 + 1 > limit {
                limit = node_id.0 + 1;
            }
        }
        j += 1;
    }
    Some(limit)
}

/// The limit of the first inputs is at most that of more of them.
pub proof fn lemma_reference_limit_grows(inputs: Seq<NodeInput>, i: int, n: int)
    requires
        0 <= i <= n <= inputs.len(),
    ensures
        reference_limit(inputs, i) <= reference_limit(inputs, n),
    decreases n - i,
{
    if i < n {
        lemma_reference_limit_grows(inputs, i, n - 1);
    }
}

/// One more than the largest id in use, if that is an id itself.
fn find_id_limit(network: &NodeNetwork) -> (r: Option<u64>)
    ensures
        r matches Some(limit) ==> limit == id_limit(*network),
        r is None ==> id_limit(*network) > u64::MAX,
    decreases network,
{
    let exported = match find_reference_limit(&network.exports) {
        Some(exported) => exported,
        None => {
            return None;
        },
    };
    let mut limit: u64 = 0;
    let mut i: usize = 0;
    while i < network.nodes.len()
        invariant
            i <= network.nodes@.len(),
            limit == limit_upto(network.nodes@, i as int),
        decreases network.nodes@.len() - i,
    {
        let entry = &network.nodes[i];
        proof {
            lemma_limit_grows(network.nodes@, i + 1, network.nodes@.len() as int);
        }
        if entry.0.0 == u64::MAX {
            return None;
        }
        let own = entry.0.0 + 1;
        if own > limit {
            limit = own;
        }
        match find_reference_limit(&entry.1.inputs) {
            Some(referred) => {
                if referred > limit {
                    limit = referred;
                }
            },
            None => {
                return None;
            },
        }
        if let DocumentNodeImplementation::Network(nested) = &entry.1.implementation {
            match find_id_limit(nested) {
                Some(inside) => {
                    if inside > limit {
                        limit = inside;
                    }
                },
                None => {
                    return None;
                },
            }
        }
        i += 1;
    }
    if exported > limit {
        Some(exported)
    } else {
        Some(limit)
    }
}

/// The limit of the first nodes is at most that of more of them.
pub proof fn lemma_limit_grows(nodes: Seq<(NodeId, DocumentNode)>, i: int, n: int)
    requires
        0 <= i <= n <= nodes.len(),
    ensures
        limit_upto(nodes, i) <= limit_upto(nodes, n),
    decreases n - i,
{
    if i < n {
        lemma_limit_grows(nodes, i, n - 1);
    }
}

/// The number of input slots, if it can be counted.
fn count_slots(network: &NodeNetwork) -> (r: Option<u64>)
    ensures
        r matches Some(count) ==> count == slots(*network),
        r is None ==> slots(*network) > u64::MAX,
    decreases network,
{
    let mut count: u64 = 0;
    let mut i: usize = 0;
    while i < network.nodes.len()
        invariant
            i <= network.nodes@.len(),
            count == slots_upto(network.nodes@, i as int),
        decreases network.nodes@.len() - i,
    {
        let node = &network.nodes[i].1;
        proof {
            lemma_slots_grow(network.nodes@, i as int, network.nodes@.len() as int);
        }
        let inside = match &node.implementation {
            DocumentNodeImplementation::Network(nested) => match count_slots(nested) {
                Some(inside) => inside,
                None => {
                    return None;
                },
            },
            _ => 0,
        };
        let own = node.inputs.len() as u64;
        if inside > u64::MAX - own || count > u64::MAX - own - inside {
            return None;
        }
        count = count + own + inside;
        i += 1;
    }
    Some(count)
}

/// Whether the ids above those in use suffice for a tap on every input.
pub open spec fn has_room(network: NodeNetwork) -> bool {
    id_limit(network) + slots(network) <= u64::MAX
}

impl Instrumented {
    /// A map without records.
    pub fn empty() -> (r: Self)
        ensures
            r@ == Seq::<TapRecordView>::empty(),
    {
        let r = Instrumented { records: Vec::new() };
        assert(r@ =~= Seq::<TapRecordView>::empty());
        r
    }

    /// Number of nodes that the map records.
    pub fn len(&self) -> (r: usize)
        ensures
            r == self@.len(),
    {
        self.records.len()
    }

    /// Rewrites `network` in place with a tap on every input of every node,
    /// at every depth, and returns the map of the taps. The taps get the
    /// ids that follow the largest id in use, one after the other in the
    /// order of the slots. A network in which two nodes share an id, or
    /// without room for the taps above the ids in use, is refused and left
    /// as it is.
    pub fn new(network: &mut NodeNetwork) -> (r: Result<Self, InstrumentError>)
        ensures
            r is Ok <==> distinct_ids(*old(network)) && has_room(*old(network)),
            r == Err::<Self, InstrumentError>(InstrumentError::SharedId) <==> !distinct_ids(*old(network)),
            r is Err ==> *final(network) == *old(network),
            r matches Ok(map) ==> {
                let tap = counted(id_limit(*old(network)) as u64);
                &&& instrumented(*old(network), *final(network), tap, 0)
                &&& fresh_taps(*old(network), tap, 0)
                &&& map@ == records_of(*old(network), tap, 0, Seq::empty())
                &&& crate::coverage::distinct_paths(map@)
            },
    {
        if !network.has_distinct_ids() {
            return Err(InstrumentError::SharedId);
        }
        let base = match find_id_limit(network) {
            Some(base) => base,
            None => {
                return Err(InstrumentError::NoRoom);
            },
        };
        let count = match count_slots(network) {
            Some(count) => count,
            None => {
                return Err(InstrumentError::NoRoom);
            },
        };
        if count > u64::MAX - base {
            return Err(InstrumentError::NoRoom);
        }
        let mut records: Vec<TapRecord> = Vec::new();
        let mut path: Vec<NodeId> = Vec::new();
        let mut next: u64 = 0;
        let rewritten = instrument_network(network, &mut path, base, &mut next, &mut records);
        proof {
            let tap = counted(base);
            assert forall|t: int| 0 <= t < slots(*network) implies !occurs(*network, #[trigger] tap(t)) by {
                if occurs(*network, tap(t)) {
                    lemma_ids_below_limit(*network, tap(t));
                }
            }
            assert(records_view(records@) =~= records_of(*network, tap, 0, Seq::empty()));
            assert(path@ =~= Seq::<NodeId>::empty());
            crate::coverage::lemma_record_paths_differ(network.nodes@, network.nodes@.len() as int, tap, 0, Seq::empty());
        }
        *network = rewritten;
        Ok(Instrumented { records })
    }
}

/// Why a network cannot be given taps.
#[derive(Clone, Copy, Debug, PartialEq, Eq, Structural)]
pub enum InstrumentError {
    /// Two nodes of a network share an id.
    SharedId,
    /// The ids above those in use do not suffice for the taps.
    NoRoom,
}

impl InstrumentError {
    /// The words that report the error.
    pub open spec fn words(self) -> Seq<char> {
        match self {
            InstrumentError::SharedId => "Two nodes of the graph share an id"@,
            InstrumentError::NoRoom => "No node ids are left for the recording taps"@,
        }
    }

    /// The words that report the error.
    pub fn message(self) -> (r: String)
        ensures
            r@ == self.words(),
    {
        match self {
            InstrumentError::SharedId => "Two nodes of the graph share an id".to_owned(),
            InstrumentError::NoRoom => "No node ids are left for the recording taps".to_owned(),
        }
    }
}

/// The taps on the inputs of the node at `path`: those of the last record
/// under that path, if there is one.
pub open spec fn monitors_at(records: Seq<TapRecordView>, path: Seq<NodeId>) -> Option<Seq<Seq<NodeId>>>
    decreases records.len(),
{
    if records.len() == 0 {
        None
    } else if records.last().path == path {
        Some(records.last().monitors)
    } else {
        monitors_at(records.drop_last(), path)
    }
}

/// The tap on input `index` of the node at `path`, if the map has a record
/// of the node and the node has that input.
pub open spec fn tap_at(records: Seq<TapRecordView>, path: Seq<NodeId>, index: int) -> Option<Seq<NodeId>> {
    match monitors_at(records, path) {
        Some(monitors) if 0 <= index < monitors.len() => Some(monitors[index]),
        _ => None,
    }
}

/// The taps on input `index` of every node that performs the operation
/// `name`, in the order of the records; a node without that input is passed
/// over.
pub open spec fn taps_of(records: Seq<TapRecordView>, name: Seq<char>, index: int) -> Seq<Seq<NodeId>>
    decreases records.len(),
{
    if records.len() == 0 {
        Seq::empty()
    } else {
        let before = taps_of(records.drop_last(), name, index);
        let last = records.last();
        if last.name == Some(name) && 0 <= index < last.monitors.len() {
            before.push(last.monitors[index])
        } else {
            before
        }
    }
}

/// What the engine holds at a tap after an execution. A value that was
/// recorded comes in one of three shapes, by what the tap was called with:
/// nothing, a footprint, or a full context. Anything else cannot be
/// retrieved.
#[derive(Debug, PartialEq, Eq)]
pub enum Recorded<T> {
    Plain(T),
    WithFootprint(T),
    WithContext(T),
    Unknown,
}

/// The value that was recorded, whatever the tap was called with; none for
/// a shape that cannot be retrieved.
pub open spec fn retrievable<T>(recorded: Recorded<T>) -> Option<T> {
    match recorded {
        Recorded::Plain(value) => Some(value),
        Recorded::WithFootprint(value) => Some(value),
        Recorded::WithContext(value) => Some(value),
        Recorded::Unknown => None,
    }
}

/// What the engine holds under `path`: the first entry under that path, if
/// there is one.
pub open spec fn introspected<T>(recordings: Seq<(Vec<NodeId>, Recorded<T>)>, path: Seq<NodeId>) -> Option<Recorded<T>>
    decreases recordings.len(),
{
    if recordings.len() == 0 {
        None
    } else if recordings[0].0@ == path {
        Some(recordings[0].1)
    } else {
        introspected(recordings.drop_first(), path)
    }
}

/// The value that can be read at the tap under `path`.
pub open spec fn read_tap<T>(recordings: Seq<(Vec<NodeId>, Recorded<T>)>, path: Seq<NodeId>) -> Option<T> {
    match introspected(recordings, path) {
        Some(recorded) => retrievable(recorded),
        None => None,
    }
}

/// The values that can be read at these taps, in their order; a tap without
/// a value that can be retrieved is passed over.
pub open spec fn read_taps<T>(recordings: Seq<(Vec<NodeId>, Recorded<T>)>, taps: Seq<Seq<NodeId>>) -> Seq<T>
    decreases taps.len(),
{
    if taps.len() == 0 {
        Seq::empty()
    } else {
        let before = read_taps(recordings, taps.drop_last());
        match read_tap(recordings, taps.last()) {
            Some(value) => before.push(value),
            None => before,
        }
    }
}

/// Whether the two paths name the same place.
pub fn same_path(a: &Vec<NodeId>, b: &Vec<NodeId>) -> (r: bool)
    ensures
        r == (a@ == b@),
{
    if a.len() != b.len() {
        return false;
    }
    let mut i: usize = 0;
    while i < a.len()
        invariant
            i <= a@.len(),
            a@.len() == b@.len(),
            a@.take(i as int) == b@.take(i as int),
        decreases a@.len() - i,
    {
        if a[i].0 != b[i].0 {
            return false;
        }
        assert(a@.take(i + 1) =~= a@.take(i as int).push(a@[i as int]));
        assert(b@.take(i + 1) =~= b@.take(i as int).push(b@[i as int]));
        i += 1;
    }
    assert(a@.take(a@.len() as int) =~= a@);
    assert(b@.take(b@.len() as int) =~= b@);
    true
}

/// The value that was recorded, whatever shape it came in.
pub fn downcast<T>(dynamic: &Recorded<T>) -> (r: Option<&T>)
    ensures
        match r {
            Some(value) => retrievable(*dynamic) == Some(*value),
            None => retrievable(*dynamic) is None,
        },
{
    match dynamic {
        Recorded::Plain(value) => Some(value),
        Recorded::WithFootprint(value) => Some(value),
        Recorded::WithContext(value) => Some(value),
        Recorded::Unknown => None,
    }
}

/// What the engine holds under `path`.
pub fn introspect<'a, T>(recordings: &'a Vec<(Vec<NodeId>, Recorded<T>)>, path: &Vec<NodeId>) -> (r: Option<&'a Recorded<T>>)
    ensures
        match r {
            Some(recorded) => introspected(recordings@, path@) == Some(*recorded),
            None => introspected(recordings@, path@) is None,
        },
{
    let mut i: usize = 0;
    assert(recordings@.skip(0) =~= recordings@);
    while i < recordings.len()
        invariant
            i <= recordings@.len(),
            introspected(recordings@, path@) == introspected(recordings@.skip(i as int), path@),
        decreases recordings@.len() - i,
    {
        assert(recordings@.skip(i as int)[0] == recordings@[i as int]);
        if same_path(&recordings[i].0, path) {
            return Some(&recordings[i].1);
        }
        assert(recordings@.skip(i as int).drop_first() =~= recordings@.skip(i + 1));
        i += 1;
    }
    None
}

impl Instrumented {
    /// The path to the tap on input `index` of the node at `path`.
    pub fn monitor_path(&self, path: &Vec<NodeId>, index: usize) -> (r: Option<&Vec<NodeId>>)
        ensures
            match r {
                Some(tap) => tap_at(self@, path@, index as int) == Some(tap@),
                None => tap_at(self@, path@, index as int) is None,
            },
    {
        let mut i: usize = self.records.len();
        assert(self@.take(i as int) =~= self@);
        while i > 0
            invariant
                i <= self.records@.len(),
                monitors_at(self@, path@) == monitors_at(self@.take(i as int), path@),
            decreases i,
        {
            i -= 1;
            let record = &self.records[i];
            assert(self@.take(i + 1).last() == record@);
            assert(self@.take(i + 1).drop_last() =~= self@.take(i as int));
            if same_path(&record.path, path) {
                if index < record.monitors.len() {
                    return Some(&record.monitors[index]);
                } else {
                    return None;
                }
            }
        }
        None
    }

    /// The paths to the taps on input `index` of every node that performs
    /// the operation `identifier`.
    pub fn monitor_paths(&self, identifier: &str, index: usize) -> (r: Vec<&Vec<NodeId>>)
        ensures
            r@.len() == taps_of(self@, identifier@, index as int).len(),
            forall|k: int| 0 <= k < r@.len() ==> (#[trigger] r@[k])@ == taps_of(self@, identifier@, index as int)[k],
    {
        let mut found: Vec<&Vec<NodeId>> = Vec::new();
        let mut i: usize = 0;
        while i < self.records.len()
            invariant
                i <= self.records@.len(),
                found@.len() == taps_of(self@.take(i as int), identifier@, index as int).len(),
                forall|k: int| 0 <= k < found@.len() ==> (#[trigger] found@[k])@ == taps_of(self@.take(i as int), identifier@, index as int)[k],
            decreases self.records@.len() - i,
        {
            let record = &self.records[i];
            assert(self@.take(i + 1).last() == record@);
            assert(self@.take(i + 1).drop_last() =~= self@.take(i as int));
            let performs = match &record.identifier {
                Some(operation) => same_text(operation.name.as_str(), identifier),
                None => false,
            };
            if performs && index < record.monitors.len() {
                found.push(&record.monitors[index]);
            }
            i += 1;
        }
        assert(self@.take(self.records@.len() as int) =~= self@);
        found
    }

    /// The value that was recorded at input `index` of the node at `path`:
    /// none if the map has no record of the node, if the node has no such
    /// input, or if the engine holds nothing there that can be retrieved.
    pub fn grab_protonode_input<'a, T>(&self, path: &Vec<NodeId>, index: usize, recordings: &'a Vec<(Vec<NodeId>, Recorded<T>)>) -> (r: Option<&'a T>)
        ensures
            match r {
                Some(value) => recorded_at(self@, recordings@, path@, index as int) == Some(*value),
                None => recorded_at(self@, recordings@, path@, index as int) is None,
            },
    {
        let input_monitor_node = match self.monitor_path(path, index) {
            Some(tap) => tap,
            None => {
                return None;
            },
        };
        let dynamic = match introspect(recordings, input_monitor_node) {
            Some(dynamic) => dynamic,
            None => {
                return None;
            },
        };
        downcast(dynamic)
    }

    /// The value that was recorded at input `index` of the node `node` of
    /// the outermost network, which a layer was traced back to; none if it
    /// was traced back to no node.
    pub fn grab_input_from_layer<'a, T>(&self, node: Option<NodeId>, index: usize, recordings: &'a Vec<(Vec<NodeId>, Recorded<T>)>) -> (r: Option<&'a T>)
        ensures
            match node {
                Some(node) => match r {
                    Some(value) => recorded_at(self@, recordings@, seq![node], index as int) == Some(*value),
                    None => recorded_at(self@, recordings@, seq![node], index as int) is None,
                },
                None => r is None,
            },
    {
        match node {
            Some(node) => {
                let mut path: Vec<NodeId> = Vec::new();
                path.push(node);
                assert(path@ =~= seq![node]);
                self.grab_protonode_input(&path, index, recordings)
            },
            None => None,
        }
    }

    /// The values that were recorded at input `index` of every node that
    /// performs the operation `identifier`, one for each occurrence at which
    /// something can be retrieved, in the order of the records.
    pub fn grab_all_input<'a, T>(&self, identifier: &str, index: usize, recordings: &'a Vec<(Vec<NodeId>, Recorded<T>)>) -> (r: Vec<&'a T>)
        ensures
            r@.len() == read_taps(recordings@, taps_of(self@, identifier@, index as int)).len(),
            forall|k: int| 0 <= k < r@.len() ==> *(#[trigger] r@[k]) == read_taps(recordings@, taps_of(self@, identifier@, index as int))[k],
    {
        let taps = self.monitor_paths(identifier, index);
        let ghost all = taps_of(self@, identifier@, index as int);
        assert(Seq::new(taps@.len(), |k: int| taps@[k]@) =~= all);
        let mut values: Vec<&'a T> = Vec::new();
        let mut i: usize = 0;
        while i < taps.len()
            invariant
                i <= taps@.len(),
                taps@.len() == all.len(),
                forall|k: int| 0 <= k < taps@.len() ==> (#[trigger] taps@[k])@ == all[k],
                values@.len() == read_taps(recordings@, all.take(i as int)).len(),
                forall|k: int| 0 <= k < values@.len() ==> *(#[trigger] values@[k]) == read_taps(recordings@, all.take(i as int))[k],
            decreases taps@.len() - i,
        {
            assert(all.take(i + 1).last() == taps@[i as int]@);
            assert(all.take(i + 1).drop_last() =~= all.take(i as int));
            if let Some(dynamic) = introspect(recordings, taps[i]) {
                if let Some(value) = downcast(dynamic) {
                    values.push(value);
                }
            }
            i += 1;
        }
        assert(all.take(all.len() as int) =~= all);
        values
    }
}

/// The value that can be read at input `index` of the node at `path`.
pub open spec fn recorded_at<T>(records: Seq<TapRecordView>, recordings: Seq<(Vec<NodeId>, Recorded<T>)>, path: Seq<NodeId>, index: int) -> Option<T> {
    match tap_at(records, path, index) {
        Some(tap) => read_tap(recordings, tap),
        None => None,
    }
}

} // verus!
