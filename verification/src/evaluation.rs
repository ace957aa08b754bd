//! What a graph computes, as far as the runtime needs to know it: enough to
//! say that a graph with recording taps computes what the graph without
//! them does.

use crate::document::NodeId;
use crate::instrument::{fresh_taps, instrumented, is_tap, lemma_slots_grow, monitor_name, node_instrumented, tap_position, tap_slot};
use crate::network::{distinct_ids, inputs_upto, lemma_distinct_within_holds_of_each, nested_slots, occurs, occurs_among, refers_to, slots, slots_upto, DocumentNode, DocumentNodeImplementation, InputValue, NodeInput, NodeNetwork};
use vstd::prelude::*;

verus! {

/// The meaning of what a graph is built from: what each primitive operation
/// makes of its arguments, what the constants and the values of the scope
/// are, what an extracting node yields, and what is read where nothing is to
/// be read (from a node, an output or an import that does not exist).
#[verifier::reject_recursive_types(V)]
pub struct Semantics<V> {
    pub apply: spec_fn(Seq<char>, Seq<V>) -> Seq<V>,
    pub constant: spec_fn(InputValue) -> V,
    pub scope: spec_fn(Seq<char>) -> V,
    pub extract: spec_fn(Seq<V>) -> Seq<V>,
    pub missing: V,
}

impl<V> Semantics<V> {
    /// The recording operation passes its one argument on unchanged.
    pub open spec fn taps_are_transparent(self) -> bool {
        forall|v: V| #[trigger] (self.apply)(monitor_name(), seq![v]) == seq![v]
    }

    /// Output `k` of a node that yields `outputs`.
    pub open spec fn pick(self, outputs: Seq<V>, k: int) -> V {
        if 0 <= k < outputs.len() {
            outputs[k]
        } else {
            self.missing
        }
    }
}

/// The place of the node `id` among `nodes`, if one of them goes by it.
pub open spec fn find(nodes: Seq<(NodeId, DocumentNode)>, id: NodeId) -> Option<int> {
    if exists|i: int| 0 <= i < nodes.len() && (#[trigger] nodes[i]).0 == id {
        Some(choose|i: int| 0 <= i < nodes.len() && (#[trigger] nodes[i]).0 == id)
    } else {
        None
    }
}

/// The value that `input` takes in `network`, where the node that the
/// network implements is called with `imports`. `fuel` bounds how many nodes
/// deep the evaluation may go; `None` says that it did not suffice.
pub open spec fn eval_input<V>(sem: Semantics<V>, network: NodeNetwork, input: NodeInput, imports: Seq<V>, fuel: nat) -> Option<V>
    decreases fuel, 0nat, 0nat,
{
    match input {
        NodeInput::Node { node_id, output_index } => if fuel == 0 {
            None
        } else {
            match find(network.nodes@, node_id) {
                None => Some(sem.missing),
                Some(i) => match eval_node(sem, network, i, imports, (fuel - 1) as nat) {
                    Some(outputs) => Some(sem.pick(outputs, output_index as int)),
                    None => None,
                },
            }
        },
        NodeInput::Value { value, .. } => Some((sem.constant)(value)),
        NodeInput::Import { import_index } => Some(sem.pick(imports, import_index as int)),
        NodeInput::Scope(name) => Some((sem.scope)(name@)),
    }
}

/// The values of the first `n` of `inputs`, in their order.
pub open spec fn eval_inputs<V>(sem: Semantics<V>, network: NodeNetwork, inputs: Seq<NodeInput>, n: int, imports: Seq<V>, fuel: nat) -> Option<
    Seq<V>,
>
    decreases fuel, 1nat, n,
{
    if n <= 0 || n > inputs.len() {
        Some(Seq::empty())
    } else {
        match (eval_inputs(sem, network, inputs, n - 1, imports, fuel), eval_input(sem, network, inputs[n - 1], imports, fuel)) {
            (Some(before), Some(value)) => Some(before.push(value)),
            _ => None,
        }
    }
}

/// What the node at place `i` of `network` yields: a primitive operation
/// applied to the values of its inputs, or the exports of the network inside
/// it, which is called with those values.
pub open spec fn eval_node<V>(sem: Semantics<V>, network: NodeNetwork, i: int, imports: Seq<V>, fuel: nat) -> Option<Seq<V>>
    decreases fuel, 2nat, 0nat,
{
    let node = network.nodes@[i].1;
    match eval_inputs(sem, network, node.inputs@, node.inputs@.len() as int, imports, fuel) {
        None => None,
        Some(arguments) => match node.implementation {
            DocumentNodeImplementation::ProtoNode(identifier) => Some((sem.apply)(identifier.name@, arguments)),
            DocumentNodeImplementation::Extract => Some((sem.extract)(arguments)),
            DocumentNodeImplementation::Network(nested) => eval_inputs(sem, nested, nested.exports@, nested.exports@.len() as int, arguments, fuel),
        },
    }
}

/// What a network hands out: the values of its exports.
pub open spec fn outputs<V>(sem: Semantics<V>, network: NodeNetwork, imports: Seq<V>, fuel: nat) -> Option<Seq<V>> {
    eval_inputs(sem, network, network.exports@, network.exports@.len() as int, imports, fuel)
}

/// With more fuel an input evaluates to what it evaluated to before.
pub proof fn lemma_more_fuel_input<V>(sem: Semantics<V>, network: NodeNetwork, input: NodeInput, imports: Seq<V>, fuel: nat)
    requires
        eval_input(sem, network, input, imports, fuel) is Some,
    ensures
        eval_input(sem, network, input, imports, fuel + 1) == eval_input(sem, network, input, imports, fuel),
    decreases fuel, 0nat, 0nat,
{
    if let NodeInput::Node { node_id, .. } = input {
        if let Some(i) = find(network.nodes@, node_id) {
            lemma_more_fuel_node(sem, network, i, imports, (fuel - 1) as nat);
        }
    }
}

/// With more fuel inputs evaluate to what they evaluated to before.
pub proof fn lemma_more_fuel_inputs<V>(sem: Semantics<V>, network: NodeNetwork, inputs: Seq<NodeInput>, n: int, imports: Seq<V>, fuel: nat)
    requires
        eval_inputs(sem, network, inputs, n, imports, fuel) is Some,
    ensures
        eval_inputs(sem, network, inputs, n, imports, fuel + 1) == eval_inputs(sem, network, inputs, n, imports, fuel),
    decreases fuel, 1nat, n,
{
    if 0 < n <= inputs.len() {
        lemma_more_fuel_inputs(sem, network, inputs, n - 1, imports, fuel);
        lemma_more_fuel_input(sem, network, inputs[n - 1], imports, fuel);
    }
}

/// With more fuel a node yields what it yielded before.
pub proof fn lemma_more_fuel_node<V>(sem: Semantics<V>, network: NodeNetwork, i: int, imports: Seq<V>, fuel: nat)
    requires
        eval_node(sem, network, i, imports, fuel) is Some,
    ensures
        eval_node(sem, network, i, imports, fuel + 1) == eval_node(sem, network, i, imports, fuel),
    decreases fuel, 2nat, 0nat,
{
    let node = network.nodes@[i].1;
    lemma_more_fuel_inputs(sem, network, node.inputs@, node.inputs@.len() as int, imports, fuel);
    let arguments = eval_inputs(sem, network, node.inputs@, node.inputs@.len() as int, imports, fuel)->0;
    if let DocumentNodeImplementation::Network(nested) = node.implementation {
        lemma_more_fuel_inputs(sem, nested, nested.exports@, nested.exports@.len() as int, arguments, fuel);
    }
}

/// With any amount of further fuel inputs evaluate to what they evaluated
/// to before.
pub proof fn lemma_enough_fuel_inputs<V>(sem: Semantics<V>, network: NodeNetwork, inputs: Seq<NodeInput>, n: int, imports: Seq<V>, fuel: nat, more: nat)
    requires
        eval_inputs(sem, network, inputs, n, imports, fuel) is Some,
        more >= fuel,
    ensures
        eval_inputs(sem, network, inputs, n, imports, more) == eval_inputs(sem, network, inputs, n, imports, fuel),
    decreases more - fuel,
{
    if more > fuel {
        lemma_enough_fuel_inputs(sem, network, inputs, n, imports, fuel, (more - 1) as nat);
        lemma_more_fuel_inputs(sem, network, inputs, n, imports, (more - 1) as nat);
    }
}

/// `after` is `before` with taps whose ids are new to `before` and differ
/// from one another, and no two nodes of `before` share an id.
pub open spec fn tapped(before: NodeNetwork, after: NodeNetwork, tap: spec_fn(int) -> NodeId, offset: int) -> bool {
    &&& instrumented(before, after, tap, offset)
    &&& distinct_ids(before)
    &&& fresh_taps(before, tap, offset)
}

/// What the first `n` nodes hold is in use among them: the id of each, the
/// ids that its inputs refer to, and the ids in use inside it.
pub proof fn lemma_in_use(nodes: Seq<(NodeId, DocumentNode)>, n: int, i: int, id: NodeId)
    requires
        0 <= i < n <= nodes.len(),
        nodes[i].0 == id || refers_to(nodes[i].1.inputs@, id) || (nodes[i].1.implementation matches DocumentNodeImplementation::Network(nested)
            && occurs(nested, id)),
    ensures
        occurs_among(nodes, n, id),
    decreases n,
{
    if i < n - 1 {
        lemma_in_use(nodes, n - 1, i, id);
    }
}

/// The slot of an input lies among those of its node, behind those of the
/// network inside the node.
pub proof fn lemma_slot_bounds(nodes: Seq<(NodeId, DocumentNode)>, i: int, j: int, offset: int)
    requires
        0 <= i < nodes.len(),
        0 <= j < nodes[i].1.inputs@.len(),
    ensures
        offset + slots_upto(nodes, i) + nested_slots(nodes[i].1) <= tap_slot(nodes, i, j, offset) < offset + slots_upto(nodes, i + 1),
        offset <= tap_slot(nodes, i, j, offset) < offset + slots_upto(nodes, nodes.len() as int),
        nodes.len() + inputs_upto(nodes, i) <= tap_position(nodes, i, j) < nodes.len() + inputs_upto(nodes, i + 1),
        tap_position(nodes, i, j) < nodes.len() + inputs_upto(nodes, nodes.len() as int),
{
    lemma_slots_grow(nodes, i, nodes.len() as int);
    lemma_slots_grow(nodes, i + 1, nodes.len() as int);
}

/// Different inputs have different slots.
pub proof fn lemma_slots_differ(nodes: Seq<(NodeId, DocumentNode)>, i: int, j: int, k: int, l: int, offset: int)
    requires
        0 <= i < nodes.len(),
        0 <= j < nodes[i].1.inputs@.len(),
        0 <= k < nodes.len(),
        0 <= l < nodes[k].1.inputs@.len(),
        i != k || j != l,
    ensures
        tap_slot(nodes, i, j, offset) != tap_slot(nodes, k, l, offset),
{
    lemma_slot_bounds(nodes, i, j, offset);
    lemma_slot_bounds(nodes, k, l, offset);
    if i < k {
        lemma_slots_grow(nodes, i + 1, k);
    } else if k < i {
        lemma_slots_grow(nodes, k + 1, i);
    }
}

/// Every place behind the nodes of the untapped network is the place of the tap on
/// some input.
pub proof fn lemma_place_of_tap(nodes: Seq<(NodeId, DocumentNode)>, m: int, q: int) -> (r: (int, int))
    requires
        0 <= m <= nodes.len(),
        0 <= q < inputs_upto(nodes, m),
    ensures
        0 <= r.0 < m,
        0 <= r.1 < nodes[r.0].1.inputs@.len(),
        tap_position(nodes, r.0, r.1) == nodes.len() + q,
    decreases m,
{
    if q >= inputs_upto(nodes, m - 1) {
        (m - 1, q - inputs_upto(nodes, m - 1))
    } else {
        lemma_place_of_tap(nodes, m - 1, q)
    }
}

/// In the rewritten network a node of the untapped network is found where it stood.
pub proof fn lemma_find_node(before: NodeNetwork, after: NodeNetwork, tap: spec_fn(int) -> NodeId, offset: int, i: int)
    requires
        tapped(before, after, tap, offset),
        0 <= i < before.nodes@.len(),
    ensures
        find(after.nodes@, before.nodes@[i].0) == Some(i),
{
    let nodes = before.nodes@;
    let n = nodes.len() as int;
    let id = nodes[i].0;
    assert(after.nodes@[i].0 == id);
    lemma_in_use(nodes, n, i, id);
    assert forall|p: int| 0 <= p < after.nodes@.len() && (#[trigger] after.nodes@[p]).0 == id implies p == i by {
        if p < n {
            assert(after.nodes@[p].0 == nodes[p].0);
        } else {
            let (k, l) = lemma_place_of_tap(nodes, n, p - n);
            lemma_slot_bounds(nodes, k, l, offset);
            assert(after.nodes@[tap_position(nodes, k, l)].0 == tap(tap_slot(nodes, k, l, offset)));
            assert(!occurs(before, tap(tap_slot(nodes, k, l, offset))));
        }
    }
}

/// In the rewritten network the tap on an input is found behind the nodes
/// of the untapped network, at the place of that input.
pub proof fn lemma_find_tap(before: NodeNetwork, after: NodeNetwork, tap: spec_fn(int) -> NodeId, offset: int, i: int, j: int)
    requires
        tapped(before, after, tap, offset),
        0 <= i < before.nodes@.len(),
        0 <= j < before.nodes@[i].1.inputs@.len(),
    ensures
        find(after.nodes@, tap(tap_slot(before.nodes@, i, j, offset))) == Some(tap_position(before.nodes@, i, j)),
        0 <= tap_position(before.nodes@, i, j) < after.nodes@.len(),
        is_tap(after.nodes@[tap_position(before.nodes@, i, j)].1, before.nodes@[i].1.inputs@[j]),
{
    let nodes = before.nodes@;
    let n = nodes.len() as int;
    let slot = tap_slot(nodes, i, j, offset);
    let id = tap(slot);
    let at = tap_position(nodes, i, j);
    lemma_slot_bounds(nodes, i, j, offset);
    assert(after.nodes@[at].0 == id);
    assert(!occurs(before, id));
    assert forall|p: int| 0 <= p < after.nodes@.len() && (#[trigger] after.nodes@[p]).0 == id implies p == at by {
        if p < n {
            assert(after.nodes@[p].0 == nodes[p].0);
            lemma_in_use(nodes, n, p, id);
        } else {
            let (k, l) = lemma_place_of_tap(nodes, n, p - n);
            lemma_slot_bounds(nodes, k, l, offset);
            assert(after.nodes@[tap_position(nodes, k, l)].0 == tap(tap_slot(nodes, k, l, offset)));
            if k != i || l != j {
                lemma_slots_differ(nodes, i, j, k, l, offset);
            }
        }
    }
}

/// An id that is in use in the untapped network but names none of its nodes names
/// no node of the rewritten network either.
pub proof fn lemma_find_missing(before: NodeNetwork, after: NodeNetwork, tap: spec_fn(int) -> NodeId, offset: int, id: NodeId)
    requires
        tapped(before, after, tap, offset),
        occurs(before, id),
        find(before.nodes@, id) is None,
    ensures
        find(after.nodes@, id) is None,
{
    let nodes = before.nodes@;
    let n = nodes.len() as int;
    assert forall|p: int| 0 <= p < after.nodes@.len() implies (#[trigger] after.nodes@[p]).0 != id by {
        if p < n {
            assert(after.nodes@[p].0 == nodes[p].0);
        } else {
            let (k, l) = lemma_place_of_tap(nodes, n, p - n);
            lemma_slot_bounds(nodes, k, l, offset);
            assert(after.nodes@[tap_position(nodes, k, l)].0 == tap(tap_slot(nodes, k, l, offset)));
            assert(!occurs(before, tap(tap_slot(nodes, k, l, offset))));
        }
    }
}

/// What holds of a network and its rewrite holds of the network inside each
/// of its nodes and the rewrite of that.
pub proof fn lemma_tapped_inside(before: NodeNetwork, after: NodeNetwork, tap: spec_fn(int) -> NodeId, offset: int, i: int)
    requires
        tapped(before, after, tap, offset),
        0 <= i < before.nodes@.len(),
        before.nodes@[i].1.implementation is Network,
    ensures
        after.nodes@[i].1.implementation is Network,
        tapped(
            before.nodes@[i].1.implementation->Network_0,
            after.nodes@[i].1.implementation->Network_0,
            tap,
            offset + slots_upto(before.nodes@, i),
        ),
{
    let nodes = before.nodes@;
    let n = nodes.len() as int;
    let nested = nodes[i].1.implementation->Network_0;
    let inner = offset + slots_upto(nodes, i);
    assert(node_instrumented(nodes[i].1, after.nodes@[i].1, tap, inner));
    lemma_distinct_within_holds_of_each(nodes, n, i);
    lemma_slots_grow(nodes, i, n);
    assert(slots(nested) == nested_slots(nodes[i].1));
    assert forall|t: int| inner <= t < inner + slots(nested) implies !occurs(nested, #[trigger] tap(t)) by {
        if occurs(nested, tap(t)) {
            lemma_in_use(nodes, n, i, tap(t));
        }
    }
}

/// Every id that these inputs refer to is in use in the network.
pub open spec fn refer_within(inputs: Seq<NodeInput>, network: NodeNetwork) -> bool {
    forall|j: int| 0 <= j < inputs.len() && (#[trigger] inputs[j]) is Node ==> occurs(network, inputs[j]->node_id)
}

/// The inputs of a node of a network and the exports of the network refer
/// only to ids that are in use in it.
pub proof fn lemma_refer_within(network: NodeNetwork, i: int)
    ensures
        refer_within(network.exports@, network),
        0 <= i < network.nodes@.len() ==> refer_within(network.nodes@[i].1.inputs@, network),
{
    let exports = network.exports@;
    assert forall|j: int| 0 <= j < exports.len() && (#[trigger] exports[j]) is Node implies occurs(network, exports[j]->node_id) by {
        assert(refers_to(exports, exports[j]->node_id));
    }
    if 0 <= i < network.nodes@.len() {
        let inputs = network.nodes@[i].1.inputs@;
        assert forall|j: int| 0 <= j < inputs.len() && (#[trigger] inputs[j]) is Node implies occurs(network, inputs[j]->node_id) by {
            assert(refers_to(inputs, inputs[j]->node_id));
            lemma_in_use(network.nodes@, network.nodes@.len() as int, i, inputs[j]->node_id);
        }
    }
}

/// Whatever an input of the untapped network evaluates to, it evaluates to in the
/// rewritten network, with twice the fuel.
pub proof fn lemma_forth_input<V>(
    sem: Semantics<V>,
    before: NodeNetwork,
    after: NodeNetwork,
    tap: spec_fn(int) -> NodeId,
    offset: int,
    input: NodeInput,
    imports: Seq<V>,
    fuel: nat,
)
    requires
        sem.taps_are_transparent(),
        tapped(before, after, tap, offset),
        input is Node ==> occurs(before, input->node_id),
        eval_input(sem, before, input, imports, fuel) is Some,
    ensures
        eval_input(sem, after, input, imports, 2 * fuel) == eval_input(sem, before, input, imports, fuel),
    decreases fuel, 0nat, 0nat,
{
    if let NodeInput::Node { node_id, .. } = input {
        match find(before.nodes@, node_id) {
            None => {
                lemma_find_missing(before, after, tap, offset, node_id);
            },
            Some(i) => {
                lemma_find_node(before, after, tap, offset, i);
                lemma_forth_node(sem, before, after, tap, offset, i, imports, (fuel - 1) as nat);
            },
        }
    }
}

/// Whatever inputs of the untapped network evaluate to, they evaluate to in the
/// rewritten network, with twice the fuel.
pub proof fn lemma_forth_inputs<V>(
    sem: Semantics<V>,
    before: NodeNetwork,
    after: NodeNetwork,
    tap: spec_fn(int) -> NodeId,
    offset: int,
    inputs: Seq<NodeInput>,
    n: int,
    imports: Seq<V>,
    fuel: nat,
)
    requires
        sem.taps_are_transparent(),
        tapped(before, after, tap, offset),
        refer_within(inputs, before),
        eval_inputs(sem, before, inputs, n, imports, fuel) is Some,
    ensures
        eval_inputs(sem, after, inputs, n, imports, 2 * fuel) == eval_inputs(sem, before, inputs, n, imports, fuel),
    decreases fuel, 1nat, n,
{
    if 0 < n <= inputs.len() {
        lemma_forth_inputs(sem, before, after, tap, offset, inputs, n - 1, imports, fuel);
        lemma_forth_input(sem, before, after, tap, offset, inputs[n - 1], imports, fuel);
    }
}

/// What a tap yields: the value of the input that it was put on.
pub proof fn lemma_tap_yields<V>(sem: Semantics<V>, network: NodeNetwork, at: int, source: NodeInput, imports: Seq<V>, fuel: nat)
    requires
        sem.taps_are_transparent(),
        is_tap(network.nodes@[at].1, source),
    ensures
        eval_node(sem, network, at, imports, fuel) == match eval_input(sem, network, source, imports, fuel) {
            Some(value) => Some(seq![value]),
            None => None::<Seq<V>>,
        },
{
    let inputs = network.nodes@[at].1.inputs@;
    assert(inputs[0] == source);
    assert(eval_inputs(sem, network, inputs, 0, imports, fuel) == Some(Seq::<V>::empty()));
    if let Some(value) = eval_input(sem, network, source, imports, fuel) {
        assert(Seq::<V>::empty().push(value) =~= seq![value]);
    }
}

/// Whatever the inputs of a node of the untapped network evaluate to, the inputs of
/// the rewritten node evaluate to, through their taps.
pub proof fn lemma_forth_arguments<V>(
    sem: Semantics<V>,
    before: NodeNetwork,
    after: NodeNetwork,
    tap: spec_fn(int) -> NodeId,
    offset: int,
    i: int,
    m: int,
    imports: Seq<V>,
    fuel: nat,
)
    requires
        sem.taps_are_transparent(),
        tapped(before, after, tap, offset),
        0 <= i < before.nodes@.len(),
        0 <= m <= before.nodes@[i].1.inputs@.len(),
        eval_inputs(sem, before, before.nodes@[i].1.inputs@, m, imports, fuel) is Some,
    ensures
        eval_inputs(sem, after, after.nodes@[i].1.inputs@, m, imports, 2 * fuel + 1) == eval_inputs(
            sem,
            before,
            before.nodes@[i].1.inputs@,
            m,
            imports,
            fuel,
        ),
    decreases fuel, 1nat, m,
{
    let nodes = before.nodes@;
    let sources = nodes[i].1.inputs@;
    let rewired = after.nodes@[i].1.inputs@;
    assert(node_instrumented(nodes[i].1, after.nodes@[i].1, tap, offset + slots_upto(nodes, i)));
    if m > 0 {
        let j = m - 1;
        lemma_forth_arguments(sem, before, after, tap, offset, i, m - 1, imports, fuel);
        lemma_refer_within(before, i);
        lemma_forth_input(sem, before, after, tap, offset, sources[j], imports, fuel);
        lemma_find_tap(before, after, tap, offset, i, j);
        let at = tap_position(nodes, i, j);
        lemma_tap_yields(sem, after, at, sources[j], imports, 2 * fuel);
        assert(rewired[j] == (NodeInput::Node { node_id: tap(tap_slot(nodes, i, j, offset)), output_index: 0 }));
        let value = eval_input(sem, before, sources[j], imports, fuel)->0;
        assert(eval_input(sem, before, sources[j], imports, fuel) == Some(value));
        assert(eval_node(sem, after, at, imports, 2 * fuel) == Some(seq![value]));
        assert((2 * fuel + 1 - 1) as nat == 2 * fuel);
        assert(eval_input(sem, after, rewired[j], imports, 2 * fuel + 1) == Some(sem.pick(seq![value], 0)));
    }
}

/// Whatever a node of the untapped network yields, the rewritten node yields, with
/// twice the fuel and one more.
pub proof fn lemma_forth_node<V>(
    sem: Semantics<V>,
    before: NodeNetwork,
    after: NodeNetwork,
    tap: spec_fn(int) -> NodeId,
    offset: int,
    i: int,
    imports: Seq<V>,
    fuel: nat,
)
    requires
        sem.taps_are_transparent(),
        tapped(before, after, tap, offset),
        0 <= i < before.nodes@.len(),
        eval_node(sem, before, i, imports, fuel) is Some,
    ensures
        eval_node(sem, after, i, imports, 2 * fuel + 1) == eval_node(sem, before, i, imports, fuel),
    decreases fuel, 2nat, 0nat,
{
    let node = before.nodes@[i].1;
    let rewritten = after.nodes@[i].1;
    assert(node_instrumented(node, rewritten, tap, offset + slots_upto(before.nodes@, i)));
    lemma_forth_arguments(sem, before, after, tap, offset, i, node.inputs@.len() as int, imports, fuel);
    let arguments = eval_inputs(sem, before, node.inputs@, node.inputs@.len() as int, imports, fuel)->0;
    if let DocumentNodeImplementation::Network(nested) = node.implementation {
        lemma_tapped_inside(before, after, tap, offset, i);
        let inner = rewritten.implementation->Network_0;
        lemma_refer_within(nested, 0);
        lemma_forth_inputs(sem, nested, inner, tap, offset + slots_upto(before.nodes@, i), nested.exports@, nested.exports@.len() as int, arguments, fuel);
        lemma_more_fuel_inputs(sem, inner, nested.exports@, nested.exports@.len() as int, arguments, 2 * fuel);
    }
}

/// Whatever an input of the untapped network evaluates to in the rewritten network,
/// it evaluates to in the untapped network, with the same fuel.
pub proof fn lemma_back_input<V>(
    sem: Semantics<V>,
    before: NodeNetwork,
    after: NodeNetwork,
    tap: spec_fn(int) -> NodeId,
    offset: int,
    input: NodeInput,
    imports: Seq<V>,
    fuel: nat,
)
    requires
        sem.taps_are_transparent(),
        tapped(before, after, tap, offset),
        input is Node ==> occurs(before, input->node_id),
        eval_input(sem, after, input, imports, fuel) is Some,
    ensures
        eval_input(sem, before, input, imports, fuel) == eval_input(sem, after, input, imports, fuel),
    decreases fuel, 0nat, 0nat,
{
    if let NodeInput::Node { node_id, .. } = input {
        match find(before.nodes@, node_id) {
            None => {
                lemma_find_missing(before, after, tap, offset, node_id);
            },
            Some(i) => {
                lemma_find_node(before, after, tap, offset, i);
                lemma_back_node(sem, before, after, tap, offset, i, imports, (fuel - 1) as nat);
            },
        }
    }
}

/// Whatever inputs of the untapped network evaluate to in the rewritten network,
/// they evaluate to in the untapped network, with the same fuel.
pub proof fn lemma_back_inputs<V>(
    sem: Semantics<V>,
    before: NodeNetwork,
    after: NodeNetwork,
    tap: spec_fn(int) -> NodeId,
    offset: int,
    inputs: Seq<NodeInput>,
    n: int,
    imports: Seq<V>,
    fuel: nat,
)
    requires
        sem.taps_are_transparent(),
        tapped(before, after, tap, offset),
        refer_within(inputs, before),
        eval_inputs(sem, after, inputs, n, imports, fuel) is Some,
    ensures
        eval_inputs(sem, before, inputs, n, imports, fuel) == eval_inputs(sem, after, inputs, n, imports, fuel),
    decreases fuel, 1nat, n,
{
    if 0 < n <= inputs.len() {
        lemma_back_inputs(sem, before, after, tap, offset, inputs, n - 1, imports, fuel);
        lemma_back_input(sem, before, after, tap, offset, inputs[n - 1], imports, fuel);
    }
}

/// Whatever the inputs of a rewritten node evaluate to through their taps,
/// the inputs of the node of the untapped network evaluate to.
pub proof fn lemma_back_arguments<V>(
    sem: Semantics<V>,
    before: NodeNetwork,
    after: NodeNetwork,
    tap: spec_fn(int) -> NodeId,
    offset: int,
    i: int,
    m: int,
    imports: Seq<V>,
    fuel: nat,
)
    requires
        sem.taps_are_transparent(),
        tapped(before, after, tap, offset),
        0 <= i < before.nodes@.len(),
        0 <= m <= before.nodes@[i].1.inputs@.len(),
        eval_inputs(sem, after, after.nodes@[i].1.inputs@, m, imports, fuel) is Some,
    ensures
        eval_inputs(sem, before, before.nodes@[i].1.inputs@, m, imports, fuel) == eval_inputs(
            sem,
            after,
            after.nodes@[i].1.inputs@,
            m,
            imports,
            fuel,
        ),
    decreases fuel, 1nat, m,
{
    let nodes = before.nodes@;
    let sources = nodes[i].1.inputs@;
    let rewired = after.nodes@[i].1.inputs@;
    assert(node_instrumented(nodes[i].1, after.nodes@[i].1, tap, offset + slots_upto(nodes, i)));
    if m > 0 {
        let j = m - 1;
        lemma_back_arguments(sem, before, after, tap, offset, i, m - 1, imports, fuel);
        lemma_refer_within(before, i);
        lemma_find_tap(before, after, tap, offset, i, j);
        let at = tap_position(nodes, i, j);
        assert(rewired[j] == (NodeInput::Node { node_id: tap(tap_slot(nodes, i, j, offset)), output_index: 0 }));
        assert(eval_input(sem, after, rewired[j], imports, fuel) is Some);
        assert(fuel > 0);
        lemma_tap_yields(sem, after, at, sources[j], imports, (fuel - 1) as nat);
        assert(eval_node(sem, after, at, imports, (fuel - 1) as nat) is Some);
        assert(eval_input(sem, after, sources[j], imports, (fuel - 1) as nat) is Some);
        lemma_back_input(sem, before, after, tap, offset, sources[j], imports, (fuel - 1) as nat);
        lemma_more_fuel_input(sem, before, sources[j], imports, (fuel - 1) as nat);
        let value = eval_input(sem, after, sources[j], imports, (fuel - 1) as nat)->0;
        assert(eval_input(sem, after, rewired[j], imports, fuel) == Some(sem.pick(seq![value], 0)));
        assert(((fuel - 1) as nat + 1) as nat == fuel);
    }
}

/// Whatever a rewritten node yields, the node of the untapped network yields, with
/// the same fuel.
pub proof fn lemma_back_node<V>(
    sem: Semantics<V>,
    before: NodeNetwork,
    after: NodeNetwork,
    tap: spec_fn(int) -> NodeId,
    offset: int,
    i: int,
    imports: Seq<V>,
    fuel: nat,
)
    requires
        sem.taps_are_transparent(),
        tapped(before, after, tap, offset),
        0 <= i < before.nodes@.len(),
        eval_node(sem, after, i, imports, fuel) is Some,
    ensures
        eval_node(sem, before, i, imports, fuel) == eval_node(sem, after, i, imports, fuel),
    decreases fuel, 2nat, 0nat,
{
    let node = before.nodes@[i].1;
    let rewritten = after.nodes@[i].1;
    assert(node_instrumented(node, rewritten, tap, offset + slots_upto(before.nodes@, i)));
    lemma_back_arguments(sem, before, after, tap, offset, i, node.inputs@.len() as int, imports, fuel);
    let arguments = eval_inputs(sem, after, rewritten.inputs@, rewritten.inputs@.len() as int, imports, fuel)->0;
    if let DocumentNodeImplementation::Network(nested) = node.implementation {
        lemma_tapped_inside(before, after, tap, offset, i);
        let inner = rewritten.implementation->Network_0;
        lemma_refer_within(nested, 0);
        lemma_back_inputs(sem, nested, inner, tap, offset + slots_upto(before.nodes@, i), nested.exports@, nested.exports@.len() as int, arguments, fuel);
    }
}

/// Recording taps do not change what a graph computes. Let `after` be
/// `before` with a tap on every input, the ids of the taps new to `before`,
/// and let the recording operation pass its argument on unchanged. Then on
/// the same imports the two networks hand out the same values: whatever
/// `before` hands out with some fuel, `after` hands out with twice that fuel
/// or more, and whatever `after` hands out with some fuel, `before` hands
/// out with that fuel or more. Values that stand for failures are values
/// like any other.
pub proof fn lemma_taps_change_no_output<V>(
    sem: Semantics<V>,
    before: NodeNetwork,
    after: NodeNetwork,
    tap: spec_fn(int) -> NodeId,
    imports: Seq<V>,
    fuel: nat,
    more: nat,
)
    requires
        sem.taps_are_transparent(),
        instrumented(before, after, tap, 0),
        fresh_taps(before, tap, 0),
        distinct_ids(before),
        more >= 2 * fuel,
    ensures
        outputs(sem, before, imports, fuel) is Some ==> outputs(sem, after, imports, more) == outputs(sem, before, imports, fuel),
        outputs(sem, after, imports, fuel) is Some ==> outputs(sem, before, imports, more) == outputs(sem, after, imports, fuel),
{
    let exports = before.exports@;
    let n = exports.len() as int;
    lemma_refer_within(before, 0);
    if outputs(sem, before, imports, fuel) is Some {
        lemma_forth_inputs(sem, before, after, tap, 0, exports, n, imports, fuel);
        lemma_enough_fuel_inputs(sem, after, exports, n, imports, 2 * fuel, more);
    }
    if outputs(sem, after, imports, fuel) is Some {
        lemma_back_inputs(sem, before, after, tap, 0, exports, n, imports, fuel);
        lemma_enough_fuel_inputs(sem, before, exports, n, imports, fuel, more);
    }
}

} // verus!
