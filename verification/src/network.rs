//! The graph that the engine compiles: nodes with inputs, some of them whole
//! networks of their own.

use crate::document::NodeId;
use crate::render::Vector2;
use vstd::prelude::*;

verus! {

/// The name of a primitive operation.
#[derive(Clone, Debug, PartialEq, Eq, Hash)]
pub struct ProtoNodeIdentifier {
    pub name: String,
}

/// A constant that an input holds. The runtime reads truth values and
/// points; any other constant it knows only by a token of the document.
#[derive(Clone, Copy, Debug, PartialEq, Eq, Hash, Structural)]
pub enum InputValue {
    Bool(bool),
    DVec2(Vector2),
    Opaque(u64),
}

/// Where an input of a node takes its value from.
#[derive(Clone, Debug, PartialEq, Eq, Hash)]
pub enum NodeInput {
    /// An output of another node of the same network.
    Node { node_id: NodeId, output_index: usize },
    /// A constant.
    Value { value: InputValue, exposed: bool },
    /// An input of the node that this network implements.
    Import { import_index: usize },
    /// A value that the engine provides under a name.
    Scope(String),
}

/// The type of the argument that a node is called with.
#[derive(Clone, Copy, Debug, PartialEq, Eq, Hash, Structural)]
pub enum CallArgument {
    Context,
    Generic,
}

/// What a node computes with.
#[derive(Debug, PartialEq, Eq)]
pub enum DocumentNodeImplementation {
    Network(NodeNetwork),
    ProtoNode(ProtoNodeIdentifier),
    Extract,
}

/// One node of a network.
#[derive(Debug, PartialEq, Eq)]
pub struct DocumentNode {
    pub inputs: Vec<NodeInput>,
    pub implementation: DocumentNodeImplementation,
    pub call_argument: CallArgument,
    pub skip_deduplication: bool,
}

/// A network: its nodes under their ids, and the inputs that it hands out as
/// its outputs.
#[derive(Debug, PartialEq, Eq)]
pub struct NodeNetwork {
    pub exports: Vec<NodeInput>,
    pub nodes: Vec<(NodeId, DocumentNode)>,
}

/// Number of input slots of a node, those of the network inside it
/// included.
pub open spec fn node_slots(node: DocumentNode) -> nat
    decreases node, 1nat,
{
    node.inputs@.len() + nested_slots(node)
}

/// Number of input slots of the network inside a node; none if the node is
/// not implemented by a network.
pub open spec fn nested_slots(node: DocumentNode) -> nat
    decreases node, 0nat,
{
    match node.implementation {
        DocumentNodeImplementation::Network(nested) => slots(nested),
        _ => 0,
    }
}

/// Number of input slots of the first `n` of these nodes, nested networks
/// included.
pub open spec fn slots_upto(nodes: Seq<(NodeId, DocumentNode)>, n: int) -> nat
    decreases nodes, n,
{
    if n <= 0 || n > nodes.len() {
        0
    } else {
        slots_upto(nodes, n - 1) + node_slots(nodes[n - 1].1)
    }
}

/// Number of input slots of a network, at every depth.
pub open spec fn slots(network: NodeNetwork) -> nat
    decreases network, 0nat,
{
    slots_upto(network.nodes@, network.nodes@.len() as int)
}

/// Number of inputs of the first `n` of these nodes themselves.
pub open spec fn inputs_upto(nodes: Seq<(NodeId, DocumentNode)>, n: int) -> nat
    decreases n,
{
    if n <= 0 || n > nodes.len() {
        0
    } else {
        inputs_upto(nodes, n - 1) + nodes[n - 1].1.inputs@.len()
    }
}

/// One of these inputs takes its value from the node `id`.
pub open spec fn refers_to(inputs: Seq<NodeInput>, id: NodeId) -> bool {
    exists|j: int| 0 <= j < inputs.len() && (#[trigger] inputs[j] matches NodeInput::Node { node_id, .. } && node_id == id)
}

/// The id is in use in the network, at any depth: a node goes by it, or an
/// input or an export refers to it.
pub open spec fn occurs(network: NodeNetwork, id: NodeId) -> bool
    decreases network, 0nat,
{
    refers_to(network.exports@, id) || occurs_among(network.nodes@, network.nodes@.len() as int, id)
}

/// The id is in use among the first `n` of these nodes or inside one of
/// them.
pub open spec fn occurs_among(nodes: Seq<(NodeId, DocumentNode)>, n: int, id: NodeId) -> bool
    decreases nodes, n,
{
    if n <= 0 || n > nodes.len() {
        false
    } else {
        ||| occurs_among(nodes, n - 1, id)
        ||| nodes[n - 1].0 == id
        ||| refers_to(nodes[n - 1].1.inputs@, id)
        ||| (nodes[n - 1].1.implementation matches DocumentNodeImplementation::Network(nested) && occurs(nested, id))
    }
}

/// No two nodes of the network go by the same id, and the same holds of
/// every network inside it.
pub open spec fn distinct_ids(network: NodeNetwork) -> bool
    decreases network, 0nat,
{
    &&& forall|i: int, j: int| 0 <= i < j < network.nodes@.len() ==> network.nodes@[i].0 != network.nodes@[j].0
    &&& distinct_within(network.nodes@, network.nodes@.len() as int)
}

/// The networks inside the first `n` of these nodes have distinct ids.
pub open spec fn distinct_within(nodes: Seq<(NodeId, DocumentNode)>, n: int) -> bool
    decreases nodes, n,
{
    if n <= 0 || n > nodes.len() {
        true
    } else {
        &&& distinct_within(nodes, n - 1)
        &&& nodes[n - 1].1.implementation matches DocumentNodeImplementation::Network(nested) ==> distinct_ids(nested)
    }
}

impl ProtoNodeIdentifier {
    /// An identifier of its own with the same name.
    pub fn duplicate(&self) -> (r: ProtoNodeIdentifier)
        ensures
            r == *self,
    {
        ProtoNodeIdentifier { name: self.name.clone() }
    }
}

impl NodeInput {
    /// An input of its own that takes its value from the same place.
    pub fn duplicate(&self) -> (r: NodeInput)
        ensures
            r == *self,
    {
        match self {
            NodeInput::Node { node_id, output_index } => NodeInput::Node { node_id: *node_id, output_index: *output_index },
            NodeInput::Value { value, exposed } => NodeInput::Value { value: *value, exposed: *exposed },
            NodeInput::Import { import_index } => NodeInput::Import { import_index: *import_index },
            NodeInput::Scope(name) => NodeInput::Scope(name.clone()),
        }
    }
}

/// A list of its own with the same ids.
pub fn copy_path(path: &Vec<NodeId>) -> (r: Vec<NodeId>)
    ensures
        r@ == path@,
{
    let mut out: Vec<NodeId> = Vec::new();
    let mut i: usize = 0;
    while i < path.len()
        invariant
            i <= path@.len(),
            out@ == path@.take(i as int),
        decreases path@.len() - i,
    {
        out.push(path[i]);
        assert(out@ =~= path@.take(i + 1));
        i += 1;
    }
    assert(path@.take(path@.len() as int) =~= path@);
    out
}

/// A list of its own with the same inputs.
pub fn copy_inputs(inputs: &Vec<NodeInput>) -> (r: Vec<NodeInput>)
    ensures
        r@ == inputs@,
{
    let mut out: Vec<NodeInput> = Vec::new();
    let mut i: usize = 0;
    while i < inputs.len()
        invariant
            i <= inputs@.len(),
            out@ == inputs@.take(i as int),
        decreases inputs@.len() - i,
    {
        out.push(inputs[i].duplicate());
        assert(out@ =~= inputs@.take(i + 1));
        i += 1;
    }
    assert(inputs@.take(inputs@.len() as int) =~= inputs@);
    out
}

impl NodeNetwork {
    /// Whether no two nodes of the network go by the same id, in this
    /// network and in every network inside it.
    pub fn has_distinct_ids(&self) -> (r: bool)
        ensures
            r == distinct_ids(*self),
        decreases self,
    {
        let mut j: usize = 0;
        while j < self.nodes.len()
            invariant
                j <= self.nodes@.len(),
                forall|a: int, b: int| 0 <= a < b < j ==> self.nodes@[a].0 != self.nodes@[b].0,
                distinct_within(self.nodes@, j as int),
            decreases self.nodes@.len() - j,
        {
            let id = self.nodes[j].0;
            let mut i: usize = 0;
            while i < j
                invariant
                    i <= j < self.nodes@.len(),
                    id == self.nodes@[j as int].0,
                    forall|a: int| 0 <= a < i ==> self.nodes@[a].0 != id,
                decreases j - i,
            {
                if self.nodes[i].0.0 == id.0 {
                    return false;
                }
                i += 1;
            }
            if let DocumentNodeImplementation::Network(nested) = &self.nodes[j].1.implementation {
                if !nested.has_distinct_ids() {
                    proof {
                        lemma_distinct_within_holds_of_each(self.nodes@, self.nodes@.len() as int, j as int);
                    }
                    return false;
                }
            }
            j += 1;
        }
        true
    }
}

/// If the networks inside the first `n` nodes have distinct ids, so has the
/// network inside each of them.
pub proof fn lemma_distinct_within_holds_of_each(nodes: Seq<(NodeId, DocumentNode)>, n: int, i: int)
    requires
        0 <= i < n <= nodes.len(),
    ensures
        distinct_within(nodes, n) ==> (nodes[i].1.implementation matches DocumentNodeImplementation::Network(nested) ==> distinct_ids(nested)),
    decreases n,
{
    if i < n - 1 {
        lemma_distinct_within_holds_of_each(nodes, n - 1, i);
    }
}

} // verus!
