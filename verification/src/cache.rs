//! Remembers which graph the engine last compiled.

use crate::document::NodeId;
use vstd::prelude::*;

verus! {

/// Fingerprint of the graph that was last sent for compilation, and the node
/// that was selected for inspection at that time.
#[derive(Debug)]
pub struct CompiledProgramCache {
    node_graph_hash: u64,
    previous_node_to_inspect: Option<NodeId>,
}

impl CompiledProgramCache {
    /// Fingerprint of the graph the engine holds.
    pub closed spec fn fingerprint(&self) -> u64 {
        self.node_graph_hash
    }

    /// Node the engine was asked to inspect.
    pub closed spec fn inspect_target(&self) -> Option<NodeId> {
        self.previous_node_to_inspect
    }

    /// The engine holds exactly this graph with this inspect target.
    pub open spec fn is_current(&self, fingerprint: u64, inspect_target: Option<NodeId>) -> bool {
        self.fingerprint() == fingerprint && self.inspect_target() == inspect_target
    }

    /// What a check answers: the graph must be sent again when the pair
    /// differs from what the engine holds or when `force` is set.
    pub open spec fn must_update(&self, fingerprint: u64, inspect_target: Option<NodeId>, force: bool) -> bool {
        force || !self.is_current(fingerprint, inspect_target)
    }

    /// The cache after a check: it has adopted the pair if the answer was yes.
    pub closed spec fn after_check(&self, fingerprint: u64, inspect_target: Option<NodeId>, force: bool) -> Self {
        if self.must_update(fingerprint, inspect_target, force) {
            CompiledProgramCache { node_graph_hash: fingerprint, previous_node_to_inspect: inspect_target }
        } else {
            *self
        }
    }

    /// A cache for an engine that has compiled nothing yet.
    pub fn new() -> (r: Self)
        ensures
            r.fingerprint() == 0,
            r.inspect_target() is None,
    {
        CompiledProgramCache { node_graph_hash: 0, previous_node_to_inspect: None }
    }

    /// Fingerprint of the graph the engine holds.
    pub fn node_graph_hash(&self) -> (r: u64)
        ensures
            r == self.fingerprint(),
    {
        self.node_graph_hash
    }

    /// Node the engine was asked to inspect.
    pub fn previous_node_to_inspect(&self) -> (r: Option<NodeId>)
        ensures
            r == self.inspect_target(),
    {
        self.previous_node_to_inspect
    }

    /// Whether the graph must be sent again. It must when the fingerprint or
    /// the inspect target differs from what the engine holds, or when `force`
    /// is set. When it must, the cache adopts the new pair at once, so that
    /// the next check with the same pair and without force says no.
    pub fn needs_update(&mut self, fingerprint: u64, inspect_target: Option<NodeId>, force: bool) -> (r: bool)
        ensures
            r == old(self).must_update(fingerprint, inspect_target, force),
            *final(self) == old(self).after_check(fingerprint, inspect_target, force),
            r ==> final(self).is_current(fingerprint, inspect_target),
            !r ==> *final(self) == *old(self),
    {
        let same_target = match (self.previous_node_to_inspect, inspect_target) {
            (None, None) => true,
            (Some(a), Some(b)) => a.0 == b.0,
            _ => false,
        };
        if fingerprint != self.node_graph_hash || !same_target || force {
            self.previous_node_to_inspect = inspect_target;
            self.node_graph_hash = fingerprint;
            true
        } else {
            false
        }
    }

    /// Adopts the pair of a graph that has been sent to the engine without
    /// asking the cache first.
    pub fn adopt(&mut self, fingerprint: u64, inspect_target: Option<NodeId>)
        ensures
            final(self).is_current(fingerprint, inspect_target),
    {
        self.node_graph_hash = fingerprint;
        self.previous_node_to_inspect = inspect_target;
    }

    /// Replaces the stored fingerprint, keeping the inspect target. Used to
    /// make the next check fail: the caller picks a value that no graph of its
    /// own hashes to.
    pub fn overwrite_fingerprint(&mut self, fingerprint: u64)
        ensures
            final(self).fingerprint() == fingerprint,
            final(self).inspect_target() == old(self).inspect_target(),
    {
        self.node_graph_hash = fingerprint;
    }
}

/// Whatever a check answered, the cache then holds the pair it was asked
/// about: every further check with the same pair and without force answers no
/// and leaves the cache as it is.
pub proof fn lemma_check_is_idempotent(
    cache: CompiledProgramCache,
    fingerprint: u64,
    inspect_target: Option<NodeId>,
    force: bool,
)
    ensures
        ({
            let adopted = cache.after_check(fingerprint, inspect_target, force);
            &&& adopted.is_current(fingerprint, inspect_target)
            &&& !adopted.must_update(fingerprint, inspect_target, false)
            &&& adopted.after_check(fingerprint, inspect_target, false) == adopted
        }),
{
}

} // verus!
