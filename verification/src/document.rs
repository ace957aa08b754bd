//! Identities shared by every part of the runtime.

use vstd::prelude::*;

verus! {

/// Identity of a node inside one network.
#[derive(Clone, Copy, Debug, PartialEq, Eq, Hash, Structural)]
pub struct NodeId(pub u64);

/// Identity of an open document.
#[derive(Clone, Copy, Debug, PartialEq, Eq, Hash, Structural)]
pub struct DocumentId(pub u64);

impl NodeId {
    /// The raw number behind the identity.
    pub fn value(&self) -> (r: u64)
        ensures
            r == self.0,
    {
        self.0
    }
}

} // verus!
