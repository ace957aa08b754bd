//! The channel between the controller and the engine: two queues, one in
//! each direction, that keep the order in which messages were put in.

use crate::messages::{GraphRuntimeRequest, NodeGraphUpdate};
use vstd::prelude::*;

verus! {

/// The controller's end and the engine's end of the channel. Sending only
/// puts a message in line and returns; receiving takes what is in line at
/// that moment and never waits.
pub struct NodeRuntimeIO<A> {
    outbound: Vec<GraphRuntimeRequest<A>>,
    inbound: Vec<NodeGraphUpdate<A>>,
    closed: bool,
}

impl<A> NodeRuntimeIO<A> {
    /// The requests that the engine has not taken yet, oldest first.
    pub closed spec fn outbound(&self) -> Seq<GraphRuntimeRequest<A>> {
        self.outbound@
    }

    /// The results that the controller has not received yet, oldest first.
    pub closed spec fn inbound(&self) -> Seq<NodeGraphUpdate<A>> {
        self.inbound@
    }

    /// The engine still listens.
    pub closed spec fn open(&self) -> bool {
        !self.closed
    }

    /// What a sender is told when the engine has gone.
    pub open spec fn closed_message() -> Seq<char> {
        "sending on a closed channel"@
    }

    /// An open channel with nothing in line.
    pub fn new() -> (r: Self)
        ensures
            r.outbound() == Seq::<GraphRuntimeRequest<A>>::empty(),
            r.inbound() == Seq::<NodeGraphUpdate<A>>::empty(),
            r.open(),
    {
        NodeRuntimeIO { outbound: Vec::new(), inbound: Vec::new(), closed: false }
    }

    /// Whether the engine still listens.
    pub fn is_open(&self) -> (r: bool)
        ensures
            r == self.open(),
    {
        !self.closed
    }

    /// Puts `message` in line for the engine, behind everything sent before.
    /// Fails, and changes nothing, once the engine has gone.
    pub fn send(&mut self, message: GraphRuntimeRequest<A>) -> (r: Result<(), String>)
        ensures
            final(self).inbound() == old(self).inbound(),
            final(self).open() == old(self).open(),
            old(self).open() ==> r is Ok && final(self).outbound() == old(self).outbound().push(message),
            !old(self).open() ==> r is Err && r->Err_0@ == Self::closed_message() && final(self).outbound() == old(
                self,
            ).outbound(),
    {
        if self.closed {
            Err("sending on a closed channel".to_owned())
        } else {
            self.outbound.push(message);
            Ok(())
        }
    }

    /// Takes every result that is ready, in the order in which the engine
    /// delivered them, and leaves none behind.
    pub fn receive(&mut self) -> (r: Vec<NodeGraphUpdate<A>>)
        ensures
            r@ == old(self).inbound(),
            final(self).inbound() == Seq::<NodeGraphUpdate<A>>::empty(),
            final(self).outbound() == old(self).outbound(),
            final(self).open() == old(self).open(),
    {
        let mut ready: Vec<NodeGraphUpdate<A>> = Vec::new();
        core::mem::swap(&mut self.inbound, &mut ready);
        ready
    }

    /// The engine's side: takes every request that is in line, oldest first.
    pub fn take_requests(&mut self) -> (r: Vec<GraphRuntimeRequest<A>>)
        ensures
            r@ == old(self).outbound(),
            final(self).outbound() == Seq::<GraphRuntimeRequest<A>>::empty(),
            final(self).inbound() == old(self).inbound(),
            final(self).open() == old(self).open(),
    {
        let mut taken: Vec<GraphRuntimeRequest<A>> = Vec::new();
        core::mem::swap(&mut self.outbound, &mut taken);
        taken
    }

    /// The engine's side: puts a result in line for the controller.
    pub fn deliver(&mut self, update: NodeGraphUpdate<A>)
        ensures
            final(self).inbound() == old(self).inbound().push(update),
            final(self).outbound() == old(self).outbound(),
            final(self).open() == old(self).open(),
    {
        self.inbound.push(update);
    }

    /// The engine's side: stops listening. What is in line stays there.
    pub fn close(&mut self)
        ensures
            !final(self).open(),
            final(self).inbound() == old(self).inbound(),
            final(self).outbound() == old(self).outbound(),
    {
        self.closed = true;
    }
}

} // verus!
