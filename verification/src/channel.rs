//! The completion channel: a FIFO queue of completed load results.
//!
//! Workers push completion messages at the back; the ingest step pops from
//! the front, never blocking. Draining it when empty returns immediately
//! and changes nothing.

use crate::asset_server::AssetWorkerMessage;
use vstd::prelude::*;

verus! {

/// The queue of completion messages awaiting ingestion, in arrival order.
pub struct CompletionChannel {
    queue: Vec<AssetWorkerMessage>,
}

impl CompletionChannel {
    /// The pending messages, front first.
    pub closed spec fn view(&self) -> Seq<AssetWorkerMessage> {
        self.queue@
    }

    pub fn new() -> (c: CompletionChannel)
        ensures
            c@ == Seq::<AssetWorkerMessage>::empty(),
    {
        CompletionChannel { queue: Vec::new() }
    }

    /// Appends one completed load at the back of the queue. Never blocks
    /// and never fails: the queue is unbounded.
    pub fn send(&mut self, msg: AssetWorkerMessage)
        ensures
            final(self)@ == old(self)@.push(msg),
    {
        self.queue.push(msg);
    }

    /// Pops the oldest pending message, or returns `None` immediately when
    /// the queue is empty, leaving it unchanged.
    pub fn try_receive(&mut self) -> (r: Option<AssetWorkerMessage>)
        ensures
            old(self)@.len() == 0 ==> r is None && final(self)@ == old(self)@,
            old(self)@.len() > 0 ==> r == Some(old(self)@.first()) && final(self)@ == old(
                self,
            )@.drop_first(),
    {
        if self.queue.len() == 0 {
            None
        } else {
            let msg = self.queue.remove(0);
            Some(msg)
        }
    }

    pub fn len(&self) -> (n: usize)
        ensures
            n == self@.len(),
    {
        self.queue.len()
    }

    pub fn is_empty(&self) -> (b: bool)
        ensures
            b == (self@.len() == 0),
    {
        self.queue.len() == 0
    }
}

} // verus!
