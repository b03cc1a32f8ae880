//! The ingestion queue: an in-memory stack of pending write requests. The
//! background worker takes the most recently enqueued request first — the
//! order is last-in-first-out by design, not submission order — and hands it
//! to the persistence manager. The mutex that shares the queue between
//! tasks, and the worker loop itself, live with the caller.

use vstd::prelude::*;
use crate::block::BlockTypeView;
use crate::block::CBCABlockType;

verus! {

/// The pending write requests, most recently enqueued last.
#[derive(Debug)]
pub struct CBCAQueue {
    pub queue: Vec<CBCABlockType>,
}

impl View for CBCAQueue {
    type V = Seq<BlockTypeView>;

    open spec fn view(&self) -> Seq<BlockTypeView> {
        Seq::new(self.queue@.len(), |k: int| self.queue@[k]@)
    }
}

impl CBCAQueue {
    /// A fresh, empty queue.
    pub fn spawn() -> (r: Self)
        ensures
            r@ == Seq::<BlockTypeView>::empty(),
    {
        let r = Self { queue: Vec::new() };
        assert(r@ =~= Seq::<BlockTypeView>::empty());
        r
    }

    /// How many requests are waiting.
    pub fn len(&self) -> (r: usize)
        ensures
            r == self@.len(),
    {
        self.queue.len()
    }

    /// Enqueues one request at the top of the stack.
    pub fn add_wait_action(&mut self, payload: CBCABlockType)
        ensures
            final(self)@ == old(self)@.push(payload@),
    {
        self.queue.push(payload);
        assert(self@ =~= old(self)@.push(payload@));
    }

    /// Removes and returns the most recently enqueued request — last in,
    /// first out — or nothing when the queue is empty.
    pub fn remove_wait_action(&mut self) -> (r: Option<CBCABlockType>)
        ensures
            old(self)@.len() == 0 ==> r is None && final(self)@ == old(self)@,
            old(self)@.len() > 0 ==> (r matches Some(p) && p@ == old(self)@.last()
                && final(self)@ == old(self)@.drop_last()),
    {
        let r = self.queue.pop();
        proof {
            if old(self)@.len() == 0 {
                assert(self@ =~= old(self)@);
            } else {
                assert(self@ =~= old(self)@.drop_last());
            }
        }
        r
    }
}

} // verus!
