//! The connection pool.
//!
//! [`Pool`] is the shared handle to the backend state that the database
//! service owns and entity services borrow.  [`PoolQueue`] is the model of
//! how a bounded pool schedules concurrent queries: it maintains a small
//! number of connections, hands a free one to a waiting caller, and queues
//! the excess instead of refusing it, so every issued query eventually
//! completes.

use vstd::prelude::*;

use crate::engine::Database;

verus! {

/// The handle to the backend state.  The service owns it for the process
/// lifetime; entity services borrow it.
pub struct Pool {
    pub db: Database,
}

/// The scheduling state of a bounded pool: how many physical connections
/// it maintains, how many are busy, how many callers wait for one, and how
/// many queries have completed.
pub struct PoolQueue {
    pub capacity: usize,
    pub busy: usize,
    pub waiting: usize,
    pub completed: usize,
}

impl PoolQueue {
    /// The pool maintains at least one connection and never hands out
    /// more than it maintains.
    pub open spec fn wf(&self) -> bool {
        1 <= self.capacity && self.busy <= self.capacity
    }

    /// A fresh pool with `capacity` connections, all free.
    pub fn new(capacity: usize) -> (r: Self)
        requires
            1 <= capacity,
        ensures
            r.wf(),
            r.capacity == capacity,
            r.busy == 0,
            r.waiting == 0,
            r.completed == 0,
    {
        PoolQueue { capacity, busy: 0, waiting: 0, completed: 0 }
    }

    /// A caller issues a query: it joins the wait queue; it is never
    /// refused.
    pub fn submit(&mut self)
        requires
            old(self).wf(),
            old(self).waiting < usize::MAX,
        ensures
            final(self).wf(),
            final(self).waiting == old(self).waiting + 1,
            final(self).capacity == old(self).capacity,
            final(self).busy == old(self).busy,
            final(self).completed == old(self).completed,
    {
        self.waiting = self.waiting + 1;
    }

    /// The pool hands a free connection to one waiting caller.
    pub fn start_one(&mut self)
        requires
            old(self).wf(),
            old(self).waiting > 0,
            old(self).busy < old(self).capacity,
        ensures
            final(self).wf(),
            final(self).waiting == old(self).waiting - 1,
            final(self).busy == old(self).busy + 1,
            final(self).capacity == old(self).capacity,
            final(self).completed == old(self).completed,
    {
        self.waiting = self.waiting - 1;
        self.busy = self.busy + 1;
    }

    /// A query finishes (or its caller abandons it): the connection goes
    /// back to the pool rather than leaking.
    pub fn finish_one(&mut self)
        requires
            old(self).wf(),
            old(self).busy > 0,
            old(self).completed < usize::MAX,
        ensures
            final(self).wf(),
            final(self).busy == old(self).busy - 1,
            final(self).completed == old(self).completed + 1,
            final(self).capacity == old(self).capacity,
            final(self).waiting == old(self).waiting,
    {
        self.busy = self.busy - 1;
        self.completed = self.completed + 1;
    }

    /// Queuing, not failure, under contention: however many queries are
    /// waiting or running against however small a pool, driving the pool
    /// completes every one of them.
    pub fn complete_all(&mut self)
        requires
            old(self).wf(),
            old(self).completed + old(self).waiting + old(self).busy <= usize::MAX,
        ensures
            final(self).wf(),
            final(self).waiting == 0,
            final(self).busy == 0,
            final(self).completed == old(self).completed + old(self).waiting + old(self).busy,
            final(self).capacity == old(self).capacity,
    {
        while self.waiting > 0 || self.busy > 0
            invariant
                self.wf(),
                self.capacity == old(self).capacity,
                self.completed + self.waiting + self.busy == old(self).completed + old(
                    self,
                ).waiting + old(self).busy,
                self.completed + self.waiting + self.busy <= usize::MAX,
            decreases 2 * self.waiting + self.busy,
        {
            if self.waiting > 0 && self.busy < self.capacity {
                self.start_one();
            } else {
                self.finish_one();
            }
        }
    }
}

} // verus!
