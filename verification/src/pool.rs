//! The pool that bounds how many git operations run at once.
//!
//! The pool is a counter of free slots. It is owned by whoever shares it
//! out; behind a lock, every order in which workers reach it is a sequence of
//! the two operations below.

use vstd::prelude::*;

verus! {

/// How many git operations may run at once.
pub const GIT_OPERATION_LIMIT: usize = 8;

/// How long a worker sleeps between two looks at the pool, in milliseconds.
pub const POLL_INTERVAL_MS: u64 = 10;

/// A fixed number of interchangeable slots, some of them taken.
#[derive(Debug)]
pub struct OperationPool {
    pub capacity: usize,
    pub available: usize,
}

/// One slot of the pool, held by one worker.
#[derive(Debug)]
pub struct PoolGuard {
    slot: (),
}

/// What a worker that waits for a slot does next.
#[derive(Debug)]
pub enum AcquirePoll {
    /// A slot was free and is now held.
    Acquired(PoolGuard),
    /// No slot was free: sleep, then look again.
    Wait { sleep_ms: u64 },
    /// The time allowed has passed.
    TimedOut,
}

impl OperationPool {
    /// No more slots are free than the pool has.
    pub open spec fn wf(self) -> bool {
        self.available <= self.capacity
    }

    /// The number of slots that are taken.
    pub open spec fn held(self) -> int {
        self.capacity - self.available
    }

    /// A pool of `capacity` slots, all free.
    pub open spec fn fresh(capacity: usize) -> OperationPool {
        OperationPool { capacity, available: capacity }
    }

    /// The pool after a worker asked for a slot.
    pub open spec fn acquired(self) -> OperationPool {
        if self.available > 0 {
            OperationPool { available: (self.available - 1) as usize, ..self }
        } else {
            self
        }
    }

    /// The pool after a worker gave a slot back.
    pub open spec fn released(self) -> OperationPool {
        if self.available < self.capacity {
            OperationPool { available: (self.available + 1) as usize, ..self }
        } else {
            self
        }
    }

    /// A pool of `capacity` slots, all free.
    pub fn new(capacity: usize) -> (r: OperationPool)
        ensures
            r == OperationPool::fresh(capacity),
            r.wf(),
            r.held() == 0,
    {
        OperationPool { capacity, available: capacity }
    }

    /// The pool for git operations: eight slots.
    pub fn standard() -> (r: OperationPool)
        ensures
            r == OperationPool::fresh(GIT_OPERATION_LIMIT),
    {
        OperationPool::new(GIT_OPERATION_LIMIT)
    }

    /// The number of slots that are taken.
    pub fn in_use(&self) -> (r: usize)
        ensures
            self.wf() ==> r == self.held(),
            !self.wf() ==> r == 0,
    {
        if self.available <= self.capacity {
            self.capacity - self.available
        } else {
            0
        }
    }

    /// Gives a slot back. The guard is used up: a slot is given back once.
    pub fn release(&mut self, guard: PoolGuard)
        ensures
            *final(self) == old(self).released(),
            old(self).wf() ==> final(self).wf(),
            old(self).wf() && old(self).held() > 0 ==> final(self).held() == old(self).held() - 1,
    {
        if self.available < self.capacity {
            self.available = self.available + 1;
        }
    }
}

impl PoolGuard {
    /// Takes a slot if one is free, without waiting.
    pub fn acquire(pool: &mut OperationPool) -> (r: Option<PoolGuard>)
        ensures
            *final(pool) == old(pool).acquired(),
            r is Some <==> old(pool).available > 0,
            old(pool).wf() ==> final(pool).wf() && final(pool).held() <= final(pool).capacity,
            r is Some && old(pool).wf() ==> final(pool).held() == old(pool).held() + 1,
    {
        if pool.available > 0 {
            pool.available = pool.available - 1;
            Some(PoolGuard { slot: () })
        } else {
            None
        }
    }

    /// One look at the pool by a worker that has waited `elapsed_ms` of the
    /// `timeout_ms` it is allowed: past the time it gives up; before, it takes
    /// a slot if one is free, and is told to sleep if none is.
    pub fn try_acquire_with_timeout(
        pool: &mut OperationPool,
        elapsed_ms: u64,
        timeout_ms: u64,
    ) -> (r: AcquirePoll)
        ensures
            elapsed_ms >= timeout_ms ==> r is TimedOut && *final(pool) == *old(pool),
            elapsed_ms < timeout_ms ==> *final(pool) == old(pool).acquired(),
            elapsed_ms < timeout_ms && old(pool).available > 0 ==> r is Acquired,
            elapsed_ms < timeout_ms && old(pool).available == 0 ==> r == (AcquirePoll::Wait {
                sleep_ms: POLL_INTERVAL_MS,
            }),
    {
        if elapsed_ms >= timeout_ms {
            return AcquirePoll::TimedOut;
        }
        match PoolGuard::acquire(pool) {
            Some(guard) => AcquirePoll::Acquired(guard),
            None => AcquirePoll::Wait { sleep_ms: POLL_INTERVAL_MS },
        }
    }
}

/// What a worker does to the pool.
pub enum PoolOp {
    Acquire,
    Release,
}

/// The pool after the operations of `ops`, in order.
pub open spec fn after(pool: OperationPool, ops: Seq<PoolOp>) -> OperationPool
    decreases ops.len(),
{
    if ops.len() == 0 {
        pool
    } else {
        match ops.last() {
            PoolOp::Acquire => after(pool, ops.drop_last()).acquired(),
            PoolOp::Release => after(pool, ops.drop_last()).released(),
        }
    }
}

/// Whatever workers do to a pool, and in whatever order, the slots taken
/// never come to more than the pool has, and the pool keeps its size.
pub proof fn law_capacity_never_exceeded(pool: OperationPool, ops: Seq<PoolOp>)
    requires
        pool.wf(),
    ensures
        after(pool, ops).wf(),
        after(pool, ops).capacity == pool.capacity,
        0 <= after(pool, ops).held() <= pool.capacity,
    decreases ops.len(),
{
    if ops.len() > 0 {
        law_capacity_never_exceeded(pool, ops.drop_last());
    }
}

/// A slot that is given back can be taken again: when every slot is taken
/// and one holder lets go, however its work ended, the next worker to ask
/// gets a slot.
pub proof fn law_released_slot_is_free(pool: OperationPool)
    requires
        pool.wf(),
        pool.held() > 0,
    ensures
        pool.released().available > 0,
        pool.released().acquired().held() == pool.held(),
        pool.acquired().released() == pool || pool.available == 0,
{
}

} // verus!
