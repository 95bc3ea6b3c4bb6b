use vstd::prelude::*;

verus! {

/// A counting pool of permits: at most `capacity` of them are held at once.
pub struct PermitPool {
    capacity: usize,
    held: usize,
}

impl PermitPool {
    pub closed spec fn spec_capacity(&self) -> nat {
        self.capacity as nat
    }

    pub closed spec fn spec_held(&self) -> nat {
        self.held as nat
    }

    /// Never more permits out than the pool has.
    pub open spec fn wf(&self) -> bool {
        0 < self.spec_capacity() && self.spec_held() <= self.spec_capacity()
    }

    pub fn new(capacity: usize) -> (r: PermitPool)
        requires
            capacity > 0,
        ensures
            r.wf(),
            r.spec_capacity() == capacity,
            r.spec_held() == 0,
    {
        PermitPool { capacity, held: 0 }
    }

    pub fn capacity(&self) -> (r: usize)
        ensures
            r == self.spec_capacity(),
    {
        self.capacity
    }

    pub fn held(&self) -> (r: usize)
        ensures
            r == self.spec_held(),
    {
        self.held
    }

    /// Takes a permit when one is free; reports whether it did.
    pub fn try_acquire(&mut self) -> (r: bool)
        requires
            old(self).wf(),
        ensures
            final(self).wf(),
            final(self).spec_capacity() == old(self).spec_capacity(),
            r == (old(self).spec_held() < old(self).spec_capacity()),
            final(self).spec_held() == if r {
                old(self).spec_held() + 1
            } else {
                old(self).spec_held()
            },
    {
        if self.held < self.capacity {
            self.held = self.held + 1;
            true
        } else {
            false
        }
    }

    /// Gives a permit back; reports false when none was held.
    pub fn release(&mut self) -> (r: bool)
        requires
            old(self).wf(),
        ensures
            final(self).wf(),
            final(self).spec_capacity() == old(self).spec_capacity(),
            r == (old(self).spec_held() > 0),
            final(self).spec_held() == if r {
                old(self).spec_held() - 1
            } else {
                0
            },
    {
        if self.held > 0 {
            self.held = self.held - 1;
            true
        } else {
            false
        }
    }
}

/// Hands out chapter ordinals `0..total` to units of work, never letting more
/// units run at once than the permit pool allows.
pub struct Dispatcher {
    pool: PermitPool,
    next: usize,
    total: usize,
    finished: usize,
}

impl Dispatcher {
    pub closed spec fn spec_pool(&self) -> PermitPool {
        self.pool
    }

    /// Ordinals handed out so far: exactly `0..spec_started()`.
    pub closed spec fn spec_started(&self) -> nat {
        self.next as nat
    }

    pub closed spec fn spec_total(&self) -> nat {
        self.total as nat
    }

    pub closed spec fn spec_finished(&self) -> nat {
        self.finished as nat
    }

    /// Every started unit is either finished or holds a permit, and the
    /// pool is never over its capacity.
    pub open spec fn wf(&self) -> bool {
        &&& self.spec_pool().wf()
        &&& self.spec_started() <= self.spec_total()
        &&& self.spec_started() == self.spec_finished() + self.spec_pool().spec_held()
    }

    pub open spec fn running(&self) -> nat {
        self.spec_pool().spec_held()
    }

    pub open spec fn limit(&self) -> nat {
        self.spec_pool().spec_capacity()
    }

    pub fn new(total: usize, concurrency_limit: usize) -> (r: Dispatcher)
        requires
            concurrency_limit > 0,
        ensures
            r.wf(),
            r.spec_total() == total,
            r.limit() == concurrency_limit,
            r.spec_started() == 0,
            r.spec_finished() == 0,
            r.running() == 0,
    {
        Dispatcher { pool: PermitPool::new(concurrency_limit), next: 0, total, finished: 0 }
    }

    /// Starts the next unit when a permit is free and ordinals remain,
    /// returning its ordinal.
    pub fn start_next(&mut self) -> (r: Option<usize>)
        requires
            old(self).wf(),
        ensures
            final(self).wf(),
            final(self).running() <= final(self).limit(),
            final(self).limit() == old(self).limit(),
            final(self).spec_total() == old(self).spec_total(),
            final(self).spec_finished() == old(self).spec_finished(),
            r is Some == (old(self).spec_started() < old(self).spec_total() && old(self).running()
                < old(self).limit()),
            r is Some ==> r->Some_0 == old(self).spec_started() && final(self).spec_started()
                == old(self).spec_started() + 1 && final(self).running() == old(self).running()
                + 1,
            r is None ==> final(self).spec_started() == old(self).spec_started()
                && final(self).running() == old(self).running(),
    {
        if self.next < self.total && self.pool.held() < self.pool.capacity() {
            self.pool.try_acquire();
            let i = self.next;
            self.next = self.next + 1;
            Some(i)
        } else {
            None
        }
    }

    /// Records that one running unit has finished and returns its permit;
    /// false when no unit was running.
    pub fn finish_one(&mut self) -> (r: bool)
        requires
            old(self).wf(),
        ensures
            final(self).wf(),
            final(self).running() <= final(self).limit(),
            final(self).limit() == old(self).limit(),
            final(self).spec_total() == old(self).spec_total(),
            final(self).spec_started() == old(self).spec_started(),
            r == (old(self).running() > 0),
            r ==> final(self).running() == old(self).running() - 1 && final(self).spec_finished()
                == old(self).spec_finished() + 1,
            !r ==> final(self).running() == 0 && final(self).spec_finished()
                == old(self).spec_finished(),
    {
        if self.pool.held() > 0 {
            self.pool.release();
            self.finished = self.finished + 1;
            true
        } else {
            false
        }
    }

    /// Whether every ordinal was started and every unit has finished.
    pub fn all_finished(&self) -> (r: bool)
        requires
            self.wf(),
        ensures
            r == (self.spec_finished() == self.spec_total()),
    {
        self.finished == self.total
    }

    pub fn running_units(&self) -> (r: usize)
        ensures
            r == self.running(),
    {
        self.pool.held()
    }
}

/// However a run interleaves starting and finishing units, no state it can
/// reach has more units holding a permit than the limit.
pub proof fn lemma_running_within_limit(d: Dispatcher)
    requires
        d.wf(),
    ensures
        d.running() <= d.limit(),
{
}

} // verus!
