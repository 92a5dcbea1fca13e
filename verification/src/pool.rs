//! A generic bounded pool of reusable connections.
//!
//! Concurrency is gated by a counting semaphore and idle handles are reused
//! through a fixed-capacity queue. This module is the sequential model of
//! that shared state: every operation is a transition on [`PoolView`], and
//! each transition is proved to preserve the capacity invariant. An
//! asynchronous driver owns the semaphore wait and the connection factory:
//! it calls [`Pool::get`], runs the factory when asked to, and hands the
//! outcome back through [`Pool::finish_factory`].

use vstd::prelude::*;
use vstd::string::StringExecFns;
use crate::error::Error;

verus! {

/// Mathematical view of a pool: its capacity, the number of permits
/// currently checked out, and the queue of idle handles (front is oldest).
pub ghost struct PoolView<T> {
    pub capacity: nat,
    pub outstanding: nat,
    pub idle: Seq<T>,
}

impl<T> PoolView<T> {
    /// The pool invariant: outstanding permits and the idle queue are both
    /// bounded by the capacity, which is at least one.
    pub open spec fn inv(self) -> bool {
        &&& 1 <= self.capacity
        &&& self.outstanding <= self.capacity
        &&& self.idle.len() <= self.capacity
    }

    /// Effect of granting a permit when no idle handle is available: the
    /// acquisition must go to the factory.
    pub open spec fn fresh_granted(self) -> PoolView<T> {
        PoolView { capacity: self.capacity, outstanding: (self.outstanding + 1) as nat, idle: self.idle }
    }

    /// Effect of granting a permit and handing out the oldest idle handle.
    pub open spec fn reuse_granted(self) -> PoolView<T> {
        PoolView {
            capacity: self.capacity,
            outstanding: (self.outstanding + 1) as nat,
            idle: self.idle.drop_first(),
        }
    }

    /// Effect of releasing a permit alone, with no handle returned: the
    /// idle queue is left untouched.
    pub open spec fn permit_released(self) -> PoolView<T> {
        PoolView { capacity: self.capacity, outstanding: (self.outstanding - 1) as nat, idle: self.idle }
    }

    /// Effect of releasing a guard: a held handle is pushed to the back of
    /// the idle queue unless the queue is full (then it is discarded), and a
    /// held permit is released.
    pub open spec fn released(self, conn: Option<T>, permit: bool) -> PoolView<T> {
        PoolView {
            capacity: self.capacity,
            outstanding: if permit { (self.outstanding - 1) as nat } else { self.outstanding },
            idle: match conn {
                Some(c) => if self.idle.len() < self.capacity { self.idle.push(c) } else { self.idle },
                None => self.idle,
            },
        }
    }
}

/// One step a pool may take under any of its operations: the capacity never
/// changes, the idle queue stays within it, and the outstanding count moves
/// by at most one, upward only when a permit is free.
pub open spec fn pool_step<T>(pre: PoolView<T>, post: PoolView<T>) -> bool {
    &&& post.capacity == pre.capacity
    &&& post.idle.len() <= post.capacity
    &&& {
        ||| (pre.outstanding < pre.capacity && post.outstanding == pre.outstanding + 1)
        ||| (1 <= pre.outstanding && post.outstanding == pre.outstanding - 1)
        ||| post.outstanding == pre.outstanding
    }
}

/// Capacity invariant: along any interleaving of acquire and release
/// operations — any chain of pool steps that starts within capacity — the
/// number of simultaneously outstanding permits never exceeds the capacity.
pub proof fn lemma_capacity_invariant<T>(trace: Seq<PoolView<T>>)
    requires
        1 <= trace.len(),
        trace[0].outstanding <= trace[0].capacity,
        forall|i: int| 0 <= i < trace.len() - 1 ==> pool_step(trace[i], #[trigger] trace[i + 1]),
    ensures
        forall|i: int| 0 <= i < trace.len() ==> #[trigger] trace[i].outstanding <= trace[i].capacity,
    decreases trace.len(),
{
    if trace.len() > 1 {
        let prefix = trace.drop_last();
        assert forall|i: int| 0 <= i < prefix.len() - 1 implies pool_step(
            prefix[i],
            #[trigger] prefix[i + 1],
        ) by {
            assert(pool_step(trace[i], trace[i + 1]));
        }
        lemma_capacity_invariant(prefix);
        assert forall|i: int| 0 <= i < trace.len() implies #[trigger] trace[i].outstanding
            <= trace[i].capacity by {
            if i < trace.len() - 1 {
                assert(prefix[i].outstanding <= prefix[i].capacity);
            } else {
                let j: int = i - 1;
                assert(prefix[j].outstanding <= prefix[j].capacity);
                assert(pool_step(trace[j], trace[j + 1]));
            }
        }
    }
}

/// A borrow guard: owns at most one permit and at most one handle. On
/// release the handle, if still present, is offered back to the idle queue
/// and the permit is released.
pub struct Pooled<T> {
    conn: Option<T>,
    has_permit: bool,
}

impl<T> Pooled<T> {
    /// The handle this guard still holds, if any.
    pub closed spec fn spec_conn(&self) -> Option<T> {
        self.conn
    }

    /// Whether this guard still holds its permit.
    pub closed spec fn spec_has_permit(&self) -> bool {
        self.has_permit
    }

    /// Borrow the held handle.
    pub fn get_ref(&self) -> (r: Option<&T>)
        ensures
            match r {
                Some(c) => self.spec_conn() == Some(*c),
                None => self.spec_conn() is None,
            },
    {
        self.conn.as_ref()
    }

    /// Borrow the held handle mutably; the guard afterwards holds whatever
    /// the borrower left behind.
    pub fn get_mut(&mut self) -> (r: Option<&mut T>)
        ensures
            match old(self).spec_conn() {
                Some(c) => r matches Some(inner) && *inner == c && final(self).spec_conn()
                    == Some(*final(inner)),
                None => r is None && final(self).spec_conn() is None,
            },
            final(self).spec_has_permit() == old(self).spec_has_permit(),
    {
        self.conn.as_mut()
    }

    /// Mark the connection as disconnected: the handle is dropped rather
    /// than returned to the idle queue, and the permit is released at once,
    /// so a dead connection never holds capacity hostage.
    pub fn disconnect(&mut self, pool: &mut Pool<T>)
        requires
            old(pool)@.inv(),
            old(self).spec_has_permit() ==> 1 <= old(pool)@.outstanding,
        ensures
            final(self).spec_conn() is None,
            !final(self).spec_has_permit(),
            final(pool)@ == if old(self).spec_has_permit() {
                old(pool)@.permit_released()
            } else {
                old(pool)@
            },
            final(pool)@.inv(),
            pool_step(old(pool)@, final(pool)@),
    {
        self.conn = None;
        if self.has_permit {
            pool.outstanding = pool.outstanding - 1;
            self.has_permit = false;
        }
    }
}

/// Outcome of [`Pool::get`]: either an idle handle was reused, or a permit
/// was granted and the caller must now run the connection factory, or every
/// permit is checked out and the caller must wait for a release.
pub enum Acquired<T> {
    /// A permit and an idle handle, ready for use.
    Reused(Pooled<T>),
    /// A permit is held for this acquisition, but there was no idle handle:
    /// run the factory and hand its outcome to [`Pool::finish_factory`].
    NeedFactory,
    /// All permits are checked out; wait and try again after a release.
    Exhausted,
}

/// Final outcome of an acquisition, factory outcome included.
pub enum PoolingResult<T, E> {
    /// A guard holding a permit and a handle.
    Success(Pooled<T>),
    /// The semaphore itself was not acquirable: a shutdown-ordering or
    /// programming bug, not a transient fault.
    SemanticsError,
    /// The factory failed; the permit taken for the acquisition has been
    /// released again.
    FactoryErr(E),
}

/// A bounded pool of reusable handles.
pub struct Pool<T> {
    idle: Vec<T>,
    capacity: usize,
    outstanding: usize,
}

impl<T> View for Pool<T> {
    type V = PoolView<T>;

    closed spec fn view(&self) -> PoolView<T> {
        PoolView {
            capacity: self.capacity as nat,
            outstanding: self.outstanding as nat,
            idle: self.idle@,
        }
    }
}

impl<T> Pool<T> {
    /// A fresh pool: no permit checked out, no idle handle.
    pub fn new(capacity: usize) -> (r: Pool<T>)
        requires
            1 <= capacity,
        ensures
            r@ == (PoolView::<T> { capacity: capacity as nat, outstanding: 0, idle: Seq::empty() }),
            r@.inv(),
    {
        Pool { idle: Vec::new(), capacity, outstanding: 0 }
    }

    /// Observational: the current idle-queue length.
    pub fn idle_len(&self) -> (r: usize)
        ensures
            r == self@.idle.len(),
    {
        self.idle.len()
    }

    /// Try to acquire: take a permit if one is free, then reuse the oldest
    /// idle handle if there is one, else ask the caller to run the factory.
    pub fn get(&mut self) -> (r: Acquired<T>)
        requires
            old(self)@.inv(),
        ensures
            final(self)@.inv(),
            pool_step(old(self)@, final(self)@),
            old(self)@.outstanding == old(self)@.capacity ==> {
                &&& r is Exhausted
                &&& final(self)@ == old(self)@
            },
            old(self)@.outstanding < old(self)@.capacity && 1 <= old(self)@.idle.len() ==> {
                &&& r matches Acquired::Reused(g) && g.spec_has_permit() && g.spec_conn()
                    == Some(old(self)@.idle[0])
                &&& final(self)@ == old(self)@.reuse_granted()
            },
            old(self)@.outstanding < old(self)@.capacity && old(self)@.idle.len() == 0 ==> {
                &&& r is NeedFactory
                &&& final(self)@ == old(self)@.fresh_granted()
            },
    {
        if self.outstanding == self.capacity {
            Acquired::Exhausted
        } else {
            self.outstanding = self.outstanding + 1;
            if self.idle.len() > 0 {
                let conn = self.idle.remove(0);
                Acquired::Reused(Pooled { conn: Some(conn), has_permit: true })
            } else {
                Acquired::NeedFactory
            }
        }
    }

    /// Complete an acquisition that needed the factory. On factory failure
    /// the permit taken for it is released again, so failed acquisitions do
    /// not shrink the capacity.
    pub fn finish_factory<E>(&mut self, produced: Result<T, E>) -> (r: PoolingResult<T, E>)
        requires
            old(self)@.inv(),
            1 <= old(self)@.outstanding,
        ensures
            final(self)@.inv(),
            pool_step(old(self)@, final(self)@),
            produced matches Ok(c) ==> {
                &&& final(self)@ == old(self)@
                &&& r matches PoolingResult::Success(g) && g.spec_has_permit() && g.spec_conn() == Some(c)
            },
            produced matches Err(e) ==> {
                &&& final(self)@ == old(self)@.permit_released()
                &&& r matches PoolingResult::FactoryErr(e2) && e2 == e
            },
    {
        match produced {
            Ok(conn) => PoolingResult::Success(Pooled { conn: Some(conn), has_permit: true }),
            Err(e) => {
                self.outstanding = self.outstanding - 1;
                PoolingResult::FactoryErr(e)
            },
        }
    }

    /// Release a guard: unconditional and infallible. A held handle is
    /// pushed to the idle queue, or silently discarded if the queue is
    /// full; a held permit is released either way.
    pub fn release(&mut self, guard: Pooled<T>)
        requires
            old(self)@.inv(),
            guard.spec_has_permit() ==> 1 <= old(self)@.outstanding,
        ensures
            final(self)@ == old(self)@.released(guard.spec_conn(), guard.spec_has_permit()),
            final(self)@.inv(),
            pool_step(old(self)@, final(self)@),
    {
        let Pooled { conn, has_permit } = guard;
        if let Some(c) = conn {
            if self.idle.len() < self.capacity {
                self.idle.push(c);
            }
        }
        if has_permit {
            self.outstanding = self.outstanding - 1;
        }
    }
}

impl<T> PoolingResult<T, Error> {
    /// The acquisition outcome as a plain result: a semaphore failure is an
    /// internal-inconsistency condition, never retried.
    pub fn into_result(self) -> (r: Result<Pooled<T>, Error>)
        ensures
            self matches PoolingResult::Success(g) ==> r matches Ok(g2) && g2 == g,
            self is SemanticsError ==> (r matches Err(e) && e matches Error::BusinessPanic(m)
                && m@ == "Semaphore error"@),
            self matches PoolingResult::FactoryErr(e) ==> r == Err::<Pooled<T>, Error>(e),
    {
        match self {
            PoolingResult::Success(g) => Ok(g),
            PoolingResult::FactoryErr(e) => Err(e),
            PoolingResult::SemanticsError => Err(
                Error::BusinessPanic(String::from_str("Semaphore error")),
            ),
        }
    }
}

/// Reuse: a handle released, without a disconnect, into a pool whose idle
/// queue is empty is exactly the handle at the front of the queue, so the
/// next acquisition returns it instead of invoking the factory.
pub proof fn lemma_release_then_reuse<T>(v: PoolView<T>, h: T)
    requires
        v.inv(),
        v.idle.len() == 0,
        1 <= v.outstanding,
    ensures
        v.released(Some(h), true).idle =~= seq![h],
        v.released(Some(h), true).outstanding < v.released(Some(h), true).capacity,
        v.released(Some(h), true).reuse_granted().idle =~= Seq::<T>::empty(),
{
}

/// Disconnect discards: releasing the permit alone leaves the idle queue
/// untouched, so its length does not increase, and when the queue is empty
/// the next acquisition must invoke the factory.
pub proof fn lemma_disconnect_discards<T>(v: PoolView<T>)
    requires
        v.inv(),
        1 <= v.outstanding,
    ensures
        v.permit_released().idle == v.idle,
        v.permit_released().idle.len() <= v.idle.len(),
        v.permit_released().inv(),
{
}

/// With capacity one, two acquirers exclude each other: while the first
/// guard is outstanding no pool step can grant a permit, and releasing the
/// first guard's permit is what makes a grant possible again.
pub proof fn lemma_capacity_one_exclusion<T>(v: PoolView<T>)
    requires
        v.inv(),
        v.capacity == 1,
        v.outstanding == 1,
    ensures
        !(v.outstanding < v.capacity),
        forall|post: PoolView<T>| pool_step(v, post) ==> post.outstanding <= v.outstanding,
        v.permit_released().outstanding < v.permit_released().capacity,
{
}

} // verus!
