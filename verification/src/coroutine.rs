use vstd::prelude::*;

verus! {

/// A small dense integer identifying a live task. Ids are handed out by
/// the executor's index allocator and recycled after the task is removed.
#[derive(Clone, Copy, Debug, PartialEq, Eq, Hash, Structural)]
pub struct CoroutineId(pub u32);

impl CoroutineId {
    /// Builds an id from its raw value.
    pub fn from_val(v: u32) -> (r: Self)
        ensures
            r.0 == v,
    {
        CoroutineId(v)
    }

    /// The raw value of the id.
    pub fn get_val(&self) -> (r: u32)
        ensures
            r == self.0,
    {
        self.0
    }
}

/// What a single resumption of a suspendable computation reported: either
/// it suspended again and must be woken later, or it finished.
#[derive(Clone, Copy, Debug, PartialEq, Eq, Structural)]
pub enum PollState {
    /// The computation suspended; the task stays parked until woken.
    Pending,
    /// The computation finished; the task can be removed.
    Ready,
}

/// The single reusable yield point every suspension goes through: the
/// first poll reports `Pending` (the driver parks the task), any later
/// poll reports `Ready` (the wake has arrived and control returns).
pub struct YieldHelper {
    polled: bool,
}

impl YieldHelper {
    /// True once the yield point has been polled and is armed to complete.
    pub closed spec fn spec_polled(&self) -> bool {
        self.polled
    }

    /// Creates a fresh, unpolled yield point.
    pub fn new() -> (r: Self)
        ensures
            !r.spec_polled(),
    {
        YieldHelper { polled: false }
    }

    /// Polls the yield point: `Pending` the first time, `Ready` after.
    pub fn poll(&mut self) -> (r: PollState)
        ensures
            final(self).spec_polled(),
            r == (if old(self).spec_polled() {
                PollState::Ready
            } else {
                PollState::Pending
            }),
    {
        if !self.polled {
            self.polled = true;
            return PollState::Pending;
        }
        PollState::Ready
    }
}

/// A suspendable unit of work, modelled by the one thing the scheduler
/// observes of it: how many more times it will suspend at a yield point
/// before it finishes. Each resumption either crosses one yield point
/// (`Pending`) or, when none remain, completes (`Ready`).
#[derive(Clone, Copy, Debug, PartialEq, Eq, Structural)]
pub struct Computation {
    yields_left: usize,
}

impl Computation {
    /// How many suspensions remain before the computation finishes.
    pub closed spec fn spec_yields_left(&self) -> int {
        self.yields_left as int
    }

    /// The remaining suspension count is never negative.
    pub proof fn lemma_yields_nonneg(&self)
        ensures
            self.spec_yields_left() >= 0,
    {
    }

    /// A computation that will suspend `yields` times and then finish.
    pub fn new(yields: usize) -> (r: Self)
        ensures
            r.spec_yields_left() == yields,
    {
        Computation { yields_left: yields }
    }

    /// Resumes the computation once.
    pub fn step(&mut self) -> (r: PollState)
        ensures
            old(self).spec_yields_left() > 0 ==> r == PollState::Pending
                && final(self).spec_yields_left() == old(self).spec_yields_left() - 1,
            old(self).spec_yields_left() == 0 ==> r == PollState::Ready
                && final(self).spec_yields_left() == 0,
    {
        if self.yields_left > 0 {
            self.yields_left = self.yields_left - 1;
            return PollState::Pending;
        }
        PollState::Ready
    }
}

/// The mutable execution state of a task: its computation, the one-slot
/// delivered payload read back by the task after a wake, and whether its
/// id currently sits in a ready queue (used to keep `wake` idempotent).
#[derive(Clone, Copy, Debug)]
pub struct CoroutineInner {
    /// The suspendable computation driven by the executor.
    pub computation: Computation,
    /// At most one pending value delivered with the latest wake.
    pub delivered: Option<crate::new_buffer::IPCItem>,
    /// True while the task's id is queued in its priority's ready queue.
    pub in_ready_queue: bool,
}

/// A schedulable unit: an id and an immutable priority fixed at creation,
/// wrapping the mutable execution state.
#[derive(Clone, Copy, Debug)]
pub struct Coroutine {
    /// The task's id, unique among live tasks.
    pub cid: CoroutineId,
    /// The task's fixed priority; numerically lower runs first.
    pub prio: usize,
    /// The task's mutable execution state.
    pub inner: CoroutineInner,
}

impl Coroutine {
    /// Builds a task record for a freshly allocated id.
    pub fn new(cid: CoroutineId, computation: Computation, prio: usize) -> (r: Self)
        ensures
            r.cid == cid,
            r.prio == prio,
            r.inner.computation == computation,
            r.inner.delivered is None,
            !r.inner.in_ready_queue,
    {
        Coroutine {
            cid,
            prio,
            inner: CoroutineInner { computation, delivered: None, in_ready_queue: false },
        }
    }

    /// Resumes the task's computation once and reports whether it
    /// suspended or finished.
    pub fn execute(&mut self) -> (r: PollState)
        ensures
            final(self).cid == old(self).cid,
            final(self).prio == old(self).prio,
            final(self).inner.delivered == old(self).inner.delivered,
            final(self).inner.in_ready_queue == old(self).inner.in_ready_queue,
            old(self).inner.computation.spec_yields_left() > 0 ==> r == PollState::Pending
                && final(self).inner.computation.spec_yields_left() == old(
                self,
            ).inner.computation.spec_yields_left() - 1,
            old(self).inner.computation.spec_yields_left() == 0 ==> r == PollState::Ready
                && final(self).inner.computation.spec_yields_left() == 0,
    {
        self.inner.computation.step()
    }
}

} // verus!
