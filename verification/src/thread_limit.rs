//! The admission gate: a counting semaphore, seen as a state machine.
//!
//! The program that owns the threads keeps a [`ThreadLimit`] behind its lock.
//! A submitter asks [`ThreadLimit::reserve`]; on [`Admission::MustWait`] it
//! blocks until woken and asks again. When a task ends, however it ends, its
//! thread calls [`ThreadLimit::release`] and wakes one waiter.

use vstd::prelude::*;

verus! {

/// How a task ended.
#[derive(Clone, Copy, Debug, PartialEq, Eq, Structural)]
pub enum TaskOutcome {
    /// The task ran to its end.
    Returned,
    /// The task was stopped by a fault of its own.
    Failed,
}

/// The answer to a submission.
#[derive(Clone, Copy, Debug, PartialEq, Eq, Structural)]
pub enum Admission {
    /// A capacity unit was reserved: launch the task.
    Admitted,
    /// Every capacity unit is taken: wait for a release, then ask again.
    MustWait,
}

/// What can happen to a gate.
pub enum GateEvent {
    /// A caller asks for a capacity unit.
    Submit,
    /// A running task has ended.
    Finish(TaskOutcome),
}

/// An admission gate as a pair of numbers.
pub struct GateModel {
    /// The capacity, fixed at construction.
    pub capacity: nat,
    /// The number of capacity units that are reserved.
    pub in_flight: nat,
}

impl GateModel {
    /// The capacity bound.
    pub open spec fn wf(self) -> bool {
        self.in_flight <= self.capacity
    }

    /// All capacity units are reserved.
    pub open spec fn full(self) -> bool {
        self.in_flight >= self.capacity
    }

    /// The state after a submission, and the answer given.
    pub open spec fn submit(self) -> (GateModel, Admission) {
        if self.in_flight < self.capacity {
            (GateModel { in_flight: self.in_flight + 1, ..self }, Admission::Admitted)
        } else {
            (self, Admission::MustWait)
        }
    }

    /// The state after a task has ended. The outcome plays no part.
    pub open spec fn finish(self, outcome: TaskOutcome) -> GateModel {
        if self.in_flight > 0 {
            GateModel { in_flight: (self.in_flight - 1) as nat, ..self }
        } else {
            self
        }
    }

    /// The state after one event.
    pub open spec fn step(self, event: GateEvent) -> GateModel {
        match event {
            GateEvent::Submit => self.submit().0,
            GateEvent::Finish(outcome) => self.finish(outcome),
        }
    }

    /// The state after a sequence of events, first to last.
    pub open spec fn run(self, events: Seq<GateEvent>) -> GateModel
        decreases events.len(),
    {
        if events.len() == 0 {
            self
        } else {
            self.run(events.drop_last()).step(events.last())
        }
    }

    /// Whatever is submitted and whatever ends, in whatever order, the number
    /// of reserved units never exceeds the capacity, and the capacity never
    /// changes.
    pub proof fn lemma_run_keeps_bound(self, events: Seq<GateEvent>)
        requires
            self.wf(),
        ensures
            self.run(events).wf(),
            self.run(events).capacity == self.capacity,
        decreases events.len(),
    {
        if events.len() > 0 {
            self.lemma_run_keeps_bound(events.drop_last());
        }
    }

    /// With a capacity of zero nothing is ever admitted: whatever happens,
    /// no unit is reserved and a submission is told to wait.
    pub proof fn lemma_zero_capacity_admits_nothing(self, events: Seq<GateEvent>)
        requires
            self.capacity == 0,
            self.in_flight == 0,
        ensures
            self.run(events) == self,
            self.run(events).submit() == (self, Admission::MustWait),
        decreases events.len(),
    {
        if events.len() > 0 {
            self.lemma_zero_capacity_admits_nothing(events.drop_last());
        }
    }

    /// A task that ends frees its unit whether it returned or failed: the
    /// gate is the same after either, and a submission that had to wait
    /// at a full gate is admitted afterwards.
    pub proof fn lemma_finish_admits_waiter(self, outcome: TaskOutcome)
        requires
            self.wf(),
            self.capacity > 0,
            self.full(),
        ensures
            self.submit().1 == Admission::MustWait,
            self.finish(outcome) == self.finish(TaskOutcome::Returned),
            self.finish(outcome).in_flight == self.in_flight - 1,
            self.finish(outcome).submit().1 == Admission::Admitted,
    {
    }

    /// With a capacity of one, a second submission waits for as long as the
    /// first task runs, and is admitted once that task has ended, however it
    /// ended.
    pub proof fn lemma_single_slot_serializes(self, outcome: TaskOutcome)
        requires
            self.capacity == 1,
            self.in_flight == 0,
        ensures
            self.submit().1 == Admission::Admitted,
            self.submit().0.submit() == (self.submit().0, Admission::MustWait),
            self.submit().0.finish(outcome) == self,
            self.submit().0.finish(outcome).submit().1 == Admission::Admitted,
    {
    }
}

/// The admission gate: at most `max_threads` tasks hold a capacity unit.
#[derive(Debug)]
pub struct ThreadLimit {
    max_threads: usize,
    count: usize,
}

impl View for ThreadLimit {
    type V = GateModel;

    closed spec fn view(&self) -> GateModel {
        GateModel { capacity: self.max_threads as nat, in_flight: self.count as nat }
    }
}

impl ThreadLimit {
    #[verifier::type_invariant]
    spec fn bounded(self) -> bool {
        self.count <= self.max_threads
    }

    /// An empty gate of the given capacity. A capacity of zero is accepted:
    /// such a gate admits nothing.
    pub fn new(max_threads: usize) -> (gate: Self)
        ensures
            gate@ == (GateModel { capacity: max_threads as nat, in_flight: 0 }),
    {
        ThreadLimit { max_threads, count: 0 }
    }

    /// The capacity.
    pub fn max_threads(&self) -> (max: usize)
        ensures
            max == self@.capacity,
    {
        self.max_threads
    }

    /// The number of reserved capacity units, which is never above the
    /// capacity.
    pub fn running(&self) -> (count: usize)
        ensures
            count == self@.in_flight,
            count <= self@.capacity,
            self@.wf(),
    {
        proof {
            use_type_invariant(self);
        }
        self.count
    }

    /// Reserves a capacity unit if one is free.
    pub fn reserve(&mut self) -> (answer: Admission)
        ensures
            (final(self)@, answer) == old(self)@.submit(),
            final(self)@.wf(),
    {
        proof {
            use_type_invariant(&*self);
        }
        if self.count < self.max_threads {
            self.count = self.count + 1;
            Admission::Admitted
        } else {
            Admission::MustWait
        }
    }

    /// Gives back the capacity unit of a task that has ended, whatever its
    /// outcome, and says how many waiters the caller is to wake: one.
    pub fn release(&mut self, outcome: TaskOutcome) -> (wake: usize)
        requires
            old(self)@.in_flight > 0,
        ensures
            final(self)@ == old(self)@.finish(outcome),
            final(self)@.in_flight == old(self)@.in_flight - 1,
            final(self)@.wf(),
            wake == 1,
    {
        proof {
            use_type_invariant(&*self);
        }
        self.count = self.count - 1;
        1
    }
}

} // verus!
