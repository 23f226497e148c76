//! Carrying out a list of actions one by one: each action is attempted in
//! turn, and a failure is counted, never a reason to stop.
use crate::plan::{steps_of, Action, Step};
use vstd::prelude::*;

verus! {

/// Where a batch stands: its steps, how many were attempted, how many failed.
pub struct BatchState {
    pub steps: Seq<Step>,
    pub next: nat,
    pub failed: nat,
}

/// A batch that has attempted nothing yet.
pub open spec fn fresh(steps: Seq<Step>) -> BatchState {
    BatchState { steps, next: 0, failed: 0 }
}

/// The batch after the outcome of its current step is known.
pub open spec fn recorded(s: BatchState, succeeded: bool) -> BatchState {
    BatchState {
        steps: s.steps,
        next: s.next + 1,
        failed: if succeeded { s.failed } else { s.failed + 1 },
    }
}

/// The batch after the outcomes of its steps, one per step in order.
pub open spec fn replay(s: BatchState, outcomes: Seq<bool>) -> BatchState
    decreases outcomes.len(),
{
    if outcomes.len() == 0 {
        s
    } else {
        recorded(replay(s, outcomes.drop_last()), outcomes.last())
    }
}

/// How many of the outcomes are failures.
pub open spec fn failures_in(outcomes: Seq<bool>) -> nat
    decreases outcomes.len(),
{
    if outcomes.len() == 0 {
        0
    } else {
        failures_in(outcomes.drop_last()) + if outcomes.last() {
            0nat
        } else {
            1nat
        }
    }
}

/// A list of actions being carried out.
pub struct Batch {
    actions: Vec<Action>,
    next: usize,
    failed: usize,
}

impl View for Batch {
    type V = BatchState;

    closed spec fn view(&self) -> BatchState {
        BatchState { steps: steps_of(self.actions@), next: self.next as nat, failed: self.failed as nat }
    }
}

impl Batch {
    /// Counts stay within the steps.
    pub closed spec fn wf(&self) -> bool {
        self.failed <= self.next <= self.actions@.len()
    }

    /// A batch of `actions`, none attempted yet.
    pub fn new(actions: Vec<Action>) -> (r: Batch)
        ensures
            r.wf(),
            r@ == fresh(steps_of(actions@)),
    {
        Batch { actions, next: 0, failed: 0 }
    }

    /// The action to attempt now, or `None` once every action was attempted.
    pub fn current(&self) -> (r: Option<&Action>)
        requires
            self.wf(),
        ensures
            r is None <==> self@.next >= self@.steps.len(),
            r matches Some(a) ==> self@.next < self@.steps.len() && a@ == self@.steps[self@.next as int],
    {
        assert(steps_of(self.actions@).len() == self.actions@.len());
        if self.next < self.actions.len() {
            Some(&self.actions[self.next])
        } else {
            None
        }
    }

    /// Records the outcome of the current action and moves to the next one.
    pub fn record(&mut self, succeeded: bool)
        requires
            old(self).wf(),
            old(self)@.next < old(self)@.steps.len(),
        ensures
            final(self).wf(),
            final(self)@ == recorded(old(self)@, succeeded),
    {
        assert(steps_of(self.actions@).len() == self.actions@.len());
        let len = self.actions.len();
        if !succeeded {
            self.failed = self.failed + 1;
        }
        self.next = self.next + 1;
        assert(self.next <= len);
    }

    /// Whether every action was attempted.
    pub fn is_finished(&self) -> (r: bool)
        requires
            self.wf(),
        ensures
            r == (self@.next == self@.steps.len()),
    {
        assert(steps_of(self.actions@).len() == self.actions@.len());
        self.next == self.actions.len()
    }

    /// How many actions were attempted so far.
    pub fn attempted(&self) -> (r: usize)
        ensures
            r == self@.next,
    {
        self.next
    }

    /// How many attempted actions failed.
    pub fn failures(&self) -> (r: usize)
        ensures
            r == self@.failed,
    {
        self.failed
    }
}

/// A failure never cuts a batch short: whatever the outcomes, one per step,
/// every step is attempted, the steps stay as planned, and each failure is
/// counted.
pub proof fn lemma_failures_contained(steps: Seq<Step>, outcomes: Seq<bool>)
    ensures
        replay(fresh(steps), outcomes).next == outcomes.len(),
        replay(fresh(steps), outcomes).steps == steps,
        replay(fresh(steps), outcomes).failed == failures_in(outcomes),
        outcomes.len() == steps.len() ==> replay(fresh(steps), outcomes).next == steps.len(),
    decreases outcomes.len(),
{
    if outcomes.len() > 0 {
        lemma_failures_contained(steps, outcomes.drop_last());
    }
}

} // verus!
