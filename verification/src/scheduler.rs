//! The due-task scheduler: a two-state machine with a single-flight guard.
//!
//! The timer and the wall clock live outside this library; what is verified
//! here is the decision core: a firing while a run is still in flight is
//! skipped, a finished run — however it went — returns the machine to idle
//! so the next firing proceeds, and a non-skipped firing performs exactly
//! the daily reset for its date.

use vstd::prelude::*;

use crate::date::CalendarDate;
use crate::resolver::{spec_daily_reset, spec_due_tasks};
use crate::service::Mutation;
use crate::store::TaskStore;

verus! {

/// The scheduler's state: waiting for the next firing, or a run in flight.
#[derive(Clone, Copy, PartialEq, Eq, Structural, Debug)]
pub enum SchedulerState {
    Idle,
    Running,
}

/// The daily reset scheduler.
pub struct DueTaskScheduler {
    state: SchedulerState,
}

impl DueTaskScheduler {
    /// The machine's current state.
    pub closed spec fn spec_state(&self) -> SchedulerState {
        self.state
    }

    /// A fresh scheduler, idle.
    pub fn new() -> (s: DueTaskScheduler)
        ensures
            s.spec_state() is Idle,
    {
        DueTaskScheduler { state: SchedulerState::Idle }
    }

    /// Whether the machine is idle.
    pub fn is_idle(&self) -> (r: bool)
        ensures
            r == (self.spec_state() is Idle),
    {
        match self.state {
            SchedulerState::Idle => true,
            SchedulerState::Running => false,
        }
    }

    /// The single-flight guard. A firing begins a run only from idle; while
    /// a run is still in flight the firing reports false and must be
    /// skipped, so two runs never overlap.
    pub fn try_begin_run(&mut self) -> (started: bool)
        ensures
            started == (old(self).spec_state() is Idle),
            final(self).spec_state() is Running,
    {
        match self.state {
            SchedulerState::Idle => {
                self.state = SchedulerState::Running;
                true
            },
            SchedulerState::Running => false,
        }
    }

    /// Ends the run in flight, whether it succeeded or failed, returning the
    /// machine to idle: one failed run never stalls the following firings.
    pub fn finish_run(&mut self)
        requires
            old(self).spec_state() is Running,
        ensures
            final(self).spec_state() is Idle,
    {
        self.state = SchedulerState::Idle;
    }

    /// One timer firing for the date `today`. From idle it runs the daily
    /// reset and reports the count of records it touched; while a run is
    /// already in flight it skips, touches nothing and reports `None`.
    /// Either way the machine's state is afterwards what it was before.
    pub fn fire_daily_reset(&mut self, store: &mut TaskStore, today: CalendarDate) -> (r: Option<
        u64,
    >)
        requires
            old(store).wf(),
            today.valid(),
        ensures
            final(self).spec_state() == old(self).spec_state(),
            final(store).wf(),
            final(store).spec_next_id() == old(store).spec_next_id(),
            final(store).spec_next_position() == old(store).spec_next_position(),
            r is Some <==> old(self).spec_state() is Idle,
            r matches Some(count) ==> final(store)@ == spec_daily_reset(old(store)@, today)
                && count == spec_due_tasks(old(store)@, today).len(),
            r is None ==> final(store)@ == old(store)@,
    {
        if self.try_begin_run() {
            let count = Mutation::reset_due_tasks_on(store, today);
            self.finish_run();
            Some(count)
        } else {
            None
        }
    }
}

} // verus!
