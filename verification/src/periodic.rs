//! The schedule of the worker that polls on a fixed period: what it does
//! next, given what just happened. Whoever owns the thread, the clock and
//! the condition variable runs the loop and reports the events.

use vstd::prelude::*;

verus! {

/// Where the worker stands. Times are in nanoseconds.
#[derive(Copy, Clone, Debug, PartialEq, Eq, Structural)]
pub enum RunnerState {
    /// Not started yet.
    Idle,
    /// A pass is running.
    Running,
    /// Waiting for the next pass, or for the request to terminate; `left`
    /// is what is still to be waited of the period.
    Sleeping { left: u128 },
    /// The worker has left its loop for good.
    Terminated,
}

/// What the worker reports. Times are in nanoseconds.
#[derive(Copy, Clone, Debug, PartialEq, Eq, Structural)]
pub enum RunnerEvent {
    /// The worker has started; `terminate` tells whether termination was
    /// requested before that.
    Started { terminate: bool },
    /// A pass has ended after `elapsed`.
    PassFinished { elapsed: u128 },
    /// A wait has come back after `waited`. `timed_out` tells whether it
    /// came back for its time being over, and `terminate` whether
    /// termination has been requested.
    Woken { terminate: bool, timed_out: bool, waited: u128 },
}

/// What the worker is to do next.
#[derive(Copy, Clone, Debug, PartialEq, Eq, Structural)]
pub enum RunnerAction {
    /// Run a pass.
    Poll,
    /// Wait for the request to terminate, for `nanos` at most. `overrun`
    /// tells that the pass took the whole period or more, which is worth a
    /// warning.
    Sleep { nanos: u128, overrun: bool },
    /// Leave the loop.
    Exit,
    /// Nothing: the event does not belong to the state.
    Ignore,
}

/// The time left of a period of which `elapsed` has passed; none if the
/// period is over.
pub open spec fn remaining(period: u128, elapsed: u128) -> u128 {
    if elapsed < period {
        (period - elapsed) as u128
    } else {
        0
    }
}

/// Whether a wait of which `left` was left is over when it comes back
/// after `waited`: it is if it came back for its time being over, or if
/// all that was left has been waited. A wake alone does not make it so.
pub open spec fn is_over(left: u128, timed_out: bool, waited: u128) -> bool {
    timed_out || waited >= left
}

/// The state that follows `state` on `event`.
pub open spec fn next_state(period: u128, state: RunnerState, event: RunnerEvent) -> RunnerState {
    match (state, event) {
        (RunnerState::Idle, RunnerEvent::Started { terminate }) => if terminate {
            RunnerState::Terminated
        } else {
            RunnerState::Running
        },
        (RunnerState::Running, RunnerEvent::PassFinished { elapsed }) => RunnerState::Sleeping {
            left: remaining(period, elapsed),
        },
        (RunnerState::Sleeping { left }, RunnerEvent::Woken { terminate, timed_out, waited }) => {
            if terminate {
                RunnerState::Terminated
            } else if is_over(left, timed_out, waited) {
                RunnerState::Running
            } else {
                RunnerState::Sleeping { left: (left - waited) as u128 }
            }
        },
        _ => state,
    }
}

/// What a worker with the period `period` does on `event` in `state`.
pub open spec fn action_on(period: u128, state: RunnerState, event: RunnerEvent) -> RunnerAction {
    match (state, event) {
        (RunnerState::Idle, RunnerEvent::Started { terminate }) => if terminate {
            RunnerAction::Exit
        } else {
            RunnerAction::Poll
        },
        (RunnerState::Running, RunnerEvent::PassFinished { elapsed }) => RunnerAction::Sleep {
            nanos: remaining(period, elapsed),
            overrun: elapsed >= period,
        },
        (RunnerState::Sleeping { left }, RunnerEvent::Woken { terminate, timed_out, waited }) => {
            if terminate {
                RunnerAction::Exit
            } else if is_over(left, timed_out, waited) {
                RunnerAction::Poll
            } else {
                RunnerAction::Sleep { nanos: (left - waited) as u128, overrun: false }
            }
        },
        _ => RunnerAction::Ignore,
    }
}

/// The state after all of `events`, one after the other.
pub open spec fn state_after(period: u128, state: RunnerState, events: Seq<RunnerEvent>)
    -> RunnerState
    decreases events.len(),
{
    if events.len() == 0 {
        state
    } else {
        next_state(period, state_after(period, state, events.drop_last()), events.last())
    }
}

/// What the worker does on the last of `events`, having gone through the
/// ones before.
pub open spec fn last_action(period: u128, state: RunnerState, events: Seq<RunnerEvent>)
    -> RunnerAction
    recommends
        events.len() > 0,
{
    action_on(period, state_after(period, state, events.drop_last()), events.last())
}

/// Whether `event` is a wake that neither found termination requested nor
/// came for the time being over.
pub open spec fn is_bare_wake(event: RunnerEvent) -> bool {
    event matches RunnerEvent::Woken { terminate, timed_out, .. } && !terminate && !timed_out
}

/// The time that the waits among `events` lasted, all together.
pub open spec fn waited_in(events: Seq<RunnerEvent>) -> nat
    decreases events.len(),
{
    if events.len() == 0 {
        0
    } else {
        waited_in(events.drop_last()) + match events.last() {
            RunnerEvent::Woken { waited, .. } => waited as nat,
            _ => 0,
        }
    }
}

/// The schedule of one worker.
pub struct WorkerSchedule {
    period: u128,
    state: RunnerState,
}

impl WorkerSchedule {
    /// The period, in nanoseconds.
    pub closed spec fn period(&self) -> u128 {
        self.period
    }

    /// Where the worker stands.
    pub closed spec fn state(&self) -> RunnerState {
        self.state
    }

    /// The schedule of a worker that has not started, with a pass every
    /// `period` nanoseconds.
    pub fn new(period: u128) -> (schedule: Self)
        ensures
            schedule.period() == period,
            schedule.state() == RunnerState::Idle,
    {
        WorkerSchedule { period: period, state: RunnerState::Idle }
    }

    /// Where the worker stands.
    pub fn current(&self) -> (state: RunnerState)
        ensures
            state == self.state(),
    {
        self.state
    }

    /// Takes note of `event` and says what to do next.
    pub fn on(&mut self, event: RunnerEvent) -> (action: RunnerAction)
        ensures
            final(self).period() == old(self).period(),
            final(self).state() == next_state(old(self).period(), old(self).state(), event),
            action == action_on(old(self).period(), old(self).state(), event),
    {
        match (self.state, event) {
            (RunnerState::Idle, RunnerEvent::Started { terminate }) => {
                if terminate {
                    self.state = RunnerState::Terminated;
                    RunnerAction::Exit
                } else {
                    self.state = RunnerState::Running;
                    RunnerAction::Poll
                }
            },
            (RunnerState::Running, RunnerEvent::PassFinished { elapsed }) => {
                if elapsed < self.period {
                    let left = self.period - elapsed;
                    self.state = RunnerState::Sleeping { left: left };
                    RunnerAction::Sleep { nanos: left, overrun: false }
                } else {
                    self.state = RunnerState::Sleeping { left: 0 };
                    RunnerAction::Sleep { nanos: 0, overrun: true }
                }
            },
            (RunnerState::Sleeping { left }, RunnerEvent::Woken { terminate, timed_out, waited }) => {
                if terminate {
                    self.state = RunnerState::Terminated;
                    RunnerAction::Exit
                } else if timed_out || waited >= left {
                    self.state = RunnerState::Running;
                    RunnerAction::Poll
                } else {
                    let rest = left - waited;
                    self.state = RunnerState::Sleeping { left: rest };
                    RunnerAction::Sleep { nanos: rest, overrun: false }
                }
            },
            _ => RunnerAction::Ignore,
        }
    }
}

/// Runner overrun: a pass that takes the period or longer is followed by a
/// wait of no time at all, and the wake from it starts the next pass,
/// however it came. A shorter pass is followed by a wait for the rest of
/// the period. No wait is longer than the period.
pub proof fn lemma_runner_overrun(period: u128, elapsed: u128, timed_out: bool, waited: u128)
    ensures
        elapsed >= period ==> action_on(
            period,
            RunnerState::Running,
            RunnerEvent::PassFinished { elapsed },
        ) == (RunnerAction::Sleep { nanos: 0, overrun: true }),
        elapsed >= period ==> next_state(
            period,
            RunnerState::Running,
            RunnerEvent::PassFinished { elapsed },
        ) == (RunnerState::Sleeping { left: 0 }),
        elapsed < period ==> action_on(
            period,
            RunnerState::Running,
            RunnerEvent::PassFinished { elapsed },
        ) == (RunnerAction::Sleep { nanos: (period - elapsed) as u128, overrun: false }),
        remaining(period, elapsed) <= period,
        action_on(
            period,
            RunnerState::Sleeping { left: 0 },
            RunnerEvent::Woken { terminate: false, timed_out, waited },
        ) == RunnerAction::Poll,
        next_state(
            period,
            RunnerState::Sleeping { left: 0 },
            RunnerEvent::Woken { terminate: false, timed_out, waited },
        ) == RunnerState::Running,
{
}

/// An early wake is not taken for the end of the wait. A wake that neither
/// finds termination requested nor comes for the time being over, after
/// less than was left to wait, is answered by a wait for the rest, and the
/// worker goes on sleeping. A pass is started from a wait only when the
/// wait is over.
pub proof fn lemma_early_wake(period: u128, left: u128, event: RunnerEvent)
    ensures
        event matches RunnerEvent::Woken { terminate, timed_out, waited } ==> {
            &&& !terminate && !timed_out && waited < left ==> action_on(
                period,
                RunnerState::Sleeping { left },
                event,
            ) == (RunnerAction::Sleep { nanos: (left - waited) as u128, overrun: false })
                && next_state(period, RunnerState::Sleeping { left }, event)
                == (RunnerState::Sleeping { left: (left - waited) as u128 })
            &&& action_on(period, RunnerState::Sleeping { left }, event) == RunnerAction::Poll
                ==> !terminate && is_over(left, timed_out, waited)
        },
        action_on(period, RunnerState::Sleeping { left }, event) == RunnerAction::Poll
            ==> event is Woken,
{
}

/// No pass starts before the period is over. From a wait of which `left`
/// is left, through any number of wakes that neither find termination
/// requested nor come for the time being over, the worker is either still
/// sleeping, and what is left and what was waited make up `left`; or it
/// runs the next pass, and then the waits lasted `left` at least.
pub proof fn lemma_waits_add_up(period: u128, left: u128, events: Seq<RunnerEvent>)
    requires
        forall|i: int| 0 <= i < events.len() ==> is_bare_wake(#[trigger] events[i]),
    ensures
        match state_after(period, RunnerState::Sleeping { left }, events) {
            RunnerState::Sleeping { left: rest } => rest + waited_in(events) == left,
            RunnerState::Running => waited_in(events) >= left,
            _ => false,
        },
    decreases events.len(),
{
    if events.len() > 0 {
        let earlier = events.drop_last();
        assert forall|i: int| 0 <= i < earlier.len() implies is_bare_wake(#[trigger] earlier[i]) by {
            assert(earlier[i] == events[i]);
        }
        lemma_waits_add_up(period, left, earlier);
        assert(is_bare_wake(events[events.len() - 1]));
    }
}

/// Shutdown bound. A wake that finds termination requested makes the
/// worker leave without another pass, whatever was left to wait. While a
/// pass is running nothing makes the worker leave: it leaves only after
/// the pass has ended and the wait that follows it has. A worker that has
/// left stays so and never polls again.
pub proof fn lemma_shutdown_bound(
    period: u128,
    left: u128,
    timed_out: bool,
    waited: u128,
    event: RunnerEvent,
)
    ensures
        action_on(
            period,
            RunnerState::Sleeping { left },
            RunnerEvent::Woken { terminate: true, timed_out, waited },
        ) == RunnerAction::Exit,
        next_state(
            period,
            RunnerState::Sleeping { left },
            RunnerEvent::Woken { terminate: true, timed_out, waited },
        ) == RunnerState::Terminated,
        next_state(period, RunnerState::Running, event) != RunnerState::Terminated,
        action_on(period, RunnerState::Running, event) != RunnerAction::Exit,
        action_on(period, RunnerState::Running, event) != RunnerAction::Poll,
        next_state(period, RunnerState::Terminated, event) == RunnerState::Terminated,
        action_on(period, RunnerState::Terminated, event) == RunnerAction::Ignore,
{
}

/// Once the worker has left, no sequence of events brings it back or makes
/// it poll.
pub proof fn lemma_terminated_for_good(period: u128, events: Seq<RunnerEvent>)
    ensures
        state_after(period, RunnerState::Terminated, events) == RunnerState::Terminated,
        events.len() > 0 ==> last_action(period, RunnerState::Terminated, events)
            == RunnerAction::Ignore,
    decreases events.len(),
{
    if events.len() > 0 {
        lemma_terminated_for_good(period, events.drop_last());
    }
}

/// Passes never overlap and never follow one another without a wait: two
/// `Poll`s are never the answers to two events in a row.
pub proof fn lemma_polls_are_spaced(
    period: u128,
    state: RunnerState,
    first: RunnerEvent,
    second: RunnerEvent,
)
    ensures
        !(action_on(period, state, first) == RunnerAction::Poll && action_on(
            period,
            next_state(period, state, first),
            second,
        ) == RunnerAction::Poll),
{
}

} // verus!
