use deucalion::config::AwsCredentialsProviderType;
use deucalion::periodic::{RunnerAction, RunnerEvent, RunnerState, WorkerSchedule};
use deucalion::termination::{TerminationFlag, WakeAction};

const SECOND: u128 = 1_000_000_000;

fn wake(waited: u128) -> RunnerEvent {
    RunnerEvent::Woken { terminate: false, timed_out: false, waited }
}

fn time_is_over(waited: u128) -> RunnerEvent {
    RunnerEvent::Woken { terminate: false, timed_out: true, waited }
}

fn request(waited: u128) -> RunnerEvent {
    RunnerEvent::Woken { terminate: true, timed_out: false, waited }
}

fn sleep(nanos: u128) -> RunnerAction {
    RunnerAction::Sleep { nanos, overrun: false }
}

fn sleeping_after(elapsed: u128) -> WorkerSchedule {
    let mut schedule = WorkerSchedule::new(60 * SECOND);
    schedule.on(RunnerEvent::Started { terminate: false });
    schedule.on(RunnerEvent::PassFinished { elapsed });
    schedule
}

#[test]
fn a_new_schedule_is_idle() {
    let schedule = WorkerSchedule::new(60 * SECOND);
    assert_eq!(schedule.current(), RunnerState::Idle);
}

#[test]
fn the_worker_polls_at_once_when_it_starts() {
    let mut schedule = WorkerSchedule::new(60 * SECOND);
    assert_eq!(schedule.on(RunnerEvent::Started { terminate: false }), RunnerAction::Poll);
    assert_eq!(schedule.current(), RunnerState::Running);
}

#[test]
fn a_worker_that_starts_after_the_request_never_polls() {
    let mut schedule = WorkerSchedule::new(60 * SECOND);
    assert_eq!(schedule.on(RunnerEvent::Started { terminate: true }), RunnerAction::Exit);
    assert_eq!(schedule.current(), RunnerState::Terminated);
}

#[test]
fn the_wait_is_the_rest_of_the_period() {
    let mut schedule = WorkerSchedule::new(60 * SECOND);
    schedule.on(RunnerEvent::Started { terminate: false });
    let action = schedule.on(RunnerEvent::PassFinished { elapsed: 12 * SECOND + 5 });
    assert_eq!(action, sleep(48 * SECOND - 5));
    assert_eq!(schedule.current(), RunnerState::Sleeping { left: 48 * SECOND - 5 });
}

#[test]
fn runner_overrun_sleeps_for_no_time() {
    let mut schedule = WorkerSchedule::new(60 * SECOND);
    schedule.on(RunnerEvent::Started { terminate: false });
    let action = schedule.on(RunnerEvent::PassFinished { elapsed: 61 * SECOND });
    assert_eq!(action, RunnerAction::Sleep { nanos: 0, overrun: true });
    assert_eq!(schedule.current(), RunnerState::Sleeping { left: 0 });
    assert_eq!(schedule.on(wake(0)), RunnerAction::Poll);
    assert_eq!(schedule.current(), RunnerState::Running);
}

#[test]
fn a_pass_of_exactly_one_period_is_an_overrun() {
    let mut schedule = WorkerSchedule::new(60 * SECOND);
    schedule.on(RunnerEvent::Started { terminate: false });
    let action = schedule.on(RunnerEvent::PassFinished { elapsed: 60 * SECOND });
    assert_eq!(action, RunnerAction::Sleep { nanos: 0, overrun: true });
}

#[test]
fn a_pass_one_nanosecond_short_of_the_period_is_no_overrun() {
    let mut schedule = WorkerSchedule::new(60 * SECOND);
    schedule.on(RunnerEvent::Started { terminate: false });
    let action = schedule.on(RunnerEvent::PassFinished { elapsed: 60 * SECOND - 1 });
    assert_eq!(action, sleep(1));
}

#[test]
fn a_period_of_zero_always_overruns() {
    let mut schedule = WorkerSchedule::new(0);
    schedule.on(RunnerEvent::Started { terminate: false });
    let action = schedule.on(RunnerEvent::PassFinished { elapsed: 0 });
    assert_eq!(action, RunnerAction::Sleep { nanos: 0, overrun: true });
}

#[test]
fn the_largest_times_do_not_overflow() {
    let mut schedule = WorkerSchedule::new(u128::MAX);
    schedule.on(RunnerEvent::Started { terminate: false });
    let action = schedule.on(RunnerEvent::PassFinished { elapsed: 0 });
    assert_eq!(action, sleep(u128::MAX));
    assert_eq!(schedule.on(wake(u128::MAX - 1)), sleep(1));
    assert_eq!(schedule.on(wake(u128::MAX)), RunnerAction::Poll);
    let action = schedule.on(RunnerEvent::PassFinished { elapsed: u128::MAX });
    assert_eq!(action, RunnerAction::Sleep { nanos: 0, overrun: true });
}

#[test]
fn a_wait_whose_time_is_over_starts_the_next_pass() {
    let mut schedule = sleeping_after(20 * SECOND);
    assert_eq!(schedule.on(time_is_over(40 * SECOND)), RunnerAction::Poll);
    assert_eq!(schedule.current(), RunnerState::Running);
    // The report of the wait counts, whatever the clock measured.
    let mut schedule = sleeping_after(20 * SECOND);
    assert_eq!(schedule.on(time_is_over(39 * SECOND)), RunnerAction::Poll);
}

#[test]
fn a_wait_that_lasted_what_was_left_starts_the_next_pass() {
    let mut schedule = sleeping_after(20 * SECOND);
    assert_eq!(schedule.on(wake(40 * SECOND)), RunnerAction::Poll);
    let mut schedule = sleeping_after(20 * SECOND);
    assert_eq!(schedule.on(wake(41 * SECOND)), RunnerAction::Poll);
}

#[test]
fn an_early_wake_without_a_request_waits_for_the_rest() {
    let mut schedule = sleeping_after(20 * SECOND);
    assert_eq!(schedule.on(wake(15 * SECOND)), sleep(25 * SECOND));
    assert_eq!(schedule.current(), RunnerState::Sleeping { left: 25 * SECOND });
    assert_eq!(schedule.on(wake(0)), sleep(25 * SECOND));
    assert_eq!(schedule.on(wake(25 * SECOND - 1)), sleep(1));
    assert_eq!(schedule.current(), RunnerState::Sleeping { left: 1 });
    assert_eq!(schedule.on(wake(1)), RunnerAction::Poll);
    assert_eq!(schedule.current(), RunnerState::Running);
}

#[test]
fn shutdown_during_sleep_exits_without_another_pass() {
    let mut schedule = sleeping_after(SECOND);
    assert_eq!(schedule.on(request(3 * SECOND)), RunnerAction::Exit);
    assert_eq!(schedule.current(), RunnerState::Terminated);
    let mut schedule = sleeping_after(SECOND);
    schedule.on(wake(SECOND));
    let late = RunnerEvent::Woken { terminate: true, timed_out: true, waited: 58 * SECOND };
    assert_eq!(schedule.on(late), RunnerAction::Exit);
}

#[test]
fn shutdown_during_a_pass_waits_for_the_pass() {
    let mut schedule = WorkerSchedule::new(60 * SECOND);
    schedule.on(RunnerEvent::Started { terminate: false });
    // A wake cannot reach a running worker: the request is seen only at
    // the wait that follows the pass.
    assert_eq!(schedule.on(request(0)), RunnerAction::Ignore);
    assert_eq!(schedule.current(), RunnerState::Running);
    let action = schedule.on(RunnerEvent::PassFinished { elapsed: 2 * SECOND });
    assert_eq!(action, sleep(58 * SECOND));
    assert_eq!(schedule.on(request(0)), RunnerAction::Exit);
}

#[test]
fn a_terminated_worker_ignores_everything() {
    let mut schedule = WorkerSchedule::new(60 * SECOND);
    schedule.on(RunnerEvent::Started { terminate: true });
    assert_eq!(schedule.on(RunnerEvent::Started { terminate: false }), RunnerAction::Ignore);
    assert_eq!(schedule.on(RunnerEvent::PassFinished { elapsed: 1 }), RunnerAction::Ignore);
    assert_eq!(schedule.on(time_is_over(60 * SECOND)), RunnerAction::Ignore);
    assert_eq!(schedule.current(), RunnerState::Terminated);
}

#[test]
fn events_out_of_place_change_nothing() {
    let mut schedule = WorkerSchedule::new(60 * SECOND);
    assert_eq!(schedule.on(RunnerEvent::PassFinished { elapsed: 1 }), RunnerAction::Ignore);
    assert_eq!(schedule.on(request(0)), RunnerAction::Ignore);
    assert_eq!(schedule.current(), RunnerState::Idle);
    schedule.on(RunnerEvent::Started { terminate: false });
    schedule.on(RunnerEvent::PassFinished { elapsed: 1 });
    assert_eq!(schedule.on(RunnerEvent::PassFinished { elapsed: 1 }), RunnerAction::Ignore);
    assert_eq!(schedule.on(RunnerEvent::Started { terminate: true }), RunnerAction::Ignore);
    assert_eq!(schedule.current(), RunnerState::Sleeping { left: 60 * SECOND - 1 });
}

#[test]
fn the_flag_runs_until_termination_is_requested() {
    let mut flag = TerminationFlag::new();
    assert!(!flag.is_requested());
    assert_eq!(flag.on_wake(), WakeAction::WaitAgain);
    flag.request();
    assert!(flag.is_requested());
    assert_eq!(flag.on_wake(), WakeAction::Proceed);
    flag.request();
    assert!(flag.is_requested());
}

#[test]
fn the_default_credentials_provider_is_the_resolution_chain() {
    assert_eq!(AwsCredentialsProviderType::default(), AwsCredentialsProviderType::Default);
}

#[test]
fn the_polling_period_is_that_of_the_settings_or_a_minute() {
    assert_eq!(deucalion::config::effective_polling_period(None), 60_000_000_000);
    assert_eq!(deucalion::config::effective_polling_period(Some(0)), 0);
    assert_eq!(deucalion::config::effective_polling_period(Some(5)), 5_000_000_000);
    assert_eq!(
        deucalion::config::effective_polling_period(Some(u64::MAX)),
        18_446_744_073_709_551_615_000_000_000
    );
}
