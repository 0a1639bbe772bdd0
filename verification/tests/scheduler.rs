use oxybox::config::probe_config::OrganisationConfig;
use oxybox::config::probe_config::TargetConfig;
use oxybox::http_probe::probe::run_probe_loop;
use oxybox::http_probe::probe::LoopAction;
use oxybox::http_probe::probe::LoopEvent;
use oxybox::http_probe::probe::LoopState;
use oxybox::http_probe::probe::TaskOutcome;

const SECOND: u64 = 1_000_000_000;

fn organisation(interval: u64, targets: usize) -> OrganisationConfig {
    OrganisationConfig {
        organisation_id: "demo".to_string(),
        polling_interval_seconds: interval,
        targets: (0..targets)
            .map(|i| TargetConfig::new(format!("https://target{}.example", i)))
            .collect(),
    }
}

#[test]
fn first_tick_launches_every_target_with_the_interval_as_timeout() {
    let org = organisation(10, 3);
    let (state, action) = run_probe_loop(&org, LoopState::Idle, LoopEvent::Tick, 7 * SECOND);
    assert_eq!(state, LoopState::Running { cycle: 1, started: 7 * SECOND, pending: 3 });
    assert_eq!(action, LoopAction::Launch { cycle: 1, targets: 3, timeout_seconds: 10 });
}

#[test]
fn loop_waits_for_all_targets_then_sleeps_the_rest_of_the_interval() {
    let org = organisation(10, 3);
    let (state, _) = run_probe_loop(&org, LoopState::Idle, LoopEvent::Tick, 0);
    let done = LoopEvent::TargetFinished(TaskOutcome::Completed);
    let (state, action) = run_probe_loop(&org, state, done, SECOND);
    assert_eq!(action, LoopAction::Wait);
    assert_eq!(state, LoopState::Running { cycle: 1, started: 0, pending: 2 });
    let (state, action) = run_probe_loop(&org, state, done, 2 * SECOND);
    assert_eq!(action, LoopAction::Wait);
    let (state, action) = run_probe_loop(&org, state, done, 3 * SECOND + 999_999_999);
    assert_eq!(state, LoopState::Sleeping { cycle: 1 });
    assert_eq!(action, LoopAction::Sleep { nanos: 6_000_000_001 });
    let (state, action) = run_probe_loop(&org, state, LoopEvent::Tick, 10 * SECOND);
    assert_eq!(state, LoopState::Running { cycle: 2, started: 10 * SECOND, pending: 3 });
    assert_eq!(action, LoopAction::Launch { cycle: 2, targets: 3, timeout_seconds: 10 });
}

#[test]
fn slow_probe_is_timed_out_and_next_cycle_starts_on_schedule() {
    let org = organisation(5, 1);
    let (state, action) = run_probe_loop(&org, LoopState::Idle, LoopEvent::Tick, 0);
    assert_eq!(action, LoopAction::Launch { cycle: 1, targets: 1, timeout_seconds: 5 });
    // The probe would take 8 seconds; its task is cancelled after 5.
    let timed_out = LoopEvent::TargetFinished(TaskOutcome::TimedOut);
    let (state, action) = run_probe_loop(&org, state, timed_out, 5 * SECOND);
    assert_eq!(state, LoopState::Sleeping { cycle: 1 });
    assert_eq!(action, LoopAction::Sleep { nanos: 0 });
    let (state, action) = run_probe_loop(&org, state, LoopEvent::Tick, 5 * SECOND);
    assert_eq!(state, LoopState::Running { cycle: 2, started: 5 * SECOND, pending: 1 });
    assert_eq!(action, LoopAction::Launch { cycle: 2, targets: 1, timeout_seconds: 5 });
}

#[test]
fn no_targets_sleeps_the_whole_interval_and_launches_nothing() {
    let org = organisation(30, 0);
    let (state, action) = run_probe_loop(&org, LoopState::Idle, LoopEvent::Tick, 123);
    assert_eq!(state, LoopState::Sleeping { cycle: 1 });
    assert_eq!(action, LoopAction::Sleep { nanos: 30 * SECOND });
    let (state, action) = run_probe_loop(&org, state, LoopEvent::Tick, 30 * SECOND + 123);
    assert_eq!(state, LoopState::Sleeping { cycle: 2 });
    assert_eq!(action, LoopAction::Sleep { nanos: 30 * SECOND });
}

#[test]
fn a_cycle_longer_than_the_interval_is_followed_by_no_sleep() {
    let org = organisation(5, 1);
    let state = LoopState::Running { cycle: 4, started: SECOND, pending: 1 };
    let done = LoopEvent::TargetFinished(TaskOutcome::Completed);
    let (state, action) = run_probe_loop(&org, state, done, 9 * SECOND);
    assert_eq!(state, LoopState::Sleeping { cycle: 4 });
    assert_eq!(action, LoopAction::Sleep { nanos: 0 });
}

#[test]
fn a_panicked_task_counts_as_finished() {
    let org = organisation(5, 2);
    let state = LoopState::Running { cycle: 1, started: 0, pending: 2 };
    let panicked = LoopEvent::TargetFinished(TaskOutcome::Panicked);
    let (state, action) = run_probe_loop(&org, state, panicked, SECOND);
    assert_eq!(state, LoopState::Running { cycle: 1, started: 0, pending: 1 });
    assert_eq!(action, LoopAction::Wait);
    let (state, action) = run_probe_loop(&org, state, panicked, 2 * SECOND);
    assert_eq!(state, LoopState::Sleeping { cycle: 1 });
    assert_eq!(action, LoopAction::Sleep { nanos: 3 * SECOND });
}

#[test]
fn cycles_never_overlap() {
    let org = organisation(5, 2);
    let running = LoopState::Running { cycle: 1, started: 0, pending: 2 };
    let (state, action) = run_probe_loop(&org, running, LoopEvent::Tick, 6 * SECOND);
    assert_eq!(state, running);
    assert_eq!(action, LoopAction::Wait);
}

#[test]
fn stray_events_change_nothing() {
    let org = organisation(5, 2);
    let done = LoopEvent::TargetFinished(TaskOutcome::Completed);
    assert_eq!(run_probe_loop(&org, LoopState::Idle, done, 1), (LoopState::Idle, LoopAction::Wait));
    let sleeping = LoopState::Sleeping { cycle: 3 };
    assert_eq!(run_probe_loop(&org, sleeping, done, 1), (sleeping, LoopAction::Wait));
}

#[test]
fn a_clock_that_runs_backwards_counts_as_standing_still() {
    let org = organisation(5, 1);
    let state = LoopState::Running { cycle: 1, started: 10 * SECOND, pending: 1 };
    let done = LoopEvent::TargetFinished(TaskOutcome::Completed);
    let (_, action) = run_probe_loop(&org, state, done, 2 * SECOND);
    assert_eq!(action, LoopAction::Sleep { nanos: 5 * SECOND });
}

#[test]
fn the_cycle_number_stops_at_its_largest() {
    let org = organisation(5, 0);
    let state = LoopState::Sleeping { cycle: u64::MAX };
    let (state, _) = run_probe_loop(&org, state, LoopEvent::Tick, 0);
    assert_eq!(state, LoopState::Sleeping { cycle: u64::MAX });
}

#[test]
fn the_loop_sleeps_what_is_left_to_the_nanosecond() {
    let org = organisation(5, 1);
    let state = LoopState::Running { cycle: 1, started: SECOND, pending: 1 };
    let done = LoopEvent::TargetFinished(TaskOutcome::Completed);
    // The cycle is over after 2.5 seconds: 2.5 seconds are left of 5.
    let (_, action) = run_probe_loop(&org, state, done, 3 * SECOND + 500_000_000);
    assert_eq!(action, LoopAction::Sleep { nanos: 2_500_000_000 });
    let (_, action) = run_probe_loop(&org, state, done, SECOND + 1);
    assert_eq!(action, LoopAction::Sleep { nanos: 4_999_999_999 });
    let (_, action) = run_probe_loop(&org, state, done, 6 * SECOND - 1);
    assert_eq!(action, LoopAction::Sleep { nanos: 1 });
    let (_, action) = run_probe_loop(&org, state, done, 6 * SECOND);
    assert_eq!(action, LoopAction::Sleep { nanos: 0 });
}

#[test]
fn an_interval_beyond_the_clock_is_slept_as_long_as_can_be_told() {
    let org = organisation(u64::MAX, 0);
    let (_, action) = run_probe_loop(&org, LoopState::Idle, LoopEvent::Tick, 0);
    assert_eq!(action, LoopAction::Sleep { nanos: u64::MAX });
    let org = organisation(18_446_744_074, 1);
    let state = LoopState::Running { cycle: 1, started: 0, pending: 1 };
    let done = LoopEvent::TargetFinished(TaskOutcome::Completed);
    let (_, action) = run_probe_loop(&org, state, done, 290_448_385);
    assert_eq!(action, LoopAction::Sleep { nanos: u64::MAX });
    let (_, action) = run_probe_loop(&org, state, done, 290_448_386);
    assert_eq!(action, LoopAction::Sleep { nanos: u64::MAX - 1 });
    let org = organisation(0, 1);
    let (_, action) = run_probe_loop(&org, state, done, 0);
    assert_eq!(action, LoopAction::Sleep { nanos: 0 });
}
