//! The bounded-write rule and a fire-when-idle timer's outcome report.

use soloist_core::coordination::{check_payload_size, CoordinationError};
use soloist_core::ids::{ProcessId, ProjectId};
use soloist_core::timer::{
    watched_is_idle, IdleMode, ObservedActivity, Presence, SetWhenIdleOutcome, Timers,
    MAX_TIMER_BODY_BYTES,
};
use soloist_core::timer_repo::MemTimerRepo;
use soloist_core::todo_repo::StoreError;

#[test]
fn a_payload_at_the_cap_is_accepted() {
    assert!(check_payload_size(MAX_TIMER_BODY_BYTES, MAX_TIMER_BODY_BYTES, "timer body").is_ok());
    assert!(check_payload_size(0, MAX_TIMER_BODY_BYTES, "timer body").is_ok());
}

#[test]
fn a_payload_over_the_cap_is_refused_naming_it_and_the_cap() {
    match check_payload_size(MAX_TIMER_BODY_BYTES + 1, MAX_TIMER_BODY_BYTES, "timer body") {
        Err(CoordinationError::PayloadTooLarge { what, max_bytes }) => {
            assert_eq!(what, "timer body");
            assert_eq!(max_bytes, 16 * 1024);
        }
        other => panic!("expected PayloadTooLarge, got {other:?}"),
    }
}

#[test]
fn a_store_failure_converts_to_the_store_refusal() {
    let e: CoordinationError = StoreError::Backend("disk".into()).into();
    assert!(matches!(e, CoordinationError::Store(StoreError::Backend(m)) if m == "disk"));
}

#[test]
fn the_outcome_and_its_timer_carry_one_report() {
    let mut timers = Timers::new(MemTimerRepo::new());
    let watched = vec![ProcessId(2), ProcessId(3)];
    let view = timers
        .set_when_idle(
            ProjectId(1),
            ProcessId(7),
            "all done".into(),
            watched.clone(),
            IdleMode::All,
            Some(60_000),
            1_000,
        )
        .expect("set");

    let waiting = SetWhenIdleOutcome::reported(view.clone(), &vec![false, false]);
    assert!(!waiting.already_idle);
    assert_eq!(waiting.waiting_on, watched);
    assert_eq!(waiting.timer.waiting_on, watched);
    assert!(!waiting.timer.already_idle);

    let met = SetWhenIdleOutcome::reported(view, &vec![true, true]);
    assert!(met.already_idle);
    assert!(met.waiting_on.is_empty());
    assert!(met.timer.already_idle);
}

/// Arms a plain timer for `owner` only once its body passes the bounded-write rule.
fn set_checked(
    timers: &mut Timers<MemTimerRepo>,
    owner: ProcessId,
    body: String,
) -> Result<(), CoordinationError> {
    check_payload_size(body.len(), MAX_TIMER_BODY_BYTES, "timer body")?;
    timers.set(ProjectId(1), owner, body, Some(30_000), 1_000)?;
    Ok(())
}

#[test]
fn setting_a_timer_with_a_body_over_the_cap_arms_nothing() {
    let mut timers = Timers::new(MemTimerRepo::new());
    let owner = ProcessId(7);
    let oversized = "x".repeat(MAX_TIMER_BODY_BYTES + 1);
    assert!(matches!(
        set_checked(&mut timers, owner, oversized),
        Err(CoordinationError::PayloadTooLarge { .. })
    ));
    assert!(
        timers.list(owner).expect("list").is_empty(),
        "a rejected write must arm no timer"
    );
}

#[test]
fn setting_a_timer_with_a_body_at_the_cap_arms_it() {
    let mut timers = Timers::new(MemTimerRepo::new());
    let owner = ProcessId(7);
    let at_cap = "x".repeat(MAX_TIMER_BODY_BYTES);
    set_checked(&mut timers, owner, at_cap).expect("a body exactly at the cap is accepted");
    assert_eq!(timers.list(owner).expect("list").len(), 1);
}

#[test]
fn fire_when_idle_reports_the_processes_it_is_waiting_on() {
    let mut timers = Timers::new(MemTimerRepo::new());
    // Two registered processes, running but not classified idle.
    let watched = vec![ProcessId(2), ProcessId(3)];
    let running = ObservedActivity {
        latest_idle: None,
        launched: true,
    };
    let idle: Vec<bool> = watched
        .iter()
        .map(|_| watched_is_idle(running, Presence::Active))
        .collect();
    let view = timers
        .set_when_idle(
            ProjectId(1),
            ProcessId(7),
            "all done".into(),
            watched.clone(),
            IdleMode::All,
            Some(60_000),
            1_000,
        )
        .expect("set");

    let outcome = SetWhenIdleOutcome::reported(view, &idle);
    assert!(!outcome.already_idle);
    assert_eq!(outcome.waiting_on, watched);
}

#[test]
fn fire_when_idle_counts_a_process_absent_from_the_registry_as_idle() {
    let mut timers = Timers::new(MemTimerRepo::new());
    let gone = ProcessId(9999);
    let never_seen = ObservedActivity {
        latest_idle: None,
        launched: false,
    };
    let idle = vec![watched_is_idle(never_seen, Presence::Departed)];
    let view = timers
        .set_when_idle(
            ProjectId(1),
            ProcessId(7),
            "all done".into(),
            vec![gone],
            IdleMode::All,
            Some(60_000),
            1_000,
        )
        .expect("set");

    let outcome = SetWhenIdleOutcome::reported(view, &idle);
    assert!(
        outcome.already_idle,
        "an absent watched process counts as idle, so an all-timer's condition is already met"
    );
    assert!(
        outcome.waiting_on.is_empty(),
        "the report must not wait on a process that has left the registry"
    );
}
