//! Behavioural tests for the timer aggregate over the in-memory store, with a clock the tests
//! advance by hand. Times are Unix milliseconds.

use soloist_core::ids::{ProcessId, ProjectId, TimerId};
use soloist_core::timer::{
    watched_is_idle, FireCond, IdleMode, ObservedActivity, Presence, TimerStatus, TimerView,
    Timers,
};
use soloist_core::timer_repo::{MemTimerRepo, NewTimer, NoopTimerRepo, TimerRepo};

const PROJECT: ProjectId = ProjectId(1);
const OWNER: ProcessId = ProcessId(7);

/// The aggregate's policy bounds, mirrored here so the assertions read in real units.
const SECOND_MS: u64 = 1000;
const HOUR_MS: u64 = 60 * 60 * 1000;
const DAY_MS: u64 = 24 * HOUR_MS;

/// A clock the test moves forward itself.
struct MockClock {
    now: u64,
}

impl MockClock {
    fn new() -> Self {
        MockClock {
            now: 1_700_000_000_000,
        }
    }

    fn now_unix_millis(&self) -> u64 {
        self.now
    }

    fn advance(&mut self, millis: u64) {
        self.now += millis;
    }
}

/// Builds a timer aggregate over an in-memory store and a mock clock.
fn timers() -> (Timers<MemTimerRepo>, MockClock) {
    (Timers::new(MemTimerRepo::new()), MockClock::new())
}

#[test]
fn set_arms_an_at_timer_for_now_plus_the_delay() {
    let (mut timers, clock) = timers();
    let now = clock.now_unix_millis();

    let view = timers
        .set(PROJECT, OWNER, "ping".into(), Some(30 * SECOND_MS), now)
        .expect("set");

    assert_eq!(view.fire, FireCond::At);
    assert_eq!(view.status, TimerStatus::Armed);
    assert_eq!(view.body, "ping");
    assert_eq!(view.deadline_unix_millis, now + 30_000);
}

#[test]
fn a_timer_with_no_delay_is_due_at_once() {
    let (mut timers, clock) = timers();
    let now = clock.now_unix_millis();

    let view = timers
        .set(PROJECT, OWNER, "now".into(), None, now)
        .expect("set");

    assert_eq!(view.deadline_unix_millis, now);
}

#[test]
fn a_delay_above_the_ceiling_is_clamped() {
    let (mut timers, clock) = timers();
    let now = clock.now_unix_millis();

    let view = timers
        .set(PROJECT, OWNER, "later".into(), Some(7 * DAY_MS), now)
        .expect("set");

    assert_eq!(
        view.deadline_unix_millis,
        now + DAY_MS,
        "a week-long delay is clamped to the 24h ceiling"
    );
}

#[test]
fn set_when_idle_records_the_watched_set_and_backstop() {
    let (mut timers, clock) = timers();
    let now = clock.now_unix_millis();
    let watched = vec![ProcessId(2), ProcessId(3)];

    let view = timers
        .set_when_idle(
            PROJECT,
            OWNER,
            "go".into(),
            watched.clone(),
            IdleMode::All,
            Some(120 * SECOND_MS),
            now,
        )
        .expect("set");

    assert_eq!(view.fire, FireCond::WhenIdleAll { watched });
    assert_eq!(view.deadline_unix_millis, now + 120_000);
}

#[test]
fn the_idle_backstop_defaults_and_clamps() {
    let (mut timers, clock) = timers();
    let now = clock.now_unix_millis();

    // Omitted → the default one-hour backstop.
    let default = timers
        .set_when_idle(
            PROJECT,
            OWNER,
            "x".into(),
            vec![ProcessId(2)],
            IdleMode::Any,
            None,
            now,
        )
        .expect("set");
    assert_eq!(default.deadline_unix_millis, now + HOUR_MS);

    // Above the ceiling → clamped to 24h.
    let clamped = timers
        .set_when_idle(
            PROJECT,
            OWNER,
            "y".into(),
            vec![ProcessId(2)],
            IdleMode::Any,
            Some(48 * HOUR_MS),
            now,
        )
        .expect("set");
    assert_eq!(clamped.deadline_unix_millis, now + DAY_MS);
}

#[test]
fn list_returns_only_the_owners_timers() {
    let (mut timers, clock) = timers();
    let now = clock.now_unix_millis();
    let other = ProcessId(9);
    timers
        .set(PROJECT, OWNER, "mine".into(), Some(10 * SECOND_MS), now)
        .expect("set");
    timers
        .set(PROJECT, other, "theirs".into(), Some(10 * SECOND_MS), now)
        .expect("set");

    let mine = timers.list(OWNER).expect("list");

    assert_eq!(mine.len(), 1);
    assert_eq!(mine[0].body, "mine");
}

#[test]
fn cancel_removes_only_for_the_owner() {
    let (mut timers, clock) = timers();
    let now = clock.now_unix_millis();
    let view = timers
        .set(PROJECT, OWNER, "ping".into(), Some(30 * SECOND_MS), now)
        .expect("set");

    // A non-owner cannot cancel it.
    assert!(!timers
        .cancel(view.id, ProcessId(99))
        .expect("foreign cancel"));
    assert_eq!(timers.list(OWNER).expect("list").len(), 1);

    // The owner cancels it.
    assert!(timers.cancel(view.id, OWNER).expect("owner cancel"));
    assert!(timers.list(OWNER).expect("list").is_empty());
}

#[test]
fn pause_freezes_the_remaining_time_and_resume_re_arms_from_it() {
    let (mut timers, mut clock) = timers();
    let view = timers
        .set(
            PROJECT,
            OWNER,
            "ping".into(),
            Some(100 * SECOND_MS),
            clock.now_unix_millis(),
        )
        .expect("set");

    // Pause 30s in: 70s remain. A paused timer is excluded from the armed set the scheduler reads.
    clock.advance(30 * SECOND_MS);
    assert!(timers
        .pause(view.id, OWNER, clock.now_unix_millis())
        .expect("pause"));
    assert!(timers.repo().armed().expect("armed").is_empty());
    assert_eq!(
        timers.list(OWNER).expect("list")[0].status,
        TimerStatus::Paused
    );

    // Resume much later: the deadline is now plus the 70s that remained, not the original deadline.
    clock.advance(1000 * SECOND_MS);
    let resumed_at = clock.now_unix_millis();
    assert!(timers.resume(view.id, OWNER, resumed_at).expect("resume"));
    let armed = timers.repo().armed().expect("armed");
    assert_eq!(armed.len(), 1);
    assert_eq!(armed[0].deadline_unix_millis, resumed_at + 70_000);
}

#[test]
fn pause_and_resume_act_only_for_the_owner() {
    let (mut timers, clock) = timers();
    let now = clock.now_unix_millis();
    let view = timers
        .set(PROJECT, OWNER, "ping".into(), Some(100 * SECOND_MS), now)
        .expect("set");
    let intruder = ProcessId(99);

    assert!(!timers.pause(view.id, intruder, now).expect("foreign pause"));
    assert!(timers.pause(view.id, OWNER, now).expect("owner pause"));
    assert!(!timers.resume(view.id, intruder, now).expect("foreign resume"));
    assert!(timers.resume(view.id, OWNER, now).expect("owner resume"));
}

#[test]
fn reconcile_clears_every_timer() {
    let (mut timers, clock) = timers();
    let now = clock.now_unix_millis();
    timers
        .set(PROJECT, OWNER, "a".into(), Some(10 * SECOND_MS), now)
        .expect("set");
    timers
        .set(PROJECT, OWNER, "b".into(), Some(10 * SECOND_MS), now)
        .expect("set");

    let cleared = timers.reconcile().expect("reconcile");

    assert_eq!(cleared, 2);
    assert!(timers.list(OWNER).expect("list").is_empty());
}

// ---------------------------------------------------------------------------------------------
// Further cases: the idle quorum and report, pause edges, claims, and store scoping.
// ---------------------------------------------------------------------------------------------

#[test]
fn an_empty_watched_set_meets_no_quorum() {
    assert!(!IdleMode::Any.quorum_met(&vec![]));
    assert!(!IdleMode::All.quorum_met(&vec![]));
}

#[test]
fn any_needs_one_idle_and_all_needs_every_one() {
    let mixed = vec![false, true, false];
    assert!(IdleMode::Any.quorum_met(&mixed));
    assert!(!IdleMode::All.quorum_met(&mixed));
    let done = vec![true, true];
    assert!(IdleMode::Any.quorum_met(&done));
    assert!(IdleMode::All.quorum_met(&done));
    let busy = vec![false, false];
    assert!(!IdleMode::Any.quorum_met(&busy));
}

#[test]
fn the_idle_report_names_who_is_still_awaited() {
    let (mut timers, clock) = timers();
    let now = clock.now_unix_millis();
    let mut view: TimerView = timers
        .set_when_idle(
            PROJECT,
            OWNER,
            "go".into(),
            vec![ProcessId(2), ProcessId(3), ProcessId(4)],
            IdleMode::All,
            None,
            now,
        )
        .expect("set");
    assert!(view.waiting_on.is_empty());
    assert!(!view.already_idle);

    view.report_idle(&vec![true, false, false]);
    assert_eq!(view.waiting_on, vec![ProcessId(3), ProcessId(4)]);
    assert!(!view.already_idle);

    view.report_idle(&vec![true, true, true]);
    assert!(view.waiting_on.is_empty());
    assert!(view.already_idle);
}

#[test]
fn a_plain_timer_reports_no_idle_state() {
    let (mut timers, clock) = timers();
    let mut view = timers
        .set(PROJECT, OWNER, "ping".into(), None, clock.now_unix_millis())
        .expect("set");
    view.report_idle(&vec![true]);
    assert!(view.waiting_on.is_empty());
    assert!(!view.already_idle);
}

#[test]
fn only_positive_evidence_counts_as_idle() {
    let silent = ObservedActivity {
        latest_idle: None,
        launched: false,
    };
    let finished_turn = ObservedActivity {
        latest_idle: Some(true),
        launched: true,
    };
    let working = ObservedActivity {
        latest_idle: Some(false),
        launched: true,
    };
    assert!(watched_is_idle(silent, Presence::Departed));
    assert!(!watched_is_idle(silent, Presence::Active));
    assert!(watched_is_idle(finished_turn, Presence::Active));
    assert!(!watched_is_idle(working, Presence::Active));
    assert!(!watched_is_idle(silent, Presence::AtRest));
    assert!(watched_is_idle(working, Presence::AtRest));
}

#[test]
fn pausing_past_the_deadline_freezes_zero_and_resume_is_due_at_once() {
    let (mut timers, mut clock) = timers();
    let view = timers
        .set(PROJECT, OWNER, "ping".into(), Some(10 * SECOND_MS), clock.now_unix_millis())
        .expect("set");
    clock.advance(60 * SECOND_MS);
    assert!(timers.pause(view.id, OWNER, clock.now_unix_millis()).expect("pause"));
    let listed = timers.list(OWNER).expect("list");
    assert_eq!(listed[0].paused_remaining_millis, Some(0));

    clock.advance(5 * SECOND_MS);
    let at = clock.now_unix_millis();
    assert!(timers.resume(view.id, OWNER, at).expect("resume"));
    let listed = timers.list(OWNER).expect("list");
    assert_eq!(listed[0].status, TimerStatus::Armed);
    assert_eq!(listed[0].deadline_unix_millis, at);
    assert_eq!(listed[0].paused_remaining_millis, None);
}

#[test]
fn a_timer_is_paused_and_resumed_once_each() {
    let (mut timers, clock) = timers();
    let now = clock.now_unix_millis();
    let view = timers
        .set(PROJECT, OWNER, "ping".into(), Some(10 * SECOND_MS), now)
        .expect("set");
    assert!(!timers.resume(view.id, OWNER, now).expect("resume an armed timer"));
    assert!(timers.pause(view.id, OWNER, now).expect("pause"));
    assert!(!timers.pause(view.id, OWNER, now).expect("pause again"));
    assert!(!timers.pause(TimerId(999), OWNER, now).expect("pause a missing timer"));
}

#[test]
fn a_claimed_timer_fires_once_and_a_paused_one_not_at_all() {
    let now = MockClock::new().now_unix_millis();
    let mut store = MemTimerRepo::new();
    let new = NewTimer {
        project: PROJECT,
        owner: OWNER,
        body: "c".into(),
        fire: FireCond::At,
        deadline_unix_millis: now,
    };
    let c = store.create(&new).expect("create");
    let d = store.create(&new).expect("create");
    assert!(c.0 < d.0);
    assert!(store.pause(d, OWNER, now).expect("pause"));

    let taken = store.take_if_armed(c).expect("take");
    assert_eq!(taken.map(|t| t.body), Some("c".to_string()));
    assert!(store.take_if_armed(c).expect("take again").is_none());
    assert!(store.take_if_armed(d).expect("take paused").is_none());
    assert_eq!(store.list(OWNER).expect("list").len(), 1);
}

#[test]
fn releasing_an_owner_removes_only_its_timers() {
    let mut store = MemTimerRepo::new();
    let mine = NewTimer {
        project: PROJECT,
        owner: OWNER,
        body: "mine".into(),
        fire: FireCond::At,
        deadline_unix_millis: 5,
    };
    let theirs = NewTimer {
        owner: ProcessId(8),
        body: "theirs".into(),
        ..mine.clone()
    };
    store.create(&mine).expect("create");
    store.create(&theirs).expect("create");
    store.create(&mine).expect("create");

    assert_eq!(store.release_owner(OWNER).expect("release"), 2);
    assert!(store.list(OWNER).expect("list").is_empty());
    assert_eq!(store.list(ProcessId(8)).expect("list").len(), 1);
}

#[test]
fn the_project_listing_spans_owners_but_not_projects() {
    let (mut timers, clock) = timers();
    let now = clock.now_unix_millis();
    timers
        .set(PROJECT, OWNER, "a".into(), None, now)
        .expect("set");
    timers
        .set(PROJECT, ProcessId(8), "b".into(), None, now)
        .expect("set");
    timers
        .set(ProjectId(2), OWNER, "c".into(), None, now)
        .expect("set");

    let listed = timers.list_project(PROJECT).expect("list");
    let bodies: Vec<&str> = listed.iter().map(|v| v.body.as_str()).collect();
    assert_eq!(bodies, vec!["a", "b"]);
}

#[test]
fn a_store_that_keeps_nothing_lists_nothing() {
    let mut timers = Timers::new(NoopTimerRepo);
    let view = timers
        .set(PROJECT, OWNER, "lost".into(), None, 10)
        .expect("set");
    assert_eq!(view.body, "lost");
    assert!(timers.list(OWNER).expect("list").is_empty());
    assert_eq!(timers.reconcile().expect("reconcile"), 0);
}
