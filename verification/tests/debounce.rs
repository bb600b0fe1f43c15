//! Behavioural tests for the quiet-window debouncer, driven by a clock the tests advance by hand,
//! so no real time elapses. Instants and durations are nanoseconds.

use soloist_core::debounce::Debouncer;

const MILLI: u64 = 1_000_000;

/// The window under test, long enough that the steps below sit clearly inside or outside it.
const QUIET: u64 = 500 * MILLI;

/// The longest a bounded burst may postpone its action.
const CEILING: u64 = 2_000 * MILLI;

/// A gap shorter than [`QUIET`] — a stream of triggers this close together never lets the window
/// elapse.
const RESTLESS: u64 = 400 * MILLI;

/// Enough restless steps to run well past [`CEILING`].
const STREAM_STEPS: usize = 20;

/// A clock the test moves forward itself.
struct MockClock {
    now: std::cell::Cell<u64>,
}

impl MockClock {
    fn new() -> Self {
        MockClock {
            now: std::cell::Cell::new(1_000 * MILLI),
        }
    }

    fn now(&self) -> u64 {
        self.now.get()
    }

    fn advance(&self, by: u64) {
        self.now.set(self.now.get() + by);
    }
}

#[test]
fn fires_once_after_the_quiet_window_and_resets() {
    let clock = MockClock::new();
    let mut debouncer = Debouncer::new(QUIET);

    debouncer.trigger(clock.now());
    assert!(!debouncer.take_if_due(clock.now()), "not due immediately");

    clock.advance(QUIET - MILLI);
    assert!(
        !debouncer.take_if_due(clock.now()),
        "not due before the window"
    );

    clock.advance(MILLI);
    assert!(debouncer.take_if_due(clock.now()), "due at the window");
    assert!(
        !debouncer.take_if_due(clock.now()),
        "fires only once per burst"
    );
}

#[test]
fn a_later_trigger_restarts_the_window() {
    let clock = MockClock::new();
    let mut debouncer = Debouncer::new(QUIET);

    debouncer.trigger(clock.now());
    clock.advance(300 * MILLI);
    debouncer.trigger(clock.now()); // resets the window
    clock.advance(300 * MILLI); // 300 < 500 since the last trigger
    assert!(!debouncer.take_if_due(clock.now()));
    clock.advance(200 * MILLI); // now 500 since the last trigger
    assert!(debouncer.take_if_due(clock.now()));
}

#[test]
fn a_burst_that_never_goes_quiet_is_postponed_for_ever_without_a_ceiling() {
    let clock = MockClock::new();
    let mut debouncer = Debouncer::new(QUIET);

    for _ in 0..STREAM_STEPS {
        debouncer.trigger(clock.now());
        clock.advance(RESTLESS);
        assert!(
            !debouncer.take_if_due(clock.now()),
            "an unbounded window is postponed by every trigger, however long the stream runs",
        );
    }
}

#[test]
fn a_ceiling_acts_on_a_burst_that_never_goes_quiet() {
    let clock = MockClock::new();
    let mut debouncer = Debouncer::bounded(QUIET, CEILING);
    let began = clock.now();

    let fired_at = (0..STREAM_STEPS)
        .find_map(|_| {
            debouncer.trigger(clock.now());
            clock.advance(RESTLESS);
            debouncer.take_if_due(clock.now()).then(|| clock.now())
        })
        .expect("the ceiling acted on a burst the quiet window would have postponed for ever");

    // At the ceiling, not at some later point a longer stream happened to reach.
    assert!(
        fired_at - began < CEILING + RESTLESS,
        "it waited past the ceiling: {:?}",
        fired_at - began,
    );
}

#[test]
fn a_ceiling_leaves_a_burst_that_does_go_quiet_to_its_quiet_window() {
    let clock = MockClock::new();
    let mut debouncer = Debouncer::bounded(QUIET, CEILING);

    debouncer.trigger(clock.now());
    clock.advance(QUIET - MILLI);
    assert!(
        !debouncer.take_if_due(clock.now()),
        "a ceiling does not shorten the quiet window"
    );
    clock.advance(MILLI);
    assert!(debouncer.take_if_due(clock.now()));
}

#[test]
fn each_burst_gets_the_whole_ceiling_again() {
    let clock = MockClock::new();
    let mut debouncer = Debouncer::bounded(QUIET, CEILING);

    debouncer.trigger(clock.now());
    clock.advance(CEILING);
    assert!(debouncer.take_if_due(clock.now()));

    debouncer.trigger(clock.now());
    assert!(
        !debouncer.take_if_due(clock.now()),
        "the ceiling carried over from the burst before, firing with no quiet window at all",
    );
}

#[test]
fn due_at_names_the_sooner_of_window_and_ceiling() {
    let mut debouncer = Debouncer::bounded(QUIET, CEILING);
    assert_eq!(debouncer.due_at(), None);
    debouncer.trigger(10 * MILLI);
    assert_eq!(debouncer.due_at(), Some(10 * MILLI + QUIET));
    debouncer.trigger(1_900 * MILLI);
    // The window would end at 2400 ms; the ceiling measured from 10 ms ends at 2010 ms.
    assert_eq!(debouncer.due_at(), Some(10 * MILLI + CEILING));
}
