//! A quiet-window debouncer: collapse a burst of triggers into a single action.
//!
//! A filesystem watcher emits many events for one logical save. The debouncer records each
//! trigger's instant and reports "due" only once the configured quiet window has elapsed with no
//! further trigger — turning a storm of events into one sync. It is a pure state machine driven by
//! caller-supplied instants, so it is fully deterministic and adds no timers of its own; the caller
//! decides when to poll it.
//!
//! Instants and durations are nanoseconds on the caller's monotonic clock.

use vstd::prelude::*;

verus! {

/// Coalesces triggers within a `quiet` window. Construct one per watched source.
///
/// A quiet window alone has no ceiling: a source whose triggers keep arriving closer together than
/// the window re-arms it every time, and the action is postponed for as long as the triggers last.
/// [`Debouncer::bounded`] adds a ceiling on the postponement, so a source that never goes quiet is
/// still acted on, on a bounded schedule.
pub struct Debouncer {
    quiet: u64,
    /// The longest a burst may postpone its action, or `None` for a window that can be postponed
    /// indefinitely.
    ceiling: Option<u64>,
    /// When the pending burst began — what the ceiling is measured from, as distinct from the last
    /// trigger the quiet window is measured from.
    burst_began: Option<u64>,
    last_trigger: Option<u64>,
    pending: bool,
}

impl Debouncer {
    /// The quiet window.
    pub closed spec fn quiet(&self) -> nat {
        self.quiet as nat
    }

    /// The ceiling on a burst's postponement, if any.
    pub closed spec fn ceiling(&self) -> Option<nat> {
        match self.ceiling {
            Some(c) => Some(c as nat),
            None => None,
        }
    }

    /// Whether a trigger is waiting to be acted on.
    pub closed spec fn is_pending(&self) -> bool {
        self.pending
    }

    /// The first trigger of the pending burst.
    pub closed spec fn burst_began(&self) -> int {
        match self.burst_began {
            Some(b) => b as int,
            None => 0,
        }
    }

    /// The most recent trigger.
    pub closed spec fn last_trigger(&self) -> int {
        match self.last_trigger {
            Some(t) => t as int,
            None => 0,
        }
    }

    /// The debouncer's internal consistency: a pending burst has a start and a last trigger, and
    /// its due instant is representable.
    pub closed spec fn wf(&self) -> bool {
        self.pending ==> {
            &&& self.burst_began is Some
            &&& self.last_trigger is Some
            &&& self.last_trigger->0 + self.quiet <= u64::MAX
            &&& self.ceiling matches Some(c) ==> self.burst_began->0 + c <= u64::MAX
        }
    }

    /// When the pending burst becomes due: its quiet window elapses, or it reaches the ceiling
    /// measured from its first trigger, whichever is sooner; `None` when nothing is pending.
    pub open spec fn spec_due_at(&self) -> Option<int> {
        if self.is_pending() {
            let quiet_at = self.last_trigger() + self.quiet();
            match self.ceiling() {
                Some(c) => {
                    let ceiling_at = self.burst_began() + c;
                    Some(if ceiling_at < quiet_at { ceiling_at } else { quiet_at })
                },
                None => Some(quiet_at),
            }
        } else {
            None
        }
    }

    /// A debouncer with the given quiet window, postponed for as long as its triggers keep coming.
    pub fn new(quiet: u64) -> (d: Self)
        ensures
            d.wf(),
            d.quiet() == quiet,
            d.ceiling() is None,
            !d.is_pending(),
    {
        Debouncer { quiet, ceiling: None, burst_began: None, last_trigger: None, pending: false }
    }

    /// The same, but where a burst that never goes quiet is acted on anyway once it has been running
    /// for `ceiling` — measured from the burst's first trigger, so a continuously-changing source is
    /// acted on about once per `ceiling` rather than never.
    pub fn bounded(quiet: u64, ceiling: u64) -> (d: Self)
        ensures
            d.wf(),
            d.quiet() == quiet,
            d.ceiling() == Some(ceiling as nat),
            !d.is_pending(),
    {
        Debouncer {
            quiet,
            ceiling: Some(ceiling),
            burst_began: None,
            last_trigger: None,
            pending: false,
        }
    }

    /// Records a trigger at `now`, (re)starting the quiet window. The first trigger of a burst also
    /// starts the ceiling, which later triggers do not restart — that is the whole of what makes it
    /// a ceiling.
    pub fn trigger(&mut self, now: u64)
        requires
            old(self).wf(),
            now + old(self).quiet() <= u64::MAX,
            old(self).ceiling() matches Some(c) ==> now + c <= u64::MAX,
        ensures
            final(self).wf(),
            final(self).is_pending(),
            final(self).last_trigger() == now,
            final(self).burst_began() == if old(self).is_pending() {
                old(self).burst_began()
            } else {
                now as int
            },
            final(self).quiet() == old(self).quiet(),
            final(self).ceiling() == old(self).ceiling(),
    {
        if !self.pending {
            self.burst_began = Some(now);
        }
        self.last_trigger = Some(now);
        self.pending = true;
    }

    /// The instant the pending trigger becomes due — its quiet window elapses, or its burst reaches
    /// the ceiling, whichever is sooner — or `None` when nothing is pending. Lets a caller sleep
    /// exactly until the next action instead of polling on a fixed interval.
    pub fn due_at(&self) -> (r: Option<u64>)
        requires
            self.wf(),
        ensures
            match r {
                Some(t) => self.spec_due_at() == Some(t as int),
                None => self.spec_due_at() is None,
            },
    {
        if !self.pending {
            return None;
        }
        let last = match self.last_trigger {
            Some(t) => t,
            None => {
                return None;
            },
        };
        let quiet_at = last + self.quiet;
        match (self.ceiling, self.burst_began) {
            (Some(ceiling), Some(began)) => {
                let ceiling_at = began + ceiling;
                Some(if ceiling_at < quiet_at { ceiling_at } else { quiet_at })
            },
            _ => Some(quiet_at),
        }
    }

    /// Returns `true` exactly once the pending burst is due (see [`Self::due_at`]), then resets
    /// until the next trigger — which begins a fresh burst, and so a fresh ceiling.
    pub fn take_if_due(&mut self, now: u64) -> (fired: bool)
        requires
            old(self).wf(),
        ensures
            final(self).wf(),
            fired == (old(self).spec_due_at() matches Some(due) && now >= due),
            fired ==> !final(self).is_pending() && final(self).spec_due_at() is None,
            !fired ==> final(self).is_pending() == old(self).is_pending(),
            !fired ==> final(self).spec_due_at() == old(self).spec_due_at(),
            final(self).quiet() == old(self).quiet(),
            final(self).ceiling() == old(self).ceiling(),
            final(self).last_trigger() == old(self).last_trigger(),
            final(self).burst_began() == old(self).burst_began(),
    {
        match self.due_at() {
            Some(due) => {
                if now >= due {
                    self.pending = false;
                    true
                } else {
                    false
                }
            },
            None => false,
        }
    }
}

/// Without a ceiling, the quiet window alone decides: a pending burst is due exactly one quiet
/// window after its latest trigger, so triggers closer together than the window postpone it for
/// as long as they keep coming.
pub proof fn law_unbounded_waits_for_quiet(d: Debouncer)
    requires
        d.wf(),
        d.is_pending(),
        d.ceiling() is None,
    ensures
        d.spec_due_at() == Some(d.last_trigger() + d.quiet()),
{
}

/// With a ceiling, a pending burst is due no later than the ceiling after its first trigger, and
/// no later than the quiet window after its latest — however the triggers keep coming.
pub proof fn law_ceiling_bounds_the_postponement(d: Debouncer)
    requires
        d.wf(),
        d.is_pending(),
        d.ceiling() is Some,
    ensures
        d.spec_due_at() matches Some(due) && due <= d.burst_began() + d.ceiling()->0 && due
            <= d.last_trigger() + d.quiet(),
{
}

/// A ceiling never shortens the quiet window of a burst that goes quiet within it: when the last
/// trigger's window ends before the ceiling, the window is what decides.
pub proof fn law_ceiling_leaves_a_quiet_burst_to_its_window(d: Debouncer)
    requires
        d.wf(),
        d.is_pending(),
        d.ceiling() matches Some(c) && d.last_trigger() + d.quiet() <= d.burst_began() + c,
    ensures
        d.spec_due_at() == Some(d.last_trigger() + d.quiet()),
{
}

} // verus!
