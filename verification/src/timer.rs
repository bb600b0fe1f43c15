//! The timer aggregate: process-owned timers that deliver a body to their owner as a fresh turn
//! when they fire.
//!
//! A timer fires one of two ways: at an absolute wall-clock deadline ([`FireCond::At`]), or when
//! the agent processes it watches go idle ([`FireCond::WhenIdleAny`]/[`WhenIdleAll`](FireCond::WhenIdleAll))
//! — with the deadline serving as a max-wait backstop so a watched process that never settles
//! cannot block the timer forever. Firing is one-shot: a fired timer is gone.
//!
//! The aggregate owns the *policy* (the delay/max-wait defaults and ceilings) and turns a relative
//! delay into the absolute, persistable deadline the durable [`TimerRepo`] stores. Times are Unix
//! milliseconds the caller reads from its clock.

use vstd::prelude::*;

use crate::ids::{ProcessId, ProjectId, TimerId};
use crate::timer_repo::{
    duplicate_pids, in_timer_project, paused_at, resumed_at, sat_add, stored_timer_views,
    timer_find, with_owner, NewTimer, StoredTimer, TimerRepo, TimerRow,
};
use crate::todo_repo::StoreError;

verus! {

/// The ceiling on an [`FireCond::At`] timer's delay, in milliseconds (24 hours). A request above
/// this is clamped. There is no floor: a zero (or omitted) delay is legitimate — "deliver this to
/// me now, as a fresh turn".
pub const MAX_TIMER_DELAY_MILLIS: u64 = 86400000;

/// The most a timer's body may hold, in bytes. A body is a short instruction delivered to the
/// owning agent as one fresh turn, not a document.
pub const MAX_TIMER_BODY_BYTES: usize = 16384;

/// The max-wait backstop applied to a fire-when-idle timer when the caller names none (one hour),
/// so a watched process that never goes idle cannot leave the timer waiting forever.
pub const DEFAULT_IDLE_MAX_WAIT_MILLIS: u64 = 3600000;

/// The ceiling on a fire-when-idle max-wait (24 hours), clamped like the `At` delay.
pub const MAX_IDLE_MAX_WAIT_MILLIS: u64 = 86400000;

/// What a timer is waiting for. The `At` deadline and each idle backstop are absolute Unix
/// milliseconds kept *outside* this shape (on the row and the views) so pausing can freeze and
/// resuming can re-arm the deadline without rewriting the condition.
#[derive(Clone, Debug, PartialEq, Eq)]
pub enum FireCond {
    /// Fire when the deadline passes — a plain scheduled delivery.
    At,
    /// Fire when **any** watched process is idle (or the max-wait backstop passes).
    WhenIdleAny { watched: Vec<ProcessId> },
    /// Fire when **all** watched processes are idle (or the max-wait backstop passes).
    WhenIdleAll { watched: Vec<ProcessId> },
}

/// A fire condition as contracts see it.
pub ghost enum FireV {
    At,
    WhenIdleAny(Seq<ProcessId>),
    WhenIdleAll(Seq<ProcessId>),
}

impl View for FireCond {
    type V = FireV;

    open spec fn view(&self) -> FireV {
        match self {
            FireCond::At => FireV::At,
            FireCond::WhenIdleAny { watched } => FireV::WhenIdleAny(watched@),
            FireCond::WhenIdleAll { watched } => FireV::WhenIdleAll(watched@),
        }
    }
}

/// Which idle quorum a fire-when-idle timer needs.
#[derive(Clone, Copy, Debug, PartialEq, Eq, Structural)]
pub enum IdleMode {
    /// Fire as soon as one watched process is idle.
    Any,
    /// Fire only once every watched process is idle.
    All,
}

/// Whether the `mode` quorum is met when `idle[i]` says whether the `i`-th watched process is idle:
/// `Any` as soon as one is, `All` only once every one is. Neither is met by an empty set — an
/// `All` timer with nothing to watch fires on its backstop, not at once.
pub open spec fn spec_quorum_met(mode: IdleMode, idle: Seq<bool>) -> bool {
    match mode {
        IdleMode::Any => exists|i: int| 0 <= i < idle.len() && idle[i],
        IdleMode::All => idle.len() > 0 && forall|i: int| 0 <= i < idle.len() ==> idle[i],
    }
}

impl IdleMode {
    /// Whether the idle quorum is met across the watched processes, given whether each one is idle
    /// (`idle[i]` for the `i`-th watched process). The single definition of the quorum, shared by
    /// whoever decides to fire and whoever reports `already_idle`, so the two can never disagree.
    pub fn quorum_met(self, idle: &Vec<bool>) -> (r: bool)
        ensures
            r == spec_quorum_met(self, idle@),
    {
        let mut any = false;
        let mut all = true;
        let mut i: usize = 0;
        while i < idle.len()
            invariant
                i <= idle@.len(),
                any == exists|j: int| 0 <= j < i && idle@[j],
                all == forall|j: int| 0 <= j < i ==> idle@[j],
            decreases idle@.len() - i,
        {
            if idle[i] {
                any = true;
            } else {
                all = false;
            }
            i += 1;
        }
        match self {
            IdleMode::Any => any,
            IdleMode::All => idle.len() > 0 && all,
        }
    }
}

impl FireCond {
    /// The idle quorum and watched set this condition fires on, or `None` for a plain
    /// [`At`](Self::At) timer (which fires only at its deadline).
    pub fn idle_quorum(&self) -> (r: Option<(IdleMode, &Vec<ProcessId>)>)
        ensures
            match self@ {
                FireV::At => r is None,
                FireV::WhenIdleAny(w) => r matches Some((m, v)) && m == IdleMode::Any && v@ == w,
                FireV::WhenIdleAll(w) => r matches Some((m, v)) && m == IdleMode::All && v@ == w,
            },
    {
        match self {
            FireCond::At => None,
            FireCond::WhenIdleAny { watched } => Some((IdleMode::Any, watched)),
            FireCond::WhenIdleAll { watched } => Some((IdleMode::All, watched)),
        }
    }

    /// A copy with the same contents.
    pub fn duplicate(&self) -> (r: Self)
        ensures
            r@ == self@,
    {
        match self {
            FireCond::At => FireCond::At,
            FireCond::WhenIdleAny { watched } => FireCond::WhenIdleAny {
                watched: duplicate_pids(watched),
            },
            FireCond::WhenIdleAll { watched } => FireCond::WhenIdleAll {
                watched: duplicate_pids(watched),
            },
        }
    }
}

/// Where a watched process stands in the supervision registry.
#[derive(Clone, Copy, Debug, PartialEq, Eq, Structural)]
pub enum Presence {
    /// It has left the registry.
    Departed,
    /// It is live and running.
    Active,
    /// It is registered but at rest — never started, or ended.
    AtRest,
}

/// What has been observed of a watched process's work.
#[derive(Clone, Copy, Debug, PartialEq, Eq, Structural)]
pub struct ObservedActivity {
    /// Whether the latest classified turn it was observed starting has ended idle; `None` when no
    /// turn was observed.
    pub latest_idle: Option<bool>,
    /// Whether it was ever launched.
    pub launched: bool,
}

/// Whether a watched process counts as idle for a fire-when-idle timer. Only positive evidence
/// that the work is over counts: a departed process can do nothing more, so it counts as done; a
/// live process counts once its latest observed turn ended idle; a process at rest counts only if
/// it was launched — one that ran and ended can never become busy again, while one nobody started
/// has not begun.
pub open spec fn spec_watched_is_idle(observed: ObservedActivity, presence: Presence) -> bool {
    match presence {
        Presence::Departed => true,
        Presence::Active => observed.latest_idle == Some(true),
        Presence::AtRest => observed.launched,
    }
}

/// Executable [`spec_watched_is_idle`].
pub fn watched_is_idle(observed: ObservedActivity, presence: Presence) -> (r: bool)
    ensures
        r == spec_watched_is_idle(observed, presence),
{
    match presence {
        Presence::Departed => true,
        Presence::Active => match observed.latest_idle {
            Some(idle) => idle,
            None => false,
        },
        Presence::AtRest => observed.launched,
    }
}

/// Whether a timer is counting down or has been suspended by its owner. A paused timer never
/// fires; resuming re-arms it with the time that remained when it was paused.
#[derive(Clone, Copy, Debug, PartialEq, Eq, Structural)]
pub enum TimerStatus {
    /// Counting down toward its deadline / watching for idle.
    Armed,
    /// Suspended by its owner, holding the time that remained; will not fire until resumed.
    Paused,
}

/// A timer as a caller sees it: its id, owner, the body it will deliver, what it is waiting for,
/// when its deadline is, and whether it is armed or paused. `waiting_on` and `already_idle` are
/// not stored: they are empty/false on the shape the aggregate builds and are filled in by
/// [`report_idle`](Self::report_idle) from live idle state.
#[derive(Clone, Debug, PartialEq, Eq)]
pub struct TimerView {
    pub id: TimerId,
    /// The process that owns this timer — the one its body is delivered to on fire.
    pub owner: ProcessId,
    pub body: String,
    pub fire: FireCond,
    pub status: TimerStatus,
    pub deadline_unix_millis: u64,
    /// Watched processes not yet idle, computed from live idle state at read time.
    pub waiting_on: Vec<ProcessId>,
    /// Whether the idle condition was already satisfied when this view was built.
    pub already_idle: bool,
    /// For a paused timer, the milliseconds that remained when it was paused.
    pub paused_remaining_millis: Option<u64>,
}

/// A timer view as contracts see it.
pub ghost struct TimerViewV {
    pub id: TimerId,
    pub owner: ProcessId,
    pub body: Seq<char>,
    pub fire: FireV,
    pub status: TimerStatus,
    pub deadline_unix_millis: u64,
    pub waiting_on: Seq<ProcessId>,
    pub already_idle: bool,
    pub paused_remaining_millis: Option<u64>,
}

impl View for TimerView {
    type V = TimerViewV;

    open spec fn view(&self) -> TimerViewV {
        TimerViewV {
            id: self.id,
            owner: self.owner,
            body: self.body@,
            fire: self.fire@,
            status: self.status,
            deadline_unix_millis: self.deadline_unix_millis,
            waiting_on: self.waiting_on@,
            already_idle: self.already_idle,
            paused_remaining_millis: self.paused_remaining_millis,
        }
    }
}

/// The watched processes of `watched` that are not idle, in order.
pub open spec fn not_idle(watched: Seq<ProcessId>, idle: Seq<bool>) -> Seq<ProcessId>
    decreases watched.len(),
{
    if watched.len() == 0 {
        Seq::empty()
    } else {
        let rest = not_idle(watched.drop_last(), idle);
        if idle[watched.len() - 1] {
            rest
        } else {
            rest.push(watched.last())
        }
    }
}

/// The view a caller sees of a stored timer row, before any idle report.
pub open spec fn row_view(row: TimerRow) -> TimerViewV {
    TimerViewV {
        id: row.id,
        owner: row.owner,
        body: row.body,
        fire: row.fire,
        status: row.status,
        deadline_unix_millis: row.deadline,
        waiting_on: Seq::empty(),
        already_idle: false,
        paused_remaining_millis: row.remaining,
    }
}

/// Whether `idle` has one flag per watched process of `fire` (anything will do for a plain
/// timer, which watches nothing).
pub open spec fn reportable(fire: FireV, idle: Seq<bool>) -> bool {
    match fire {
        FireV::At => true,
        FireV::WhenIdleAny(w) => w.len() == idle.len(),
        FireV::WhenIdleAll(w) => w.len() == idle.len(),
    }
}

/// `v` with its read-time idle report filled in from `idle`: the watched processes not yet idle,
/// and whether the quorum is met. A plain timer is left as it is.
pub open spec fn with_idle_report(v: TimerViewV, idle: Seq<bool>) -> TimerViewV {
    match v.fire {
        FireV::At => v,
        FireV::WhenIdleAny(w) => TimerViewV {
            waiting_on: not_idle(w, idle),
            already_idle: spec_quorum_met(IdleMode::Any, idle),
            ..v
        },
        FireV::WhenIdleAll(w) => TimerViewV {
            waiting_on: not_idle(w, idle),
            already_idle: spec_quorum_met(IdleMode::All, idle),
            ..v
        },
    }
}

impl TimerView {
    /// Fills this view's read-time idle report — which watched processes are not yet idle, and
    /// whether the quorum is already met — from `idle`, whether each watched process is idle, in
    /// the order of the watched set. Leaves a plain [`FireCond::At`] timer untouched: it watches
    /// nothing.
    pub fn report_idle(&mut self, idle: &Vec<bool>)
        requires
            reportable(old(self)@.fire, idle@),
        ensures
            final(self)@ == with_idle_report(old(self)@, idle@),
    {
        let (waiting, met) = match self.fire.idle_quorum() {
            None => {
                return;
            },
            Some((mode, watched)) => {
                let mut waiting: Vec<ProcessId> = Vec::new();
                let mut i: usize = 0;
                while i < watched.len()
                    invariant
                        i <= watched@.len(),
                        watched@.len() == idle@.len(),
                        waiting@ == not_idle(watched@.take(i as int), idle@),
                    decreases watched@.len() - i,
                {
                    assert(watched@.take(i + 1).drop_last() == watched@.take(i as int));
                    assert(watched@.take(i + 1).last() == watched@[i as int]);
                    if !idle[i] {
                        waiting.push(watched[i]);
                    }
                    i += 1;
                }
                assert(watched@.take(watched@.len() as int) == watched@);
                (waiting, mode.quorum_met(idle))
            },
        };
        self.waiting_on = waiting;
        self.already_idle = met;
    }
}

/// What pausing timer `id` for `owner` at `now` answers and leaves behind: when `owner` holds it
/// armed, it is paused (its remaining time frozen) and every other timer is untouched; otherwise
/// nothing changes. A store failure changes nothing.
pub open spec fn pause_change(
    before: Seq<TimerRow>,
    after: Seq<TimerRow>,
    id: TimerId,
    owner: ProcessId,
    now: u64,
    r: Result<bool, StoreError>,
) -> bool {
    let i = timer_find(before, id);
    let applies = i >= 0 && before[i].owner == owner && before[i].status == TimerStatus::Armed;
    match r {
        Ok(true) => applies && after == before.update(i, paused_at(before[i], now)),
        Ok(false) => !applies && after == before,
        Err(_) => after == before,
    }
}

/// What resuming timer `id` for `owner` at `now` answers and leaves behind: when `owner` holds it
/// paused, it is re-armed with the time that remained and every other timer is untouched;
/// otherwise nothing changes. A store failure changes nothing.
pub open spec fn resume_change(
    before: Seq<TimerRow>,
    after: Seq<TimerRow>,
    id: TimerId,
    owner: ProcessId,
    now: u64,
    r: Result<bool, StoreError>,
) -> bool {
    let i = timer_find(before, id);
    let applies = i >= 0 && before[i].owner == owner && before[i].status == TimerStatus::Paused;
    match r {
        Ok(true) => applies && after == before.update(i, resumed_at(before[i], now)),
        Ok(false) => !applies && after == before,
        Err(_) => after == before,
    }
}

/// The outcome of arming a fire-when-idle timer: the timer itself, whether its idle condition is
/// **already** satisfied at set time, and which watched processes it is still `waiting_on`.
#[derive(Clone, Debug, PartialEq, Eq)]
pub struct SetWhenIdleOutcome {
    pub timer: TimerView,
    pub already_idle: bool,
    pub waiting_on: Vec<ProcessId>,
}

impl SetWhenIdleOutcome {
    /// The outcome of arming `timer`, with its read-time idle report filled in from `idle`
    /// (whether each watched process is idle, in the order of the watched set). The timer view
    /// carries the same report as the outcome — one answer, not two.
    pub fn reported(timer: TimerView, idle: &Vec<bool>) -> (r: Self)
        requires
            reportable(timer@.fire, idle@),
        ensures
            r.timer@ == with_idle_report(timer@, idle@),
            r.already_idle == r.timer.already_idle,
            r.waiting_on@ == r.timer.waiting_on@,
    {
        let mut timer = timer;
        timer.report_idle(idle);
        let already_idle = timer.already_idle;
        let waiting_on = duplicate_pids(&timer.waiting_on);
        SetWhenIdleOutcome { timer, already_idle, waiting_on }
    }
}

/// The deadline of a plain timer set at `now` to fire after `after` milliseconds: `after` clamped
/// to the ceiling, immediately when omitted.
pub open spec fn at_deadline(now: u64, after: Option<u64>) -> u64 {
    let delay = match after {
        Some(d) => if d > MAX_TIMER_DELAY_MILLIS {
            MAX_TIMER_DELAY_MILLIS
        } else {
            d
        },
        None => 0,
    };
    sat_add(now, delay)
}

/// The backstop deadline of a fire-when-idle timer set at `now` with `max_wait` milliseconds: the
/// default when omitted, clamped to the ceiling otherwise.
pub open spec fn idle_deadline(now: u64, max_wait: Option<u64>) -> u64 {
    let wait = match max_wait {
        Some(w) => w,
        None => DEFAULT_IDLE_MAX_WAIT_MILLIS,
    };
    sat_add(
        now,
        if wait > MAX_IDLE_MAX_WAIT_MILLIS {
            MAX_IDLE_MAX_WAIT_MILLIS
        } else {
            wait
        },
    )
}

/// The timer aggregate over the durable [`TimerRepo`]. The repo persists and makes each
/// state-dependent step atomic; the caller supplies the persistable now the deadlines are computed
/// from, and wakes its scheduler after a set or a successful resume.
pub struct Timers<R: TimerRepo> {
    repo: R,
}

/// The row a new armed timer becomes.
pub open spec fn fresh_timer(
    id: TimerId,
    project: ProjectId,
    owner: ProcessId,
    body: Seq<char>,
    fire: FireV,
    deadline: u64,
) -> TimerRow {
    TimerRow {
        id,
        project,
        owner,
        body,
        fire,
        deadline,
        status: TimerStatus::Armed,
        remaining: None,
    }
}

impl<R: TimerRepo> Timers<R> {
    /// The store's rows, in id order.
    pub closed spec fn rows(&self) -> Seq<TimerRow> {
        self.repo.rows()
    }

    /// Whether the store keeps what is written to it.
    pub closed spec fn durable(&self) -> bool {
        self.repo.durable()
    }

    /// The aggregate's internal consistency: its store's.
    pub closed spec fn wf(&self) -> bool {
        self.repo.wf()
    }

    /// Whether the store never reports a failure of its own (see [`TimerRepo::infallible`]).
    pub closed spec fn infallible(&self) -> bool {
        self.repo.infallible()
    }

    /// How many more fresh timer ids the store can assign.
    pub closed spec fn ids_left(&self) -> nat {
        self.repo.ids_left()
    }

    /// Builds the aggregate over its durable store.
    pub fn new(repo: R) -> (t: Self)
        requires
            repo.wf(),
        ensures
            t.wf(),
            t.rows() == repo.rows(),
            t.durable() == repo.durable(),
            t.infallible() == repo.infallible(),
            t.ids_left() == repo.ids_left(),
    {
        Timers { repo }
    }

    /// The store the aggregate writes through.
    pub fn repo(&self) -> (r: &R)
        ensures
            r.rows() == self.rows(),
            r.wf() == self.wf(),
    {
        &self.repo
    }

    /// Persists a new armed timer, returning the created view.
    fn arm(
        &mut self,
        project: ProjectId,
        owner: ProcessId,
        body: String,
        fire: FireCond,
        deadline_unix_millis: u64,
    ) -> (r: Result<TimerView, StoreError>)
        requires
            old(self).wf(),
        ensures
            final(self).wf(),
            final(self).durable() == old(self).durable(),
            final(self).infallible() == old(self).infallible(),
            final(self).ids_left() + 1 >= old(self).ids_left(),
            r is Err ==> !old(self).infallible() || old(self).ids_left() == 0,
            match r {
                Ok(v) => {
                    let row = fresh_timer(v.id, project, owner, body@, fire@, deadline_unix_millis);
                    &&& v@ == row_view(row)
                    &&& forall|i: int|
                        0 <= i < old(self).rows().len() ==> old(self).rows()[i].id.0 < v.id.0
                    &&& final(self).rows() == if old(self).durable() {
                        old(self).rows().push(row)
                    } else {
                        old(self).rows()
                    }
                },
                Err(_) => final(self).rows() == old(self).rows(),
            },
    {
        let new = NewTimer { project, owner, body, fire, deadline_unix_millis };
        let id = self.repo.create(&new)?;
        Ok(
            TimerView {
                id,
                owner,
                body: new.body,
                fire: new.fire,
                status: TimerStatus::Armed,
                deadline_unix_millis,
                waiting_on: Vec::new(),
                already_idle: false,
                paused_remaining_millis: None,
            },
        )
    }

    /// Arms a plain timer that delivers `body` to `owner` `after` milliseconds from `now` (the
    /// ceiling when larger; immediately when `None` or zero).
    pub fn set(
        &mut self,
        project: ProjectId,
        owner: ProcessId,
        body: String,
        after: Option<u64>,
        now: u64,
    ) -> (r: Result<TimerView, StoreError>)
        requires
            old(self).wf(),
        ensures
            final(self).wf(),
            final(self).durable() == old(self).durable(),
            final(self).infallible() == old(self).infallible(),
            final(self).ids_left() + 1 >= old(self).ids_left(),
            r is Err ==> !old(self).infallible() || old(self).ids_left() == 0,
            match r {
                Ok(v) => {
                    let row = fresh_timer(v.id, project, owner, body@, FireV::At, at_deadline(now, after));
                    &&& v@ == row_view(row)
                    &&& forall|i: int|
                        0 <= i < old(self).rows().len() ==> old(self).rows()[i].id.0 < v.id.0
                    &&& final(self).rows() == if old(self).durable() {
                        old(self).rows().push(row)
                    } else {
                        old(self).rows()
                    }
                },
                Err(_) => final(self).rows() == old(self).rows(),
            },
    {
        let delay = match after {
            Some(d) => if d > MAX_TIMER_DELAY_MILLIS {
                MAX_TIMER_DELAY_MILLIS
            } else {
                d
            },
            None => 0,
        };
        self.arm(project, owner, body, FireCond::At, now.saturating_add(delay))
    }

    /// Arms a fire-when-idle timer that delivers `body` to `owner` when the `watched` processes
    /// reach the `mode` idle quorum, or when the `max_wait` backstop passes (the default when
    /// `None`, clamped to the ceiling otherwise), measured from `now`.
    pub fn set_when_idle(
        &mut self,
        project: ProjectId,
        owner: ProcessId,
        body: String,
        watched: Vec<ProcessId>,
        mode: IdleMode,
        max_wait: Option<u64>,
        now: u64,
    ) -> (r: Result<TimerView, StoreError>)
        requires
            old(self).wf(),
        ensures
            final(self).wf(),
            final(self).durable() == old(self).durable(),
            final(self).infallible() == old(self).infallible(),
            final(self).ids_left() + 1 >= old(self).ids_left(),
            r is Err ==> !old(self).infallible() || old(self).ids_left() == 0,
            match r {
                Ok(v) => {
                    let fire = match mode {
                        IdleMode::Any => FireV::WhenIdleAny(watched@),
                        IdleMode::All => FireV::WhenIdleAll(watched@),
                    };
                    let row = fresh_timer(v.id, project, owner, body@, fire, idle_deadline(now, max_wait));
                    &&& v@ == row_view(row)
                    &&& forall|i: int|
                        0 <= i < old(self).rows().len() ==> old(self).rows()[i].id.0 < v.id.0
                    &&& final(self).rows() == if old(self).durable() {
                        old(self).rows().push(row)
                    } else {
                        old(self).rows()
                    }
                },
                Err(_) => final(self).rows() == old(self).rows(),
            },
    {
        let wait = match max_wait {
            Some(w) => w,
            None => DEFAULT_IDLE_MAX_WAIT_MILLIS,
        };
        let backstop = if wait > MAX_IDLE_MAX_WAIT_MILLIS {
            MAX_IDLE_MAX_WAIT_MILLIS
        } else {
            wait
        };
        let fire = match mode {
            IdleMode::Any => FireCond::WhenIdleAny { watched },
            IdleMode::All => FireCond::WhenIdleAll { watched },
        };
        self.arm(project, owner, body, fire, now.saturating_add(backstop))
    }

    /// Cancels the timer `id` if it is owned by `owner`, returning whether one was removed. A
    /// caller cannot cancel a timer it does not own.
    pub fn cancel(&mut self, id: TimerId, owner: ProcessId) -> (r: Result<bool, StoreError>)
        requires
            old(self).wf(),
        ensures
            final(self).wf(),
            final(self).durable() == old(self).durable(),
            final(self).infallible() == old(self).infallible(),
            final(self).ids_left() >= old(self).ids_left(),
            r is Err ==> !old(self).infallible(),
            ({
                let rows = old(self).rows();
                let i = timer_find(rows, id);
                match r {
                    Ok(true) => i >= 0 && rows[i].owner == owner && final(self).rows() == rows.remove(
                        i,
                    ),
                    Ok(false) => (i < 0 || rows[i].owner != owner) && final(self).rows() == rows,
                    Err(_) => final(self).rows() == rows,
                }
            }),
    {
        self.repo.cancel(id, owner)
    }

    /// Pauses the timer `id` at `now` if `owner` holds it and it is armed, freezing the time that
    /// remains; returns whether one was paused. A paused timer never fires until resumed.
    pub fn pause(&mut self, id: TimerId, owner: ProcessId, now: u64) -> (r: Result<
        bool,
        StoreError,
    >)
        requires
            old(self).wf(),
        ensures
            final(self).wf(),
            final(self).durable() == old(self).durable(),
            final(self).infallible() == old(self).infallible(),
            final(self).ids_left() >= old(self).ids_left(),
            r is Err ==> !old(self).infallible(),
            pause_change(old(self).rows(), final(self).rows(), id, owner, now, r),
    {
        self.repo.pause(id, owner, now)
    }

    /// Resumes the paused timer `id` at `now` if `owner` holds it, re-arming it with the time that
    /// remained when it was paused; returns whether one was resumed, so the caller wakes its
    /// scheduler and a timer whose remaining time has already elapsed fires at once.
    pub fn resume(&mut self, id: TimerId, owner: ProcessId, now: u64) -> (r: Result<
        bool,
        StoreError,
    >)
        requires
            old(self).wf(),
        ensures
            final(self).wf(),
            final(self).durable() == old(self).durable(),
            final(self).infallible() == old(self).infallible(),
            final(self).ids_left() >= old(self).ids_left(),
            r is Err ==> !old(self).infallible(),
            resume_change(old(self).rows(), final(self).rows(), id, owner, now, r),
    {
        self.repo.resume(id, owner, now)
    }

    /// Every timer `owner` holds (armed or paused), as views, in id order.
    pub fn list(&self, owner: ProcessId) -> (r: Result<Vec<TimerView>, StoreError>)
        requires
            self.wf(),
        ensures
            self.infallible() ==> r is Ok,
            r matches Ok(v) ==> v@.map_values(|t: TimerView| t@) == with_owner(
                self.rows(),
                owner,
            ).map_values(|row: TimerRow| row_view(row)),
    {
        let stored = self.repo.list(owner)?;
        Ok(views_of(stored))
    }

    /// Every timer in `project` (armed or paused), as views, in id order — keyed by project, not
    /// owner, so it shows every timer in the project regardless of which process owns it.
    pub fn list_project(&self, project: ProjectId) -> (r: Result<Vec<TimerView>, StoreError>)
        requires
            self.wf(),
        ensures
            self.infallible() ==> r is Ok,
            r matches Ok(v) ==> v@.map_values(|t: TimerView| t@) == in_timer_project(
                self.rows(),
                project,
            ).map_values(|row: TimerRow| row_view(row)),
    {
        let stored = self.repo.list_in_project(project)?;
        Ok(views_of(stored))
    }

    /// Clears every timer — launch reconciliation. A timer is process-owned and per-run process
    /// ids are recycled, so a timer left by a previous run names an owner that no longer exists;
    /// clearing the table on launch is the safe reconcile. Returns how many were cleared.
    pub fn reconcile(&mut self) -> (r: Result<usize, StoreError>)
        requires
            old(self).wf(),
        ensures
            final(self).wf(),
            final(self).durable() == old(self).durable(),
            final(self).infallible() == old(self).infallible(),
            final(self).ids_left() >= old(self).ids_left(),
            r is Err ==> !old(self).infallible(),
            match r {
                Ok(n) => n == old(self).rows().len() && final(self).rows()
                    == Seq::<TimerRow>::empty(),
                Err(_) => final(self).rows() == old(self).rows(),
            },
    {
        self.repo.clear()
    }
}

/// The views of stored timers, in order.
fn views_of(stored: Vec<StoredTimer>) -> (v: Vec<TimerView>)
    ensures
        v@.map_values(|t: TimerView| t@) == stored_timer_views(stored@).map_values(
            |row: TimerRow| row_view(row),
        ),
{
    let mut out: Vec<TimerView> = Vec::new();
    let mut k: usize = 0;
    while k < stored.len()
        invariant
            k <= stored@.len(),
            out@.len() == k,
            forall|j: int| 0 <= j < k ==> (#[trigger] out@[j])@ == row_view(stored@[j]@),
        decreases stored@.len() - k,
    {
        out.push(stored[k].duplicate().into_view());
        k += 1;
    }
    assert(out@.map_values(|t: TimerView| t@) =~= stored_timer_views(stored@).map_values(
        |row: TimerRow| row_view(row),
    ));
    out
}

} // verus!
