//! The durable store of coordination timers and the port over it.
//!
//! Like the todo port, this is deliberately small and **atomic**: every operation that depends on
//! a timer's current state — claiming an armed timer to fire it, pausing, resuming, cancelling —
//! is one method the store performs as a single step, never a read the aggregate then acts on, so
//! firing a timer and its owner pausing or cancelling it cannot interleave to fire a timer that
//! was just suspended. What each method does is stated over a model of the store: its rows in
//! creation order ([`TimerRepo::rows`]).

use vstd::prelude::*;

pub mod memory;
pub use memory::MemTimerRepo;

use crate::ids::{ProcessId, ProjectId, TimerId};
use crate::timer::{row_view, FireCond, FireV, TimerStatus, TimerView};
use crate::todo_repo::StoreError;

verus! {

/// A timer to persist: everything but the store-assigned id. The `deadline_unix_millis` is the
/// absolute wall-clock time the timer fires (for [`FireCond::At`]) or its max-wait backstop (for
/// the idle conditions), kept beside the condition so pausing/resuming can re-arm it.
#[derive(Clone, Debug, PartialEq, Eq)]
pub struct NewTimer {
    pub project: ProjectId,
    pub owner: ProcessId,
    pub body: String,
    pub fire: FireCond,
    pub deadline_unix_millis: u64,
}

/// A persisted timer: a [`NewTimer`] plus its store-assigned [`TimerId`], current
/// [`TimerStatus`], and — when paused — the milliseconds that remained at the moment it was
/// paused, so resuming can re-arm it with the same time left. Times are Unix milliseconds.
#[derive(Clone, Debug, PartialEq, Eq)]
pub struct StoredTimer {
    pub id: TimerId,
    pub project: ProjectId,
    pub owner: ProcessId,
    pub body: String,
    pub fire: FireCond,
    pub deadline_unix_millis: u64,
    pub status: TimerStatus,
    pub remaining_on_pause_millis: Option<u64>,
}

/// A stored timer as contracts see it.
pub ghost struct TimerRow {
    pub id: TimerId,
    pub project: ProjectId,
    pub owner: ProcessId,
    pub body: Seq<char>,
    pub fire: FireV,
    pub deadline: u64,
    pub status: TimerStatus,
    pub remaining: Option<u64>,
}

impl View for StoredTimer {
    type V = TimerRow;

    open spec fn view(&self) -> TimerRow {
        TimerRow {
            id: self.id,
            project: self.project,
            owner: self.owner,
            body: self.body@,
            fire: self.fire@,
            deadline: self.deadline_unix_millis,
            status: self.status,
            remaining: self.remaining_on_pause_millis,
        }
    }
}

/// A copy of a list of process ids.
pub fn duplicate_pids(v: &Vec<ProcessId>) -> (r: Vec<ProcessId>)
    ensures
        r@ == v@,
{
    let mut r: Vec<ProcessId> = Vec::new();
    let mut i: usize = 0;
    while i < v.len()
        invariant
            i <= v@.len(),
            r@ == v@.take(i as int),
        decreases v@.len() - i,
    {
        r.push(v[i]);
        assert(v@.take(i + 1) == v@.take(i as int).push(v@[i as int]));
        i += 1;
    }
    assert(v@.take(v@.len() as int) == v@);
    r
}

impl StoredTimer {
    /// A copy with the same contents.
    pub fn duplicate(&self) -> (r: Self)
        ensures
            r@ == self@,
    {
        StoredTimer {
            id: self.id,
            project: self.project,
            owner: self.owner,
            body: self.body.clone(),
            fire: self.fire.duplicate(),
            deadline_unix_millis: self.deadline_unix_millis,
            status: self.status,
            remaining_on_pause_millis: self.remaining_on_pause_millis,
        }
    }

    /// Projects this row to the caller-facing [`TimerView`], carrying the paused remainder through
    /// as `paused_remaining_millis` so a paused timer reports its frozen remaining time.
    /// `waiting_on` and `already_idle` are empty/false until a read-time idle report fills them.
    pub fn into_view(self) -> (v: TimerView)
        ensures
            v@ == row_view(self@),
    {
        TimerView {
            id: self.id,
            owner: self.owner,
            body: self.body,
            fire: self.fire,
            status: self.status,
            deadline_unix_millis: self.deadline_unix_millis,
            waiting_on: Vec::new(),
            already_idle: false,
            paused_remaining_millis: self.remaining_on_pause_millis,
        }
    }
}

// ---------------------------------------------------------------------------------------------
// The model of the store.
// ---------------------------------------------------------------------------------------------

/// The views of stored timers, in order.
pub open spec fn stored_timer_views(v: Seq<StoredTimer>) -> Seq<TimerRow> {
    v.map_values(|t: StoredTimer| t@)
}

/// The rows are in creation order — ids strictly increase, so no id occurs twice — and a row
/// holds a remainder exactly when it is paused.
pub open spec fn timer_rows_wf(rows: Seq<TimerRow>) -> bool {
    &&& forall|i: int, j: int| 0 <= i < j < rows.len() ==> rows[i].id.0 < rows[j].id.0
    &&& forall|i: int|
        0 <= i < rows.len() ==> (#[trigger] rows[i].status == TimerStatus::Paused)
            == rows[i].remaining is Some
}

/// The position of the timer `id`, or `-1`.
pub open spec fn timer_find(rows: Seq<TimerRow>, id: TimerId) -> int
    decreases rows.len(),
{
    if rows.len() == 0 {
        -1
    } else if rows.last().id == id {
        rows.len() - 1
    } else {
        timer_find(rows.drop_last(), id)
    }
}

/// The rows that `keep` accepts, in order.
pub open spec fn rows_where(rows: Seq<TimerRow>, keep: spec_fn(TimerRow) -> bool) -> Seq<TimerRow>
    decreases rows.len(),
{
    if rows.len() == 0 {
        Seq::empty()
    } else {
        let rest = rows_where(rows.drop_last(), keep);
        if keep(rows.last()) {
            rest.push(rows.last())
        } else {
            rest
        }
    }
}

/// The timers `owner` holds, in creation order.
pub open spec fn with_owner(rows: Seq<TimerRow>, owner: ProcessId) -> Seq<TimerRow> {
    rows_where(rows, |r: TimerRow| r.owner == owner)
}

/// The timers held by anyone but `owner`, in creation order.
pub open spec fn without_owner(rows: Seq<TimerRow>, owner: ProcessId) -> Seq<TimerRow> {
    rows_where(rows, |r: TimerRow| r.owner != owner)
}

/// The timers of `project`, in creation order.
pub open spec fn in_timer_project(rows: Seq<TimerRow>, project: ProjectId) -> Seq<TimerRow> {
    rows_where(rows, |r: TimerRow| r.project == project)
}

/// The armed timers, in creation order.
pub open spec fn armed_rows(rows: Seq<TimerRow>) -> Seq<TimerRow> {
    rows_where(rows, |r: TimerRow| r.status == TimerStatus::Armed)
}

/// `a + b`, or `u64::MAX` when that overflows.
pub open spec fn sat_add(a: u64, b: u64) -> u64 {
    if a + b > u64::MAX {
        u64::MAX
    } else {
        (a + b) as u64
    }
}

/// The row a new armed timer becomes.
pub open spec fn armed_row(id: TimerId, t: NewTimer) -> TimerRow {
    TimerRow {
        id,
        project: t.project,
        owner: t.owner,
        body: t.body@,
        fire: t.fire@,
        deadline: t.deadline_unix_millis,
        status: TimerStatus::Armed,
        remaining: None,
    }
}

/// `row` paused at `now`: it holds the milliseconds left until its deadline, never negative.
pub open spec fn paused_at(row: TimerRow, now: u64) -> TimerRow {
    TimerRow {
        status: TimerStatus::Paused,
        remaining: Some(
            if row.deadline > now {
                (row.deadline - now) as u64
            } else {
                0
            },
        ),
        ..row
    }
}

/// `row` resumed at `now`: armed again with a deadline of `now` plus the time it held.
pub open spec fn resumed_at(row: TimerRow, now: u64) -> TimerRow {
    TimerRow {
        status: TimerStatus::Armed,
        deadline: sat_add(
            now,
            match row.remaining {
                Some(r) => r,
                None => 0,
            },
        ),
        remaining: None,
        ..row
    }
}

/// Durable repository of coordination timers. One row per timer, keyed by a store-assigned
/// [`TimerId`]. Every method is one atomic step: it either fails with a [`StoreError`] and changes
/// nothing, or does exactly what its contract states.
///
/// A store that keeps nothing ([`TimerRepo::durable`] false, such as [`NoopTimerRepo`]) has no
/// rows, and its `create` hands back an id without keeping the timer.
pub trait TimerRepo {
    /// The timers the store holds, in creation order.
    spec fn rows(&self) -> Seq<TimerRow>;

    /// Whether the store keeps what is written to it.
    spec fn durable(&self) -> bool;

    /// The store's internal consistency.
    spec fn wf(&self) -> bool;

    /// Whether the store never reports a failure of its own: it fails only where a method's
    /// contract names an exhausted counter.
    spec fn infallible(&self) -> bool;

    /// How many more fresh timer ids the store can assign.
    spec fn ids_left(&self) -> nat;

    /// A consistent store lists its rows in creation order, and one that keeps nothing has none.
    proof fn lemma_wf(&self)
        requires
            self.wf(),
        ensures
            timer_rows_wf(self.rows()),
            !self.durable() ==> self.rows().len() == 0,
    ;

    /// Persists a new **armed** timer with an id past every id in the store and returns the id.
    fn create(&mut self, timer: &NewTimer) -> (r: Result<TimerId, StoreError>)
        requires
            old(self).wf(),
        ensures
            final(self).wf(),
            final(self).durable() == old(self).durable(),
            final(self).infallible() == old(self).infallible(),
            final(self).ids_left() + 1 >= old(self).ids_left(),
            r is Err ==> !old(self).infallible() || old(self).ids_left() == 0,
            match r {
                Ok(id) => {
                    &&& forall|i: int|
                        0 <= i < old(self).rows().len() ==> old(self).rows()[i].id.0 < id.0
                    &&& final(self).rows() == if old(self).durable() {
                        old(self).rows().push(armed_row(id, *timer))
                    } else {
                        old(self).rows()
                    }
                },
                Err(_) => final(self).rows() == old(self).rows(),
            },
    ;

    /// Every **armed** timer (paused ones excluded), in creation order, for the scheduler to
    /// evaluate. A plain read; the scheduler decides which are due and then claims each with
    /// [`take_if_armed`](Self::take_if_armed).
    fn armed(&self) -> (r: Result<Vec<StoredTimer>, StoreError>)
        requires
            self.wf(),
        ensures
            self.infallible() ==> r is Ok,
            r matches Ok(v) ==> stored_timer_views(v@) == armed_rows(self.rows()),
    ;

    /// Claims the timer `id` for firing — removing it and returning it — but only if it is still
    /// **armed**. `None` if it was paused or is gone, so a suspended timer is never fired.
    fn take_if_armed(&mut self, id: TimerId) -> (r: Result<Option<StoredTimer>, StoreError>)
        requires
            old(self).wf(),
        ensures
            final(self).wf(),
            final(self).durable() == old(self).durable(),
            final(self).infallible() == old(self).infallible(),
            final(self).ids_left() >= old(self).ids_left(),
            r is Err ==> !old(self).infallible(),
            ({
                let rows = old(self).rows();
                let i = timer_find(rows, id);
                let armed = i >= 0 && rows[i].status == TimerStatus::Armed;
                match r {
                    Ok(Some(t)) => armed && t@ == rows[i] && final(self).rows() == rows.remove(i),
                    Ok(None) => !armed && final(self).rows() == rows,
                    Err(_) => final(self).rows() == rows,
                }
            }),
    ;

    /// Cancels (removes) the timer `id` only if `owner` holds it, returning whether one was
    /// removed. The ownership check is part of the removal.
    fn cancel(&mut self, id: TimerId, owner: ProcessId) -> (r: Result<bool, StoreError>)
        requires
            old(self).wf(),
        ensures
            final(self).wf(),
            final(self).durable() == old(self).durable(),
            final(self).infallible() == old(self).infallible(),
            final(self).ids_left() >= old(self).ids_left(),
            r is Err ==> !old(self).infallible(),
            ({
                let rows = old(self).rows();
                let i = timer_find(rows, id);
                let applies = i >= 0 && rows[i].owner == owner;
                match r {
                    Ok(true) => applies && final(self).rows() == rows.remove(i),
                    Ok(false) => !applies && final(self).rows() == rows,
                    Err(_) => final(self).rows() == rows,
                }
            }),
    ;

    /// Pauses the timer `id` if `owner` holds it and it is armed, recording the milliseconds that
    /// remain until its deadline (never negative) so resuming can restore them; returns whether one
    /// was paused.
    fn pause(&mut self, id: TimerId, owner: ProcessId, now: u64) -> (r: Result<bool, StoreError>)
        requires
            old(self).wf(),
        ensures
            final(self).wf(),
            final(self).durable() == old(self).durable(),
            final(self).infallible() == old(self).infallible(),
            final(self).ids_left() >= old(self).ids_left(),
            r is Err ==> !old(self).infallible(),
            ({
                let rows = old(self).rows();
                let i = timer_find(rows, id);
                let applies = i >= 0 && rows[i].owner == owner && rows[i].status
                    == TimerStatus::Armed;
                match r {
                    Ok(true) => applies && final(self).rows() == rows.update(
                        i,
                        paused_at(rows[i], now),
                    ),
                    Ok(false) => !applies && final(self).rows() == rows,
                    Err(_) => final(self).rows() == rows,
                }
            }),
    ;

    /// Resumes the timer `id` if `owner` holds it and it is paused, re-arming it with a deadline of
    /// `now + remaining`; returns whether one was resumed.
    fn resume(&mut self, id: TimerId, owner: ProcessId, now: u64) -> (r: Result<bool, StoreError>)
        requires
            old(self).wf(),
        ensures
            final(self).wf(),
            final(self).durable() == old(self).durable(),
            final(self).infallible() == old(self).infallible(),
            final(self).ids_left() >= old(self).ids_left(),
            r is Err ==> !old(self).infallible(),
            ({
                let rows = old(self).rows();
                let i = timer_find(rows, id);
                let applies = i >= 0 && rows[i].owner == owner && rows[i].status
                    == TimerStatus::Paused;
                match r {
                    Ok(true) => applies && final(self).rows() == rows.update(
                        i,
                        resumed_at(rows[i], now),
                    ),
                    Ok(false) => !applies && final(self).rows() == rows,
                    Err(_) => final(self).rows() == rows,
                }
            }),
    ;

    /// Every timer in `project` (armed or paused), in id order.
    fn list_in_project(&self, project: ProjectId) -> (r: Result<Vec<StoredTimer>, StoreError>)
        requires
            self.wf(),
        ensures
            self.infallible() ==> r is Ok,
            r matches Ok(v) ==> stored_timer_views(v@) == in_timer_project(self.rows(), project),
    ;

    /// Every timer `owner` holds (armed or paused), in id order.
    fn list(&self, owner: ProcessId) -> (r: Result<Vec<StoredTimer>, StoreError>)
        requires
            self.wf(),
        ensures
            self.infallible() ==> r is Ok,
            r matches Ok(v) ==> stored_timer_views(v@) == with_owner(self.rows(), owner),
    ;

    /// Removes every timer owned by `owner` — the process closed — returning how many.
    fn release_owner(&mut self, owner: ProcessId) -> (r: Result<usize, StoreError>)
        requires
            old(self).wf(),
        ensures
            final(self).wf(),
            final(self).durable() == old(self).durable(),
            final(self).infallible() == old(self).infallible(),
            final(self).ids_left() >= old(self).ids_left(),
            r is Err ==> !old(self).infallible(),
            match r {
                Ok(n) => n == with_owner(old(self).rows(), owner).len() && final(self).rows()
                    == without_owner(old(self).rows(), owner),
                Err(_) => final(self).rows() == old(self).rows(),
            },
    ;

    /// Clears every timer — launch reconciliation. Returns how many were cleared.
    fn clear(&mut self) -> (r: Result<usize, StoreError>)
        requires
            old(self).wf(),
        ensures
            final(self).wf(),
            final(self).durable() == old(self).durable(),
            final(self).infallible() == old(self).infallible(),
            final(self).ids_left() >= old(self).ids_left(),
            r is Err ==> !old(self).infallible(),
            match r {
                Ok(n) => n == old(self).rows().len() && final(self).rows() == Seq::<
                    TimerRow,
                >::empty(),
                Err(_) => final(self).rows() == old(self).rows(),
            },
    ;
}

/// A [`TimerRepo`] that stores nothing — the default until a durable adapter is wired, so the
/// core runs (timers simply never persist or fire) without it. Creating returns a placeholder id
/// and every read is empty.
#[derive(Clone, Copy, Debug, Default)]
pub struct NoopTimerRepo;

impl TimerRepo for NoopTimerRepo {
    open spec fn rows(&self) -> Seq<TimerRow> {
        Seq::empty()
    }

    open spec fn infallible(&self) -> bool {
        true
    }

    open spec fn ids_left(&self) -> nat {
        u64::MAX as nat
    }

    open spec fn durable(&self) -> bool {
        false
    }

    open spec fn wf(&self) -> bool {
        true
    }

    proof fn lemma_wf(&self) {
    }

    fn create(&mut self, timer: &NewTimer) -> (r: Result<TimerId, StoreError>)
        ensures
            r == Ok::<TimerId, StoreError>(TimerId(0)),
    {
        Ok(TimerId(0))
    }

    fn armed(&self) -> (r: Result<Vec<StoredTimer>, StoreError>) {
        let v: Vec<StoredTimer> = Vec::new();
        assert(stored_timer_views(v@) =~= Seq::<TimerRow>::empty());
        Ok(v)
    }

    fn take_if_armed(&mut self, id: TimerId) -> (r: Result<Option<StoredTimer>, StoreError>) {
        Ok(None)
    }

    fn cancel(&mut self, id: TimerId, owner: ProcessId) -> (r: Result<bool, StoreError>) {
        Ok(false)
    }

    fn pause(&mut self, id: TimerId, owner: ProcessId, now: u64) -> (r: Result<bool, StoreError>) {
        Ok(false)
    }

    fn resume(&mut self, id: TimerId, owner: ProcessId, now: u64) -> (r: Result<bool, StoreError>) {
        Ok(false)
    }

    fn list_in_project(&self, project: ProjectId) -> (r: Result<Vec<StoredTimer>, StoreError>) {
        let v: Vec<StoredTimer> = Vec::new();
        assert(stored_timer_views(v@) =~= Seq::<TimerRow>::empty());
        Ok(v)
    }

    fn list(&self, owner: ProcessId) -> (r: Result<Vec<StoredTimer>, StoreError>) {
        let v: Vec<StoredTimer> = Vec::new();
        assert(stored_timer_views(v@) =~= Seq::<TimerRow>::empty());
        Ok(v)
    }

    fn release_owner(&mut self, owner: ProcessId) -> (r: Result<usize, StoreError>) {
        Ok(0)
    }

    fn clear(&mut self) -> (r: Result<usize, StoreError>) {
        Ok(0)
    }
}

} // verus!
