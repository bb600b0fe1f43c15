//! What holds of timers across calls: the idle report never disagrees with itself, a pause or a
//! resume touches only the owner's timer, only the owner resumes a paused timer and it keeps the
//! time that was left, a fired or cancelled timer is gone, a paused timer is out of the
//! scheduler's reach, and a closed owner strands no timer.

use vstd::prelude::*;

use crate::ids::{ProcessId, TimerId};
use crate::todo_repo::StoreError;
use crate::timer::{
    at_deadline, idle_deadline, not_idle, pause_change, resume_change, spec_quorum_met, IdleMode,
    TimerStatus,
    MAX_IDLE_MAX_WAIT_MILLIS, MAX_TIMER_DELAY_MILLIS,
};
use crate::timer_repo::{
    armed_rows, paused_at, resumed_at, rows_where, sat_add, timer_find, timer_rows_wf, with_owner,
    without_owner, TimerRow,
};

verus! {

proof fn lemma_not_idle_len(watched: Seq<ProcessId>, idle: Seq<bool>)
    requires
        watched.len() == idle.len(),
    ensures
        not_idle(watched, idle).len() <= watched.len(),
        (not_idle(watched, idle).len() == watched.len()) == (forall|i: int|
            0 <= i < idle.len() ==> !idle[i]),
        (not_idle(watched, idle).len() == 0) == (forall|i: int| 0 <= i < idle.len() ==> idle[i]),
    decreases watched.len(),
{
    if watched.len() > 0 {
        let w = watched.drop_last();
        let d = idle.drop_last();
        lemma_not_idle_prefix(w, idle);
        assert(d =~= idle.subrange(0, w.len() as int));
        lemma_not_idle_len(w, d);
        let n = idle.len() - 1;
        assert(forall|i: int| 0 <= i < d.len() ==> d[i] == idle[i]);
        if !(forall|i: int| 0 <= i < idle.len() ==> !idle[i]) {
            let k = choose|k: int| 0 <= k < idle.len() && idle[k];
            if k < n {
                assert(d[k]);
            }
        }
        if !(forall|i: int| 0 <= i < idle.len() ==> idle[i]) {
            let k = choose|k: int| 0 <= k < idle.len() && !idle[k];
            if k < n {
                assert(!d[k]);
            }
        }
    }
}

/// `not_idle` of a prefix reads only the prefix's flags.
proof fn lemma_not_idle_prefix(watched: Seq<ProcessId>, idle: Seq<bool>)
    requires
        watched.len() < idle.len(),
    ensures
        not_idle(watched, idle) == not_idle(watched, idle.subrange(0, watched.len() as int)),
    decreases watched.len(),
{
    if watched.len() > 0 {
        lemma_not_idle_prefix(watched.drop_last(), idle);
        lemma_not_idle_prefix(watched.drop_last(), idle.subrange(0, watched.len() as int));
        assert(idle.subrange(0, watched.len() as int).subrange(0, watched.len() - 1) =~= idle.subrange(
            0,
            watched.len() - 1,
        ));
    }
}

/// Neither quorum is met by an empty watched set: an `All` timer with nothing to watch fires on
/// its backstop, not at once.
pub proof fn law_quorum_needs_a_watched_process(mode: IdleMode)
    ensures
        !spec_quorum_met(mode, Seq::<bool>::empty()),
{
}

/// The two halves of a timer's idle report never disagree: the `Any` quorum is met exactly when
/// fewer watched processes are still awaited than are watched, and the `All` quorum exactly when
/// something is watched and nothing is still awaited.
pub proof fn law_idle_report_agrees_with_itself(watched: Seq<ProcessId>, idle: Seq<bool>)
    requires
        watched.len() == idle.len(),
    ensures
        spec_quorum_met(IdleMode::Any, idle) == (not_idle(watched, idle).len() < watched.len()),
        spec_quorum_met(IdleMode::All, idle) == (watched.len() > 0 && not_idle(watched, idle).len()
            == 0),
{
    lemma_not_idle_len(watched, idle);
}

/// A plain timer's deadline is never before the moment it was set nor past the delay ceiling.
pub proof fn law_deadline_stays_within_the_ceiling(now: u64, after: Option<u64>)
    ensures
        now <= at_deadline(now, after) <= sat_add(now, MAX_TIMER_DELAY_MILLIS),
        after.is_none() ==> at_deadline(now, after) == now,
{
}

/// A fire-when-idle backstop is never before the moment it was set nor past its ceiling.
pub proof fn law_backstop_stays_within_the_ceiling(now: u64, max_wait: Option<u64>)
    ensures
        now <= idle_deadline(now, max_wait) <= sat_add(now, MAX_IDLE_MAX_WAIT_MILLIS),
{
}

/// Pausing an armed timer and later resuming it re-arms it with the time that remained at the
/// pause — measured from the resume, not from the original deadline — and changes nothing else.
pub proof fn law_pause_then_resume_keeps_the_time_left(row: TimerRow, paused: u64, resumed: u64)
    requires
        row.status == TimerStatus::Armed,
        row.remaining is None,
    ensures
        resumed_at(paused_at(row, paused), resumed) == (TimerRow {
            deadline: sat_add(
                resumed,
                if row.deadline > paused {
                    (row.deadline - paused) as u64
                } else {
                    0
                },
            ),
            ..row
        }),
{
}

/// A timer that is claimed to fire or cancelled is gone: its id no longer names any timer, so
/// firing is one-shot.
pub proof fn law_a_removed_timer_is_gone(rows: Seq<TimerRow>, id: TimerId)
    requires
        timer_rows_wf(rows),
        timer_find(rows, id) >= 0,
    ensures
        timer_find(rows.remove(timer_find(rows, id)), id) < 0,
{
    let i = timer_find(rows, id);
    lemma_find(rows, id);
    let s = rows.remove(i);
    lemma_find(s, id);
    if timer_find(s, id) >= 0 {
        let k = timer_find(s, id);
        if k < i {
            assert(s[k] == rows[k]);
        } else {
            assert(s[k] == rows[k + 1]);
        }
    }
}

proof fn lemma_find(rows: Seq<TimerRow>, id: TimerId)
    ensures
        -1 <= timer_find(rows, id) < rows.len(),
        timer_find(rows, id) >= 0 ==> rows[timer_find(rows, id)].id == id,
        timer_find(rows, id) < 0 ==> forall|j: int| 0 <= j < rows.len() ==> rows[j].id != id,
    decreases rows.len(),
{
    if rows.len() > 0 && rows.last().id != id {
        lemma_find(rows.drop_last(), id);
        if timer_find(rows, id) < 0 {
            assert forall|j: int| 0 <= j < rows.len() implies rows[j].id != id by {
                if j < rows.len() - 1 {
                    assert(rows.drop_last()[j] == rows[j]);
                }
            }
        }
    }
}

proof fn lemma_rows_where_from(rows: Seq<TimerRow>, keep: spec_fn(TimerRow) -> bool, r: TimerRow)
    requires
        rows_where(rows, keep).contains(r),
    ensures
        rows.contains(r),
        keep(r),
    decreases rows.len(),
{
    if rows.len() > 0 {
        let rest = rows_where(rows.drop_last(), keep);
        if rest.contains(r) {
            lemma_rows_where_from(rows.drop_last(), keep, r);
            let w = choose|w: int| 0 <= w < rows.drop_last().len() && rows.drop_last()[w] == r;
            assert(rows[w] == r);
        } else {
            let k = choose|k: int|
                0 <= k < rows_where(rows, keep).len() && rows_where(rows, keep)[k] == r;
            assert(keep(rows.last()));
            assert(k == rest.len());
            assert(rows[rows.len() - 1] == r);
        }
    }
}

/// Once a timer is paused the scheduler's armed set no longer holds it, so it cannot fire until
/// resumed.
pub proof fn law_a_paused_timer_is_out_of_reach(rows: Seq<TimerRow>, i: int, now: u64)
    requires
        timer_rows_wf(rows),
        0 <= i < rows.len(),
    ensures
        forall|j: int|
            0 <= j < armed_rows(rows.update(i, paused_at(rows[i], now))).len() ==> (#[trigger] armed_rows(
                rows.update(i, paused_at(rows[i], now)),
            )[j]).id != rows[i].id,
{
    let s = rows.update(i, paused_at(rows[i], now));
    let keep = |r: TimerRow| r.status == TimerStatus::Armed;
    assert forall|j: int| 0 <= j < armed_rows(s).len() implies (#[trigger] armed_rows(s)[j]).id
        != rows[i].id by {
        let r = armed_rows(s)[j];
        assert(rows_where(s, keep).contains(r));
        lemma_rows_where_from(s, keep, r);
        let w = choose|w: int| 0 <= w < s.len() && s[w] == r;
        if w != i {
            assert(s[w] == rows[w]);
            if w < i {
                assert(rows[w].id.0 < rows[i].id.0);
            } else {
                assert(rows[i].id.0 < rows[w].id.0);
            }
        }
    }
}

/// Releasing an owner strands none of its timers: what remains holds nothing of that owner.
pub proof fn law_a_closed_owner_keeps_no_timer(rows: Seq<TimerRow>, owner: ProcessId)
    ensures
        with_owner(without_owner(rows, owner), owner).len() == 0,
{
    let rest = without_owner(rows, owner);
    let others = |r: TimerRow| r.owner != owner;
    if with_owner(rest, owner).len() > 0 {
        let mine = |r: TimerRow| r.owner == owner;
        let r = with_owner(rest, owner)[0];
        assert(rows_where(rest, mine).contains(r));
        lemma_rows_where_from(rest, mine, r);
        let k = choose|k: int| 0 <= k < rest.len() && rest[k] == r;
        assert(rows_where(rows, others).contains(r));
        lemma_rows_where_from(rows, others, r);
    }
}

/// Pausing the owner's armed timer at `paused` and resuming it at `resumed` goes through both
/// steps — the pause leaves the timer paused under the same id and owner, so the resume applies —
/// and re-arms it with the time that remained at the pause, measured from the resume, every other
/// timer untouched.
pub proof fn law_resume_rearms_a_paused_timer_with_the_time_left(
    rows: Seq<TimerRow>,
    id: TimerId,
    paused: u64,
    resumed: u64,
)
    requires
        timer_rows_wf(rows),
        timer_find(rows, id) >= 0,
        rows[timer_find(rows, id)].status == TimerStatus::Armed,
        rows[timer_find(rows, id)].remaining is None,
    ensures
        ({
            let i = timer_find(rows, id);
            let mid = rows.update(i, paused_at(rows[i], paused));
            &&& timer_find(mid, id) == i
            &&& mid[i].owner == rows[i].owner
            &&& mid[i].status == TimerStatus::Paused
            &&& mid.update(i, resumed_at(mid[i], resumed)) == rows.update(
                i,
                TimerRow {
                    deadline: sat_add(
                        resumed,
                        if rows[i].deadline > paused {
                            (rows[i].deadline - paused) as u64
                        } else {
                            0
                        },
                    ),
                    ..rows[i]
                },
            )
        }),
{
    let i = timer_find(rows, id);
    lemma_find(rows, id);
    let mid = rows.update(i, paused_at(rows[i], paused));
    lemma_find_unique(mid, id, i);
    assert(mid.update(i, resumed_at(mid[i], resumed)) =~= rows.update(
        i,
        TimerRow {
            deadline: sat_add(
                resumed,
                if rows[i].deadline > paused {
                    (rows[i].deadline - paused) as u64
                } else {
                    0
                },
            ),
            ..rows[i]
        },
    ));
}

proof fn lemma_find_unique(rows: Seq<TimerRow>, id: TimerId, k: int)
    requires
        forall|a: int, b: int| 0 <= a < b < rows.len() ==> rows[a].id.0 < rows[b].id.0,
        0 <= k < rows.len(),
        rows[k].id == id,
    ensures
        timer_find(rows, id) == k,
    decreases rows.len(),
{
    if k < rows.len() - 1 {
        assert(rows.last().id.0 > rows[k].id.0);
        assert(rows.drop_last()[k] == rows[k]);
        lemma_find_unique(rows.drop_last(), id, k);
    }
}


/// A pause or a resume that applies touches the owner's timer alone: the store keeps every other
/// timer as it was, the timer keeps its id and owner, and it is the owner's timer that is paused or
/// re-armed. One that does not apply, or fails, changes nothing.
pub proof fn law_a_pause_or_resume_touches_only_the_owners_timer(
    before: Seq<TimerRow>,
    after: Seq<TimerRow>,
    id: TimerId,
    owner: ProcessId,
    now: u64,
    resuming: bool,
    r: Result<bool, StoreError>,
)
    requires
        timer_rows_wf(before),
        if resuming {
            resume_change(before, after, id, owner, now, r)
        } else {
            pause_change(before, after, id, owner, now, r)
        },
    ensures
        r != Ok::<bool, StoreError>(true) ==> after == before,
        r == Ok::<bool, StoreError>(true) ==> {
            let i = timer_find(before, id);
            &&& 0 <= i < before.len()
            &&& before[i].id == id
            &&& before[i].owner == owner
            &&& after.len() == before.len()
            &&& forall|j: int| 0 <= j < before.len() && j != i ==> after[j] == before[j]
            &&& after[i] == if resuming {
                resumed_at(before[i], now)
            } else {
                paused_at(before[i], now)
            }
            &&& after[i].id == id && after[i].owner == owner
            &&& after[i].status == if resuming {
                TimerStatus::Armed
            } else {
                TimerStatus::Paused
            }
        },
{
    lemma_find(before, id);
}

/// Pausing a timer and then resuming it: only its owner can resume it (anyone else is answered
/// `false` and changes nothing), and the owner's resume re-arms it with the time that remained at
/// the pause, measured from the resume rather than from the original deadline, every other timer
/// untouched.
pub proof fn law_a_paused_timer_resumes_only_for_its_owner_with_the_time_left(
    rows: Seq<TimerRow>,
    paused_rows: Seq<TimerRow>,
    resumed_rows: Seq<TimerRow>,
    id: TimerId,
    owner: ProcessId,
    who: ProcessId,
    paused: u64,
    resumed: u64,
    r: Result<bool, StoreError>,
)
    requires
        timer_rows_wf(rows),
        pause_change(rows, paused_rows, id, owner, paused, Ok(true)),
        resume_change(paused_rows, resumed_rows, id, who, resumed, r),
        r is Ok,
    ensures
        who != owner ==> r == Ok::<bool, StoreError>(false) && resumed_rows == paused_rows,
        who == owner ==> r == Ok::<bool, StoreError>(true) && resumed_rows == rows.update(
            timer_find(rows, id),
            TimerRow {
                deadline: sat_add(
                    resumed,
                    if rows[timer_find(rows, id)].deadline > paused {
                        (rows[timer_find(rows, id)].deadline - paused) as u64
                    } else {
                        0
                    },
                ),
                ..rows[timer_find(rows, id)]
            },
        ),
{
    let i = timer_find(rows, id);
    lemma_find(rows, id);
    lemma_find_unique(paused_rows, id, i);
    if who == owner {
        assert(resumed_rows =~= rows.update(
            i,
            TimerRow {
                deadline: sat_add(
                    resumed,
                    if rows[i].deadline > paused {
                        (rows[i].deadline - paused) as u64
                    } else {
                        0
                    },
                ),
                ..rows[i]
            },
        ));
    }
}

} // verus!
