//! A timer store held in memory: the whole [`TimerRepo`] contract, proved, over a vector of rows.

use vstd::prelude::*;

use super::{
    armed_row, rows_where, stored_timer_views, timer_find, timer_rows_wf, NewTimer, StoredTimer,
    TimerRepo, TimerRow,
};
use crate::ids::{ProcessId, ProjectId, TimerId};
use crate::text::owned;
use crate::timer::TimerStatus;
use crate::todo_repo::StoreError;

verus! {

/// A [`TimerRepo`] kept in memory for the life of the value: ids start at 1 and are never reused.
pub struct MemTimerRepo {
    rows: Vec<StoredTimer>,
    next_id: u64,
}

/// Which rows a read selects.
enum Pick {
    Owner(ProcessId),
    Project(ProjectId),
    Armed,
}

spec fn picks(p: Pick, r: TimerRow) -> bool {
    match p {
        Pick::Owner(o) => r.owner == o,
        Pick::Project(j) => r.project == j,
        Pick::Armed => r.status == TimerStatus::Armed,
    }
}

proof fn lemma_timer_find(rows: Seq<TimerRow>, id: TimerId)
    ensures
        -1 <= timer_find(rows, id) < rows.len(),
        timer_find(rows, id) >= 0 ==> rows[timer_find(rows, id)].id == id,
        timer_find(rows, id) < 0 ==> forall|j: int| 0 <= j < rows.len() ==> rows[j].id != id,
    decreases rows.len(),
{
    if rows.len() > 0 && rows.last().id != id {
        lemma_timer_find(rows.drop_last(), id);
        if timer_find(rows, id) < 0 {
            assert forall|j: int| 0 <= j < rows.len() implies rows[j].id != id by {
                if j < rows.len() - 1 {
                    assert(rows.drop_last()[j] == rows[j]);
                }
            }
        }
    }
}

proof fn lemma_rows_where_step(rows: Seq<TimerRow>, k: int, keep: spec_fn(TimerRow) -> bool)
    requires
        0 <= k < rows.len(),
    ensures
        rows_where(rows.take(k + 1), keep) == if keep(rows[k]) {
            rows_where(rows.take(k), keep).push(rows[k])
        } else {
            rows_where(rows.take(k), keep)
        },
{
    assert(rows.take(k + 1).drop_last() == rows.take(k));
    assert(rows.take(k + 1).last() == rows[k]);
}

/// A store failure with `message`.
fn backend(message: &str) -> (e: StoreError)
    ensures
        e matches StoreError::Backend(m) && m@ == message@,
{
    StoreError::Backend(owned(message))
}

impl MemTimerRepo {
    /// An empty store.
    pub fn new() -> (r: Self)
        ensures
            r.wf(),
            r.rows() == Seq::<TimerRow>::empty(),
            r.ids_left() == u64::MAX - 1,
    {
        let r = MemTimerRepo { rows: Vec::new(), next_id: 1 };
        assert(stored_timer_views(r.rows@) =~= Seq::<TimerRow>::empty());
        r
    }

    /// The position of the timer `id`.
    fn position(&self, id: TimerId) -> (r: Option<usize>)
        requires
            self.wf(),
        ensures
            match r {
                Some(i) => i as int == timer_find(self.rows(), id) && i < self.rows@.len(),
                None => timer_find(self.rows(), id) < 0,
            },
    {
        let ghost rows = self.rows();
        let mut i = self.rows.len();
        proof {
            assert(rows.take(i as int) == rows);
        }
        while i > 0
            invariant
                rows == self.rows(),
                rows.len() == self.rows@.len(),
                i <= rows.len(),
                timer_find(rows, id) == timer_find(rows.take(i as int), id),
            decreases i,
        {
            assert(rows.take(i as int).drop_last() == rows.take(i - 1));
            assert(rows.take(i as int).last() == self.rows@[i - 1]@);
            if self.rows[i - 1].id == id {
                return Some(i - 1);
            }
            i -= 1;
        }
        None
    }

    /// Copies of the rows `pick` selects, in order.
    fn picked(&self, pick: Pick) -> (v: Vec<StoredTimer>)
        ensures
            stored_timer_views(v@) == rows_where(self.rows(), |r: TimerRow| picks(pick, r)),
    {
        let ghost rows = self.rows();
        let ghost keep = |r: TimerRow| picks(pick, r);
        let mut out: Vec<StoredTimer> = Vec::new();
        let mut k: usize = 0;
        assert(stored_timer_views(out@) =~= Seq::<TimerRow>::empty());
        while k < self.rows.len()
            invariant
                rows == self.rows(),
                k <= self.rows@.len(),
                keep == (|r: TimerRow| picks(pick, r)),
                stored_timer_views(out@) == rows_where(rows.take(k as int), keep),
            decreases self.rows@.len() - k,
        {
            proof {
                lemma_rows_where_step(rows, k as int, keep);
            }
            let row = &self.rows[k];
            let take = match pick {
                Pick::Owner(o) => row.owner == o,
                Pick::Project(j) => row.project == j,
                Pick::Armed => match row.status {
                    TimerStatus::Armed => true,
                    TimerStatus::Paused => false,
                },
            };
            if take {
                out.push(row.duplicate());
                assert(stored_timer_views(out@) =~= rows_where(rows.take(k as int), keep).push(
                    rows[k as int],
                ));
            }
            k += 1;
        }
        assert(rows.take(self.rows@.len() as int) == rows);
        out
    }

    /// Removes and returns row `i`.
    fn remove_at(&mut self, i: usize) -> (t: StoredTimer)
        requires
            old(self).wf(),
            i < old(self).rows@.len(),
        ensures
            final(self).wf(),
            final(self).rows() == old(self).rows().remove(i as int),
            t@ == old(self).rows()[i as int],

            final(self).next_id == old(self).next_id,
    {
        let ghost rows = self.rows();
        let t = self.rows.remove(i);
        assert(self.rows() =~= rows.remove(i as int));
        assert forall|a: int, b: int| 0 <= a < b < self.rows().len() implies self.rows()[a].id.0
            < self.rows()[b].id.0 by {
            if a >= i {
                assert(self.rows()[a] == rows[a + 1]);
            } else {
                assert(self.rows()[a] == rows[a]);
            }
            if b >= i {
                assert(self.rows()[b] == rows[b + 1]);
            } else {
                assert(self.rows()[b] == rows[b]);
            }
        }
        assert forall|a: int| 0 <= a < self.rows().len() implies (#[trigger] self.rows()[a].status
            == TimerStatus::Paused) == self.rows()[a].remaining is Some by {
            if a >= i {
                assert(self.rows()[a] == rows[a + 1]);
            } else {
                assert(self.rows()[a] == rows[a]);
            }
        }
        assert forall|a: int| 0 <= a < self.rows@.len() implies self.rows@[a].id.0
            < self.next_id by {
            if a >= i {
                assert(self.rows@[a] == old(self).rows@[a + 1]);
            }
        }
        t
    }

    /// Replaces row `i` with `row`, which keeps its id and holds a remainder exactly when paused.
    fn set_row(&mut self, i: usize, row: StoredTimer)
        requires
            old(self).wf(),
            i < old(self).rows@.len(),
            row.id == old(self).rows()[i as int].id,
            (row.status == TimerStatus::Paused) == row.remaining_on_pause_millis is Some,
        ensures
            final(self).wf(),
            final(self).rows() == old(self).rows().update(i as int, row@),

            final(self).next_id == old(self).next_id,
    {
        let ghost rows = self.rows();
        let ghost r = row@;
        self.rows.set(i, row);
        assert(self.rows() =~= rows.update(i as int, r));
        assert forall|a: int, b: int| 0 <= a < b < self.rows().len() implies self.rows()[a].id.0
            < self.rows()[b].id.0 by {
            assert(rows[a].id.0 < rows[b].id.0);
        }
    }
}

impl TimerRepo for MemTimerRepo {
    closed spec fn rows(&self) -> Seq<TimerRow> {
        stored_timer_views(self.rows@)
    }

    open spec fn durable(&self) -> bool {
        true
    }

    closed spec fn wf(&self) -> bool {
        &&& timer_rows_wf(self.rows())
        &&& forall|i: int| 0 <= i < self.rows@.len() ==> self.rows@[i].id.0 < self.next_id
    }

    open spec fn infallible(&self) -> bool {
        true
    }

    closed spec fn ids_left(&self) -> nat {
        (u64::MAX - self.next_id) as nat
    }

    proof fn lemma_wf(&self) {
    }

    fn create(&mut self, timer: &NewTimer) -> (r: Result<TimerId, StoreError>) {
        if self.next_id == u64::MAX {
            return Err(backend("timer ids are exhausted"));
        }
        let id = TimerId(self.next_id);
        let t = StoredTimer {
            id,
            project: timer.project,
            owner: timer.owner,
            body: timer.body.clone(),
            fire: timer.fire.duplicate(),
            deadline_unix_millis: timer.deadline_unix_millis,
            status: TimerStatus::Armed,
            remaining_on_pause_millis: None,
        };
        assert(t@ == armed_row(id, *timer));
        self.rows.push(t);
        self.next_id = self.next_id + 1;
        assert(self.rows() =~= old(self).rows().push(armed_row(id, *timer)));
        Ok(id)
    }

    fn armed(&self) -> (r: Result<Vec<StoredTimer>, StoreError>) {
        let v = self.picked(Pick::Armed);
        assert((|r: TimerRow| picks(Pick::Armed, r)) =~= (|r: TimerRow| r.status
            == TimerStatus::Armed));
        Ok(v)
    }

    fn take_if_armed(&mut self, id: TimerId) -> (r: Result<Option<StoredTimer>, StoreError>) {
        match self.position(id) {
            Some(i) => match self.rows[i].status {
                TimerStatus::Armed => Ok(Some(self.remove_at(i))),
                TimerStatus::Paused => Ok(None),
            },
            None => Ok(None),
        }
    }

    fn cancel(&mut self, id: TimerId, owner: ProcessId) -> (r: Result<bool, StoreError>) {
        match self.position(id) {
            Some(i) => {
                if self.rows[i].owner == owner {
                    let _ = self.remove_at(i);
                    Ok(true)
                } else {
                    Ok(false)
                }
            },
            None => Ok(false),
        }
    }

    fn pause(&mut self, id: TimerId, owner: ProcessId, now: u64) -> (r: Result<bool, StoreError>) {
        let i = match self.position(id) {
            Some(i) => i,
            None => {
                return Ok(false);
            },
        };
        if self.rows[i].owner != owner {
            return Ok(false);
        }
        match self.rows[i].status {
            TimerStatus::Paused => Ok(false),
            TimerStatus::Armed => {
                let mut row = self.rows[i].duplicate();
                let deadline = row.deadline_unix_millis;
                row.status = TimerStatus::Paused;
                row.remaining_on_pause_millis = Some(
                    if deadline > now {
                        deadline - now
                    } else {
                        0
                    },
                );
                self.set_row(i, row);
                Ok(true)
            },
        }
    }

    fn resume(&mut self, id: TimerId, owner: ProcessId, now: u64) -> (r: Result<bool, StoreError>) {
        let i = match self.position(id) {
            Some(i) => i,
            None => {
                return Ok(false);
            },
        };
        if self.rows[i].owner != owner {
            return Ok(false);
        }
        match self.rows[i].status {
            TimerStatus::Armed => Ok(false),
            TimerStatus::Paused => {
                let mut row = self.rows[i].duplicate();
                let remaining = match row.remaining_on_pause_millis {
                    Some(r) => r,
                    None => 0,
                };
                row.status = TimerStatus::Armed;
                row.deadline_unix_millis = now.saturating_add(remaining);
                row.remaining_on_pause_millis = None;
                self.set_row(i, row);
                Ok(true)
            },
        }
    }

    fn list_in_project(&self, project: ProjectId) -> (r: Result<Vec<StoredTimer>, StoreError>) {
        let v = self.picked(Pick::Project(project));
        assert((|r: TimerRow| picks(Pick::Project(project), r)) =~= (|r: TimerRow| r.project
            == project));
        Ok(v)
    }

    fn list(&self, owner: ProcessId) -> (r: Result<Vec<StoredTimer>, StoreError>) {
        let v = self.picked(Pick::Owner(owner));
        assert((|r: TimerRow| picks(Pick::Owner(owner), r)) =~= (|r: TimerRow| r.owner == owner));
        Ok(v)
    }

    fn release_owner(&mut self, owner: ProcessId) -> (r: Result<usize, StoreError>) {
        let ghost rows = self.rows();
        let ghost mine = |r: TimerRow| r.owner == owner;
        let ghost others = |r: TimerRow| r.owner != owner;
        let mut kept: Vec<StoredTimer> = Vec::new();
        let mut count: usize = 0;
        let mut k: usize = 0;
        assert(stored_timer_views(kept@) =~= Seq::<TimerRow>::empty());
        while k < self.rows.len()
            invariant
                rows == self.rows(),
                self.wf(),
                k <= self.rows@.len(),
                mine == (|r: TimerRow| r.owner == owner),
                others == (|r: TimerRow| r.owner != owner),
                count == rows_where(rows.take(k as int), mine).len(),
                count <= k,
                stored_timer_views(kept@) == rows_where(rows.take(k as int), others),
                forall|j: int| 0 <= j < kept@.len() ==> kept@[j].id.0 < self.next_id,
            decreases self.rows@.len() - k,
        {
            proof {
                lemma_rows_where_step(rows, k as int, mine);
                lemma_rows_where_step(rows, k as int, others);
            }
            if self.rows[k].owner == owner {
                count = count + 1;
            } else {
                kept.push(self.rows[k].duplicate());
                assert(stored_timer_views(kept@) =~= rows_where(rows.take(k as int), others).push(
                    rows[k as int],
                ));
            }
            k += 1;
        }
        assert(rows.take(self.rows@.len() as int) == rows);
        proof {
            lemma_rows_where_sub(rows, others);
        }
        self.rows = kept;
        Ok(count)
    }

    fn clear(&mut self) -> (r: Result<usize, StoreError>) {
        let n = self.rows.len();
        self.rows = Vec::new();
        assert(self.rows() =~= Seq::<TimerRow>::empty());
        Ok(n)
    }
}

/// What `rows_where` keeps of a consistent list is consistent.
proof fn lemma_rows_where_sub(rows: Seq<TimerRow>, keep: spec_fn(TimerRow) -> bool)
    requires
        timer_rows_wf(rows),
    ensures
        timer_rows_wf(rows_where(rows, keep)),
        forall|j: int|
            0 <= j < rows_where(rows, keep).len() ==> #[trigger] rows.contains(
                rows_where(rows, keep)[j],
            ),
    decreases rows.len(),
{
    if rows.len() > 0 {
        let init = rows.drop_last();
        assert(timer_rows_wf(init)) by {
            assert forall|i: int| 0 <= i < init.len() implies (#[trigger] init[i].status
                == TimerStatus::Paused) == init[i].remaining is Some by {
                assert(init[i] == rows[i]);
            }
        }
        lemma_rows_where_sub(init, keep);
        let rest = rows_where(init, keep);
        assert forall|j: int| 0 <= j < rest.len() implies #[trigger] rows.contains(rest[j]) by {
            assert(init.contains(rest[j]));
            let w = choose|w: int| 0 <= w < init.len() && init[w] == rest[j];
            assert(rows[w] == rest[j]);
        }
        if keep(rows.last()) {
            let s = rest.push(rows.last());
            assert forall|a: int, b: int| 0 <= a < b < s.len() implies s[a].id.0 < s[b].id.0 by {
                if b == s.len() - 1 {
                    assert(init.contains(rest[a]));
                    let w = choose|w: int| 0 <= w < init.len() && init[w] == rest[a];
                    assert(rows[w] == rest[a]);
                } else {
                    assert(s[a] == rest[a] && s[b] == rest[b]);
                }
            }
            assert forall|j: int| 0 <= j < s.len() implies #[trigger] rows.contains(s[j]) by {
                if j == s.len() - 1 {
                    assert(rows[rows.len() - 1] == s[j]);
                } else {
                    assert(s[j] == rest[j]);
                }
            }
        }
    }
}

} // verus!
