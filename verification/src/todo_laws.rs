//! What holds of the todo store across operations: a created todo reads back; a read reports
//! exactly the open blockers and a listing is the project in creation order; the blocker barrier
//! opens exactly when every blocker is done or gone, and a deleted todo blocks nothing; a tag is
//! added once; locks are signals that only their owner releases; reconciliation keeps every todo;
//! a completion is recorded once, a repeated report answers the same record, its notice is marked
//! once, and its result comment is protected; comment ids are never reused within a todo.

use vstd::prelude::*;

use crate::ids::{ProcessId, ProjectId, TodoId};
use crate::todo::{row_change, summary_of, view_of, view_of_opt, TodoView, ViewV};
use crate::todo_comment::{comment_change, is_result_comment, AuthorV, CommentOutcome, CommentV};
use crate::todo_completion::{
    completed_by, completion_change, fresh_record, notice_change, CompletionV, TodoCompletionKey,
    TodoCompletionNotice, TodoCompletionNoticeOutcome, TodoCompletionOccurrence,
    TodoCompletionOutcome,
};
use crate::todo_doc::TodoStatus;
use crate::todo::TodoError;
use crate::todo_repo::{
    StoreError, add_once, find, in_project, index_of, locked_for, lookup, max_comment_id, next_comment_id, open_blocker, released,
    remove_all, replaced, rows_wf, unlocked, unlocked_for, unmet, RowV,
};

verus! {

proof fn lemma_index_of_unique(rows: Seq<RowV>, id: TodoId, k: int)
    requires
        rows_wf(rows),
        0 <= k < rows.len(),
        rows[k].id == id,
    ensures
        index_of(rows, id) == k,
    decreases rows.len(),
{
    if k < rows.len() - 1 {
        assert(rows.last().id.0 > rows[k].id.0);
        assert(rows.drop_last()[k] == rows[k]);
        lemma_index_of_unique(rows.drop_last(), id, k);
    }
}

/// A todo appended with an id past every id in the store reads back exactly as written, under its
/// project and id.
pub proof fn law_created_todo_reads_back(rows: Seq<RowV>, row: RowV)
    requires
        rows_wf(rows),
        forall|i: int| 0 <= i < rows.len() ==> rows[i].id.0 < row.id.0,
    ensures
        rows_wf(rows.push(row)),
        lookup(rows.push(row), row.project, row.id) == Some(row),
{
    let after = rows.push(row);
    assert forall|i: int, j: int| 0 <= i < j < after.len() implies after[i].id.0 < after[j].id.0 by {
        if j < rows.len() {
            assert(after[i] == rows[i] && after[j] == rows[j]);
        } else {
            assert(after[i] == rows[i]);
        }
    }
    assert(after.last() == row);
    assert(index_of(after, row.id) == rows.len());
}

/// A rewrite of one row that keeps its id leaves the store in creation order, and the rewritten
/// row reads back under its (possibly new) project.
pub proof fn law_rewritten_todo_reads_back(rows: Seq<RowV>, i: int, changed: RowV)
    requires
        rows_wf(rows),
        0 <= i < rows.len(),
        changed.id == rows[i].id,
    ensures
        rows_wf(replaced(rows, i, changed)),
        lookup(replaced(rows, i, changed), changed.project, changed.id) == Some(changed),
        find(replaced(rows, i, changed), changed.project, changed.id) == i,
{
    let after = replaced(rows, i, changed);
    assert forall|a: int, b: int| 0 <= a < b < after.len() implies after[a].id.0 < after[b].id.0 by {
        assert(rows[a].id.0 < rows[b].id.0);
    }
    lemma_index_of_unique(after, changed.id, i);
}

/// The blocker barrier opens exactly when no blocker is open: every todo it names is done or no
/// longer exists in the project — so a deleted blocker never deadlocks a todo.
pub proof fn law_barrier_is_open_when_every_blocker_is_done_or_gone(
    rows: Seq<RowV>,
    project: ProjectId,
    blockers: Seq<TodoId>,
)
    ensures
        unmet(rows, project, blockers).len() == 0 <==> forall|j: int|
            0 <= j < blockers.len() ==> !open_blocker(rows, project, #[trigger] blockers[j]),
        forall|j: int|
            0 <= j < blockers.len() && lookup(rows, project, #[trigger] blockers[j]) is None
                ==> !unmet(rows, project, blockers).contains(blockers[j]),
    decreases blockers.len(),
{
    if blockers.len() > 0 {
        let init = blockers.drop_last();
        law_barrier_is_open_when_every_blocker_is_done_or_gone(rows, project, init);
        assert forall|j: int| 0 <= j < init.len() implies init[j] == blockers[j] by {}
        lemma_unmet_members(rows, project, blockers);
    }
}

proof fn lemma_unmet_members(rows: Seq<RowV>, project: ProjectId, blockers: Seq<TodoId>)
    ensures
        forall|b: TodoId| unmet(rows, project, blockers).contains(b) ==> open_blocker(rows, project, b),
    decreases blockers.len(),
{
    if blockers.len() > 0 {
        let init = blockers.drop_last();
        lemma_unmet_members(rows, project, init);
        let rest = unmet(rows, project, init);
        if open_blocker(rows, project, blockers.last()) {
            assert forall|b: TodoId| rest.push(blockers.last()).contains(b) implies open_blocker(
                rows,
                project,
                b,
            ) by {
                let q = choose|q: int| 0 <= q < rest.push(blockers.last()).len() && rest.push(
                    blockers.last(),
                )[q] == b;
                if q < rest.len() {
                    assert(rest[q] == b);
                }
            }
        }
    }
}

/// A lock is a signal, not ownership: locking a todo another process holds leaves that holder, and
/// otherwise the lock is the caller's.
pub proof fn law_lock_is_a_signal(r: RowV, owner: ProcessId)
    ensures
        r.locked_by matches Some(holder) && holder != owner ==> locked_for(r, owner) == r,
        (r.locked_by is None || r.locked_by == Some(owner)) ==> locked_for(r, owner).locked_by
            == Some(owner),
        unlocked_for(locked_for(r, owner), owner).locked_by == if r.locked_by matches Some(holder)
            && holder != owner {
            r.locked_by
        } else {
            None
        },
{
}

/// Releasing a closing process's locks frees exactly the todos it held: every other lock, and
/// every todo, is kept as it was.
pub proof fn law_release_frees_only_the_owner(rows: Seq<RowV>, process: ProcessId)
    ensures
        released(rows, process).len() == rows.len(),
        forall|i: int|
            0 <= i < rows.len() ==> (#[trigger] released(rows, process)[i]) == (if rows[i].locked_by
                == Some(process) {
                RowV { locked_by: None, ..rows[i] }
            } else {
                rows[i]
            }),
{
}

/// Reconciliation clears every lock but keeps every todo: the same todos, in the same order, with
/// everything but the lock unchanged.
pub proof fn law_reconcile_keeps_every_todo(rows: Seq<RowV>)
    ensures
        unlocked(rows).len() == rows.len(),
        forall|i: int|
            0 <= i < rows.len() ==> (#[trigger] unlocked(rows)[i]) == (RowV {
                locked_by: None,
                ..rows[i]
            }),
{
}

proof fn lemma_max_comment_id(cs: Seq<CommentV>)
    ensures
        max_comment_id(cs) >= 0,
        forall|j: int| 0 <= j < cs.len() ==> (#[trigger] cs[j]).id <= max_comment_id(cs),
    decreases cs.len(),
{
    if cs.len() > 0 {
        lemma_max_comment_id(cs.drop_last());
        assert forall|j: int| 0 <= j < cs.len() implies (#[trigger] cs[j]).id <= max_comment_id(
            cs,
        ) by {
            if j < cs.len() - 1 {
                assert(cs.drop_last()[j] == cs[j]);
            }
        }
    }
}

/// A new comment's id is past every comment id the todo has, so it never names an existing
/// comment.
pub proof fn law_new_comment_id_is_fresh(cs: Seq<CommentV>)
    ensures
        next_comment_id(cs) >= 1,
        forall|j: int| 0 <= j < cs.len() ==> (#[trigger] cs[j]).id < next_comment_id(cs),
{
    lemma_max_comment_id(cs);
}

/// A recorded completion is recorded once: after a todo is completed by `key`, it is done, carries
/// exactly one more comment — the result, under a fresh id — and holds the record for `key`, so a
/// retry with `key` finds the record and any other key is refused.
pub proof fn law_completion_is_recorded_once(
    rows: Seq<RowV>,
    project: ProjectId,
    id: TodoId,
    key: TodoCompletionKey,
    summary: Seq<char>,
    author: AuthorV,
)
    requires
        rows_wf(rows),
        find(rows, project, id) >= 0,
    ensures
        ({
            let i = find(rows, project, id);
            let row = rows[i];
            let after = replaced(rows, i, completed_by(row, id, key, summary, author));
            &&& find(after, project, id) == i
            &&& after[i].doc.status == TodoStatus::Done
            &&& after[i].comments.len() == row.comments.len() + 1
            &&& after[i].comments.last().body == summary
            &&& forall|j: int|
                0 <= j < row.comments.len() ==> (#[trigger] row.comments[j]).id < next_comment_id(
                    row.comments,
                )
            &&& after[i].completion == Some(fresh_record(row, id, key, summary))
            &&& fresh_record(row, id, key, summary).key == key
        }),
{
    let i = find(rows, project, id);
    let row = rows[i];
    let changed = completed_by(row, id, key, summary, author);
    assert(index_of(rows, id) == i);
    crate::todo_repo::memory::lemma_index_of(rows, id);
    law_rewritten_todo_reads_back(rows, i, changed);
    law_new_comment_id_is_fresh(row.comments);
    let after = replaced(rows, i, changed);
    assert(after[i] == changed);
    assert(changed.comments.last() == crate::todo_completion::result_comment(row, summary, author));
}

proof fn lemma_in_project_from(rows: Seq<RowV>, project: ProjectId, k: int)
    requires
        0 <= k < in_project(rows, project).len(),
    ensures
        exists|w: int| 0 <= w < rows.len() && rows[w] == in_project(rows, project)[k],
        in_project(rows, project)[k].project == project,
    decreases rows.len(),
{
    let d = rows.drop_last();
    let rest = in_project(d, project);
    if k < rest.len() {
        lemma_in_project_from(d, project, k);
        let w = choose|w: int| 0 <= w < d.len() && d[w] == rest[k];
        assert(rows[w] == d[w]);
    } else {
        assert(rows[rows.len() - 1] == in_project(rows, project)[k]);
    }
}

/// Listing and reading agree: every todo a project lists reads back under its own id, and its
/// summary carries the same id, title, status, tags, blocked flag, lock holder and revision as the
/// full view a read of it gives.
pub proof fn law_list_agrees_with_get(rows: Seq<RowV>, project: ProjectId, k: int)
    requires
        rows_wf(rows),
        0 <= k < in_project(rows, project).len(),
    ensures
        ({
            let r = in_project(rows, project)[k];
            let s = summary_of(rows, r);
            let v = view_of(rows, r);
            &&& lookup(rows, project, r.id) == Some(r)
            &&& s.id == v.id && s.title == v.doc.title && s.status == v.doc.status
            &&& s.tags == v.tags && s.blocked == v.blocked && s.locked_by == v.locked_by
            &&& s.revision == v.revision
        }),
{
    lemma_in_project_from(rows, project, k);
    let r = in_project(rows, project)[k];
    let w = choose|w: int| 0 <= w < rows.len() && rows[w] == r;
    lemma_index_of_unique(rows, r.id, w);
}

proof fn lemma_unmet_empty(rows: Seq<RowV>, project: ProjectId, blockers: Seq<TodoId>)
    ensures
        (unmet(rows, project, blockers).len() > 0) == (exists|k: int|
            0 <= k < blockers.len() && open_blocker(rows, project, #[trigger] blockers[k])),
    decreases blockers.len(),
{
    if blockers.len() > 0 {
        let d = blockers.drop_last();
        lemma_unmet_empty(rows, project, d);
        if exists|k: int| 0 <= k < d.len() && open_blocker(rows, project, #[trigger] d[k]) {
            let k = choose|k: int| 0 <= k < d.len() && open_blocker(rows, project, #[trigger] d[k]);
            assert(blockers[k] == d[k]);
        }
        if exists|k: int| 0 <= k < blockers.len() && open_blocker(rows, project, #[trigger] blockers[k]) {
            let k = choose|k: int|
                0 <= k < blockers.len() && open_blocker(rows, project, #[trigger] blockers[k]);
            if k < d.len() {
                assert(d[k] == blockers[k]);
            }
        }
    }
}

/// A todo reads as blocked exactly when one of its blockers is still open — a todo of its
/// project that is not done — and its unmet list is exactly those open blockers.
pub proof fn law_a_todo_reads_blocked_exactly_while_a_blocker_is_open(rows: Seq<RowV>, r: RowV)
    ensures
        view_of(rows, r).blocked_by == unmet(rows, r.project, r.blockers),
        view_of(rows, r).blocked == exists|k: int|
            0 <= k < r.blockers.len() && open_blocker(rows, r.project, #[trigger] r.blockers[k]),
{
    lemma_unmet_empty(rows, r.project, r.blockers);
}

/// Adding a tag is idempotent: the tag is then present, and adding it again changes nothing.
pub proof fn law_add_tag_is_idempotent(tags: Seq<Seq<char>>, tag: Seq<char>)
    ensures
        add_once(tags, tag).contains(tag),
        add_once(add_once(tags, tag), tag) == add_once(tags, tag),
{
    if !tags.contains(tag) {
        assert(tags.push(tag)[tags.len() as int] == tag);
    }
}

/// The result comment of a recorded completion is protected: an edit or a delete of it (what
/// `comment_update` and `comment_delete` answer is `comment_change`) answers `CompletionProtected`
/// (or a store failure) and leaves every row as it was, so the todo stays done, its result comment
/// keeps its text, and the comment is still protected for the next attempt.
pub proof fn law_the_result_comment_is_protected(
    before: Seq<RowV>,
    after: Seq<RowV>,
    i: int,
    comment: u64,
    changed: RowV,
    r: Result<CommentOutcome, StoreError>,
)
    requires
        comment_change(before, after, i, comment, changed, r),
        0 <= i < before.len(),
        is_result_comment(before[i], comment),
    ensures
        after == before,
        r is Ok ==> r == Ok::<CommentOutcome, StoreError>(CommentOutcome::CompletionProtected),
        is_result_comment(after[i], comment),
        after[i].doc.status == before[i].doc.status,
        after[i].comments == before[i].comments,
{
}


proof fn lemma_unmet_contains(rows: Seq<RowV>, project: ProjectId, bs: Seq<TodoId>, b: TodoId)
    ensures
        unmet(rows, project, bs).contains(b) <==> (bs.contains(b) && open_blocker(rows, project, b)),
    decreases bs.len(),
{
    lemma_unmet_members(rows, project, bs);
    if bs.len() > 0 {
        let d = bs.drop_last();
        lemma_unmet_contains(rows, project, d, b);
        let rest = unmet(rows, project, d);
        if bs.contains(b) && open_blocker(rows, project, b) {
            let k = choose|k: int| 0 <= k < bs.len() && bs[k] == b;
            if k < d.len() {
                assert(d[k] == b);
                let q = choose|q: int| 0 <= q < rest.len() && rest[q] == b;
                if open_blocker(rows, project, bs.last()) {
                    assert(rest.push(bs.last())[q] == b);
                }
            } else {
                assert(bs.last() == b);
                assert(rest.push(b)[rest.len() as int] == b);
            }
        }
        if unmet(rows, project, bs).contains(b) && !(open_blocker(rows, project, bs.last())
            && bs.last() == b) {
            let q = choose|q: int|
                0 <= q < unmet(rows, project, bs).len() && unmet(rows, project, bs)[q] == b;
            if open_blocker(rows, project, bs.last()) {
                if q < rest.len() {
                    assert(rest[q] == b);
                }
            }
            assert(rest.contains(b));
            let k = choose|k: int| 0 <= k < d.len() && d[k] == b;
            assert(bs[k] == b);
        }
        if unmet(rows, project, bs).contains(b) && open_blocker(rows, project, bs.last())
            && bs.last() == b {
            assert(bs[bs.len() - 1] == b);
        }
    }
}

/// Reading a todo reports its blockers as stored, and as unmet exactly those that name a todo of
/// its project that is not done: a blocker that is done, or no longer exists, counts as met. The
/// todo reads as blocked exactly while that list is not empty, and an id with no todo in the
/// project reads as nothing.
pub proof fn law_a_read_reports_exactly_the_open_blockers(
    rows: Seq<RowV>,
    project: ProjectId,
    id: TodoId,
    o: Option<ViewV>,
)
    requires
        o == view_of_opt(rows, lookup(rows, project, id)),
    ensures
        lookup(rows, project, id) is None ==> o is None,
        lookup(rows, project, id) matches Some(row) ==> o matches Some(v) && {
            &&& v.id == id
            &&& v.blockers == row.blockers
            &&& forall|b: TodoId|
                #[trigger] v.blocked_by.contains(b) <==> (row.blockers.contains(b) && open_blocker(
                    rows,
                    project,
                    b,
                ))
            &&& forall|b: TodoId|
                open_blocker(rows, project, b) <==> (lookup(rows, project, b) matches Some(t)
                    && t.doc.status != TodoStatus::Done)
            &&& v.blocked == (v.blocked_by.len() > 0)
        },
{
    crate::todo_repo::memory::lemma_index_of(rows, id);
    if let Some(row) = lookup(rows, project, id) {
        assert forall|b: TodoId|
            #[trigger] view_of(rows, row).blocked_by.contains(b) <==> (row.blockers.contains(b)
                && open_blocker(rows, project, b)) by {
            lemma_unmet_contains(rows, project, row.blockers, b);
        }
    }
}

proof fn lemma_in_project_order(rows: Seq<RowV>, project: ProjectId)
    requires
        rows_wf(rows),
    ensures
        forall|k: int|
            0 <= k < in_project(rows, project).len() ==> (#[trigger] in_project(rows, project)[k]).project
                == project && rows.contains(in_project(rows, project)[k]),
        forall|a: int, b: int|
            0 <= a < b < in_project(rows, project).len() ==> in_project(rows, project)[a].id.0
                < in_project(rows, project)[b].id.0,
        forall|j: int|
            0 <= j < rows.len() && (#[trigger] rows[j]).project == project ==> in_project(
                rows,
                project,
            ).contains(rows[j]),
    decreases rows.len(),
{
    if rows.len() > 0 {
        let d = rows.drop_last();
        let l = rows.last();
        assert forall|a: int, b: int| 0 <= a < b < d.len() implies d[a].id.0 < d[b].id.0 by {
            assert(d[a] == rows[a] && d[b] == rows[b]);
        }
        lemma_in_project_order(d, project);
        let rest = in_project(d, project);
        let all = in_project(rows, project);
        assert forall|k: int| 0 <= k < all.len() implies (#[trigger] all[k]).project == project
            && rows.contains(all[k]) by {
            if k < rest.len() {
                assert(all[k] == rest[k]);
                let w = choose|w: int| 0 <= w < d.len() && d[w] == rest[k];
                assert(rows[w] == d[w]);
            } else {
                assert(all[k] == l);
                assert(rows[rows.len() - 1] == l);
            }
        }
        assert forall|a: int, b: int| 0 <= a < b < all.len() implies all[a].id.0 < all[b].id.0 by {
            if b < rest.len() {
                assert(all[a] == rest[a] && all[b] == rest[b]);
            } else {
                assert(all[a] == rest[a] && all[b] == l);
                let w = choose|w: int| 0 <= w < d.len() && d[w] == rest[a];
                assert(rows[w] == d[w]);
                assert(rows[w].id.0 < rows[rows.len() - 1].id.0);
            }
        }
        assert forall|j: int| 0 <= j < rows.len() && (#[trigger] rows[j]).project == project implies all.contains(
            rows[j],
        ) by {
            if j < d.len() {
                assert(d[j] == rows[j]);
                assert(rest.contains(d[j]));
                let q = choose|q: int| 0 <= q < rest.len() && rest[q] == d[j];
                assert(all[q] == rest[q]);
            } else {
                assert(all[rest.len() as int] == l);
            }
        }
    }
}

/// Listing a project gives each of its todos once, in creation (id) order, and nothing of another
/// project; every todo listed reads back under its own id (and its summary agrees with that read,
/// see [`law_list_agrees_with_get`]).
pub proof fn law_a_listing_is_the_project_in_creation_order(rows: Seq<RowV>, project: ProjectId)
    requires
        rows_wf(rows),
    ensures
        forall|k: int|
            0 <= k < in_project(rows, project).len() ==> (#[trigger] in_project(rows, project)[k]).project
                == project && lookup(rows, project, in_project(rows, project)[k].id) == Some(
                in_project(rows, project)[k],
            ),
        forall|a: int, b: int|
            0 <= a < b < in_project(rows, project).len() ==> in_project(rows, project)[a].id.0
                < in_project(rows, project)[b].id.0,
        forall|j: int|
            0 <= j < rows.len() && (#[trigger] rows[j]).project == project ==> in_project(
                rows,
                project,
            ).contains(rows[j]),
{
    lemma_in_project_order(rows, project);
    assert forall|k: int| 0 <= k < in_project(rows, project).len() implies lookup(
        rows,
        project,
        in_project(rows, project)[k].id,
    ) == Some(in_project(rows, project)[k]) by {
        law_list_agrees_with_get(rows, project, k);
    }
}

/// Deleting a row keeps the rest in creation order, and the lookup of any other id is unchanged
/// while the deleted id names nothing.
proof fn lemma_lookup_after_remove(rows: Seq<RowV>, project: ProjectId, x: TodoId, b: TodoId)
    requires
        rows_wf(rows),
        find(rows, project, x) >= 0,
    ensures
        rows_wf(rows.remove(find(rows, project, x))),
        lookup(rows.remove(find(rows, project, x)), project, b) == if b == x {
            None
        } else {
            lookup(rows, project, b)
        },
{
    let i = find(rows, project, x);
    let after = rows.remove(i);
    crate::todo_repo::memory::lemma_index_of(rows, x);
    assert forall|a: int, c: int| 0 <= a < c < after.len() implies after[a].id.0 < after[c].id.0 by {
        let a0 = if a < i { a } else { a + 1 };
        let c0 = if c < i { c } else { c + 1 };
        assert(after[a] == rows[a0] && after[c] == rows[c0]);
    }
    crate::todo_repo::memory::lemma_index_of(after, b);
    crate::todo_repo::memory::lemma_index_of(rows, b);
    let k = index_of(after, b);
    if k >= 0 {
        let k0 = if k < i { k } else { k + 1 };
        assert(after[k] == rows[k0]);
        lemma_index_of_unique(rows, b, k0);
        if b == x {
            assert(k0 == i);
        }
    } else if b != x {
        let k0 = index_of(rows, b);
        if k0 >= 0 {
            assert(k0 != i);
            let k1 = if k0 < i { k0 } else { k0 - 1 };
            assert(after[k1] == rows[k0]);
        }
    }
}

proof fn lemma_unmet_after_remove(rows: Seq<RowV>, project: ProjectId, x: TodoId, bs: Seq<TodoId>)
    requires
        rows_wf(rows),
        find(rows, project, x) >= 0,
    ensures
        unmet(rows.remove(find(rows, project, x)), project, bs) == remove_all(
            unmet(rows, project, bs),
            x,
        ),
    decreases bs.len(),
{
    if bs.len() > 0 {
        let d = bs.drop_last();
        let l = bs.last();
        lemma_unmet_after_remove(rows, project, x, d);
        lemma_lookup_after_remove(rows, project, x, l);
        let rest = unmet(rows, project, d);
        assert(rest.push(l).drop_last() =~= rest);
        assert(rest.push(l).last() == l);
    }
}

proof fn lemma_remove_all_only(s: Seq<TodoId>, x: TodoId)
    requires
        forall|k: int| 0 <= k < s.len() ==> s[k] == x,
    ensures
        remove_all(s, x).len() == 0,
    decreases s.len(),
{
    if s.len() > 0 {
        let d = s.drop_last();
        assert forall|k: int| 0 <= k < d.len() implies d[k] == x by {
            assert(d[k] == s[k]);
        }
        lemma_remove_all_only(d, x);
    }
}

/// A deleted todo no longer exists — a second delete finds nothing — and it no longer blocks
/// anything: a dependent's unmet blockers are what they were, less the deleted todo, so a todo
/// whose only open blocker was deleted is free to complete.
pub proof fn law_a_deleted_todo_no_longer_blocks(
    rows: Seq<RowV>,
    project: ProjectId,
    x: TodoId,
    bs: Seq<TodoId>,
)
    requires
        rows_wf(rows),
        find(rows, project, x) >= 0,
    ensures
        ({
            let after = rows.remove(find(rows, project, x));
            &&& rows_wf(after)
            &&& find(after, project, x) < 0
            &&& lookup(after, project, x) is None
            &&& unmet(after, project, bs) == remove_all(unmet(rows, project, bs), x)
            &&& (forall|k: int|
                0 <= k < unmet(rows, project, bs).len() ==> unmet(rows, project, bs)[k] == x)
                ==> unmet(after, project, bs).len() == 0
        }),
{
    lemma_lookup_after_remove(rows, project, x, x);
    lemma_unmet_after_remove(rows, project, x, bs);
    if forall|k: int| 0 <= k < unmet(rows, project, bs).len() ==> unmet(rows, project, bs)[k] == x {
        lemma_remove_all_only(unmet(rows, project, bs), x);
    }
}

/// Tagging a todo keeps every tag it had and adds the new one, at most once — a tag list without
/// repeats stays without repeats — and tagging it again with the same tag answers the same view
/// and writes nothing.
pub proof fn law_a_tag_is_added_once_and_keeps_the_others(
    before: Seq<RowV>,
    after: Seq<RowV>,
    again: Seq<RowV>,
    project: ProjectId,
    id: TodoId,
    tag: Seq<char>,
    r: Result<Option<TodoView>, StoreError>,
    r2: Result<Option<TodoView>, StoreError>,
)
    requires
        rows_wf(before),
        row_change(
            before,
            after,
            find(before, project, id),
            RowV { tags: add_once(before[find(before, project, id)].tags, tag), ..before[find(before, project, id)] },
            r,
        ),
        r matches Ok(Some(_)),
        row_change(
            after,
            again,
            find(after, project, id),
            RowV { tags: add_once(after[find(after, project, id)].tags, tag), ..after[find(after, project, id)] },
            r2,
        ),
        r2 is Ok,
    ensures
        r matches Ok(Some(v)) && {
            let old_tags = before[find(before, project, id)].tags;
            &&& forall|t: Seq<char>| #[trigger] v@.tags.contains(t) <==> (old_tags.contains(t) || t == tag)
            &&& old_tags.no_duplicates() ==> v@.tags.no_duplicates()
            &&& r2 matches Ok(Some(v2)) && v2@ == v@
            &&& again == after
        },
{
    crate::todo_repo::memory::lemma_index_of(before, id);
    let i = find(before, project, id);
    let row = before[i];
    let changed = RowV { tags: add_once(row.tags, tag), ..row };
    law_rewritten_todo_reads_back(before, i, changed);
    law_add_tag_is_idempotent(row.tags, tag);
    assert(after[i] == changed);
    assert(replaced(after, i, changed) =~= after);
    let v = r->Ok_0->Some_0;
    assert forall|t: Seq<char>| #[trigger] v@.tags.contains(t) <==> (row.tags.contains(t) || t == tag) by {
        if !row.tags.contains(tag) {
            if row.tags.push(tag).contains(t) && t != tag {
                let q = choose|q: int| 0 <= q < row.tags.push(tag).len() && row.tags.push(tag)[q] == t;
                assert(row.tags[q] == t);
            }
            if row.tags.contains(t) {
                let q = choose|q: int| 0 <= q < row.tags.len() && row.tags[q] == t;
                assert(row.tags.push(tag)[q] == t);
            }
            assert(row.tags.push(tag)[row.tags.len() as int] == tag);
        }
    }
    if row.tags.no_duplicates() && !row.tags.contains(tag) {
        let s = row.tags.push(tag);
        assert forall|a: int, b: int| 0 <= a < s.len() && 0 <= b < s.len() && a != b implies s[a] != s[b] by {
            if a < row.tags.len() && b < row.tags.len() {
                assert(s[a] == row.tags[a] && s[b] == row.tags[b]);
            } else if a < row.tags.len() {
                assert(s[a] == row.tags[a]);
            } else if b < row.tags.len() {
                assert(s[b] == row.tags[b]);
            }
        }
    }
}

/// Reporting a todo complete twice under the same key records once: the first report records the
/// completion and asks for the parent notice, and the retry — whatever summary it carries —
/// answers the same record and the same notice disposition and writes nothing, so the todo keeps
/// exactly one result comment. A report under another key is refused and writes nothing.
pub proof fn law_a_repeated_report_answers_the_same_record(
    rows: Seq<RowV>,
    recorded: Seq<RowV>,
    retried: Seq<RowV>,
    claimed: Seq<RowV>,
    project: ProjectId,
    id: TodoId,
    key: TodoCompletionKey,
    other: TodoCompletionKey,
    summary: Seq<char>,
    retry_summary: Seq<char>,
    claim_summary: Seq<char>,
    author: AuthorV,
    retry_author: AuthorV,
    claim_author: AuthorV,
    o1: TodoCompletionOutcome,
    r2: Result<TodoCompletionOutcome, TodoError>,
    r3: Result<TodoCompletionOutcome, TodoError>,
)
    requires
        rows_wf(rows),
        completion_change(rows, recorded, project, id, key, summary, author, Ok(o1)),
        o1.occurrence == TodoCompletionOccurrence::Recorded,
        completion_change(recorded, retried, project, id, key, retry_summary, retry_author, r2),
        r2 is Ok,
        completion_change(recorded, claimed, project, id, other, claim_summary, claim_author, r3),
        other != key,
    ensures
        o1.notice == TodoCompletionNotice::Required,
        recorded[find(rows, project, id)].comments.len() == rows[find(rows, project, id)].comments.len() + 1,
        r2 matches Ok(o2) && {
            &&& o2.occurrence == TodoCompletionOccurrence::Existing
            &&& o2.completion@ == o1.completion@
            &&& o2.notice == o1.notice
        },
        retried == recorded,
        r3 is Err,
        r3 matches Err(e) ==> e is CompletionConflict || e is Store,
        claimed == recorded,
{
    crate::todo_repo::memory::lemma_index_of(rows, id);
    let i = find(rows, project, id);
    let row = rows[i];
    let changed = completed_by(row, id, key, summary, author);
    law_rewritten_todo_reads_back(rows, i, changed);
    assert(recorded[i] == changed);
}

/// Marking a completion's parent notice as queued writes once: the first mark flags the record on
/// file; marking again with the same completion answers `AlreadyQueued` and writes nothing; and a
/// later report under the same key answers the same record with its notice already queued.
pub proof fn law_a_notice_is_marked_once(
    rows: Seq<RowV>,
    marked: Seq<RowV>,
    remarked: Seq<RowV>,
    reported: Seq<RowV>,
    project: ProjectId,
    c: CompletionV,
    summary: Seq<char>,
    author: AuthorV,
    r2: Result<TodoCompletionNoticeOutcome, TodoError>,
    r3: Result<TodoCompletionOutcome, TodoError>,
)
    requires
        rows_wf(rows),
        notice_change(rows, marked, project, c, Ok(TodoCompletionNoticeOutcome::Recorded)),
        notice_change(marked, remarked, project, c, r2),
        r2 is Ok,
        completion_change(marked, reported, project, c.todo_id, c.key, summary, author, r3),
        r3 is Ok,
    ensures
        marked[find(rows, project, c.todo_id)].completion == Some(CompletionV { notice_queued: true, ..c }),
        r2 == Ok::<TodoCompletionNoticeOutcome, TodoError>(TodoCompletionNoticeOutcome::AlreadyQueued),
        remarked == marked,
        r3 matches Ok(o) && {
            &&& o.occurrence == TodoCompletionOccurrence::Existing
            &&& o.completion@ == CompletionV { notice_queued: true, ..c }
            &&& o.notice == TodoCompletionNotice::AlreadyQueued
        },
        reported == marked,
{
    crate::todo_repo::memory::lemma_index_of(rows, c.todo_id);
    let i = find(rows, project, c.todo_id);
    let changed = RowV { completion: Some(CompletionV { notice_queued: true, ..c }), ..rows[i] };
    law_rewritten_todo_reads_back(rows, i, changed);
    assert(marked[i] == changed);
}

/// A notice mark never touches another task's record: a completion already flagged is answered
/// `AlreadyQueued` with no write, and one whose todo holds a record under another key is refused
/// as a conflict with no write.
pub proof fn law_a_notice_mark_keeps_to_its_own_record(
    rows: Seq<RowV>,
    after: Seq<RowV>,
    project: ProjectId,
    c: CompletionV,
    r: Result<TodoCompletionNoticeOutcome, TodoError>,
)
    requires
        notice_change(rows, after, project, c, r),
    ensures
        c.notice_queued ==> after == rows && (r is Err || r
            == Ok::<TodoCompletionNoticeOutcome, TodoError>(
            TodoCompletionNoticeOutcome::AlreadyQueued,
        )),
        ({
            let i = find(rows, project, c.todo_id);
            let foreign = i >= 0 && (rows[i].completion matches Some(cur) && cur.key != c.key);
            !c.notice_queued && foreign ==> after == rows && (r matches Err(e) && (e is CompletionConflict
                || e is Store))
        }),
{
}

} // verus!
