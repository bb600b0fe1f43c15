//! Atomic, identity-bound completion reporting for coordination todos.

use vstd::prelude::*;

use crate::ids::{AgentMessageId, ProcessId, ProjectId, TodoId};
use crate::text::owned;
use crate::todo::{TodoError, Todos};
use crate::todo_comment::{Comment, CommentAuthor, CommentV};
use crate::todo_doc::{DocV, TodoDoc, TodoStatus};
use crate::todo_repo::memory::max_comment;
use crate::todo_repo::{
    completed, find, max_comment_id, next_comment_id, replaced, unmet, RowV, StoreError,
    StoredTodo, TodoCompletionAtomicResult, TodoCompletionCompareResult, TodoRepo,
};

verus! {

/// Authenticated identity and task correlation that make one completion report idempotent.
///
/// A wire caller supplies only the task-message id, while the façade supplies the reporter from its
/// authenticated bound session.
#[derive(Clone, Copy, Debug, PartialEq, Eq, Structural)]
pub struct TodoCompletionKey {
    reporter: ProcessId,
    task_message: AgentMessageId,
}

impl TodoCompletionKey {
    /// The key's reporter, as contracts see it.
    pub closed spec fn spec_reporter(self) -> ProcessId {
        self.reporter
    }

    /// The key's task message, as contracts see it.
    pub closed spec fn spec_task_message(self) -> AgentMessageId {
        self.task_message
    }

    /// A key for `reporter` resolving `task_message`.
    pub(crate) fn new(reporter: ProcessId, task_message: AgentMessageId) -> (k: Self)
        ensures
            k.spec_reporter() == reporter,
            k.spec_task_message() == task_message,
    {
        TodoCompletionKey { reporter, task_message }
    }

    /// Constructs an authenticated key in a test composition root.
    pub fn for_test(reporter: ProcessId, task_message: AgentMessageId) -> (k: Self)
        ensures
            k.spec_reporter() == reporter,
            k.spec_task_message() == task_message,
    {
        Self::new(reporter, task_message)
    }

    /// The authenticated process that reported the result.
    pub fn reporter(self) -> (r: ProcessId)
        ensures
            r == self.spec_reporter(),
    {
        self.reporter
    }

    /// The addressed task message this report resolves.
    pub fn task_message(self) -> (r: AgentMessageId)
        ensures
            r == self.spec_task_message(),
    {
        self.task_message
    }
}

/// Durable proof that one authenticated task completed one todo with one result comment.
#[derive(Clone, Debug, PartialEq, Eq)]
pub struct TodoCompletion {
    todo_id: TodoId,
    key: TodoCompletionKey,
    summary: String,
    comment: u64,
    notice_queued: bool,
}

/// A completion record as contracts see it.
pub ghost struct CompletionV {
    pub todo_id: TodoId,
    pub key: TodoCompletionKey,
    pub summary: Seq<char>,
    pub comment: u64,
    pub notice_queued: bool,
}

impl View for TodoCompletion {
    type V = CompletionV;

    closed spec fn view(&self) -> CompletionV {
        CompletionV {
            todo_id: self.todo_id,
            key: self.key,
            summary: self.summary@,
            comment: self.comment,
            notice_queued: self.notice_queued,
        }
    }
}

/// The view of an optional completion record.
pub open spec fn completion_view(c: Option<TodoCompletion>) -> Option<CompletionV> {
    match c {
        Some(c) => Some(c@),
        None => None,
    }
}

impl TodoCompletion {
    /// A record of `key` completing `todo_id` with `summary`, whose result comment is `comment`,
    /// with no notice queued yet.
    pub(crate) fn new(todo_id: TodoId, key: TodoCompletionKey, summary: String, comment: u64) -> (r:
        Self)
        ensures
            r@ == (CompletionV {
                todo_id,
                key,
                summary: summary@,
                comment,
                notice_queued: false,
            }),
    {
        TodoCompletion { todo_id, key, summary, comment, notice_queued: false }
    }

    /// The todo changed by this report.
    pub fn todo_id(&self) -> (r: TodoId)
        ensures
            r == self@.todo_id,
    {
        self.todo_id
    }

    /// The authenticated idempotency key for this report.
    pub fn key(&self) -> (r: TodoCompletionKey)
        ensures
            r == self@.key,
    {
        self.key
    }

    /// The recorded result text.
    pub fn summary(&self) -> (r: &str)
        ensures
            r@ == self@.summary,
    {
        self.summary.as_str()
    }

    /// The protected result comment created with the completion.
    pub fn comment(&self) -> (r: u64)
        ensures
            r == self@.comment,
    {
        self.comment
    }

    /// Whether a parent completion notice has previously entered the ephemeral mailbox.
    pub fn notice_queued(&self) -> (r: bool)
        ensures
            r == self@.notice_queued,
    {
        self.notice_queued
    }

    /// A copy with the same contents.
    pub fn duplicate(&self) -> (r: Self)
        ensures
            r@ == self@,
    {
        TodoCompletion {
            todo_id: self.todo_id,
            key: self.key,
            summary: self.summary.clone(),
            comment: self.comment,
            notice_queued: self.notice_queued,
        }
    }

    /// The same record, marked as having queued its parent notice.
    pub(crate) fn with_notice_queued(&self) -> (r: Self)
        ensures
            r@ == (CompletionV { notice_queued: true, ..self@ }),
    {
        TodoCompletion { notice_queued: true, ..self.duplicate() }
    }

    /// Whether two records are the same.
    pub fn same_as(&self, other: &Self) -> (r: bool)
        ensures
            r == (self@ == other@),
    {
        self.todo_id == other.todo_id && self.key == other.key && self.summary == other.summary
            && self.comment == other.comment && self.notice_queued == other.notice_queued
    }
}

/// A copy of an optional completion record.
pub fn duplicate_completion(c: &Option<TodoCompletion>) -> (r: Option<TodoCompletion>)
    ensures
        completion_view(r) == completion_view(*c),
{
    match c {
        Some(c) => Some(c.duplicate()),
        None => None,
    }
}

/// Whether this call created the durable result or found the same authenticated report.
#[derive(Clone, Copy, Debug, PartialEq, Eq, Structural)]
pub enum TodoCompletionOccurrence {
    Recorded,
    Existing,
}

/// Whether the caller should attempt the best-effort parent notification.
#[derive(Clone, Copy, Debug, PartialEq, Eq, Structural)]
pub enum TodoCompletionNotice {
    Required,
    AlreadyQueued,
}

/// Core-owned outcome of an atomic completion report.
#[derive(Clone, Debug, PartialEq, Eq)]
pub struct TodoCompletionOutcome {
    pub completion: TodoCompletion,
    pub occurrence: TodoCompletionOccurrence,
    pub notice: TodoCompletionNotice,
}

/// Outcome of durably recording that the ephemeral parent notice was queued.
#[derive(Clone, Copy, Debug, PartialEq, Eq, Structural)]
pub enum TodoCompletionNoticeOutcome {
    Recorded,
    AlreadyQueued,
}

/// What an atomic completion report decided for a todo.
pub(crate) enum CompletionDecision {
    /// The same key already recorded this completion; it is returned unchanged.
    Existing(TodoCompletion),
    /// The report is refused.
    Refuse(TodoError),
    /// Record the completion: the completing document, the result comment, and the record.
    Record { doc: TodoDoc, result: Comment, record: TodoCompletion },
}

/// The record a fresh completion of row `row` by `key` with `summary` writes.
pub open spec fn fresh_record(row: RowV, id: TodoId, key: TodoCompletionKey, summary: Seq<char>) -> CompletionV {
    CompletionV {
        todo_id: id,
        key,
        summary,
        comment: next_comment_id(row.comments) as u64,
        notice_queued: false,
    }
}

/// The result comment a fresh completion of row `row` appends.
pub open spec fn result_comment(row: RowV, summary: Seq<char>, author: crate::todo_comment::AuthorV) -> CommentV {
    CommentV { id: next_comment_id(row.comments) as u64, body: summary, author: Some(author) }
}

/// Row `row` completed by `key` with `summary`, written by `author`: done, with the result comment
/// and the record, at a new revision.
pub open spec fn completed_by(
    row: RowV,
    id: TodoId,
    key: TodoCompletionKey,
    summary: Seq<char>,
    author: crate::todo_comment::AuthorV,
) -> RowV {
    completed(
        row,
        DocV { status: TodoStatus::Done, ..row.doc },
        result_comment(row, summary, author),
        fresh_record(row, id, key, summary),
    )
}

/// Decides a completion report for the stored todo `stored` (whose unmet blockers are `open`):
/// the existing record when the same key already completed it, a refusal when another key did or a
/// blocker is still open, or the record to write.
pub(crate) fn completion_decision(
    stored: &StoredTodo,
    open: Vec<TodoId>,
    id: TodoId,
    key: TodoCompletionKey,
    summary: &str,
    author: &CommentAuthor,
) -> (d: CompletionDecision)
    ensures
        ({
            let row = stored@;
            match d {
                CompletionDecision::Existing(c) => row.completion == Some(c@) && c@.key == key,
                CompletionDecision::Refuse(TodoError::CompletionConflict) => row.completion matches Some(
                    e,
                ) && e.key != key,
                CompletionDecision::Refuse(TodoError::Blocked { by }) => {
                    &&& row.completion is None
                    &&& by@ == open@
                    &&& open@.len() > 0
                },
                CompletionDecision::Refuse(TodoError::Store(_)) => {
                    &&& row.completion is None
                    &&& open@.len() == 0
                    &&& max_comment_id(row.comments) == u64::MAX
                },
                CompletionDecision::Refuse(_) => false,
                CompletionDecision::Record { doc, result, record } => {
                    &&& row.completion is None
                    &&& open@.len() == 0
                    &&& max_comment_id(row.comments) < u64::MAX
                    &&& doc@ == DocV { status: TodoStatus::Done, ..row.doc }
                    &&& result@ == result_comment(row, summary@, author@)
                    &&& record@ == fresh_record(row, id, key, summary@)
                },
            }
        }),
{
    if let Some(existing) = &stored.completion {
        if existing.key() == key {
            return CompletionDecision::Existing(existing.duplicate());
        } else {
            return CompletionDecision::Refuse(TodoError::CompletionConflict);
        }
    }
    if open.len() > 0 {
        return CompletionDecision::Refuse(TodoError::Blocked { by: open });
    }
    let mut doc = stored.doc.duplicate();
    doc.status = TodoStatus::Done;
    let highest = max_comment(&stored.comments);
    if highest == u64::MAX {
        return CompletionDecision::Refuse(
            TodoError::Store(StoreError::Backend(owned("comment ids are exhausted"))),
        );
    }
    let comment = highest + 1;
    let result = Comment { id: comment, body: owned(summary), author: Some(author.duplicate()) };
    let record = TodoCompletion::new(id, key, owned(summary), comment);
    CompletionDecision::Record { doc, result, record }
}

/// The notice disposition a completion record calls for.
pub open spec fn notice_for(c: CompletionV) -> TodoCompletionNotice {
    if c.notice_queued {
        TodoCompletionNotice::AlreadyQueued
    } else {
        TodoCompletionNotice::Required
    }
}

/// What reporting todo `id` of `project` complete under `key` answers and leaves behind: a fresh
/// record (the todo done, the result comment appended) when none is on file and no blocker is
/// open; the record on file, and no write, on a retry under the same key; and otherwise a refusal
/// that changes nothing.
pub open spec fn completion_change(
    before: Seq<RowV>,
    after: Seq<RowV>,
    project: ProjectId,
    id: TodoId,
    key: TodoCompletionKey,
    summary: Seq<char>,
    author: crate::todo_comment::AuthorV,
    r: Result<TodoCompletionOutcome, TodoError>,
) -> bool {
    let i = find(before, project, id);
    let row = before[i];
    let open = unmet(before, project, row.blockers);
    match r {
        Ok(o) => {
            &&& i >= 0
            &&& o.notice == notice_for(o.completion@)
            &&& match o.occurrence {
                TodoCompletionOccurrence::Existing => {
                    &&& row.completion == Some(o.completion@)
                    &&& o.completion@.key == key
                    &&& after == before
                },
                TodoCompletionOccurrence::Recorded => {
                    &&& row.completion is None
                    &&& open.len() == 0
                    &&& o.completion@ == fresh_record(row, id, key, summary)
                    &&& after == replaced(before, i, completed_by(row, id, key, summary, author))
                },
            }
        },
        Err(TodoError::NotFound) => i < 0 && after == before,
        Err(TodoError::CompletionConflict) => {
            &&& i >= 0
            &&& row.completion matches Some(e) && e.key != key
            &&& after == before
        },
        Err(TodoError::Blocked { by }) => {
            &&& i >= 0
            &&& row.completion is None
            &&& by@ == open
            &&& open.len() > 0
            &&& after == before
        },
        Err(TodoError::Store(_)) => after == before,
        Err(_) => false,
    }
}

/// What marking that the parent notice of completion `c` was queued answers and leaves behind: the
/// record on file gains the flag when it is exactly `c`; a completion already flagged, or whose
/// record on file is already flagged under the same key, is answered `AlreadyQueued` with no write;
/// any other record on file is a conflict, and a missing todo is not found.
pub open spec fn notice_change(
    before: Seq<RowV>,
    after: Seq<RowV>,
    project: ProjectId,
    c: CompletionV,
    r: Result<TodoCompletionNoticeOutcome, TodoError>,
) -> bool {
    let i = find(before, project, c.todo_id);
    let row = before[i];
    let queued_since = row.completion matches Some(cur) && cur.key == c.key && cur.notice_queued;
    match r {
        Ok(TodoCompletionNoticeOutcome::Recorded) => {
            &&& !c.notice_queued
            &&& i >= 0
            &&& row.completion == Some(c)
            &&& after == replaced(
                before,
                i,
                RowV { completion: Some(CompletionV { notice_queued: true, ..c }), ..row },
            )
        },
        Ok(TodoCompletionNoticeOutcome::AlreadyQueued) => {
            &&& c.notice_queued || (i >= 0 && row.completion != Some(c) && queued_since)
            &&& after == before
        },
        Err(TodoError::CompletionConflict) => {
            &&& !c.notice_queued
            &&& i >= 0
            &&& row.completion != Some(c)
            &&& !queued_since
            &&& after == before
        },
        Err(TodoError::NotFound) => !c.notice_queued && i < 0 && after == before,
        Err(TodoError::Store(_)) => after == before,
        Err(_) => false,
    }
}

impl<R: TodoRepo> Todos<R> {
    /// Atomically evaluates the existing record and the blockers, then records exactly one
    /// identity-authored result for `key`: the todo becomes done, gains the result comment (whose id
    /// is one past the largest so far), and carries the record. A retry with the same key returns
    /// the existing record and writes nothing; a different task cannot claim a todo whose
    /// completion is already recorded; an open blocker refuses the whole completion.
    pub fn report_completion(
        &mut self,
        project: ProjectId,
        id: TodoId,
        key: TodoCompletionKey,
        summary: &str,
        author: CommentAuthor,
    ) -> (r: Result<TodoCompletionOutcome, TodoError>)
        requires
            old(self).wf(),
        ensures
            final(self).wf(),
            final(self).durable() == old(self).durable(),
            final(self).infallible() == old(self).infallible(),
            final(self).ids_left() >= old(self).ids_left(),
            completion_change(
                old(self).rows(),
                final(self).rows(),
                project,
                id,
                key,
                summary@,
                author@,
                r,
            ),
            r matches Err(TodoError::Store(_)) && old(self).infallible() ==> {
                let rows = old(self).rows();
                let i = find(rows, project, id);
                &&& i >= 0
                &&& rows[i].completion is None
                &&& unmet(rows, project, rows[i].blockers).len() == 0
                &&& (max_comment_id(rows[i].comments) == u64::MAX || rows[i].revision == u64::MAX)
            },
    {
        proof {
            self.lemma_store();
        }
        let applied = self.repo.apply_completion(project, id, key, summary, &author);
        proof {
            self.lemma_store();
        }
        let (stored, occurrence) = match applied {
            Err(e) => {
                return Err(TodoError::Store(e));
            },
            Ok(TodoCompletionAtomicResult::NotFound) => {
                return Err(TodoError::NotFound);
            },
            Ok(TodoCompletionAtomicResult::Refused(e)) => {
                return Err(e);
            },
            Ok(TodoCompletionAtomicResult::Recorded(stored)) => (
                *stored,
                TodoCompletionOccurrence::Recorded,
            ),
            Ok(TodoCompletionAtomicResult::Existing(stored)) => (
                *stored,
                TodoCompletionOccurrence::Existing,
            ),
        };
        let completion = match stored.completion {
            Some(c) => c,
            None => {
                return Err(
                    TodoError::Store(
                        StoreError::Backend(owned("completion write returned no record")),
                    ),
                );
            },
        };
        let notice = if completion.notice_queued() {
            TodoCompletionNotice::AlreadyQueued
        } else {
            TodoCompletionNotice::Required
        };
        Ok(TodoCompletionOutcome { completion, occurrence, notice })
    }

    /// Marks a previously returned completion as having queued its parent notice. This is a
    /// compare-write, so a stale or unrelated completion can never mark another task's record: it
    /// applies only while the record on file is exactly `completion`.
    pub fn mark_completion_notice_queued(&mut self, project: ProjectId, completion: &TodoCompletion) -> (r:
        Result<TodoCompletionNoticeOutcome, TodoError>)
        requires
            old(self).wf(),
        ensures
            final(self).wf(),
            final(self).durable() == old(self).durable(),
            final(self).infallible() == old(self).infallible(),
            final(self).ids_left() >= old(self).ids_left(),
            notice_change(old(self).rows(), final(self).rows(), project, completion@, r),
            r matches Err(TodoError::Store(_)) ==> !old(self).infallible(),
    {
        proof {
            self.lemma_store();
        }
        if completion.notice_queued() {
            return Ok(TodoCompletionNoticeOutcome::AlreadyQueued);
        }
        let replacement = completion.with_notice_queued();
        let written = self.repo.compare_completion(
            project,
            completion.todo_id(),
            completion,
            &replacement,
        );
        proof {
            self.lemma_store();
        }
        match written {
            Err(e) => Err(TodoError::Store(e)),
            Ok(TodoCompletionCompareResult::Written(_)) => Ok(TodoCompletionNoticeOutcome::Recorded),
            Ok(TodoCompletionCompareResult::Mismatch(stored)) => match &stored.completion {
                Some(current) => {
                    if current.key() == completion.key() && current.notice_queued() {
                        Ok(TodoCompletionNoticeOutcome::AlreadyQueued)
                    } else {
                        Err(TodoError::CompletionConflict)
                    }
                },
                None => Err(TodoError::CompletionConflict),
            },
            Ok(TodoCompletionCompareResult::NotFound) => Err(TodoError::NotFound),
        }
    }
}

} // verus!
