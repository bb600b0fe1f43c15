//! Comments on a todo: who wrote one, what a comment is, and the aggregate operations that create,
//! edit, delete, and list them.
//!
//! Comments are live state beside the todo's document, not part of it, so a comment change never
//! collides with a concurrent specification edit and carries no revision guard.

use vstd::prelude::*;

use crate::ids::{ProcessId, ProjectId, TodoId};
use crate::todo::{view_of, TodoView, Todos};
use crate::todo_repo::{
    max_comment_id,
    comment_index, find, lookup, next_comment_id, replaced, with_comment, CommentEdit, RowV,
    StoreError, TodoRepo,
};

verus! {

/// Who wrote a comment, captured when it was created so the to-do board can name the author. A
/// bound process records its per-run [`ProcessId`] — informational only, since process ids are
/// recycled across runs — alongside the `label` resolved at creation, which is durable and is what
/// the board shows. An external caller records only its label. An unbound caller leaves a comment
/// unattributed ([`Comment::author`] is `None`).
#[derive(Clone, Debug, PartialEq, Eq)]
pub enum CommentAuthor {
    /// A supervised process: the live id it was bound to and the durable label shown.
    Process { id: ProcessId, label: String },
    /// An external (non-supervised) caller, identified by the label it registered under.
    External { label: String },
}

/// An author as contracts see it.
pub ghost enum AuthorV {
    Process { id: ProcessId, label: Seq<char> },
    External { label: Seq<char> },
}

impl View for CommentAuthor {
    type V = AuthorV;

    open spec fn view(&self) -> AuthorV {
        match self {
            CommentAuthor::Process { id, label } => AuthorV::Process { id: *id, label: label@ },
            CommentAuthor::External { label } => AuthorV::External { label: label@ },
        }
    }
}

/// The view of an optional author.
pub open spec fn author_view(a: Option<CommentAuthor>) -> Option<AuthorV> {
    match a {
        Some(a) => Some(a@),
        None => None,
    }
}

impl CommentAuthor {
    /// A copy with the same contents.
    pub fn duplicate(&self) -> (r: Self)
        ensures
            r@ == self@,
    {
        match self {
            CommentAuthor::Process { id, label } => CommentAuthor::Process {
                id: *id,
                label: label.clone(),
            },
            CommentAuthor::External { label } => CommentAuthor::External { label: label.clone() },
        }
    }
}

/// A copy of an optional author.
pub fn duplicate_author(a: &Option<CommentAuthor>) -> (r: Option<CommentAuthor>)
    ensures
        author_view(r) == author_view(*a),
{
    match a {
        Some(a) => Some(a.duplicate()),
        None => None,
    }
}

/// A comment on a todo: a per-todo sequential `id` (so an update or delete can name it), its body,
/// and its author when the creating caller was attributable (`None` for an unbound caller).
#[derive(Clone, Debug, PartialEq, Eq)]
pub struct Comment {
    pub id: u64,
    pub body: String,
    /// Who created the comment, stamped by the core from the caller's identity (never caller-set).
    /// `None` when the caller was unbound.
    pub author: Option<CommentAuthor>,
}

/// A comment as contracts see it.
pub ghost struct CommentV {
    pub id: u64,
    pub body: Seq<char>,
    pub author: Option<AuthorV>,
}

impl View for Comment {
    type V = CommentV;

    open spec fn view(&self) -> CommentV {
        CommentV { id: self.id, body: self.body@, author: author_view(self.author) }
    }
}

impl Comment {
    /// A copy with the same contents.
    pub fn duplicate(&self) -> (r: Self)
        ensures
            r@ == self@,
    {
        Comment { id: self.id, body: self.body.clone(), author: duplicate_author(&self.author) }
    }
}

/// The views of a list of comments.
pub open spec fn comment_views(cs: Seq<Comment>) -> Seq<CommentV> {
    cs.map_values(|c: Comment| c@)
}

/// A copy of a list of comments.
pub fn duplicate_comments(cs: &Vec<Comment>) -> (r: Vec<Comment>)
    ensures
        comment_views(r@) == comment_views(cs@),
{
    let mut r: Vec<Comment> = Vec::new();
    let mut i: usize = 0;
    while i < cs.len()
        invariant
            i <= cs@.len(),
            comment_views(r@) == comment_views(cs@).take(i as int),
        decreases cs@.len() - i,
    {
        r.push(cs[i].duplicate());
        assert(comment_views(cs@).take(i + 1) == comment_views(cs@).take(i as int).push(
            cs@[i as int]@,
        ));
        i += 1;
    }
    assert(comment_views(cs@).take(cs@.len() as int) == comment_views(cs@));
    r
}

/// The outcome of a comment edit through the aggregate: the todo's updated view, no todo under that
/// id, no comment under that id within the todo, or the comment is the protected result of a
/// recorded completion.
#[derive(Clone, Debug, PartialEq, Eq)]
pub enum CommentOutcome {
    Edited(Box<TodoView>),
    NoTodo,
    NoComment,
    CompletionProtected,
}

/// Comment `comment` of row `row` is the result comment of its recorded completion.
pub open spec fn is_result_comment(row: RowV, comment: u64) -> bool {
    row.completion matches Some(c) && c.comment == comment
}

/// What a comment edit that turns row `i` into `changed` answers and leaves behind.
pub open spec fn comment_change(
    before: Seq<RowV>,
    after: Seq<RowV>,
    i: int,
    comment: u64,
    changed: RowV,
    r: Result<CommentOutcome, StoreError>,
) -> bool {
    let protected = is_result_comment(before[i], comment);
    let ci = comment_index(before[i].comments, comment);
    match r {
        Ok(CommentOutcome::Edited(v)) => {
            &&& i >= 0 && !protected && ci >= 0
            &&& after == replaced(before, i, changed)
            &&& v@ == view_of(after, changed)
        },
        Ok(CommentOutcome::NoTodo) => i < 0 && after == before,
        Ok(CommentOutcome::NoComment) => i >= 0 && !protected && ci < 0 && after == before,
        Ok(CommentOutcome::CompletionProtected) => i >= 0 && protected && after == before,
        Err(_) => after == before || (i >= 0 && !protected && ci >= 0 && after == replaced(
            before,
            i,
            changed,
        )),
    }
}

impl<R: TodoRepo> Todos<R> {
    /// Adds a comment to todo `id` in `project`, attributed to `author` (stamped by the façade from
    /// the caller's identity), returning the updated todo and the new comment's id — one past the
    /// largest so far — or `None` if there is none.
    pub fn comment_create(
        &mut self,
        project: ProjectId,
        id: TodoId,
        body: &str,
        author: Option<CommentAuthor>,
    ) -> (r: Result<Option<(TodoView, u64)>, StoreError>)
        requires
            old(self).wf(),
        ensures
            final(self).wf(),
            final(self).durable() == old(self).durable(),
            final(self).infallible() == old(self).infallible(),
            final(self).ids_left() >= old(self).ids_left(),
            r is Err ==> !old(self).infallible() || (find(old(self).rows(), project, id) >= 0
                && max_comment_id(old(self).rows()[find(old(self).rows(), project, id)].comments)
                == u64::MAX),
            ({
                let rows = old(self).rows();
                let i = find(rows, project, id);
                let changed = with_comment(rows[i], body@, author_view(author));
                match r {
                    Ok(Some((v, c))) => {
                        &&& i >= 0
                        &&& c == next_comment_id(rows[i].comments)
                        &&& final(self).rows() == replaced(rows, i, changed)
                        &&& v@ == view_of(final(self).rows(), changed)
                    },
                    Ok(None) => i < 0 && final(self).rows() == rows,
                    Err(_) => final(self).rows() == rows || (i >= 0 && final(self).rows()
                        == replaced(rows, i, changed)),
                }
            }),
    {
        proof {
            self.lemma_store();
        }
        let created = self.repo.comment_create(project, id, body, author);
        proof {
            self.lemma_store();
        }
        match created? {
            Some((stored, comment)) => Ok(Some((self.view(stored)?, comment))),
            None => Ok(None),
        }
    }

    /// Translates a repo [`CommentEdit`] to the aggregate's [`CommentOutcome`], building the view.
    fn comment_outcome(&self, edit: CommentEdit) -> (r: Result<CommentOutcome, StoreError>)
        requires
            self.wf(),
        ensures
            self.infallible() ==> r is Ok,
            match r {
                Ok(CommentOutcome::Edited(v)) => edit matches CommentEdit::Edited(t) && v@
                    == view_of(self.rows(), t@),
                Ok(CommentOutcome::NoTodo) => edit is NoTodo,
                Ok(CommentOutcome::NoComment) => edit is NoComment,
                Ok(CommentOutcome::CompletionProtected) => false,
                Err(_) => edit is Edited,
            },
    {
        match edit {
            CommentEdit::Edited(stored) => Ok(CommentOutcome::Edited(Box::new(self.view(*stored)?))),
            CommentEdit::NoTodo => Ok(CommentOutcome::NoTodo),
            CommentEdit::NoComment => Ok(CommentOutcome::NoComment),
        }
    }

    /// Whether comment `comment` of todo `id` may be edited: `None` when it may, or the outcome
    /// that refuses it — no such todo, or the protected result of a recorded completion.
    fn comment_guard(&self, project: ProjectId, id: TodoId, comment: u64) -> (r: Result<
        Option<CommentOutcome>,
        StoreError,
    >)
        requires
            self.wf(),
        ensures
            self.infallible() ==> r is Ok,
            ({
                let rows = self.rows();
                let i = find(rows, project, id);
                match r {
                    Ok(None) => i >= 0 && !is_result_comment(rows[i], comment),
                    Ok(Some(CommentOutcome::NoTodo)) => i < 0,
                    Ok(Some(CommentOutcome::CompletionProtected)) => i >= 0 && is_result_comment(
                        rows[i],
                        comment,
                    ),
                    Ok(Some(_)) => false,
                    Err(_) => true,
                }
            }),
    {
        proof {
            self.lemma_store();
        }
        match self.repo.read(project, id)? {
            None => Ok(Some(CommentOutcome::NoTodo)),
            Some(stored) => {
                let protected = match &stored.completion {
                    Some(c) => c.comment() == comment,
                    None => false,
                };
                if protected {
                    Ok(Some(CommentOutcome::CompletionProtected))
                } else {
                    Ok(None)
                }
            },
        }
    }

    /// Updates comment `comment` of todo `id` in `project` to `body`. The result comment of a
    /// recorded completion is protected and is not changed.
    pub fn comment_update(&mut self, project: ProjectId, id: TodoId, comment: u64, body: &str) -> (r:
        Result<CommentOutcome, StoreError>)
        requires
            old(self).wf(),
        ensures
            final(self).wf(),
            final(self).durable() == old(self).durable(),
            final(self).infallible() == old(self).infallible(),
            final(self).ids_left() >= old(self).ids_left(),
            r is Err ==> !old(self).infallible(),
            ({
                let rows = old(self).rows();
                let i = find(rows, project, id);
                let ci = comment_index(rows[i].comments, comment);
                let changed = RowV {
                    comments: rows[i].comments.update(
                        ci,
                        CommentV { body: body@, ..rows[i].comments[ci] },
                    ),
                    ..rows[i]
                };
                comment_change(rows, final(self).rows(), i, comment, changed, r)
            }),
    {
        if let Some(refused) = self.comment_guard(project, id, comment)? {
            return Ok(refused);
        }
        proof {
            self.lemma_store();
        }
        let edited = self.repo.comment_update(project, id, comment, body);
        proof {
            self.lemma_store();
        }
        self.comment_outcome(edited?)
    }

    /// Deletes comment `comment` of todo `id` in `project`. The result comment of a recorded
    /// completion is protected and is not deleted.
    pub fn comment_delete(&mut self, project: ProjectId, id: TodoId, comment: u64) -> (r: Result<
        CommentOutcome,
        StoreError,
    >)
        requires
            old(self).wf(),
        ensures
            final(self).wf(),
            final(self).durable() == old(self).durable(),
            final(self).infallible() == old(self).infallible(),
            final(self).ids_left() >= old(self).ids_left(),
            r is Err ==> !old(self).infallible(),
            ({
                let rows = old(self).rows();
                let i = find(rows, project, id);
                let ci = comment_index(rows[i].comments, comment);
                let changed = RowV { comments: rows[i].comments.remove(ci), ..rows[i] };
                comment_change(rows, final(self).rows(), i, comment, changed, r)
            }),
    {
        if let Some(refused) = self.comment_guard(project, id, comment)? {
            return Ok(refused);
        }
        proof {
            self.lemma_store();
        }
        let deleted = self.repo.comment_delete(project, id, comment);
        proof {
            self.lemma_store();
        }
        self.comment_outcome(deleted?)
    }

    /// The comments on todo `id` in `project`, or `None` if there is none.
    pub fn comment_list(&self, project: ProjectId, id: TodoId) -> (r: Result<
        Option<Vec<Comment>>,
        StoreError,
    >)
        requires
            self.wf(),
        ensures
            self.infallible() ==> r is Ok,
            r matches Ok(o) ==> match o {
                Some(cs) => lookup(self.rows(), project, id) matches Some(row) && comment_views(
                    cs@,
                ) == row.comments,
                None => lookup(self.rows(), project, id) is None,
            },
    {
        proof {
            self.lemma_store();
        }
        match self.repo.read(project, id)? {
            Some(stored) => Ok(Some(stored.comments)),
            None => Ok(None),
        }
    }
}

} // verus!
