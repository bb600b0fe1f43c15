//! A todo store held in memory: the whole [`TodoRepo`] contract, proved, over a vector of rows.

use vstd::prelude::*;

use super::{
    comment_index, find, held_by, in_project, index_of, locked_count, max_comment_id, released,
    remove_all, replaced, row_views, rows_wf, sorted_strictly, str_views, tags_in, unlocked,
    unlocked_for, unmet, completed, CommentEdit, RowV, StoreError, StoredTodo,
    TodoCompletionAtomicResult, TodoCompletionCompareResult,
    TodoRepo, TodoWriteResult,
};
use crate::ids::{ProcessId, ProjectId, TodoId};
use crate::text::{lex_lt, owned, str_lt};
use crate::todo_comment::{author_view, comment_views, Comment, CommentAuthor, CommentV};
use crate::todo::TodoError;
use crate::todo_completion::{
    completed_by, completion_decision, CompletionDecision, TodoCompletion, TodoCompletionKey,
};
use crate::todo_doc::{TodoDoc, TodoStatus};

verus! {

/// A [`TodoRepo`] kept in memory for the life of the value: ids start at 1 and are never reused.
pub struct MemTodoRepo {
    rows: Vec<StoredTodo>,
    next_id: u64,
}

/// A store failure with `message`.
fn backend(message: &str) -> (e: StoreError)
    ensures
        e matches StoreError::Backend(m) && m@ == message@,
{
    StoreError::Backend(owned(message))
}

pub(crate) proof fn lemma_index_of(rows: Seq<RowV>, id: TodoId)
    ensures
        -1 <= index_of(rows, id) < rows.len(),
        index_of(rows, id) >= 0 ==> rows[index_of(rows, id)].id == id,
        index_of(rows, id) < 0 ==> forall|j: int| 0 <= j < rows.len() ==> rows[j].id != id,
    decreases rows.len(),
{
    if rows.len() > 0 && rows.last().id != id {
        lemma_index_of(rows.drop_last(), id);
        if index_of(rows, id) < 0 {
            assert forall|j: int| 0 <= j < rows.len() implies rows[j].id != id by {
                if j < rows.len() - 1 {
                    assert(rows.drop_last()[j] == rows[j]);
                }
            }
        }
    }
}

proof fn lemma_replaced_wf(rows: Seq<RowV>, i: int, r: RowV)
    requires
        rows_wf(rows),
        0 <= i < rows.len(),
        r.id == rows[i].id,
    ensures
        rows_wf(replaced(rows, i, r)),
{
    let s = replaced(rows, i, r);
    assert forall|a: int, b: int| 0 <= a < b < s.len() implies s[a].id.0 < s[b].id.0 by {
        assert(rows[a].id.0 < rows[b].id.0);
    }
}

impl MemTodoRepo {
    /// An empty store.
    pub fn new() -> (r: Self)
        ensures
            r.wf(),
            r.rows() == Seq::<RowV>::empty(),
            r.ids_left() == u64::MAX - 1,
    {
        let r = MemTodoRepo { rows: Vec::new(), next_id: 1 };
        assert(row_views(r.rows@) =~= Seq::<RowV>::empty());
        r
    }

    /// The position of `(project, id)`.
    fn position(&self, project: ProjectId, id: TodoId) -> (r: Option<usize>)
        requires
            self.wf(),
        ensures
            match r {
                Some(i) => i as int == find(self.rows(), project, id) && i < self.rows@.len(),
                None => find(self.rows(), project, id) < 0,
            },
    {
        let ghost rows = self.rows();
        let mut i = self.rows.len();
        proof {
            assert(rows.take(i as int) == rows);
        }
        while i > 0
            invariant
                rows == self.rows(),
                rows.len() == self.rows@.len(),
                i <= rows.len(),
                index_of(rows, id) == index_of(rows.take(i as int), id),
            decreases i,
        {
            assert(rows.take(i as int).drop_last() == rows.take(i - 1));
            assert(rows.take(i as int).last() == self.rows@[i - 1]@);
            if self.rows[i - 1].id == id {
                proof {
                    lemma_index_of(rows, id);
                }
                if self.rows[i - 1].project == project {
                    return Some(i - 1);
                } else {
                    return None;
                }
            }
            i -= 1;
        }
        None
    }

    /// Replaces row `i` with `row`, which keeps its id, returning a copy of it.
    fn replace_row(&mut self, i: usize, row: StoredTodo) -> (out: StoredTodo)
        requires
            old(self).wf(),
            i < old(self).rows@.len(),
            row.id == old(self).rows()[i as int].id,
        ensures
            final(self).wf(),
            final(self).rows() == replaced(old(self).rows(), i as int, row@),
            final(self).rows@.len() == old(self).rows@.len(),
            out@ == row@,

            final(self).next_id == old(self).next_id,
    {
        proof {
            lemma_replaced_wf(self.rows(), i as int, row@);
        }
        let out = row.duplicate();
        self.rows.set(i, row);
        assert(self.rows() =~= replaced(old(self).rows(), i as int, row@));
        out
    }
}

proof fn lemma_in_project_step(rows: Seq<RowV>, k: int, project: ProjectId)
    requires
        0 <= k < rows.len(),
    ensures
        in_project(rows.take(k + 1), project) == if rows[k].project == project {
            in_project(rows.take(k), project).push(rows[k])
        } else {
            in_project(rows.take(k), project)
        },
{
    assert(rows.take(k + 1).drop_last() == rows.take(k));
    assert(rows.take(k + 1).last() == rows[k]);
}

proof fn lemma_remove_all_step<A>(s: Seq<A>, k: int, x: A)
    requires
        0 <= k < s.len(),
    ensures
        remove_all(s.take(k + 1), x) == if s[k] == x {
            remove_all(s.take(k), x)
        } else {
            remove_all(s.take(k), x).push(s[k])
        },
{
    assert(s.take(k + 1).drop_last() == s.take(k));
    assert(s.take(k + 1).last() == s[k]);
}

/// `tags` with every `tag` removed.
fn without_tag(tags: &Vec<String>, tag: &str) -> (r: Vec<String>)
    ensures
        str_views(r@) == remove_all(str_views(tags@), tag@),
{
    let t = owned(tag);
    let mut r: Vec<String> = Vec::new();
    let mut k: usize = 0;
    while k < tags.len()
        invariant
            k <= tags@.len(),
            t@ == tag@,
            str_views(r@) == remove_all(str_views(tags@).take(k as int), tag@),
        decreases tags@.len() - k,
    {
        proof {
            lemma_remove_all_step(str_views(tags@), k as int, tag@);
        }
        if tags[k] != t {
            r.push(tags[k].clone());
        }
        k += 1;
    }
    assert(str_views(tags@).take(tags@.len() as int) == str_views(tags@));
    r
}

/// `ids` with every `x` removed.
fn without_id(ids: &Vec<TodoId>, x: TodoId) -> (r: Vec<TodoId>)
    ensures
        r@ == remove_all(ids@, x),
{
    let mut r: Vec<TodoId> = Vec::new();
    let mut k: usize = 0;
    while k < ids.len()
        invariant
            k <= ids@.len(),
            r@ == remove_all(ids@.take(k as int), x),
        decreases ids@.len() - k,
    {
        proof {
            lemma_remove_all_step(ids@, k as int, x);
        }
        if ids[k] != x {
            r.push(ids[k]);
        }
        k += 1;
    }
    assert(ids@.take(ids@.len() as int) == ids@);
    r
}

/// Whether `ids` holds `x`.
fn has_id(ids: &Vec<TodoId>, x: TodoId) -> (r: bool)
    ensures
        r == ids@.contains(x),
{
    let mut k: usize = 0;
    while k < ids.len()
        invariant
            k <= ids@.len(),
            forall|j: int| 0 <= j < k ==> ids@[j] != x,
        decreases ids@.len() - k,
    {
        if ids[k] == x {
            return true;
        }
        k += 1;
    }
    false
}

/// Whether `tags` holds `tag`.
fn has_tag(tags: &Vec<String>, tag: &String) -> (r: bool)
    ensures
        r == str_views(tags@).contains(tag@),
{
    let mut k: usize = 0;
    while k < tags.len()
        invariant
            k <= tags@.len(),
            forall|j: int| 0 <= j < k ==> tags@[j]@ != tag@,
        decreases tags@.len() - k,
    {
        if tags[k] == *tag {
            assert(str_views(tags@)[k as int] == tag@);
            return true;
        }
        k += 1;
    }
    proof {
        if str_views(tags@).contains(tag@) {
            let j = choose|j: int|
                0 <= j < str_views(tags@).len() && str_views(tags@)[j] == tag@;
            assert(tags@[j]@ == tag@);
        }
    }
    false
}

/// The position of comment `id` in `cs`, or `None`.
fn comment_position(cs: &Vec<Comment>, id: u64) -> (r: Option<usize>)
    ensures
        match r {
            Some(i) => i as int == comment_index(comment_views(cs@), id) && i < cs@.len(),
            None => comment_index(comment_views(cs@), id) < 0,
        },
{
    let ghost v = comment_views(cs@);
    let mut i = cs.len();
    assert(v.take(i as int) == v);
    while i > 0
        invariant
            v == comment_views(cs@),
            i <= cs@.len(),
            comment_index(v, id) == comment_index(v.take(i as int), id),
        decreases i,
    {
        assert(v.take(i as int).drop_last() == v.take(i - 1));
        assert(v.take(i as int).last() == cs@[i - 1]@);
        if cs[i - 1].id == id {
            return Some(i - 1);
        }
        i -= 1;
    }
    None
}

/// The largest comment id in `cs`, or 0.
pub(crate) fn max_comment(cs: &Vec<Comment>) -> (m: u64)
    ensures
        m == max_comment_id(comment_views(cs@)),
{
    let ghost v = comment_views(cs@);
    let mut m: u64 = 0;
    let mut k: usize = 0;
    while k < cs.len()
        invariant
            v == comment_views(cs@),
            k <= cs@.len(),
            m == max_comment_id(v.take(k as int)),
        decreases cs@.len() - k,
    {
        assert(v.take(k + 1).drop_last() == v.take(k as int));
        assert(v.take(k + 1).last() == cs@[k as int]@);
        if cs[k].id > m {
            m = cs[k].id;
        }
        k += 1;
    }
    assert(v.take(cs@.len() as int) == v);
    m
}

proof fn lemma_push_to_set<A>(a: Seq<A>, x: A)
    ensures
        a.push(x).to_set() == a.to_set().insert(x),
{
    a.lemma_push_to_set_commute(x);
}

proof fn lemma_lex_total(a: Seq<char>, b: Seq<char>)
    ensures
        a != b ==> lex_lt(a, b) || lex_lt(b, a),
        !(lex_lt(a, b) && lex_lt(b, a)),
        !lex_lt(a, a),
    decreases a.len(),
{
    if a.len() > 0 && b.len() > 0 && a[0] == b[0] {
        lemma_lex_total(a.drop_first(), b.drop_first());
        if a != b {
            if a.drop_first() =~= b.drop_first() {
                assert(a =~= b) by {
                    assert forall|i: int| 0 <= i < a.len() implies a[i] == b[i] by {
                        if i > 0 {
                            assert(a[i] == a.drop_first()[i - 1]);
                            assert(b[i] == b.drop_first()[i - 1]);
                        }
                    }
                }
            }
        }
    }
    if a.len() > 0 {
        lemma_lex_total(a.drop_first(), a.drop_first());
    }
    if a.len() == 0 && b.len() == 0 {
        assert(a =~= b);
    }
}

proof fn lemma_lex_trans(a: Seq<char>, b: Seq<char>, c: Seq<char>)
    requires
        lex_lt(a, b),
        lex_lt(b, c),
    ensures
        lex_lt(a, c),
    decreases a.len(),
{
    if a.len() > 0 && b.len() > 0 && c.len() > 0 && a[0] == b[0] && b[0] == c[0] {
        lemma_lex_trans(a.drop_first(), b.drop_first(), c.drop_first());
    }
}

/// `tags` with `tag` inserted in order, unless it is there already.
fn insert_sorted(tags: &mut Vec<String>, tag: &String)
    requires
        sorted_strictly(str_views(old(tags)@)),
    ensures
        sorted_strictly(str_views(final(tags)@)),
        str_views(final(tags)@).to_set() == str_views(old(tags)@).to_set().insert(tag@),
{
    let ghost before = str_views(tags@);
    let mut p: usize = 0;
    while p < tags.len() && str_lt(&tags[p], tag)
        invariant
            p <= tags@.len(),
            before == str_views(tags@),
            forall|j: int| 0 <= j < p ==> lex_lt(before[j], tag@),
        decreases tags@.len() - p,
    {
        p += 1;
    }
    if p < tags.len() && tags[p] == *tag {
        assert(before.to_set().insert(tag@) =~= before.to_set()) by {
            assert(before[p as int] == tag@);
        }
        return;
    }
    proof {
        if p < before.len() {
            lemma_lex_total(before[p as int], tag@);
        }
    }
    tags.insert(p, tag.clone());
    let ghost after = str_views(tags@);
    assert(after =~= before.insert(p as int, tag@));
    assert forall|i: int, j: int| 0 <= i < j < after.len() implies lex_lt(after[i], after[j]) by {
        if j < p {
        } else if j == p {
        } else if i < p {
            assert(after[j] == before[j - 1]);
            if j - 1 > p {
                lemma_lex_trans(tag@, before[p as int], before[j - 1]);
            }
            lemma_lex_trans(before[i], tag@, before[j - 1]);
        } else if i == p {
            assert(after[j] == before[j - 1]);
            if j - 1 > p {
                lemma_lex_trans(tag@, before[p as int], before[j - 1]);
            }
        } else {
            assert(after[i] == before[i - 1]);
            assert(after[j] == before[j - 1]);
        }
    }
    assert forall|x: Seq<char>| after.to_set().contains(x) <==> before.to_set().insert(
        tag@,
    ).contains(x) by {
        if after.contains(x) {
            let j = choose|j: int| 0 <= j < after.len() && after[j] == x;
            if j < p {
                assert(before[j] == x);
            } else if j > p {
                assert(before[j - 1] == x);
            }
        }
        if before.contains(x) {
            let j = choose|j: int| 0 <= j < before.len() && before[j] == x;
            if j < p {
                assert(after[j] == x);
            } else {
                assert(after[j + 1] == x);
            }
        }
        if x == tag@ {
            assert(after[p as int] == x);
        }
    }
    assert(after.to_set() =~= before.to_set().insert(tag@));
}

impl TodoRepo for MemTodoRepo {
    closed spec fn rows(&self) -> Seq<RowV> {
        row_views(self.rows@)
    }

    open spec fn durable(&self) -> bool {
        true
    }

    closed spec fn wf(&self) -> bool {
        &&& rows_wf(self.rows())
        &&& forall|i: int| 0 <= i < self.rows@.len() ==> self.rows@[i].id.0 < self.next_id
    }

    open spec fn infallible(&self) -> bool {
        true
    }

    closed spec fn ids_left(&self) -> nat {
        (u64::MAX - self.next_id) as nat
    }

    proof fn lemma_wf(&self) {
    }

    fn create(&mut self, project: ProjectId, doc: &TodoDoc) -> (r: Result<StoredTodo, StoreError>) {
        if self.next_id == u64::MAX {
            return Err(backend("todo ids are exhausted"));
        }
        let t = StoredTodo {
            id: TodoId(self.next_id),
            project,
            doc: doc.duplicate(),
            tags: Vec::new(),
            blockers: Vec::new(),
            comments: Vec::new(),
            completion: None,
            locked_by: None,
            revision: 1,
        };
        assert(str_views(t.tags@) =~= Seq::<Seq<char>>::empty());
        assert(comment_views(t.comments@) =~= Seq::<CommentV>::empty());
        let out = t.duplicate();
        self.rows.push(t);
        self.next_id = self.next_id + 1;
        assert(self.rows() =~= old(self).rows().push(out@));
        Ok(out)
    }

    fn read(&self, project: ProjectId, id: TodoId) -> (r: Result<Option<StoredTodo>, StoreError>) {
        match self.position(project, id) {
            Some(i) => Ok(Some(self.rows[i].duplicate())),
            None => Ok(None),
        }
    }

    fn list(&self, project: ProjectId) -> (r: Result<Vec<StoredTodo>, StoreError>) {
        let ghost rows = self.rows();
        let mut out: Vec<StoredTodo> = Vec::new();
        let mut k: usize = 0;
        while k < self.rows.len()
            invariant
                rows == self.rows(),
                k <= self.rows@.len(),
                row_views(out@) == in_project(rows.take(k as int), project),
            decreases self.rows@.len() - k,
        {
            proof {
                lemma_in_project_step(rows, k as int, project);
            }
            if self.rows[k].project == project {
                out.push(self.rows[k].duplicate());
                assert(row_views(out@) =~= in_project(rows.take(k as int), project).push(
                    rows[k as int],
                ));
            }
            k += 1;
        }
        assert(rows.take(self.rows@.len() as int) == rows);
        Ok(out)
    }

    fn write_doc(&mut self, project: ProjectId, id: TodoId, doc: &TodoDoc, expected: Option<u64>) -> (r:
        Result<TodoWriteResult, StoreError>) {
        let i = match self.position(project, id) {
            Some(i) => i,
            None => {
                return Ok(TodoWriteResult::NotFound);
            },
        };
        let revision = self.rows[i].revision;
        if let Some(e) = expected {
            if e != revision {
                return Ok(TodoWriteResult::Conflict { actual: revision });
            }
        }
        if revision == u64::MAX {
            return Err(backend("todo revision is exhausted"));
        }
        let mut row = self.rows[i].duplicate();
        row.doc = doc.duplicate();
        row.revision = revision + 1;
        let out = self.replace_row(i, row);
        Ok(TodoWriteResult::Written(Box::new(out)))
    }

    fn delete(&mut self, project: ProjectId, id: TodoId) -> (r: Result<bool, StoreError>) {
        match self.position(project, id) {
            Some(i) => {
                let ghost rows = self.rows();
                self.rows.remove(i);
                assert(self.rows() =~= rows.remove(i as int));
                assert forall|a: int, b: int|
                    0 <= a < b < self.rows().len() implies self.rows()[a].id.0
                    < self.rows()[b].id.0 by {
                    if a >= i {
                        assert(self.rows()[a] == rows[a + 1]);
                    } else {
                        assert(self.rows()[a] == rows[a]);
                    }
                    if b >= i {
                        assert(self.rows()[b] == rows[b + 1]);
                    } else {
                        assert(self.rows()[b] == rows[b]);
                    }
                }
                assert forall|a: int| 0 <= a < self.rows@.len() implies self.rows@[a].id.0
                    < self.next_id by {
                    if a >= i {
                        assert(self.rows@[a] == old(self).rows@[a + 1]);
                    }
                }
                Ok(true)
            },
            None => Ok(false),
        }
    }

    fn tags(&self, project: ProjectId) -> (r: Result<Vec<String>, StoreError>) {
        broadcast use vstd::seq_lib::group_seq_properties;

        let ghost rows = self.rows();
        let mut out: Vec<String> = Vec::new();
        let mut k: usize = 0;
        assert(str_views(out@).to_set() =~= Set::<Seq<char>>::empty());
        while k < self.rows.len()
            invariant
                rows == self.rows(),
                k <= self.rows@.len(),
                sorted_strictly(str_views(out@)),
                str_views(out@).to_set() == tags_in(rows.take(k as int), project),
            decreases self.rows@.len() - k,
        {
            let ghost seen = tags_in(rows.take(k as int), project);
            if self.rows[k].project == project {
                let row = &self.rows[k];
                let mut j: usize = 0;
                while j < row.tags.len()
                    invariant
                        rows == self.rows(),
                        k < self.rows@.len(),
                        row == self.rows@[k as int],
                        j <= row.tags@.len(),
                        sorted_strictly(str_views(out@)),
                        str_views(out@).to_set() == seen.union(
                            str_views(row.tags@).take(j as int).to_set(),
                        ),
                    decreases row.tags@.len() - j,
                {
                    let ghost prev = str_views(out@).to_set();
                    insert_sorted(&mut out, &row.tags[j]);
                    assert(str_views(row.tags@).take(j + 1) == str_views(row.tags@).take(
                        j as int,
                    ).push(row.tags@[j as int]@));
                    proof {
                        lemma_push_to_set(
                            str_views(row.tags@).take(j as int),
                            row.tags@[j as int]@,
                        );
                    }
                    assert(str_views(out@).to_set() =~= seen.union(
                        str_views(row.tags@).take(j + 1).to_set(),
                    ));
                    j += 1;
                }
                assert(str_views(row.tags@).take(row.tags@.len() as int) == str_views(row.tags@));
                assert(rows[k as int].tags == str_views(row.tags@));
            }
            assert(tags_in(rows.take(k + 1), project) =~= if rows[k as int].project == project {
                seen.union(rows[k as int].tags.to_set())
            } else {
                seen
            }) by {
                let t1 = rows.take(k + 1);
                let t0 = rows.take(k as int);
                assert forall|x: Seq<char>| tags_in(t1, project).contains(x) <==> (if rows[k as int].project
                    == project {
                    seen.union(rows[k as int].tags.to_set())
                } else {
                    seen
                }).contains(x) by {
                    if tags_in(t1, project).contains(x) {
                        let q = choose|q: int|
                            0 <= q < t1.len() && t1[q].project == project
                                && #[trigger] t1[q].tags.contains(x);
                        if q < k {
                            assert(t0[q] == t1[q]);
                            assert(seen.contains(x));
                        }
                    }
                    if seen.contains(x) {
                        let q = choose|q: int|
                            0 <= q < t0.len() && t0[q].project == project
                                && #[trigger] t0[q].tags.contains(x);
                        assert(t1[q] == t0[q]);
                        assert(t1[q].tags.contains(x));
                    }
                    if rows[k as int].project == project && rows[k as int].tags.to_set().contains(
                        x,
                    ) {
                        assert(t1[k as int] == rows[k as int]);
                        assert(t1[k as int].tags.contains(x));
                    }
                }
            }
            k += 1;
        }
        assert(rows.take(self.rows@.len() as int) == rows);
        Ok(out)
    }

    fn add_tag(&mut self, project: ProjectId, id: TodoId, tag: &str) -> (r: Result<
        Option<StoredTodo>,
        StoreError,
    >) {
        let i = match self.position(project, id) {
            Some(i) => i,
            None => {
                return Ok(None);
            },
        };
        let mut row = self.rows[i].duplicate();
        let t = owned(tag);
        if !has_tag(&row.tags, &t) {
            row.tags.push(t);
            assert(str_views(row.tags@) =~= str_views(self.rows@[i as int].tags@).push(tag@));
        }
        let out = self.replace_row(i, row);
        Ok(Some(out))
    }

    fn remove_tag(&mut self, project: ProjectId, id: TodoId, tag: &str) -> (r: Result<
        Option<StoredTodo>,
        StoreError,
    >) {
        let i = match self.position(project, id) {
            Some(i) => i,
            None => {
                return Ok(None);
            },
        };
        let mut row = self.rows[i].duplicate();
        row.tags = without_tag(&row.tags, tag);
        let out = self.replace_row(i, row);
        Ok(Some(out))
    }

    fn set_blockers(&mut self, project: ProjectId, id: TodoId, blockers: &Vec<TodoId>) -> (r:
        Result<Option<StoredTodo>, StoreError>) {
        let i = match self.position(project, id) {
            Some(i) => i,
            None => {
                return Ok(None);
            },
        };
        let mut row = self.rows[i].duplicate();
        row.blockers = super::duplicate_ids(blockers);
        let out = self.replace_row(i, row);
        Ok(Some(out))
    }

    fn add_blocker(&mut self, project: ProjectId, id: TodoId, blocker: TodoId) -> (r: Result<
        Option<StoredTodo>,
        StoreError,
    >) {
        let i = match self.position(project, id) {
            Some(i) => i,
            None => {
                return Ok(None);
            },
        };
        let mut row = self.rows[i].duplicate();
        if !has_id(&row.blockers, blocker) {
            row.blockers.push(blocker);
        }
        let out = self.replace_row(i, row);
        Ok(Some(out))
    }

    fn remove_blocker(&mut self, project: ProjectId, id: TodoId, blocker: TodoId) -> (r: Result<
        Option<StoredTodo>,
        StoreError,
    >) {
        let i = match self.position(project, id) {
            Some(i) => i,
            None => {
                return Ok(None);
            },
        };
        let mut row = self.rows[i].duplicate();
        row.blockers = without_id(&row.blockers, blocker);
        let out = self.replace_row(i, row);
        Ok(Some(out))
    }

    fn unmet_blockers(&self, project: ProjectId, blockers: &Vec<TodoId>) -> (r: Result<
        Vec<TodoId>,
        StoreError,
    >) {
        let ghost rows = self.rows();
        let mut out: Vec<TodoId> = Vec::new();
        let mut k: usize = 0;
        while k < blockers.len()
            invariant
                rows == self.rows(),
                self.wf(),
                k <= blockers@.len(),
                out@ == unmet(rows, project, blockers@.take(k as int)),
            decreases blockers@.len() - k,
        {
            let b = blockers[k];
            assert(blockers@.take(k + 1).drop_last() == blockers@.take(k as int));
            assert(blockers@.take(k + 1).last() == b);
            match self.position(project, b) {
                Some(i) => {
                    if self.rows[i].doc.status != TodoStatus::Done {
                        out.push(b);
                    }
                },
                None => {},
            }
            k += 1;
        }
        assert(blockers@.take(blockers@.len() as int) == blockers@);
        Ok(out)
    }

    fn lock(&mut self, project: ProjectId, id: TodoId, owner: ProcessId) -> (r: Result<
        Option<StoredTodo>,
        StoreError,
    >) {
        let i = match self.position(project, id) {
            Some(i) => i,
            None => {
                return Ok(None);
            },
        };
        let mut row = self.rows[i].duplicate();
        let free = match row.locked_by {
            None => true,
            Some(holder) => holder == owner,
        };
        if free {
            row.locked_by = Some(owner);
        }
        let out = self.replace_row(i, row);
        Ok(Some(out))
    }

    fn unlock(&mut self, project: ProjectId, id: TodoId, owner: ProcessId) -> (r: Result<
        Option<StoredTodo>,
        StoreError,
    >) {
        let i = match self.position(project, id) {
            Some(i) => i,
            None => {
                return Ok(None);
            },
        };
        let mut row = self.rows[i].duplicate();
        let held = match row.locked_by {
            None => false,
            Some(holder) => holder == owner,
        };
        if held {
            row.locked_by = None;
        }
        let out = self.replace_row(i, row);
        Ok(Some(out))
    }

    fn comment_create(
        &mut self,
        project: ProjectId,
        id: TodoId,
        body: &str,
        author: Option<CommentAuthor>,
    ) -> (r: Result<Option<(StoredTodo, u64)>, StoreError>) {
        let i = match self.position(project, id) {
            Some(i) => i,
            None => {
                return Ok(None);
            },
        };
        let mut row = self.rows[i].duplicate();
        let m = max_comment(&row.comments);
        if m == u64::MAX {
            return Err(backend("comment ids are exhausted"));
        }
        let c = m + 1;
        row.comments.push(Comment { id: c, body: owned(body), author });
        assert(comment_views(row.comments@) =~= comment_views(self.rows@[i as int].comments@).push(
            CommentV { id: c, body: body@, author: author_view(author) },
        ));
        let out = self.replace_row(i, row);
        Ok(Some((out, c)))
    }

    fn comment_update(&mut self, project: ProjectId, id: TodoId, comment: u64, body: &str) -> (r:
        Result<CommentEdit, StoreError>) {
        let i = match self.position(project, id) {
            Some(i) => i,
            None => {
                return Ok(CommentEdit::NoTodo);
            },
        };
        let mut row = self.rows[i].duplicate();
        let c = match comment_position(&row.comments, comment) {
            Some(c) => c,
            None => {
                return Ok(CommentEdit::NoComment);
            },
        };
        let ghost before = comment_views(row.comments@);
        let edited = Comment {
            id: row.comments[c].id,
            body: owned(body),
            author: crate::todo_comment::duplicate_author(&row.comments[c].author),
        };
        row.comments.set(c, edited);
        assert(comment_views(row.comments@) =~= before.update(
            c as int,
            CommentV { body: body@, ..before[c as int] },
        ));
        let out = self.replace_row(i, row);
        Ok(CommentEdit::Edited(Box::new(out)))
    }

    fn comment_delete(&mut self, project: ProjectId, id: TodoId, comment: u64) -> (r: Result<
        CommentEdit,
        StoreError,
    >) {
        let i = match self.position(project, id) {
            Some(i) => i,
            None => {
                return Ok(CommentEdit::NoTodo);
            },
        };
        let mut row = self.rows[i].duplicate();
        let c = match comment_position(&row.comments, comment) {
            Some(c) => c,
            None => {
                return Ok(CommentEdit::NoComment);
            },
        };
        let ghost before = comment_views(row.comments@);
        row.comments.remove(c);
        assert(comment_views(row.comments@) =~= before.remove(c as int));
        let out = self.replace_row(i, row);
        Ok(CommentEdit::Edited(Box::new(out)))
    }

    fn release_owner(&mut self, process: ProcessId) -> (r: Result<usize, StoreError>) {
        let ghost rows = self.rows();
        let n = self.rows.len();
        let mut count: usize = 0;
        let mut k: usize = 0;
        while k < n
            invariant
                n == self.rows@.len(),
                rows.len() == n,
                self.wf(),
                self.next_id == old(self).next_id,
                k <= n,
                count == held_by(rows.take(k as int), process),
                count <= k,
                forall|j: int| 0 <= j < k ==> self.rows()[j] == unlocked_for(rows[j], process),
                forall|j: int| k <= j < n ==> self.rows()[j] == rows[j],
            decreases n - k,
        {
            assert(rows.take(k + 1).drop_last() == rows.take(k as int));
            assert(rows.take(k + 1).last() == rows[k as int]);
            let held = match self.rows[k].locked_by {
                None => false,
                Some(holder) => holder == process,
            };
            if held {
                let mut row = self.rows[k].duplicate();
                row.locked_by = None;
                let _ = self.replace_row(k, row);
                count = count + 1;
            }
            k += 1;
        }
        assert(self.rows() =~= released(rows, process));
        assert(rows.take(n as int) == rows);
        Ok(count)
    }

    fn clear_locks(&mut self) -> (r: Result<usize, StoreError>) {
        let ghost rows = self.rows();
        let n = self.rows.len();
        let mut count: usize = 0;
        let mut k: usize = 0;
        while k < n
            invariant
                n == self.rows@.len(),
                rows.len() == n,
                self.wf(),
                self.next_id == old(self).next_id,
                k <= n,
                count == locked_count(rows.take(k as int)),
                count <= k,
                forall|j: int| 0 <= j < k ==> self.rows()[j] == (RowV { locked_by: None, ..rows[j] }),
                forall|j: int| k <= j < n ==> self.rows()[j] == rows[j],
            decreases n - k,
        {
            assert(rows.take(k + 1).drop_last() == rows.take(k as int));
            assert(rows.take(k + 1).last() == rows[k as int]);
            if self.rows[k].locked_by.is_some() {
                let mut row = self.rows[k].duplicate();
                row.locked_by = None;
                let _ = self.replace_row(k, row);
                count = count + 1;
            }
            k += 1;
        }
        assert(self.rows() =~= unlocked(rows));
        assert(rows.take(n as int) == rows);
        Ok(count)
    }

    fn transfer(&mut self, from: ProjectId, to: ProjectId, id: TodoId) -> (r: Result<
        Option<StoredTodo>,
        StoreError,
    >) {
        let i = match self.position(from, id) {
            Some(i) => i,
            None => {
                return Ok(None);
            },
        };
        let mut row = self.rows[i].duplicate();
        row.project = to;
        row.blockers = Vec::new();
        row.locked_by = None;
        assert(row.blockers@ =~= Seq::<TodoId>::empty());
        let out = self.replace_row(i, row);
        Ok(Some(out))
    }

    fn apply_completion(
        &mut self,
        project: ProjectId,
        id: TodoId,
        key: TodoCompletionKey,
        summary: &str,
        author: &CommentAuthor,
    ) -> (r: Result<TodoCompletionAtomicResult, StoreError>) {
        let i = match self.position(project, id) {
            Some(i) => i,
            None => {
                return Ok(TodoCompletionAtomicResult::NotFound);
            },
        };
        let stored = self.rows[i].duplicate();
        let open = match self.unmet_blockers(project, &stored.blockers) {
            Ok(open) => open,
            Err(e) => {
                return Err(e);
            },
        };
        match completion_decision(&stored, open, id, key, summary, author) {
            CompletionDecision::Existing(_) => Ok(TodoCompletionAtomicResult::Existing(Box::new(stored))),
            CompletionDecision::Refuse(TodoError::Store(e)) => Err(e),
            CompletionDecision::Refuse(e) => Ok(TodoCompletionAtomicResult::Refused(e)),
            CompletionDecision::Record { doc, result, record } => {
                let revision = stored.revision;
                if revision == u64::MAX {
                    return Err(backend("todo revision is exhausted"));
                }
                let mut row = stored.duplicate();
                let ghost before = comment_views(row.comments@);
                let ghost written = completed(stored@, doc@, result@, record@);
                row.doc = doc;
                row.comments.push(result);
                row.completion = Some(record);
                row.revision = revision + 1;
                assert(comment_views(row.comments@) =~= before.push(result@));
                assert(row@ == written);
                assert(written == completed_by(stored@, id, key, summary@, author@));
                let out = self.replace_row(i, row);
                Ok(TodoCompletionAtomicResult::Recorded(Box::new(out)))
            },
        }
    }

    fn compare_completion(
        &mut self,
        project: ProjectId,
        id: TodoId,
        expected: &TodoCompletion,
        replacement: &TodoCompletion,
    ) -> (r: Result<TodoCompletionCompareResult, StoreError>) {
        let i = match self.position(project, id) {
            Some(i) => i,
            None => {
                return Ok(TodoCompletionCompareResult::NotFound);
            },
        };
        let matches = match &self.rows[i].completion {
            Some(current) => current.same_as(expected),
            None => false,
        };
        if !matches {
            return Ok(TodoCompletionCompareResult::Mismatch(Box::new(self.rows[i].duplicate())));
        }
        let mut row = self.rows[i].duplicate();
        row.completion = Some(replacement.duplicate());
        let out = self.replace_row(i, row);
        Ok(TodoCompletionCompareResult::Written(Box::new(out)))
    }
}

} // verus!
