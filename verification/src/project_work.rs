//! The project-work read model: the coordination documents a project's live processes hold or
//! touched this run — the sidebar's Todos and Scratchpads groups.
//!
//! Every participant's role is derived on read from the project's todos and scratchpads and from
//! what each live process was recorded touching, joined against the live process registry so a
//! process that has closed never strands a row. A recorded id with no live document is dropped on
//! the join, so a deleted todo or scratchpad can never strand a stale title in the sidebar.

use vstd::prelude::*;

use crate::ids::{ProcessId, ProjectId, ScratchpadId, TodoId};
use crate::todo::{SummaryV, TodoSummary};
use crate::todo_doc::TodoStatus;

verus! {

/// How far a process went with a document this run: it read it, or it wrote to it.
#[derive(Clone, Copy, Debug, PartialEq, Eq, Structural)]
pub enum AccessKind {
    /// The document was read.
    Loaded,
    /// The document was written.
    Worked,
}

/// The part a live process plays on a document.
#[derive(Clone, Copy, Debug, PartialEq, Eq, Structural)]
pub enum DocumentRole {
    /// It holds the todo's lock.
    Implementing,
    /// It wrote to the document this run.
    Editing,
    /// It read the document this run.
    Reading,
}

/// A live process from the registry, with what it was recorded touching this run.
#[derive(Clone, Debug, PartialEq, Eq)]
pub struct LiveProcess {
    pub id: ProcessId,
    pub project: ProjectId,
    pub label: String,
    pub todos: Vec<(TodoId, AccessKind)>,
    pub scratchpads: Vec<(ScratchpadId, AccessKind)>,
}

/// A scratchpad as a project lists it: its durable id and current name.
#[derive(Clone, Debug, PartialEq, Eq)]
pub struct ScratchpadSummary {
    pub id: ScratchpadId,
    pub name: String,
}

/// One live process on a document, with the part it plays.
#[derive(Clone, Debug, PartialEq, Eq)]
pub struct DocumentParticipant {
    pub process: ProcessId,
    pub label: String,
    pub role: DocumentRole,
}

/// A todo some live process holds or touched, with everyone on it.
#[derive(Clone, Debug, PartialEq, Eq)]
pub struct TodoWork {
    pub id: TodoId,
    pub title: String,
    pub status: TodoStatus,
    pub participants: Vec<DocumentParticipant>,
}

/// A scratchpad some live process touched, with everyone on it.
#[derive(Clone, Debug, PartialEq, Eq)]
pub struct ScratchpadWork {
    pub id: ScratchpadId,
    pub name: String,
    pub participants: Vec<DocumentParticipant>,
}

/// What a project's live processes are working on, grouped by document.
#[derive(Clone, Debug, PartialEq, Eq)]
pub struct ProjectWork {
    pub project: ProjectId,
    pub todos: Vec<TodoWork>,
    pub scratchpads: Vec<ScratchpadWork>,
}

// ---------------------------------------------------------------------------------------------
// Views.
// ---------------------------------------------------------------------------------------------

pub ghost struct LiveV {
    pub id: ProcessId,
    pub project: ProjectId,
    pub label: Seq<char>,
    pub todos: Seq<(TodoId, AccessKind)>,
    pub scratchpads: Seq<(ScratchpadId, AccessKind)>,
}

pub ghost struct ScratchpadSummaryV {
    pub id: ScratchpadId,
    pub name: Seq<char>,
}

pub ghost struct ParticipantV {
    pub process: ProcessId,
    pub label: Seq<char>,
    pub role: DocumentRole,
}

pub ghost struct TodoWorkV {
    pub id: TodoId,
    pub title: Seq<char>,
    pub status: TodoStatus,
    pub participants: Seq<ParticipantV>,
}

pub ghost struct ScratchpadWorkV {
    pub id: ScratchpadId,
    pub name: Seq<char>,
    pub participants: Seq<ParticipantV>,
}

pub ghost struct ProjectWorkV {
    pub project: ProjectId,
    pub todos: Seq<TodoWorkV>,
    pub scratchpads: Seq<ScratchpadWorkV>,
}

impl View for LiveProcess {
    type V = LiveV;

    open spec fn view(&self) -> LiveV {
        LiveV {
            id: self.id,
            project: self.project,
            label: self.label@,
            todos: self.todos@,
            scratchpads: self.scratchpads@,
        }
    }
}

impl View for ScratchpadSummary {
    type V = ScratchpadSummaryV;

    open spec fn view(&self) -> ScratchpadSummaryV {
        ScratchpadSummaryV { id: self.id, name: self.name@ }
    }
}

impl View for DocumentParticipant {
    type V = ParticipantV;

    open spec fn view(&self) -> ParticipantV {
        ParticipantV { process: self.process, label: self.label@, role: self.role }
    }
}

pub open spec fn participant_views(v: Seq<DocumentParticipant>) -> Seq<ParticipantV> {
    v.map_values(|p: DocumentParticipant| p@)
}

impl View for TodoWork {
    type V = TodoWorkV;

    open spec fn view(&self) -> TodoWorkV {
        TodoWorkV {
            id: self.id,
            title: self.title@,
            status: self.status,
            participants: participant_views(self.participants@),
        }
    }
}

impl View for ScratchpadWork {
    type V = ScratchpadWorkV;

    open spec fn view(&self) -> ScratchpadWorkV {
        ScratchpadWorkV {
            id: self.id,
            name: self.name@,
            participants: participant_views(self.participants@),
        }
    }
}

impl View for ProjectWork {
    type V = ProjectWorkV;

    open spec fn view(&self) -> ProjectWorkV {
        ProjectWorkV {
            project: self.project,
            todos: self.todos@.map_values(|t: TodoWork| t@),
            scratchpads: self.scratchpads@.map_values(|s: ScratchpadWork| s@),
        }
    }
}

pub open spec fn live_views(v: Seq<LiveProcess>) -> Seq<LiveV> {
    v.map_values(|p: LiveProcess| p@)
}

// ---------------------------------------------------------------------------------------------
// The read model.
// ---------------------------------------------------------------------------------------------

/// The recorded access kind for `id` — the first one recorded — or `None` when it was never
/// recorded.
pub open spec fn access_of<Id>(recorded: Seq<(Id, AccessKind)>, id: Id) -> Option<AccessKind>
    decreases recorded.len(),
{
    if recorded.len() == 0 {
        None
    } else if recorded[0].0 == id {
        Some(recorded[0].1)
    } else {
        access_of(recorded.drop_first(), id)
    }
}

/// The role a recorded access earns: a write is editing, a read is reading.
pub open spec fn role_of(access: Option<AccessKind>) -> Option<DocumentRole> {
    match access {
        Some(AccessKind::Worked) => Some(DocumentRole::Editing),
        Some(AccessKind::Loaded) => Some(DocumentRole::Reading),
        None => None,
    }
}

/// The role `p` plays on todo `t`: implementing while it holds the lock, whatever it recorded;
/// otherwise what its recorded access earns.
pub open spec fn todo_role(p: LiveV, t: SummaryV) -> Option<DocumentRole> {
    if t.locked_by == Some(p.id) {
        Some(DocumentRole::Implementing)
    } else {
        role_of(access_of(p.todos, t.id))
    }
}

/// The role `p` plays on scratchpad `s`: what its recorded access earns.
pub open spec fn scratchpad_role(p: LiveV, s: ScratchpadSummaryV) -> Option<DocumentRole> {
    role_of(access_of(p.scratchpads, s.id))
}

/// The processes of `ps` that play a part by `role`, in order, each with that part.
pub open spec fn participants(ps: Seq<LiveV>, role: spec_fn(LiveV) -> Option<DocumentRole>) -> Seq<
    ParticipantV,
>
    decreases ps.len(),
{
    if ps.len() == 0 {
        Seq::empty()
    } else {
        let rest = participants(ps.drop_last(), role);
        match role(ps.last()) {
            Some(r) => rest.push(ParticipantV { process: ps.last().id, label: ps.last().label, role: r }),
            None => rest,
        }
    }
}

/// The todos of `todos` that are not done and have someone on them, in order.
pub open spec fn todo_work(ps: Seq<LiveV>, todos: Seq<SummaryV>) -> Seq<TodoWorkV>
    decreases todos.len(),
{
    if todos.len() == 0 {
        Seq::empty()
    } else {
        let rest = todo_work(ps, todos.drop_last());
        let t = todos.last();
        let on = participants(ps, |p: LiveV| todo_role(p, t));
        if t.status == TodoStatus::Done || on.len() == 0 {
            rest
        } else {
            rest.push(TodoWorkV { id: t.id, title: t.title, status: t.status, participants: on })
        }
    }
}

/// The scratchpads of `pads` that have someone on them, in order.
pub open spec fn scratchpad_work(ps: Seq<LiveV>, pads: Seq<ScratchpadSummaryV>) -> Seq<
    ScratchpadWorkV,
>
    decreases pads.len(),
{
    if pads.len() == 0 {
        Seq::empty()
    } else {
        let rest = scratchpad_work(ps, pads.drop_last());
        let s = pads.last();
        let on = participants(ps, |p: LiveV| scratchpad_role(p, s));
        if on.len() == 0 {
            rest
        } else {
            rest.push(ScratchpadWorkV { id: s.id, name: s.name, participants: on })
        }
    }
}

/// `s` with `x` placed after every process whose id is at most `x`'s, keeping order otherwise.
pub open spec fn insert_by_id(s: Seq<LiveV>, x: LiveV) -> Seq<LiveV>
    decreases s.len(),
{
    if s.len() == 0 {
        seq![x]
    } else if s.last().id.0 > x.id.0 {
        insert_by_id(s.drop_last(), x).push(s.last())
    } else {
        s.push(x)
    }
}

/// `s` ordered by process id; processes with one id keep their order (a stable sort).
pub open spec fn by_id(s: Seq<LiveV>) -> Seq<LiveV>
    decreases s.len(),
{
    if s.len() == 0 {
        Seq::empty()
    } else {
        insert_by_id(by_id(s.drop_last()), s.last())
    }
}

/// The processes of `s` in `project`, in order.
pub open spec fn in_live_project(s: Seq<LiveV>, project: ProjectId) -> Seq<LiveV>
    decreases s.len(),
{
    if s.len() == 0 {
        Seq::empty()
    } else {
        let rest = in_live_project(s.drop_last(), project);
        if s.last().project == project {
            rest.push(s.last())
        } else {
            rest
        }
    }
}

/// What `project`'s live processes are working on, from the registry `live`, the project's todo
/// summaries, and its scratchpad summaries.
pub open spec fn spec_project_work(
    project: ProjectId,
    live: Seq<LiveV>,
    todos: Seq<SummaryV>,
    pads: Seq<ScratchpadSummaryV>,
) -> ProjectWorkV {
    let ps = by_id(in_live_project(live, project));
    ProjectWorkV { project, todos: todo_work(ps, todos), scratchpads: scratchpad_work(ps, pads) }
}

proof fn lemma_insert_at(s: Seq<LiveV>, x: LiveV, p: int)
    requires
        0 <= p <= s.len(),
        forall|j: int| p <= j < s.len() ==> s[j].id.0 > x.id.0,
        p == 0 || s[p - 1].id.0 <= x.id.0,
    ensures
        insert_by_id(s, x) == s.take(p).push(x) + s.skip(p),
    decreases s.len(),
{
    if s.len() == 0 {
        assert(s.take(p).push(x) + s.skip(p) =~= seq![x]);
    } else if s.last().id.0 > x.id.0 {
        let d = s.drop_last();
        assert(p < s.len());
        assert forall|j: int| p <= j < d.len() implies d[j].id.0 > x.id.0 by {
            assert(d[j] == s[j]);
        }
        if p > 0 {
            assert(d[p - 1] == s[p - 1]);
        }
        lemma_insert_at(d, x, p);
        assert(d.take(p).push(x) + d.skip(p) + seq![s.last()] =~= s.take(p).push(x) + s.skip(p));
        assert(insert_by_id(d, x).push(s.last()) =~= insert_by_id(d, x) + seq![s.last()]);
    } else {
        assert(p == s.len());
        assert(s.take(p).push(x) + s.skip(p) =~= s.push(x));
    }
}

/// The first recorded access to todo `id`.
fn todo_access(recorded: &Vec<(TodoId, AccessKind)>, id: TodoId) -> (r: Option<AccessKind>)
    ensures
        r == access_of(recorded@, id),
{
    let mut k: usize = 0;
    assert(recorded@.skip(0) =~= recorded@);
    while k < recorded.len()
        invariant
            k <= recorded@.len(),
            access_of(recorded@, id) == access_of(recorded@.skip(k as int), id),
        decreases recorded@.len() - k,
    {
        assert(recorded@.skip(k as int).drop_first() =~= recorded@.skip(k + 1));
        let (rid, kind) = recorded[k];
        if rid == id {
            return Some(kind);
        }
        k += 1;
    }
    None
}

/// The first recorded access to scratchpad `id`.
fn scratchpad_access(recorded: &Vec<(ScratchpadId, AccessKind)>, id: ScratchpadId) -> (r: Option<
    AccessKind,
>)
    ensures
        r == access_of(recorded@, id),
{
    let mut k: usize = 0;
    assert(recorded@.skip(0) =~= recorded@);
    while k < recorded.len()
        invariant
            k <= recorded@.len(),
            access_of(recorded@, id) == access_of(recorded@.skip(k as int), id),
        decreases recorded@.len() - k,
    {
        assert(recorded@.skip(k as int).drop_first() =~= recorded@.skip(k + 1));
        let (rid, kind) = recorded[k];
        if rid == id {
            return Some(kind);
        }
        k += 1;
    }
    None
}

fn role_from(access: Option<AccessKind>) -> (r: Option<DocumentRole>)
    ensures
        r == role_of(access),
{
    match access {
        Some(AccessKind::Worked) => Some(DocumentRole::Editing),
        Some(AccessKind::Loaded) => Some(DocumentRole::Reading),
        None => None,
    }
}

/// The processes of `live` in `project`, ordered by id (stably).
fn project_processes(live: Vec<LiveProcess>, project: ProjectId) -> (out: Vec<LiveProcess>)
    ensures
        live_views(out@) == by_id(in_live_project(live_views(live@), project)),
{
    let ghost all = live_views(live@);
    let mut rest = live;
    let mut mine: Vec<LiveProcess> = Vec::new();
    let mut k: usize = 0;
    let n = rest.len();
    assert(all.skip(0) =~= all);
    while rest.len() > 0
        invariant
            n == all.len(),
            k + rest@.len() == n,
            live_views(rest@) == all.skip(k as int),
            live_views(mine@) == in_live_project(all.take(k as int), project),
        decreases rest@.len(),
    {
        assert(live_views(rest@)[0] == rest@[0]@);
        let ghost before = live_views(rest@);
        let p = rest.remove(0);
        assert(live_views(rest@) =~= before.skip(1));
        assert(all.skip(k as int).skip(1) =~= all.skip(k + 1));
        assert(all.take(k + 1).drop_last() =~= all.take(k as int));
        assert(all.take(k + 1).last() == p@);
        if p.project == project {
            mine.push(p);
            assert(live_views(mine@) =~= in_live_project(all.take(k as int), project).push(
                all[k as int],
            ));
        }
        k += 1;
    }
    assert(all.take(n as int) =~= all);
    let ghost src = live_views(mine@);
    let mut sorted: Vec<LiveProcess> = Vec::new();
    let mut j: usize = 0;
    let m = mine.len();
    assert(src.skip(0) =~= src);
    assert(live_views(sorted@) =~= Seq::<LiveV>::empty());
    while mine.len() > 0
        invariant
            m == src.len(),
            j + mine@.len() == m,
            live_views(mine@) == src.skip(j as int),
            live_views(sorted@) == by_id(src.take(j as int)),
        decreases mine@.len(),
    {
        assert(live_views(mine@)[0] == mine@[0]@);
        let ghost before = live_views(mine@);
        let x = mine.remove(0);
        assert(live_views(mine@) =~= before.skip(1));
        assert(src.skip(j as int).skip(1) =~= src.skip(j + 1));
        assert(src.take(j + 1).drop_last() =~= src.take(j as int));
        assert(src.take(j + 1).last() == x@);
        let ghost s = live_views(sorted@);
        let mut p = sorted.len();
        while p > 0 && sorted[p - 1].id.0 > x.id.0
            invariant
                p <= sorted@.len(),
                s == live_views(sorted@),
                forall|q: int| p <= q < s.len() ==> s[q].id.0 > x.id.0,
            decreases p,
        {
            p -= 1;
        }
        proof {
            lemma_insert_at(s, x@, p as int);
        }
        sorted.insert(p, x);
        assert(live_views(sorted@) =~= s.take(p as int).push(x@) + s.skip(p as int));
        j += 1;
    }
    assert(src.take(m as int) =~= src);
    sorted
}

/// Everyone in `ps` on todo `t`, in order.
fn todo_participants(ps: &Vec<LiveProcess>, t: &TodoSummary) -> (out: Vec<DocumentParticipant>)
    ensures
        participant_views(out@) == participants(live_views(ps@), |p: LiveV| todo_role(p, t@)),
{
    let ghost all = live_views(ps@);
    let ghost role = |p: LiveV| todo_role(p, t@);
    let mut out: Vec<DocumentParticipant> = Vec::new();
    let mut k: usize = 0;
    assert(participant_views(out@) =~= Seq::<ParticipantV>::empty());
    while k < ps.len()
        invariant
            all == live_views(ps@),
            role == (|p: LiveV| todo_role(p, t@)),
            k <= ps@.len(),
            participant_views(out@) == participants(all.take(k as int), role),
        decreases ps@.len() - k,
    {
        let p = &ps[k];
        assert(all.take(k + 1).drop_last() =~= all.take(k as int));
        assert(all.take(k + 1).last() == p@);
        let role_here = if t.locked_by == Some(p.id) {
            Some(DocumentRole::Implementing)
        } else {
            role_from(todo_access(&p.todos, t.id))
        };
        if let Some(r) = role_here {
            out.push(DocumentParticipant { process: p.id, label: p.label.clone(), role: r });
            assert(participant_views(out@) =~= participants(all.take(k as int), role).push(
                ParticipantV { process: p.id, label: p.label@, role: r },
            ));
        }
        k += 1;
    }
    assert(all.take(ps@.len() as int) =~= all);
    out
}

/// Everyone in `ps` on scratchpad `s`, in order.
fn scratchpad_participants(ps: &Vec<LiveProcess>, s: &ScratchpadSummary) -> (out: Vec<
    DocumentParticipant,
>)
    ensures
        participant_views(out@) == participants(live_views(ps@), |p: LiveV| scratchpad_role(p, s@)),
{
    let ghost all = live_views(ps@);
    let ghost role = |p: LiveV| scratchpad_role(p, s@);
    let mut out: Vec<DocumentParticipant> = Vec::new();
    let mut k: usize = 0;
    assert(participant_views(out@) =~= Seq::<ParticipantV>::empty());
    while k < ps.len()
        invariant
            all == live_views(ps@),
            role == (|p: LiveV| scratchpad_role(p, s@)),
            k <= ps@.len(),
            participant_views(out@) == participants(all.take(k as int), role),
        decreases ps@.len() - k,
    {
        let p = &ps[k];
        assert(all.take(k + 1).drop_last() =~= all.take(k as int));
        assert(all.take(k + 1).last() == p@);
        let role_here = role_from(scratchpad_access(&p.scratchpads, s.id));
        if let Some(r) = role_here {
            out.push(DocumentParticipant { process: p.id, label: p.label.clone(), role: r });
            assert(participant_views(out@) =~= participants(all.take(k as int), role).push(
                ParticipantV { process: p.id, label: p.label@, role: r },
            ));
        }
        k += 1;
    }
    assert(all.take(ps@.len() as int) =~= all);
    out
}

/// The coordination documents `project`'s live processes hold or touched this run, grouped by
/// document: from the registry `live` (every live process, with what it was recorded touching),
/// the project's todo summaries, and its scratchpad summaries. Participants are listed by process
/// id. A todo that is done, and a document no live process of the project is on, is left out; a
/// recorded id with no document in the lists names nothing. A project with nothing touched gets
/// empty lists.
pub fn project_work(
    project: ProjectId,
    live: Vec<LiveProcess>,
    todos: Vec<TodoSummary>,
    scratchpads: Vec<ScratchpadSummary>,
) -> (w: ProjectWork)
    ensures
        w@ == spec_project_work(
            project,
            live_views(live@),
            todos@.map_values(|t: TodoSummary| t@),
            scratchpads@.map_values(|s: ScratchpadSummary| s@),
        ),
{
    let ps = project_processes(live, project);
    let ghost pv = live_views(ps@);
    let ghost tv = todos@.map_values(|t: TodoSummary| t@);
    let ghost sv = scratchpads@.map_values(|s: ScratchpadSummary| s@);
    let mut todo_out: Vec<TodoWork> = Vec::new();
    let mut k: usize = 0;
    while k < todos.len()
        invariant
            pv == live_views(ps@),
            tv == todos@.map_values(|t: TodoSummary| t@),
            k <= todos@.len(),
            todo_out@.map_values(|t: TodoWork| t@) == todo_work(pv, tv.take(k as int)),
        decreases todos@.len() - k,
    {
        let t = &todos[k];
        assert(tv.take(k + 1).drop_last() =~= tv.take(k as int));
        assert(tv.take(k + 1).last() == t@);
        let on = todo_participants(&ps, t);
        let done = match t.status {
            TodoStatus::Done => true,
            _ => false,
        };
        if !done && on.len() > 0 {
            let ghost before = todo_out@.map_values(|t: TodoWork| t@);
            todo_out.push(TodoWork { id: t.id, title: t.title.clone(), status: t.status, participants: on });
            assert(todo_out@.map_values(|t: TodoWork| t@) =~= before.push(
                todo_out@[todo_out@.len() - 1]@,
            ));
        }
        k += 1;
    }
    assert(tv.take(todos@.len() as int) =~= tv);
    let mut pad_out: Vec<ScratchpadWork> = Vec::new();
    let mut j: usize = 0;
    while j < scratchpads.len()
        invariant
            pv == live_views(ps@),
            sv == scratchpads@.map_values(|s: ScratchpadSummary| s@),
            j <= scratchpads@.len(),
            pad_out@.map_values(|s: ScratchpadWork| s@) == scratchpad_work(pv, sv.take(j as int)),
        decreases scratchpads@.len() - j,
    {
        let s = &scratchpads[j];
        assert(sv.take(j + 1).drop_last() =~= sv.take(j as int));
        assert(sv.take(j + 1).last() == s@);
        let on = scratchpad_participants(&ps, s);
        if on.len() > 0 {
            let ghost before = pad_out@.map_values(|s: ScratchpadWork| s@);
            pad_out.push(ScratchpadWork { id: s.id, name: s.name.clone(), participants: on });
            assert(pad_out@.map_values(|s: ScratchpadWork| s@) =~= before.push(
                pad_out@[pad_out@.len() - 1]@,
            ));
        }
        j += 1;
    }
    assert(sv.take(scratchpads@.len() as int) =~= sv);
    ProjectWork { project, todos: todo_out, scratchpads: pad_out }
}

} // verus!
