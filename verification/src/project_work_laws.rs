//! What the project-work read model promises of every answer: it names only live processes of
//! the project, only documents it was handed (and no finished todo), and lists each document's
//! participants in process-id order.

use vstd::prelude::*;

use crate::ids::ProjectId;
use crate::project_work::{
    scratchpad_role, scratchpad_work,
    by_id, in_live_project, insert_by_id, participants, spec_project_work, todo_role, todo_work,
    LiveV, ParticipantV, ScratchpadSummaryV, DocumentRole,
};
use crate::todo::SummaryV;
use crate::todo_doc::TodoStatus;

verus! {

/// Whether some process of `live` in `project` has `p`'s id and label.
pub open spec fn is_live_in(live: Seq<LiveV>, project: ProjectId, p: ParticipantV) -> bool {
    exists|q: int|
        0 <= q < live.len() && live[q].project == project && live[q].id == p.process
            && live[q].label == p.label
}

/// Whether `s` is ordered by process id.
pub open spec fn ids_ascending(s: Seq<ParticipantV>) -> bool {
    forall|a: int, b: int| 0 <= a < b < s.len() ==> s[a].process.0 <= s[b].process.0
}

proof fn lemma_insert_contains(s: Seq<LiveV>, x: LiveV, y: LiveV)
    requires
        insert_by_id(s, x).contains(y),
    ensures
        y == x || s.contains(y),
    decreases s.len(),
{
    if s.len() > 0 && s.last().id.0 > x.id.0 {
        let d = s.drop_last();
        let r = insert_by_id(d, x);
        if r.contains(y) {
            lemma_insert_contains(d, x, y);
            if d.contains(y) {
                let w = choose|w: int| 0 <= w < d.len() && d[w] == y;
                assert(s[w] == y);
            }
        } else {
            let k = choose|k: int| 0 <= k < r.push(s.last()).len() && r.push(s.last())[k] == y;
            assert(k == r.len());
            assert(s[s.len() - 1] == y);
        }
    } else if s.len() > 0 {
        let k = choose|k: int| 0 <= k < s.push(x).len() && s.push(x)[k] == y;
        if k < s.len() {
            assert(s[k] == y);
        }
    }
}

proof fn lemma_by_id_contains(s: Seq<LiveV>, y: LiveV)
    requires
        by_id(s).contains(y),
    ensures
        s.contains(y),
    decreases s.len(),
{
    if s.len() > 0 {
        let d = s.drop_last();
        lemma_insert_contains(by_id(d), s.last(), y);
        if y != s.last() {
            lemma_by_id_contains(d, y);
            let w = choose|w: int| 0 <= w < d.len() && d[w] == y;
            assert(s[w] == y);
        } else {
            assert(s[s.len() - 1] == y);
        }
    }
}

proof fn lemma_in_project_contains(s: Seq<LiveV>, project: ProjectId, y: LiveV)
    requires
        in_live_project(s, project).contains(y),
    ensures
        s.contains(y),
        y.project == project,
    decreases s.len(),
{
    if s.len() > 0 {
        let d = s.drop_last();
        let rest = in_live_project(d, project);
        if rest.contains(y) {
            lemma_in_project_contains(d, project, y);
            let w = choose|w: int| 0 <= w < d.len() && d[w] == y;
            assert(s[w] == y);
        } else {
            let k = choose|k: int|
                0 <= k < in_live_project(s, project).len() && in_live_project(s, project)[k] == y;
            assert(k == rest.len());
            assert(s[s.len() - 1] == y);
        }
    }
}

proof fn lemma_insert_sorted(s: Seq<LiveV>, x: LiveV)
    requires
        forall|a: int, b: int| 0 <= a < b < s.len() ==> s[a].id.0 <= s[b].id.0,
    ensures
        forall|a: int, b: int|
            0 <= a < b < insert_by_id(s, x).len() ==> insert_by_id(s, x)[a].id.0 <= insert_by_id(
                s,
                x,
            )[b].id.0,
        insert_by_id(s, x).len() == s.len() + 1,
        forall|k: int| 0 <= k < insert_by_id(s, x).len() ==> (#[trigger] insert_by_id(s, x)[k] == x
            || s.contains(insert_by_id(s, x)[k])),
    decreases s.len(),
{
    if s.len() > 0 && s.last().id.0 > x.id.0 {
        let d = s.drop_last();
        lemma_insert_sorted(d, x);
        let r = insert_by_id(d, x);
        assert forall|k: int| 0 <= k < r.len() implies r[k].id.0 <= s.last().id.0 by {
            if r[k] != x {
                let w = choose|w: int| 0 <= w < d.len() && d[w] == r[k];
                assert(s[w] == d[w]);
            }
        }
        assert forall|k: int| 0 <= k < r.push(s.last()).len() implies (#[trigger] r.push(
            s.last(),
        )[k] == x || s.contains(r.push(s.last())[k])) by {
            if k == r.len() {
                assert(s[s.len() - 1] == s.last());
            } else if r[k] != x {
                let w = choose|w: int| 0 <= w < d.len() && d[w] == r[k];
                assert(s[w] == r[k]);
            }
        }
    } else if s.len() > 0 {
        assert forall|k: int| 0 <= k < s.push(x).len() implies (#[trigger] s.push(x)[k] == x
            || s.contains(s.push(x)[k])) by {
            if k < s.len() {
                assert(s[k] == s.push(x)[k]);
            }
        }
    }
}

proof fn lemma_by_id_sorted(s: Seq<LiveV>)
    ensures
        forall|a: int, b: int| 0 <= a < b < by_id(s).len() ==> by_id(s)[a].id.0 <= by_id(s)[b].id.0,
    decreases s.len(),
{
    if s.len() > 0 {
        lemma_by_id_sorted(s.drop_last());
        lemma_insert_sorted(by_id(s.drop_last()), s.last());
    }
}

/// Each participant is drawn from `ps` with its id and label, and they keep `ps`'s order.
proof fn lemma_participants(ps: Seq<LiveV>, role: spec_fn(LiveV) -> Option<DocumentRole>)
    ensures
        forall|j: int|
            0 <= j < participants(ps, role).len() ==> exists|q: int|
                0 <= q < ps.len() && ps[q].id == (#[trigger] participants(ps, role)[j]).process
                    && ps[q].label == participants(ps, role)[j].label,
        (forall|a: int, b: int| 0 <= a < b < ps.len() ==> ps[a].id.0 <= ps[b].id.0) ==> ids_ascending(
            participants(ps, role),
        ),
    decreases ps.len(),
{
    if ps.len() > 0 {
        let d = ps.drop_last();
        lemma_participants(d, role);
        let rest = participants(d, role);
        let out = participants(ps, role);
        assert forall|j: int| 0 <= j < out.len() implies exists|q: int|
            0 <= q < ps.len() && ps[q].id == (#[trigger] out[j]).process && ps[q].label
                == out[j].label by {
            if j < rest.len() {
                assert(out[j] == rest[j]);
                let q = choose|q: int|
                    0 <= q < d.len() && d[q].id == rest[j].process && d[q].label == rest[j].label;
                assert(ps[q] == d[q]);
            } else {
                assert(ps[ps.len() - 1] == ps.last());
            }
        }
        if forall|a: int, b: int| 0 <= a < b < ps.len() ==> ps[a].id.0 <= ps[b].id.0 {
            assert forall|a: int, b: int| 0 <= a < b < d.len() implies d[a].id.0 <= d[b].id.0 by {
                assert(d[a] == ps[a] && d[b] == ps[b]);
            }
            assert forall|a: int, b: int| 0 <= a < b < out.len() implies out[a].process.0
                <= out[b].process.0 by {
                if b >= rest.len() {
                    assert(out[a] == rest[a]);
                    let q = choose|q: int|
                        0 <= q < d.len() && d[q].id == rest[a].process && d[q].label
                            == rest[a].label;
                    assert(ps[q] == d[q]);
                    assert(ps[q].id.0 <= ps[ps.len() - 1].id.0);
                } else {
                    assert(out[a] == rest[a] && out[b] == rest[b]);
                }
            }
        }
    }
}

/// Every todo the read model lists is one it was handed and not done, with its title and status,
/// and every participant on it is a live process of the project, listed in process-id order.
pub proof fn law_todo_work_names_only_live_processes_and_open_todos(
    project: ProjectId,
    live: Seq<LiveV>,
    todos: Seq<SummaryV>,
    pads: Seq<ScratchpadSummaryV>,
)
    ensures
        forall|i: int|
            0 <= i < spec_project_work(project, live, todos, pads).todos.len() ==> {
                let w = #[trigger] spec_project_work(project, live, todos, pads).todos[i];
                &&& w.status != TodoStatus::Done
                &&& w.participants.len() > 0
                &&& exists|t: int|
                    0 <= t < todos.len() && todos[t].id == w.id && todos[t].title == w.title
                        && todos[t].status == w.status
                &&& ids_ascending(w.participants)
                &&& forall|j: int|
                    0 <= j < w.participants.len() ==> is_live_in(
                        live,
                        project,
                        #[trigger] w.participants[j],
                    )
            },
{
    let ps = by_id(in_live_project(live, project));
    lemma_by_id_sorted(in_live_project(live, project));
    lemma_todo_work(project, live, ps, todos);
}

proof fn lemma_todo_work(project: ProjectId, live: Seq<LiveV>, ps: Seq<LiveV>, todos: Seq<SummaryV>)
    requires
        ps == by_id(in_live_project(live, project)),
        forall|a: int, b: int| 0 <= a < b < ps.len() ==> ps[a].id.0 <= ps[b].id.0,
    ensures
        forall|i: int|
            0 <= i < todo_work(ps, todos).len() ==> {
                let w = #[trigger] todo_work(ps, todos)[i];
                &&& w.status != TodoStatus::Done
                &&& w.participants.len() > 0
                &&& exists|t: int|
                    0 <= t < todos.len() && todos[t].id == w.id && todos[t].title == w.title
                        && todos[t].status == w.status
                &&& ids_ascending(w.participants)
                &&& forall|j: int|
                    0 <= j < w.participants.len() ==> is_live_in(
                        live,
                        project,
                        #[trigger] w.participants[j],
                    )
            },
    decreases todos.len(),
{
    if todos.len() > 0 {
        let d = todos.drop_last();
        lemma_todo_work(project, live, ps, d);
        let rest = todo_work(ps, d);
        let out = todo_work(ps, todos);
        let t = todos.last();
        let role = |p: LiveV| todo_role(p, t);
        lemma_participants(ps, role);
        assert forall|i: int| 0 <= i < out.len() implies {
            let w = #[trigger] out[i];
            &&& w.status != TodoStatus::Done
            &&& w.participants.len() > 0
            &&& exists|k: int|
                0 <= k < todos.len() && todos[k].id == w.id && todos[k].title == w.title
                    && todos[k].status == w.status
            &&& ids_ascending(w.participants)
            &&& forall|j: int|
                0 <= j < w.participants.len() ==> is_live_in(
                    live,
                    project,
                    #[trigger] w.participants[j],
                )
        } by {
            if i < rest.len() {
                assert(out[i] == rest[i]);
                let w = rest[i];
                let k = choose|k: int|
                    0 <= k < d.len() && d[k].id == w.id && d[k].title == w.title && d[k].status
                        == w.status;
                assert(todos[k] == d[k]);
            } else {
                let w = out[i];
                assert(todos[todos.len() - 1] == t);
                assert forall|j: int| 0 <= j < w.participants.len() implies is_live_in(
                    live,
                    project,
                    #[trigger] w.participants[j],
                ) by {
                    let p = w.participants[j];
                    let q = choose|q: int|
                        0 <= q < ps.len() && ps[q].id == p.process && ps[q].label == p.label;
                    assert(by_id(in_live_project(live, project)).contains(ps[q]));
                    lemma_by_id_contains(in_live_project(live, project), ps[q]);
                    lemma_in_project_contains(live, project, ps[q]);
                    let r = choose|r: int| 0 <= r < live.len() && live[r] == ps[q];
                    assert(live[r].project == project && live[r].id == p.process && live[r].label
                        == p.label);
                }
            }
        }
    }
}

/// Every scratchpad the read model lists is one it was handed, with its name, and every
/// participant on it is a live process of the project, listed in process-id order.
pub proof fn law_scratchpad_work_names_only_live_processes_and_listed_pads(
    project: ProjectId,
    live: Seq<LiveV>,
    todos: Seq<SummaryV>,
    pads: Seq<ScratchpadSummaryV>,
)
    ensures
        forall|i: int|
            0 <= i < spec_project_work(project, live, todos, pads).scratchpads.len() ==> {
                let w = #[trigger] spec_project_work(project, live, todos, pads).scratchpads[i];
                &&& w.participants.len() > 0
                &&& exists|t: int| 0 <= t < pads.len() && pads[t].id == w.id && pads[t].name == w.name
                &&& ids_ascending(w.participants)
                &&& forall|j: int|
                    0 <= j < w.participants.len() ==> is_live_in(
                        live,
                        project,
                        #[trigger] w.participants[j],
                    )
            },
{
    let ps = by_id(in_live_project(live, project));
    lemma_by_id_sorted(in_live_project(live, project));
    lemma_scratchpad_work(project, live, ps, pads);
}

proof fn lemma_scratchpad_work(
    project: ProjectId,
    live: Seq<LiveV>,
    ps: Seq<LiveV>,
    pads: Seq<ScratchpadSummaryV>,
)
    requires
        ps == by_id(in_live_project(live, project)),
        forall|a: int, b: int| 0 <= a < b < ps.len() ==> ps[a].id.0 <= ps[b].id.0,
    ensures
        forall|i: int|
            0 <= i < scratchpad_work(ps, pads).len() ==> {
                let w = #[trigger] scratchpad_work(ps, pads)[i];
                &&& w.participants.len() > 0
                &&& exists|t: int| 0 <= t < pads.len() && pads[t].id == w.id && pads[t].name == w.name
                &&& ids_ascending(w.participants)
                &&& forall|j: int|
                    0 <= j < w.participants.len() ==> is_live_in(
                        live,
                        project,
                        #[trigger] w.participants[j],
                    )
            },
    decreases pads.len(),
{
    if pads.len() > 0 {
        let d = pads.drop_last();
        lemma_scratchpad_work(project, live, ps, d);
        let rest = scratchpad_work(ps, d);
        let out = scratchpad_work(ps, pads);
        let s = pads.last();
        let role = |p: LiveV| scratchpad_role(p, s);
        lemma_participants(ps, role);
        assert forall|i: int| 0 <= i < out.len() implies {
            let w = #[trigger] out[i];
            &&& w.participants.len() > 0
            &&& exists|k: int| 0 <= k < pads.len() && pads[k].id == w.id && pads[k].name == w.name
            &&& ids_ascending(w.participants)
            &&& forall|j: int|
                0 <= j < w.participants.len() ==> is_live_in(
                    live,
                    project,
                    #[trigger] w.participants[j],
                )
        } by {
            if i < rest.len() {
                assert(out[i] == rest[i]);
                let w = rest[i];
                let k = choose|k: int| 0 <= k < d.len() && d[k].id == w.id && d[k].name == w.name;
                assert(pads[k] == d[k]);
            } else {
                let w = out[i];
                assert(pads[pads.len() - 1] == s);
                assert forall|j: int| 0 <= j < w.participants.len() implies is_live_in(
                    live,
                    project,
                    #[trigger] w.participants[j],
                ) by {
                    let p = w.participants[j];
                    let q = choose|q: int|
                        0 <= q < ps.len() && ps[q].id == p.process && ps[q].label == p.label;
                    assert(by_id(in_live_project(live, project)).contains(ps[q]));
                    lemma_by_id_contains(in_live_project(live, project), ps[q]);
                    lemma_in_project_contains(live, project, ps[q]);
                    let r = choose|r: int| 0 <= r < live.len() && live[r] == ps[q];
                    assert(live[r].project == project && live[r].id == p.process && live[r].label
                        == p.label);
                }
            }
        }
    }
}

} // verus!
