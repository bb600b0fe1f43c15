//! The orchestration read model of one project: its agent tree, its todos, and its timers with
//! their read-time idle report. Assembled purely from reads of the registry, the todo store and
//! the timer store; it starts no work and changes nothing.

use vstd::prelude::*;

use crate::ids::{ProcessId, ProjectId};
use crate::orchestration::{agent_nodes, spec_agent_nodes, AgentNode, RegisteredProcess};
use crate::timer::{not_idle, row_view, with_idle_report, FireV, TimerView, TimerViewV, Timers};
use crate::timer_repo::{in_timer_project, TimerRepo, TimerRow};
use crate::todo::{view_of, TodoView, Todos};
use crate::todo_repo::{in_project, RowV, StoreError, TodoRepo};

verus! {

/// A project's orchestration read model: its agent tree, every todo as a full view, and every
/// timer with its idle report filled in at read time.
#[derive(Clone, Debug, PartialEq, Eq)]
pub struct OrchestrationSnapshot<K, S, A> {
    pub project: ProjectId,
    pub agents: Vec<AgentNode<K, S, A>>,
    pub todos: Vec<TodoView>,
    pub timers: Vec<TimerView>,
}

/// Whether process `p` counts as idle by the table `idle` (its first entry for `p`). A process the
/// table does not list has left the registry, and a departed process counts as idle.
pub open spec fn idle_flag(idle: Seq<(ProcessId, bool)>, p: ProcessId) -> bool
    decreases idle.len(),
{
    if idle.len() == 0 {
        true
    } else if idle[0].0 == p {
        idle[0].1
    } else {
        idle_flag(idle.drop_first(), p)
    }
}

/// Whether each process of `watched` counts as idle by `idle`, in order.
pub open spec fn watched_flags(watched: Seq<ProcessId>, idle: Seq<(ProcessId, bool)>) -> Seq<bool> {
    watched.map_values(|p: ProcessId| idle_flag(idle, p))
}

/// The idle flags a timer firing on `fire` is reported with: one per watched process, none for a
/// plain timer.
pub open spec fn fire_flags(fire: FireV, idle: Seq<(ProcessId, bool)>) -> Seq<bool> {
    match fire {
        FireV::At => Seq::empty(),
        FireV::WhenIdleAny(w) => watched_flags(w, idle),
        FireV::WhenIdleAll(w) => watched_flags(w, idle),
    }
}

/// A timer view with its read-time idle report from the table `idle`.
pub open spec fn reported_view(v: TimerViewV, idle: Seq<(ProcessId, bool)>) -> TimerViewV {
    with_idle_report(v, fire_flags(v.fire, idle))
}

/// A process the table marks not idle is one it lists.
proof fn lemma_not_idle_is_listed(idle: Seq<(ProcessId, bool)>, p: ProcessId)
    requires
        !idle_flag(idle, p),
    ensures
        exists|j: int| 0 <= j < idle.len() && idle[j].0 == p && !idle[j].1,
    decreases idle.len(),
{
    if idle[0].0 != p {
        lemma_not_idle_is_listed(idle.drop_first(), p);
        let j = choose|j: int| 0 <= j < idle.drop_first().len() && idle.drop_first()[j].0 == p
            && !idle.drop_first()[j].1;
        assert(idle[j + 1] == idle.drop_first()[j]);
    }
}

/// Every process a timer is waiting on is a watched one whose flag says it is not idle.
proof fn lemma_waiting_is_watched(w: Seq<ProcessId>, flags: Seq<bool>, x: ProcessId)
    requires
        not_idle(w, flags).contains(x),
    ensures
        exists|k: int| 0 <= k < w.len() && w[k] == x && !flags[k],
    decreases w.len(),
{
    let rest = not_idle(w.drop_last(), flags);
    if rest.contains(x) {
        lemma_waiting_is_watched(w.drop_last(), flags, x);
        let k = choose|k: int| 0 <= k < w.drop_last().len() && w.drop_last()[k] == x && !flags[k];
        assert(w[k] == w.drop_last()[k]);
    } else {
        assert(w[w.len() - 1] == x);
    }
}

/// A timer is never held back by a process that has left the registry: every process a timer of
/// the snapshot is still waiting on is one the idle table lists as not idle.
pub proof fn law_a_departed_process_never_holds_a_timer_back(
    row: TimerRow,
    idle: Seq<(ProcessId, bool)>,
)
    ensures
        forall|i: int|
            0 <= i < reported_view(row_view(row), idle).waiting_on.len() ==> exists|j: int|
                0 <= j < idle.len() && idle[j].0 == #[trigger] reported_view(row_view(row), idle).waiting_on[i]
                    && !idle[j].1,
{
    let v = row_view(row);
    let r = reported_view(v, idle);
    assert forall|i: int| 0 <= i < r.waiting_on.len() implies exists|j: int|
        0 <= j < idle.len() && idle[j].0 == #[trigger] r.waiting_on[i] && !idle[j].1 by {
        let x = r.waiting_on[i];
        assert(r.waiting_on.contains(x));
        match v.fire {
            FireV::At => {},
            FireV::WhenIdleAny(w) => {
                lemma_waiting_is_watched(w, watched_flags(w, idle), x);
                let k = choose|k: int| 0 <= k < w.len() && w[k] == x && !watched_flags(w, idle)[k];
                lemma_not_idle_is_listed(idle, x);
            },
            FireV::WhenIdleAll(w) => {
                lemma_waiting_is_watched(w, watched_flags(w, idle), x);
                let k = choose|k: int| 0 <= k < w.len() && w[k] == x && !watched_flags(w, idle)[k];
                lemma_not_idle_is_listed(idle, x);
            },
        }
    }
}

/// Executable [`idle_flag`].
fn idle_in(idle: &Vec<(ProcessId, bool)>, p: ProcessId) -> (r: bool)
    ensures
        r == idle_flag(idle@, p),
{
    let mut k: usize = 0;
    assert(idle@.skip(0) =~= idle@);
    while k < idle.len()
        invariant
            k <= idle@.len(),
            idle_flag(idle@, p) == idle_flag(idle@.skip(k as int), p),
        decreases idle@.len() - k,
    {
        assert(idle@.skip(k as int)[0] == idle@[k as int]);
        if idle[k].0 == p {
            return idle[k].1;
        }
        assert(idle@.skip(k as int).drop_first() =~= idle@.skip(k + 1));
        k += 1;
    }
    assert(idle@.skip(k as int).len() == 0);
    true
}

/// Executable [`watched_flags`].
fn flags_of(watched: &Vec<ProcessId>, idle: &Vec<(ProcessId, bool)>) -> (r: Vec<bool>)
    ensures
        r@ == watched_flags(watched@, idle@),
{
    let mut out: Vec<bool> = Vec::new();
    let mut k: usize = 0;
    while k < watched.len()
        invariant
            k <= watched@.len(),
            out@.len() == k,
            forall|j: int| 0 <= j < k ==> out@[j] == idle_flag(idle@, watched@[j]),
        decreases watched@.len() - k,
    {
        out.push(idle_in(idle, watched[k]));
        k += 1;
    }
    assert(out@ =~= watched_flags(watched@, idle@));
    out
}

/// Fills each timer view's read-time idle report — which watched processes are not yet idle, and
/// whether the quorum is met — from `idle`, whether each listed process is idle (a process not
/// listed has left the registry and counts as idle). Plain timers are left as they are.
pub fn report_timers(views: Vec<TimerView>, idle: &Vec<(ProcessId, bool)>) -> (r: Vec<TimerView>)
    ensures
        r@.map_values(|t: TimerView| t@) == views@.map_values(
            |t: TimerView| reported_view(t@, idle@),
        ),
{
    let ghost orig = views@;
    let mut rest = views;
    let mut out: Vec<TimerView> = Vec::new();
    while rest.len() > 0
        invariant
            rest@ == orig.skip(out@.len() as int),
            out@.len() <= orig.len(),
            forall|j: int| 0 <= j < out@.len() ==> (#[trigger] out@[j])@ == reported_view(
                orig[j]@,
                idle@,
            ),
        decreases rest@.len(),
    {
        let ghost n = out@.len();
        let mut t = rest.remove(0);
        assert(t == orig[n as int]);
        let flags = match t.fire.idle_quorum() {
            None => Vec::new(),
            Some((_, watched)) => flags_of(watched, idle),
        };
        t.report_idle(&flags);
        out.push(t);
        assert(rest@ =~= orig.skip(out@.len() as int));
    }
    assert(out@.len() == orig.len());
    assert(out@.map_values(|t: TimerView| t@) =~= orig.map_values(
        |t: TimerView| reported_view(t@, idle@),
    ));
    out
}

/// The orchestration read model of `project`: its agent tree from the registry `registry` (each
/// of the project's processes, its parent kept only while that lead is itself one of them), every
/// todo of the project as a full view, and every timer of the project with its idle report filled
/// in from `idle` (whether each listed process is idle; one not listed has departed and counts as
/// idle). Fails only where a store read does.
pub fn orchestration_snapshot<K: Copy, S: Copy, A: Copy, R: TodoRepo, T: TimerRepo>(
    registry: &Vec<RegisteredProcess<K, S, A>>,
    project: ProjectId,
    todos: &Todos<R>,
    timers: &Timers<T>,
    idle: &Vec<(ProcessId, bool)>,
) -> (r: Result<OrchestrationSnapshot<K, S, A>, StoreError>)
    requires
        todos.wf(),
        timers.wf(),
    ensures
        todos.infallible() && timers.infallible() ==> r is Ok,
        r matches Ok(s) ==> {
            &&& s.project == project
            &&& s.agents@.map_values(|n: AgentNode<K, S, A>| n@) == spec_agent_nodes(
                registry@.map_values(|p: RegisteredProcess<K, S, A>| p@),
                project,
            )
            &&& s.todos@.map_values(|t: TodoView| t@) == in_project(todos.rows(), project).map_values(
                |row: RowV| view_of(todos.rows(), row),
            )
            &&& s.timers@.map_values(|t: TimerView| t@) == in_timer_project(
                timers.rows(),
                project,
            ).map_values(|row: TimerRow| reported_view(row_view(row), idle@))
        },
{
    let agents = agent_nodes(registry, project);
    let todo_views = todos.views(project)?;
    let listed = timers.list_project(project)?;
    let ghost plain = listed@;
    let reported = report_timers(listed, idle);
    proof {
        let rows = in_timer_project(timers.rows(), project);
        assert(plain.map_values(|t: TimerView| t@) == rows.map_values(|row: TimerRow| row_view(row)));
        assert(reported@.map_values(|t: TimerView| t@) =~= rows.map_values(
            |row: TimerRow| reported_view(row_view(row), idle@),
        )) by {
            assert forall|j: int| 0 <= j < rows.len() implies reported@.map_values(
                |t: TimerView| t@,
            )[j] == reported_view(row_view(rows[j]), idle@) by {
                assert(plain.map_values(|t: TimerView| t@)[j] == row_view(rows[j]));
                assert(reported@.map_values(|t: TimerView| t@)[j] == plain.map_values(
                    |t: TimerView| reported_view(t@, idle@),
                )[j]);
            }
        }
    }
    Ok(OrchestrationSnapshot { project, agents, todos: todo_views, timers: reported })
}

} // verus!
