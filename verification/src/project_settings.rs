//! The command roster of a project's settings page: the shared commands then the app-local ones,
//! each with the live status of the process running it (looked up by its display label, which is
//! the command name), and the running and total counts the page shows.
//!
//! The registry's own status type is the caller's (`S`), carried through unchanged; whether a
//! status counts as running is read alongside it.

use vstd::prelude::*;

use crate::ids::ProjectId;

verus! {

/// Where a command is defined: the project's shared configuration, or the app-local overlay.
#[derive(Clone, Copy, Debug, PartialEq, Eq, Structural)]
pub enum Visibility {
    Shared,
    Local,
}

/// A process as the registry shows it: its project, its display label, its status, and whether
/// that status is the running one.
#[derive(Clone, Debug, PartialEq, Eq)]
pub struct LabeledStatus<S> {
    pub project: ProjectId,
    pub label: String,
    pub status: S,
    pub running: bool,
}

/// One command row of the settings page: its name, where it is defined, and the status of the
/// process running it (`None` when none of the project's processes carries its name).
#[derive(Clone, Debug, PartialEq, Eq)]
pub struct CommandRow<S> {
    pub name: String,
    pub visibility: Visibility,
    pub status: Option<S>,
}

pub ghost struct LabeledV<S> {
    pub project: ProjectId,
    pub label: Seq<char>,
    pub status: S,
    pub running: bool,
}

pub ghost struct RowV<S> {
    pub name: Seq<char>,
    pub visibility: Visibility,
    pub status: Option<S>,
}

impl<S> View for LabeledStatus<S> {
    type V = LabeledV<S>;

    open spec fn view(&self) -> LabeledV<S> {
        LabeledV {
            project: self.project,
            label: self.label@,
            status: self.status,
            running: self.running,
        }
    }
}

impl<S> View for CommandRow<S> {
    type V = RowV<S>;

    open spec fn view(&self) -> RowV<S> {
        RowV { name: self.name@, visibility: self.visibility, status: self.status }
    }
}

/// The process of `project` among `procs` labelled `name` — the last one, as a label-keyed map
/// built in registry order keeps it — or `None`.
pub open spec fn status_of<S>(procs: Seq<LabeledV<S>>, project: ProjectId, name: Seq<char>) -> Option<
    LabeledV<S>,
>
    decreases procs.len(),
{
    if procs.len() == 0 {
        None
    } else if procs.last().project == project && procs.last().label == name {
        Some(procs.last())
    } else {
        status_of(procs.drop_last(), project, name)
    }
}

/// The row of command `name` defined at `visibility`.
pub open spec fn row_of<S>(
    procs: Seq<LabeledV<S>>,
    project: ProjectId,
    name: Seq<char>,
    visibility: Visibility,
) -> RowV<S> {
    RowV {
        name,
        visibility,
        status: match status_of(procs, project, name) {
            Some(p) => Some(p.status),
            None => None,
        },
    }
}

/// The rows of `names`, all defined at `visibility`, in order.
pub open spec fn rows_of<S>(
    procs: Seq<LabeledV<S>>,
    project: ProjectId,
    names: Seq<Seq<char>>,
    visibility: Visibility,
) -> Seq<RowV<S>> {
    names.map_values(|n: Seq<char>| row_of(procs, project, n, visibility))
}

/// How many of `names` are run by a running process of `project`.
pub open spec fn running_count<S>(procs: Seq<LabeledV<S>>, project: ProjectId, names: Seq<Seq<char>>) -> int
    decreases names.len(),
{
    if names.len() == 0 {
        0
    } else {
        running_count(procs, project, names.drop_last()) + if status_of(
            procs,
            project,
            names.last(),
        ) matches Some(p) && p.running {
            1int
        } else {
            0int
        }
    }
}

/// The status entry of the process of `project` labelled `name`, if any.
fn lookup_status<S: Copy>(procs: &Vec<LabeledStatus<S>>, project: ProjectId, name: &String) -> (r:
    Option<(S, bool)>)
    ensures
        match status_of(procs@.map_values(|p: LabeledStatus<S>| p@), project, name@) {
            Some(p) => r == Some((p.status, p.running)),
            None => r is None,
        },
{
    let ghost v = procs@.map_values(|p: LabeledStatus<S>| p@);
    let mut i = procs.len();
    assert(v.take(i as int) =~= v);
    while i > 0
        invariant
            v == procs@.map_values(|p: LabeledStatus<S>| p@),
            i <= procs@.len(),
            status_of(v, project, name@) == status_of(v.take(i as int), project, name@),
        decreases i,
    {
        assert(v.take(i as int).drop_last() =~= v.take(i - 1));
        assert(v.take(i as int).last() == procs@[i - 1]@);
        let p = &procs[i - 1];
        if p.project == project && p.label == *name {
            return Some((p.status, p.running));
        }
        i -= 1;
    }
    None
}

/// Appends the rows of `names` at `visibility` to `rows`, counting the running ones into
/// `running`.
fn push_rows<S: Copy>(
    rows: &mut Vec<CommandRow<S>>,
    running: &mut usize,
    procs: &Vec<LabeledStatus<S>>,
    project: ProjectId,
    names: &Vec<String>,
    visibility: Visibility,
)
    requires
        *old(running) + names@.len() <= usize::MAX,
    ensures
        final(rows)@.map_values(|r: CommandRow<S>| r@) == old(rows)@.map_values(
            |r: CommandRow<S>| r@,
        ) + rows_of(
            procs@.map_values(|p: LabeledStatus<S>| p@),
            project,
            names@.map_values(|n: String| n@),
            visibility,
        ),
        *final(running) == *old(running) + running_count(
            procs@.map_values(|p: LabeledStatus<S>| p@),
            project,
            names@.map_values(|n: String| n@),
        ),
{
    let ghost pv = procs@.map_values(|p: LabeledStatus<S>| p@);
    let ghost nv = names@.map_values(|n: String| n@);
    let ghost start = rows@.map_values(|r: CommandRow<S>| r@);
    let ghost run0 = *running as int;
    let mut k: usize = 0;
    while k < names.len()
        invariant
            pv == procs@.map_values(|p: LabeledStatus<S>| p@),
            nv == names@.map_values(|n: String| n@),
            k <= names@.len(),
            run0 + names@.len() <= usize::MAX,
            rows@.map_values(|r: CommandRow<S>| r@) == start + rows_of(
                pv,
                project,
                nv.take(k as int),
                visibility,
            ),
            *running == run0 + running_count(pv, project, nv.take(k as int)),
            running_count(pv, project, nv.take(k as int)) <= k,
        decreases names@.len() - k,
    {
        assert(nv.take(k + 1).drop_last() =~= nv.take(k as int));
        assert(nv.take(k + 1).last() == names@[k as int]@);
        let found = lookup_status(procs, project, &names[k]);
        let status = match found {
            Some((s, _)) => Some(s),
            None => None,
        };
        let is_running = match found {
            Some((_, r)) => r,
            None => false,
        };
        let ghost before = rows@.map_values(|r: CommandRow<S>| r@);
        rows.push(CommandRow { name: names[k].clone(), visibility, status });
        assert(rows@.map_values(|r: CommandRow<S>| r@) =~= before.push(
            row_of(pv, project, nv[k as int], visibility),
        ));
        assert(rows_of(pv, project, nv.take(k + 1), visibility) =~= rows_of(
            pv,
            project,
            nv.take(k as int),
            visibility,
        ).push(row_of(pv, project, nv[k as int], visibility)));
        if is_running {
            *running = *running + 1;
        }
        k += 1;
    }
    assert(nv.take(names@.len() as int) =~= nv);
}

/// The command roster of `project`'s settings page: every shared command, then every local one,
/// each with the status of the project's process labelled with its name; how many of them are
/// running; and how many commands there are in all.
pub fn settings_commands<S: Copy>(
    project: ProjectId,
    shared: &Vec<String>,
    local: &Vec<String>,
    procs: &Vec<LabeledStatus<S>>,
) -> (r: (Vec<CommandRow<S>>, usize, usize))
    requires
        shared@.len() + local@.len() <= usize::MAX,
    ensures
        ({
            let pv = procs@.map_values(|p: LabeledStatus<S>| p@);
            let sv = shared@.map_values(|n: String| n@);
            let lv = local@.map_values(|n: String| n@);
            &&& r.0@.map_values(|c: CommandRow<S>| c@) == rows_of(
                pv,
                project,
                sv,
                Visibility::Shared,
            ) + rows_of(pv, project, lv, Visibility::Local)
            &&& r.1 == running_count(pv, project, sv) + running_count(pv, project, lv)
            &&& r.2 == shared@.len() + local@.len()
        }),
{
    let mut rows: Vec<CommandRow<S>> = Vec::new();
    let mut running: usize = 0;
    assert(rows@.map_values(|c: CommandRow<S>| c@) =~= Seq::<RowV<S>>::empty());
    push_rows(&mut rows, &mut running, procs, project, shared, Visibility::Shared);
    proof {
        lemma_running_count_bound(
            procs@.map_values(|p: LabeledStatus<S>| p@),
            project,
            shared@.map_values(|n: String| n@),
        );
    }
    push_rows(&mut rows, &mut running, procs, project, local, Visibility::Local);
    (rows, running, shared.len() + local.len())
}

proof fn lemma_running_count_bound<S>(procs: Seq<LabeledV<S>>, project: ProjectId, names: Seq<Seq<char>>)
    ensures
        0 <= running_count(procs, project, names) <= names.len(),
    decreases names.len(),
{
    if names.len() > 0 {
        lemma_running_count_bound(procs, project, names.drop_last());
    }
}

} // verus!
