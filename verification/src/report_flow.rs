//! The course of an agent's completion report, as a state machine.
//!
//! Reporting a task complete alternates between the mailbox, which only the caller can reach
//! (who the caller is, which task a message is, what is pending in the parent's inbox, sending the
//! notice), and the todo aggregate. [`report_step`] takes what the last piece of outside work
//! answered and decides the next: the caller performs each [`ReportAction`] and hands back the
//! matching [`ReportEvent`] until the action is [`ReportAction::Finish`].
//!
//! The decisions it makes: an oversized summary is refused before anything else; the completion is
//! keyed by the reporting process and the task message; the todo named must be the one the task
//! carries; the todo's change is announced only when this report recorded it; the parent is
//! notified unless the record says its notice was queued before or one is already pending; the
//! notice flag is marked only after a notice was really queued, and a refused mark never undoes
//! the committed completion.

use vstd::prelude::*;

use crate::ids::{AgentMessageId, ProcessId, ProjectId, TodoId};
use crate::mailbox::{completion_report, is_report_of, AgentMailboxError, CompletionNotification, CompletionReport};
use crate::todo_completion::{
    TodoCompletion, TodoCompletionKey, TodoCompletionNotice, TodoCompletionOccurrence,
    TodoCompletionOutcome,
};

verus! {

/// What an agent asks for: to report the task of `task_message` complete, completing `todo` with
/// it when one is named.
#[derive(Clone, Copy, Debug, PartialEq, Eq)]
pub struct ReportRequest {
    pub task_message: AgentMessageId,
    pub todo: Option<TodoId>,
}

/// Where a completion report stands.
#[derive(Debug)]
pub enum ReportState<D> {
    /// Nothing is checked yet.
    Start(ReportRequest),
    /// Waiting to learn who is reporting.
    Identifying(ReportRequest),
    /// Waiting for the task the message names.
    FindingTask { request: ReportRequest, project: ProjectId, sender: ProcessId },
    /// Waiting for the todo's completion to be recorded.
    Completing { project: ProjectId, parent: ProcessId, todo: TodoId },
    /// Waiting for the todo's change to be announced.
    Announcing { project: ProjectId, parent: ProcessId, todo: TodoId, outcome: TodoCompletionOutcome },
    /// Waiting to learn whether a notice for the todo is already pending with the parent.
    CheckingPending {
        project: ProjectId,
        parent: ProcessId,
        todo: TodoId,
        outcome: Option<TodoCompletionOutcome>,
    },
    /// Waiting for the notice to the parent to be sent.
    Sending {
        project: ProjectId,
        parent: ProcessId,
        todo: Option<TodoId>,
        outcome: Option<TodoCompletionOutcome>,
    },
    /// Waiting for the notice flag to be marked; the report is settled.
    Marking { report: CompletionReport<D> },
    /// The report is over.
    Finished,
}

/// What the caller's last piece of outside work answered.
#[derive(Debug)]
pub enum ReportEvent<D> {
    /// The report begins; its summary is `summary_bytes` long and the cap is `max_bytes`.
    Begin { summary_bytes: usize, max_bytes: usize },
    /// The reporting agent's project and process, or why it has none.
    Identified(Result<(ProjectId, ProcessId), AgentMailboxError>),
    /// The task's parent and the todo it carries, or `None` when no such task is pending.
    TaskFound(Option<(ProcessId, Option<TodoId>)>),
    /// The todo aggregate's answer, its refusal already read as a mailbox refusal.
    Completed(Result<TodoCompletionOutcome, AgentMailboxError>),
    /// The todo's change was announced.
    Announced,
    /// The notice already pending with the parent, if any.
    PendingFound(Option<D>),
    /// The queued notice, or `None` when the parent could not be sent one now.
    Sent(Option<D>),
    /// The notice flag was marked, or its write was refused; either way the report stands.
    Marked,
}

/// The outside work to do next.
#[derive(Debug)]
pub enum ReportAction<D> {
    /// Find out who is reporting.
    Identify,
    /// Look up the task `task_message` sent to `sender` in `project`.
    FindTask { project: ProjectId, sender: ProcessId, task_message: AgentMessageId },
    /// Record the completion of `todo` under `key`, authored by the reporting agent.
    Complete { project: ProjectId, todo: TodoId, key: TodoCompletionKey },
    /// Announce that `todo` of `project` changed.
    Announce { project: ProjectId, todo: TodoId },
    /// Look for a completion notice for `todo` already pending with `parent`.
    FindPending { parent: ProcessId, todo: TodoId },
    /// Send the completion notice (the summary, naming `todo` if any) to `parent`.
    Send { parent: ProcessId, todo: Option<TodoId> },
    /// Mark that `completion`'s notice was queued.
    MarkNotice { project: ProjectId, completion: TodoCompletion },
    /// Answer the agent.
    Finish(Result<CompletionReport<D>, AgentMailboxError>),
    /// The event does not belong to this state; nothing changes.
    Ignore,
}

/// `r` finishes the report with `report`-of-`outcome` answered by `notification`.
pub open spec fn finishes_with<D>(
    r: (ReportState<D>, ReportAction<D>),
    outcome: Option<TodoCompletionOutcome>,
    notification: CompletionNotification<D>,
) -> bool {
    &&& r.0 is Finished
    &&& r.1 matches ReportAction::Finish(Ok(rep)) && is_report_of(rep, outcome, notification)
}

/// `r` finishes the report refused with `e`.
pub open spec fn refuses<D>(r: (ReportState<D>, ReportAction<D>), e: AgentMailboxError) -> bool {
    &&& r.0 is Finished
    &&& r.1 == ReportAction::<D>::Finish(Err(e))
}

/// Where a report goes once the completion (if any) is settled: finished with `AlreadyQueued` when
/// the record says its notice was queued before; else, for a todo, a look for a pending notice;
/// else the notice is sent.
pub open spec fn settles<D>(
    r: (ReportState<D>, ReportAction<D>),
    project: ProjectId,
    parent: ProcessId,
    todo: Option<TodoId>,
    outcome: Option<TodoCompletionOutcome>,
) -> bool {
    if outcome matches Some(o) && o.notice == TodoCompletionNotice::AlreadyQueued {
        finishes_with(r, outcome, CompletionNotification::AlreadyQueued)
    } else {
        match todo {
            Some(id) => r == (
                ReportState::<D>::CheckingPending { project, parent, todo: id, outcome },
                ReportAction::<D>::FindPending { parent, todo: id },
            ),
            None => r == (
                ReportState::<D>::Sending { project, parent, todo, outcome },
                ReportAction::<D>::Send { parent, todo },
            ),
        }
    }
}

/// The step from `state` on `event`.
pub open spec fn steps<D>(
    state: ReportState<D>,
    event: ReportEvent<D>,
    r: (ReportState<D>, ReportAction<D>),
) -> bool {
    match (state, event) {
        (ReportState::Start(request), ReportEvent::Begin { summary_bytes, max_bytes }) => {
            if summary_bytes > max_bytes {
                refuses(r, AgentMailboxError::MessageTooLarge)
            } else {
                r == (ReportState::<D>::Identifying(request), ReportAction::<D>::Identify)
            }
        },
        (ReportState::Identifying(request), ReportEvent::Identified(who)) => match who {
            Err(e) => refuses(r, e),
            Ok((project, sender)) => r == (
                ReportState::<D>::FindingTask { request, project, sender },
                ReportAction::<D>::FindTask { project, sender, task_message: request.task_message },
            ),
        },
        (ReportState::FindingTask { request, project, sender }, ReportEvent::TaskFound(task)) => {
            match task {
                None => refuses(r, AgentMailboxError::UnknownMessage),
                Some((parent, carried)) => if carried != request.todo {
                    refuses(r, AgentMailboxError::UnknownTodo)
                } else {
                    match request.todo {
                        Some(id) => {
                            &&& r.0 == ReportState::<D>::Completing { project, parent, todo: id }
                            &&& r.1 matches ReportAction::Complete { project: p, todo: t, key }
                            &&& p == project && t == id
                            &&& key.spec_reporter() == sender
                            &&& key.spec_task_message() == request.task_message
                        },
                        None => settles(r, project, parent, None, None),
                    }
                },
            }
        },
        (ReportState::Completing { project, parent, todo }, ReportEvent::Completed(result)) => {
            match result {
                Err(e) => refuses(r, e),
                Ok(o) => if o.occurrence == TodoCompletionOccurrence::Recorded {
                    r == (
                        ReportState::<D>::Announcing { project, parent, todo, outcome: o },
                        ReportAction::<D>::Announce { project, todo },
                    )
                } else {
                    settles(r, project, parent, Some(todo), Some(o))
                },
            }
        },
        (ReportState::Announcing { project, parent, todo, outcome }, ReportEvent::Announced) => {
            settles(r, project, parent, Some(todo), Some(outcome))
        },
        (
            ReportState::CheckingPending { project, parent, todo, outcome },
            ReportEvent::PendingFound(pending),
        ) => match pending {
            Some(d) => finishes_with(r, outcome, CompletionNotification::Pending { delivery: d }),
            None => r == (
                ReportState::<D>::Sending { project, parent, todo: Some(todo), outcome },
                ReportAction::<D>::Send { parent, todo: Some(todo) },
            ),
        },
        (ReportState::Sending { project, parent, todo, outcome }, ReportEvent::Sent(sent)) => {
            match sent {
                None => finishes_with(
                    r,
                    outcome,
                    CompletionNotification::Deferred { recipient: Some(parent) },
                ),
                Some(d) => match outcome {
                    None => finishes_with(r, outcome, CompletionNotification::Enqueued { delivery: d }),
                    Some(o) => {
                        &&& r.0 matches ReportState::Marking { report } && is_report_of(
                            report,
                            outcome,
                            CompletionNotification::Enqueued { delivery: d },
                        )
                        &&& r.1 == ReportAction::<D>::MarkNotice { project, completion: o.completion }
                    },
                },
            }
        },
        (ReportState::Marking { report }, ReportEvent::Marked) => {
            r == (ReportState::<D>::Finished, ReportAction::<D>::Finish(Ok(report)))
        },
        (s, _) => r == (s, ReportAction::<D>::Ignore),
    }
}

/// The copy of an optional outcome.
fn duplicate_outcome(o: &Option<TodoCompletionOutcome>) -> (r: Option<TodoCompletionOutcome>)
    ensures
        match *o {
            Some(x) => r matches Some(y) && y.completion@ == x.completion@ && y.occurrence
                == x.occurrence && y.notice == x.notice,
            None => r is None,
        },
{
    match o {
        Some(x) => Some(
            TodoCompletionOutcome {
                completion: x.completion.duplicate(),
                occurrence: x.occurrence,
                notice: x.notice,
            },
        ),
        None => None,
    }
}

/// Where a report goes once the completion (if any) is settled.
fn settle<D>(
    project: ProjectId,
    parent: ProcessId,
    todo: Option<TodoId>,
    outcome: Option<TodoCompletionOutcome>,
) -> (r: (ReportState<D>, ReportAction<D>))
    ensures
        settles(r, project, parent, todo, outcome),
{
    let queued = match &outcome {
        Some(o) => match o.notice {
            TodoCompletionNotice::AlreadyQueued => true,
            TodoCompletionNotice::Required => false,
        },
        None => false,
    };
    if queued {
        let report = completion_report(outcome, CompletionNotification::AlreadyQueued);
        (ReportState::Finished, ReportAction::Finish(Ok(report)))
    } else {
        match todo {
            Some(id) => (
                ReportState::CheckingPending { project, parent, todo: id, outcome },
                ReportAction::FindPending { parent, todo: id },
            ),
            None => (
                ReportState::Sending { project, parent, todo, outcome },
                ReportAction::Send { parent, todo },
            ),
        }
    }
}

/// One step of a completion report: from where it stands and what the last piece of outside work
/// answered, where it goes and what to do next (see [`steps`]). An event that does not belong to
/// the state changes nothing and asks for nothing.
pub fn report_step<D>(state: ReportState<D>, event: ReportEvent<D>) -> (r: (ReportState<D>, ReportAction<D>))
    ensures
        steps(state, event, r),
{
    match state {
        ReportState::Start(request) => match event {
            ReportEvent::Begin { summary_bytes, max_bytes } => {
                if summary_bytes > max_bytes {
                    (ReportState::Finished, ReportAction::Finish(Err(AgentMailboxError::MessageTooLarge)))
                } else {
                    (ReportState::Identifying(request), ReportAction::Identify)
                }
            },
            _ => (ReportState::Start(request), ReportAction::Ignore),
        },
        ReportState::Identifying(request) => match event {
            ReportEvent::Identified(who) => match who {
                Err(e) => (ReportState::Finished, ReportAction::Finish(Err(e))),
                Ok((project, sender)) => (
                    ReportState::FindingTask { request, project, sender },
                    ReportAction::FindTask { project, sender, task_message: request.task_message },
                ),
            },
            _ => (ReportState::Identifying(request), ReportAction::Ignore),
        },
        ReportState::FindingTask { request, project, sender } => match event {
            ReportEvent::TaskFound(task) => match task {
                None => (
                    ReportState::Finished,
                    ReportAction::Finish(Err(AgentMailboxError::UnknownMessage)),
                ),
                Some((parent, carried)) => {
                    if carried != request.todo {
                        (ReportState::Finished, ReportAction::Finish(Err(AgentMailboxError::UnknownTodo)))
                    } else {
                        match request.todo {
                            Some(id) => (
                                ReportState::Completing { project, parent, todo: id },
                                ReportAction::Complete {
                                    project,
                                    todo: id,
                                    key: TodoCompletionKey::new(sender, request.task_message),
                                },
                            ),
                            None => settle(project, parent, None, None),
                        }
                    }
                },
            },
            _ => (ReportState::FindingTask { request, project, sender }, ReportAction::Ignore),
        },
        ReportState::Completing { project, parent, todo } => match event {
            ReportEvent::Completed(result) => match result {
                Err(e) => (ReportState::Finished, ReportAction::Finish(Err(e))),
                Ok(o) => match o.occurrence {
                    TodoCompletionOccurrence::Recorded => (
                        ReportState::Announcing { project, parent, todo, outcome: o },
                        ReportAction::Announce { project, todo },
                    ),
                    TodoCompletionOccurrence::Existing => settle(project, parent, Some(todo), Some(o)),
                },
            },
            _ => (ReportState::Completing { project, parent, todo }, ReportAction::Ignore),
        },
        ReportState::Announcing { project, parent, todo, outcome } => match event {
            ReportEvent::Announced => settle(project, parent, Some(todo), Some(outcome)),
            _ => (ReportState::Announcing { project, parent, todo, outcome }, ReportAction::Ignore),
        },
        ReportState::CheckingPending { project, parent, todo, outcome } => match event {
            ReportEvent::PendingFound(pending) => match pending {
                Some(d) => {
                    let report = completion_report(
                        outcome,
                        CompletionNotification::Pending { delivery: d },
                    );
                    (ReportState::Finished, ReportAction::Finish(Ok(report)))
                },
                None => (
                    ReportState::Sending { project, parent, todo: Some(todo), outcome },
                    ReportAction::Send { parent, todo: Some(todo) },
                ),
            },
            _ => (
                ReportState::CheckingPending { project, parent, todo, outcome },
                ReportAction::Ignore,
            ),
        },
        ReportState::Sending { project, parent, todo, outcome } => match event {
            ReportEvent::Sent(sent) => match sent {
                None => {
                    let report = completion_report(
                        outcome,
                        CompletionNotification::Deferred { recipient: Some(parent) },
                    );
                    (ReportState::Finished, ReportAction::Finish(Ok(report)))
                },
                Some(d) => {
                    let copy = duplicate_outcome(&outcome);
                    match outcome {
                        None => {
                            let report = completion_report(
                                copy,
                                CompletionNotification::Enqueued { delivery: d },
                            );
                            (ReportState::Finished, ReportAction::Finish(Ok(report)))
                        },
                        Some(o) => {
                            let report = completion_report(
                                copy,
                                CompletionNotification::Enqueued { delivery: d },
                            );
                            (
                                ReportState::Marking { report },
                                ReportAction::MarkNotice { project, completion: o.completion },
                            )
                        },
                    }
                },
            },
            _ => (ReportState::Sending { project, parent, todo, outcome }, ReportAction::Ignore),
        },
        ReportState::Marking { report } => match event {
            ReportEvent::Marked => (ReportState::Finished, ReportAction::Finish(Ok(report))),
            _ => (ReportState::Marking { report }, ReportAction::Ignore),
        },
        ReportState::Finished => (ReportState::Finished, ReportAction::Ignore),
    }
}


/// The notice flag is marked only after a notice was really queued to the parent, and the
/// change of a todo is announced only when this report recorded its completion.
pub proof fn law_marks_follow_a_sent_notice_and_announcements_a_recorded_completion<D>(
    state: ReportState<D>,
    event: ReportEvent<D>,
    r: (ReportState<D>, ReportAction<D>),
)
    requires
        steps(state, event, r),
    ensures
        r.1 is MarkNotice ==> state is Sending && event matches ReportEvent::Sent(Some(_)),
        r.1 is Announce ==> (event matches ReportEvent::Completed(Ok(o)) && o.occurrence
            == TodoCompletionOccurrence::Recorded),
{
}

/// Once the notice is queued the report is settled: whatever the flag write answers, the agent is
/// told the completion stands and its notice was enqueued.
pub proof fn law_a_refused_notice_flag_never_undoes_the_report<D>(
    report: CompletionReport<D>,
    r: (ReportState<D>, ReportAction<D>),
)
    requires
        steps(ReportState::Marking { report }, ReportEvent::Marked, r),
    ensures
        r.0 is Finished,
        r.1 == ReportAction::<D>::Finish(Ok(report)),
{
}

} // verus!
