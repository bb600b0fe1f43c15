//! The decisions of authenticated agent messaging and completion reporting.
//!
//! Reporting a task complete alternates between the mailbox (looking up the task, queueing the
//! parent's notice) and the todo aggregate (recording the completion). The mailbox work is the
//! caller's; what is decided here is which refusal a request earns before any of it, how a todo
//! refusal reads to the reporting agent, and which notification the report ends with. A delivery
//! receipt is the caller's own type `D`, carried through unchanged.

use vstd::prelude::*;

use crate::ids::{AgentMessageId, ProcessId, TodoId};
use crate::todo::TodoError;
use crate::todo_completion::{
    TodoCompletion, TodoCompletionNotice, TodoCompletionOccurrence, TodoCompletionOutcome,
};
use crate::todo_repo::StoreError;

verus! {

/// Why an authenticated mailbox operation was refused.
#[derive(Debug)]
pub enum AgentMailboxError {
    /// No project is in scope; select one first.
    NoProjectScope,
    /// The caller is not bound to a live agent process.
    NoBoundProcess,
    /// No such recipient in this project.
    UnknownRecipient,
    /// That agent is outside the caller's live lineage group.
    UnrelatedRecipient,
    /// No pending message under that id.
    UnknownMessage,
    /// The message exceeds the per-message byte cap.
    MessageTooLarge,
    /// The recipient's inbox is full.
    RecipientQueueFull,
    /// The project's mailbox is full.
    ProjectQueueFull,
    /// The global mailbox is full.
    GlobalQueueFull,
    /// The global mailbox byte limit is full.
    GlobalByteLimit,
    /// No todo under that id.
    UnknownTodo,
    /// The todo is blocked by these unmet blockers.
    TodoBlocked { by: Vec<TodoId> },
    /// A durable read or write failed.
    Store(StoreError),
}

/// Best-effort state of the ephemeral notification associated with a durable completion.
#[derive(Clone, Debug, PartialEq, Eq)]
pub enum CompletionNotification<D> {
    /// The notice was queued to the parent by this report.
    Enqueued { delivery: D },
    /// A notice for this todo is already pending in the parent's inbox.
    Pending { delivery: D },
    /// The completion record says its notice was queued before.
    AlreadyQueued,
    /// The notice could not be queued now; `recipient` is who it is owed to.
    Deferred { recipient: Option<ProcessId> },
}

/// The durable completion record and the optional ephemeral notification queued to its live
/// parent.
#[derive(Clone, Debug, PartialEq, Eq)]
pub struct CompletionReport<D> {
    pub completion: Option<TodoCompletion>,
    pub occurrence: Option<TodoCompletionOccurrence>,
    pub notification: CompletionNotification<D>,
}

/// Where a message stands once queued.
#[derive(Clone, Copy, Debug, PartialEq, Eq, Structural)]
pub enum AgentMessageOutcome {
    /// It waits in the recipient's inbox.
    Queued,
    /// The recipient has read it.
    Acknowledged,
    /// It is queued and the idle recipient was woken to read it.
    WakeSubmitted,
}

/// One message of a send or broadcast: its id, its recipient, and where it stands.
#[derive(Clone, Copy, Debug, PartialEq, Eq, Structural)]
pub struct AgentMessageReceipt {
    pub message_id: AgentMessageId,
    pub recipient: ProcessId,
    pub outcome: AgentMessageOutcome,
}

/// What a broadcast queued, one receipt per recipient, in roster order.
#[derive(Clone, Debug, PartialEq, Eq)]
pub struct AgentBroadcastReceipt {
    pub deliveries: Vec<AgentMessageReceipt>,
}

/// The receipt of a queued message once its recipient's wake is settled: a wake is submitted only
/// to a recipient that is idle, and the receipt says so only when that wake went through;
/// otherwise it stands as queued.
pub open spec fn woken(queued: AgentMessageReceipt, idle: bool, woke: bool) -> AgentMessageReceipt {
    if idle && woke {
        AgentMessageReceipt { outcome: AgentMessageOutcome::WakeSubmitted, ..queued }
    } else {
        queued
    }
}

/// The receipt of a broadcast from what was queued: for each queued message, whether its
/// recipient was idle and whether the wake submitted to it went through (a recipient that is not
/// idle is not woken, whatever `woke` says). Each receipt keeps its message and recipient, in
/// order.
pub fn broadcast_receipt(queued: &Vec<(AgentMessageReceipt, bool, bool)>) -> (r: AgentBroadcastReceipt)
    ensures
        r.deliveries@.len() == queued@.len(),
        forall|i: int|
            0 <= i < queued@.len() ==> #[trigger] r.deliveries@[i] == woken(
                queued@[i].0,
                queued@[i].1,
                queued@[i].2,
            ),
{
    let mut deliveries: Vec<AgentMessageReceipt> = Vec::new();
    let mut k: usize = 0;
    while k < queued.len()
        invariant
            k <= queued@.len(),
            deliveries@.len() == k,
            forall|i: int|
                0 <= i < k ==> #[trigger] deliveries@[i] == woken(
                    queued@[i].0,
                    queued@[i].1,
                    queued@[i].2,
                ),
        decreases queued@.len() - k,
    {
        let (receipt, idle, woke) = queued[k];
        let settled = if idle && woke {
            AgentMessageReceipt { outcome: AgentMessageOutcome::WakeSubmitted, ..receipt }
        } else {
            receipt
        };
        deliveries.push(settled);
        k += 1;
    }
    AgentBroadcastReceipt { deliveries }
}

/// Refuses a message body of `len` bytes over the per-message cap `max_bytes` — checked before
/// anything else, so an oversized report or broadcast is refused whatever its scope.
pub fn check_message_size(len: usize, max_bytes: usize) -> (r: Result<(), AgentMailboxError>)
    ensures
        r is Ok <==> len <= max_bytes,
        r matches Err(e) ==> e is MessageTooLarge,
{
    if len > max_bytes {
        Err(AgentMailboxError::MessageTooLarge)
    } else {
        Ok(())
    }
}

/// Refuses a completion report that names a todo other than the one its task message carries
/// (`None` on either side meaning "no todo").
pub fn check_task_todo(requested: Option<TodoId>, task_todo: Option<TodoId>) -> (r: Result<
    (),
    AgentMailboxError,
>)
    ensures
        r is Ok <==> requested == task_todo,
        r matches Err(e) ==> e is UnknownTodo,
{
    if requested == task_todo {
        Ok(())
    } else {
        Err(AgentMailboxError::UnknownTodo)
    }
}

/// Refuses a direct message to `recipient` unless it is on the sender's roster: an agent of the
/// project outside the sender's lineage group is unrelated, anything else unknown.
pub fn check_recipient(on_roster: bool, known_in_project: bool) -> (r: Result<
    (),
    AgentMailboxError,
>)
    ensures
        r is Ok <==> on_roster,
        r matches Err(e) ==> if known_in_project {
            e is UnrelatedRecipient
        } else {
            e is UnknownRecipient
        },
{
    if on_roster {
        Ok(())
    } else if known_in_project {
        Err(AgentMailboxError::UnrelatedRecipient)
    } else {
        Err(AgentMailboxError::UnknownRecipient)
    }
}

/// How a refusal of the todo aggregate reads to the reporting agent: a missing todo is an unknown
/// todo, an open blocker a blocked todo, a store failure a store failure, and any other refusal a
/// store failure described by `message`, the refusal's display text.
pub fn completion_error(e: TodoError, message: String) -> (r: AgentMailboxError)
    ensures
        match e {
            TodoError::NotFound => r is UnknownTodo,
            TodoError::Blocked { by } => r matches AgentMailboxError::TodoBlocked { by: b } && b@
                == by@,
            TodoError::Store(s) => r == AgentMailboxError::Store(s),
            _ => r matches AgentMailboxError::Store(StoreError::Backend(m)) && m@ == message@,
        },
{
    match e {
        TodoError::NotFound => AgentMailboxError::UnknownTodo,
        TodoError::Blocked { by } => AgentMailboxError::TodoBlocked { by },
        TodoError::Store(s) => AgentMailboxError::Store(s),
        _ => AgentMailboxError::Store(StoreError::Backend(message)),
    }
}

/// The notification a report settles on before any send: `AlreadyQueued` when the recorded
/// completion says its notice was queued before, else the notice already `pending` in the parent's
/// inbox, else `None` — the notice is to be sent.
pub fn notification_before_send<D>(notice: Option<TodoCompletionNotice>, pending: Option<D>) -> (r:
    Option<CompletionNotification<D>>)
    ensures
        notice == Some(TodoCompletionNotice::AlreadyQueued) ==> r == Some(
            CompletionNotification::<D>::AlreadyQueued,
        ),
        notice != Some(TodoCompletionNotice::AlreadyQueued) ==> match pending {
            Some(d) => r == Some(CompletionNotification::Pending { delivery: d }),
            None => r is None,
        },
{
    let queued = match notice {
        Some(TodoCompletionNotice::AlreadyQueued) => true,
        _ => false,
    };
    if queued {
        Some(CompletionNotification::AlreadyQueued)
    } else {
        match pending {
            Some(d) => Some(CompletionNotification::Pending { delivery: d }),
            None => None,
        }
    }
}

/// The notification after sending the notice to `parent`: enqueued with its delivery, or deferred
/// to the parent when the send was refused.
pub fn notification_after_send<D>(sent: Option<D>, parent: ProcessId) -> (r: CompletionNotification<
    D,
>)
    ensures
        match sent {
            Some(d) => r == CompletionNotification::Enqueued { delivery: d },
            None => r == CompletionNotification::<D>::Deferred { recipient: Some(parent) },
        },
{
    match sent {
        Some(d) => CompletionNotification::Enqueued { delivery: d },
        None => CompletionNotification::Deferred { recipient: Some(parent) },
    }
}

/// Whether `r` reports `outcome` (the durable record and its occurrence, when a todo was completed)
/// with `notification`.
pub open spec fn is_report_of<D>(
    r: CompletionReport<D>,
    outcome: Option<TodoCompletionOutcome>,
    notification: CompletionNotification<D>,
) -> bool {
    &&& r.notification == notification
    &&& match outcome {
        Some(o) => r.completion matches Some(c) && c@ == o.completion@ && r.occurrence == Some(
            o.occurrence,
        ),
        None => r.completion is None && r.occurrence is None,
    }
}

/// The report of a completion: the durable record and its occurrence when a todo was completed,
/// and the notification it settled on.
pub fn completion_report<D>(
    outcome: Option<TodoCompletionOutcome>,
    notification: CompletionNotification<D>,
) -> (r: CompletionReport<D>)
    ensures
        is_report_of(r, outcome, notification),
{
    match outcome {
        Some(o) => CompletionReport {
            completion: Some(o.completion),
            occurrence: Some(o.occurrence),
            notification,
        },
        None => CompletionReport { completion: None, occurrence: None, notification },
    }
}

} // verus!
