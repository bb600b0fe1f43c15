//! The small document every todo carries — the revision-guarded specification of the work, its
//! lifecycle status, and the size cap that bounds a write.

use vstd::prelude::*;
use vstd::string::StringExecFns;

use crate::text::{all_ws, byte_len, bytes_of, is_blank};

verus! {

/// The most text a todo's document may carry, summed across its fields, in bytes. A todo is a
/// work-item specification, not a document store; this bounds the persisted row so a runaway
/// caller cannot grow the table without limit. Tags, blockers, and comments are separate columns,
/// each mutated by its own operation, so they are not counted here.
pub const MAX_TODO_DOC_BYTES: usize = 65536;

/// A todo's lifecycle status — the label the owning agent declares, a closed set so it is never a
/// free-form string. Distinct from the *blocker barrier*: an agent may mark a todo `Blocked` to
/// communicate, but what mechanically prevents completion is its unmet blockers, not this label.
#[derive(Clone, Copy, Debug, PartialEq, Eq, Structural)]
pub enum TodoStatus {
    /// Not yet started.
    Open,
    /// Deliberately parked by the owner (a declared label, independent of the blocker barrier).
    Blocked,
    /// Being worked on.
    InProgress,
    /// Finished. Reached only when every blocker is met (the barrier).
    Done,
}

/// The small document every todo carries: a title, a free-form Markdown body, and the lifecycle
/// status. Tags, blockers, comments, and the lock are **not** part of the document — they are live
/// state mutated by their own operations, so a tag or comment change never collides with a
/// concurrent specification edit.
#[derive(Clone, Debug, PartialEq, Eq)]
pub struct TodoDoc {
    /// A short imperative title — what this todo is.
    pub title: String,
    /// The free-form Markdown body: what needs doing and any detail a worker needs to act on it.
    pub body: String,
    /// The lifecycle status the owner declares.
    pub status: TodoStatus,
}

/// A document as its contracts see it.
pub ghost struct DocV {
    pub title: Seq<char>,
    pub body: Seq<char>,
    pub status: TodoStatus,
}

impl View for TodoDoc {
    type V = DocV;

    open spec fn view(&self) -> DocV {
        DocV { title: self.title@, body: self.body@, status: self.status }
    }
}

/// The problem a blank title reports.
pub open spec fn blank_title_problem() -> Seq<char> {
    "title must not be blank"@
}

/// The problem an over-cap document reports.
pub open spec fn oversize_problem() -> Seq<char> {
    "the document exceeds the 64 KiB cap"@
}

/// The total bytes of the document's text — what the size cap bounds.
pub open spec fn content_bytes(doc: DocV) -> int {
    byte_len(doc.title) + byte_len(doc.body)
}

/// The title is blank: it trims to nothing.
pub open spec fn title_is_blank(doc: DocV) -> bool {
    all_ws(doc.title)
}

/// The document is over the size cap.
pub open spec fn over_cap(doc: DocV) -> bool {
    content_bytes(doc) > MAX_TODO_DOC_BYTES
}

/// A document is well-formed: a title that is not blank and text within the cap.
pub open spec fn doc_is_valid(doc: DocV) -> bool {
    !title_is_blank(doc) && !over_cap(doc)
}

/// The single message naming every problem of a malformed document, joined by `"; "`.
pub open spec fn validation_message(doc: DocV) -> Seq<char> {
    if title_is_blank(doc) && over_cap(doc) {
        blank_title_problem() + "; "@ + oversize_problem()
    } else if title_is_blank(doc) {
        blank_title_problem()
    } else {
        oversize_problem()
    }
}

impl TodoDoc {
    /// A copy with the same contents.
    pub fn duplicate(&self) -> (r: Self)
        ensures
            r@ == self@,
    {
        TodoDoc { title: self.title.clone(), body: self.body.clone(), status: self.status }
    }

    /// Checks the write is well-formed: the title is not blank and the text stays within the size
    /// cap. The body may be blank — a blank document is valid; only the title and the size ceiling
    /// are enforced. Returns a single message naming every problem at once, or `Ok(())` when it is
    /// well-formed. The status is a closed enum, so it needs no validation.
    pub fn validate(&self) -> (r: Result<(), String>)
        ensures
            r is Ok <==> doc_is_valid(self@),
            r matches Err(message) ==> message@ == validation_message(self@),
    {
        let blank = is_blank(self.title.as_str());
        let over = self.content_bytes() > MAX_TODO_DOC_BYTES;
        if !blank && !over {
            return Ok(());
        }
        let mut message = String::new();
        if blank {
            message.append("title must not be blank");
        }
        if over {
            if blank {
                message.append("; ");
            }
            message.append("the document exceeds the 64 KiB cap");
        }
        proof {
            if blank && over {
                assert(message@ == Seq::<char>::empty() + blank_title_problem() + "; "@
                    + oversize_problem());
                assert(Seq::<char>::empty() + blank_title_problem() == blank_title_problem());
            } else if blank {
                assert(message@ == Seq::<char>::empty() + blank_title_problem());
            } else {
                assert(message@ == Seq::<char>::empty() + oversize_problem());
            }
        }
        Err(message)
    }

    /// The total bytes of the document's text, saturating at `usize::MAX`.
    fn content_bytes(&self) -> (n: usize)
        ensures
            n == if content_bytes(self@) > usize::MAX {
                usize::MAX as int
            } else {
                content_bytes(self@)
            },
    {
        bytes_of(&self.title).saturating_add(bytes_of(&self.body))
    }
}

} // verus!
