//! Durable identifiers: each is a plain `u64` newtype, compared by value.

use vstd::prelude::*;

verus! {

/// A project known to the app.
#[derive(Clone, Copy, Debug, PartialEq, Eq, Hash, PartialOrd, Ord, Structural)]
pub struct ProjectId(pub u64);

impl ProjectId {
    /// Wraps a raw id.
    pub fn from_raw(raw: u64) -> (id: Self)
        ensures
            id.0 == raw,
    {
        ProjectId(raw)
    }

    /// The raw id.
    pub fn raw(self) -> (r: u64)
        ensures
            r == self.0,
    {
        self.0
    }
}

/// A supervised process, per run (recycled across runs).
#[derive(Clone, Copy, Debug, PartialEq, Eq, Hash, PartialOrd, Ord, Structural)]
pub struct ProcessId(pub u64);

impl ProcessId {
    /// Wraps a raw id.
    pub fn from_raw(raw: u64) -> (id: Self)
        ensures
            id.0 == raw,
    {
        ProcessId(raw)
    }

    /// The raw id.
    pub fn raw(self) -> (r: u64)
        ensures
            r == self.0,
    {
        self.0
    }
}

/// A durable todo, assigned by its store and never reused.
#[derive(Clone, Copy, Debug, PartialEq, Eq, Hash, PartialOrd, Ord, Structural)]
pub struct TodoId(pub u64);

impl TodoId {
    /// Wraps a raw id.
    pub fn from_raw(raw: u64) -> (id: Self)
        ensures
            id.0 == raw,
    {
        TodoId(raw)
    }

    /// The raw id.
    pub fn raw(self) -> (r: u64)
        ensures
            r == self.0,
    {
        self.0
    }
}

/// A timer, assigned by its store.
#[derive(Clone, Copy, Debug, PartialEq, Eq, Hash, PartialOrd, Ord, Structural)]
pub struct TimerId(pub u64);

impl TimerId {
    /// Wraps a raw id.
    pub fn from_raw(raw: u64) -> (id: Self)
        ensures
            id.0 == raw,
    {
        TimerId(raw)
    }

    /// The raw id.
    pub fn raw(self) -> (r: u64)
        ensures
            r == self.0,
    {
        self.0
    }
}

/// An addressed message between agents.
#[derive(Clone, Copy, Debug, PartialEq, Eq, Hash, PartialOrd, Ord, Structural)]
pub struct AgentMessageId(pub u64);

impl AgentMessageId {
    /// Wraps a raw id.
    pub fn from_raw(raw: u64) -> (id: Self)
        ensures
            id.0 == raw,
    {
        AgentMessageId(raw)
    }

    /// The raw id.
    pub fn raw(self) -> (r: u64)
        ensures
            r == self.0,
    {
        self.0
    }
}

/// A durable scratchpad, assigned by its store and never reused.
#[derive(Clone, Copy, Debug, PartialEq, Eq, Hash, PartialOrd, Ord, Structural)]
pub struct ScratchpadId(pub u64);

impl ScratchpadId {
    /// Wraps a raw id.
    pub fn from_raw(raw: u64) -> (id: Self)
        ensures
            id.0 == raw,
    {
        ScratchpadId(raw)
    }

    /// The raw id.
    pub fn raw(self) -> (r: u64)
        ensures
            r == self.0,
    {
        self.0
    }
}

} // verus!
