//! What an event is.

use vstd::prelude::*;

verus! {

/// Causal relationship for an event.
#[derive(Clone, Copy, Debug, PartialEq, Eq, Structural)]
pub enum Cause {
    /// No parent event, starts a new causal chain.
    Root(RootCause),
    /// Direct immediate causal parent event.
    CausedBy(EventId),
}

#[derive(Clone, Copy, Debug, PartialEq, Eq, Structural)]
pub enum RootCause {
    Boot,
}

#[derive(Clone, Copy, Debug, PartialEq, Eq, Structural)]
pub enum EventKind {
    Boot,
}

#[derive(Clone, Copy, Debug, PartialEq, Eq, Structural)]
pub enum EventData {
    /// The event carries nothing.
    Empty,
}

/// Names one event: the core that recorded it and its number on that core.
#[derive(Clone, Copy, Debug, PartialEq, Eq, Structural)]
pub struct EventId {
    core: u16,
    sequence: u64,
}

impl EventId {
    pub closed spec fn spec_core(&self) -> u16 {
        self.core
    }

    pub closed spec fn spec_sequence(&self) -> u64 {
        self.sequence
    }

    pub fn new(core: u16, sequence: u64) -> (id: Self)
        ensures
            id.spec_core() == core,
            id.spec_sequence() == sequence,
    {
        Self { core, sequence }
    }

    #[verifier::when_used_as_spec(spec_core)]
    pub fn core_id(&self) -> (c: u16)
        ensures
            c == self.spec_core(),
    {
        self.core
    }

    #[verifier::when_used_as_spec(spec_sequence)]
    pub fn sequence(&self) -> (s: u64)
        ensures
            s == self.spec_sequence(),
    {
        self.sequence
    }

    /// Two ids with the same core and number are the same id.
    pub proof fn lemma_same_parts(a: EventId, b: EventId)
        requires
            a.core_id() == b.core_id(),
            a.sequence() == b.sequence(),
        ensures
            a == b,
    {
    }
}

#[derive(Clone, Copy, Debug, PartialEq, Eq, Structural)]
pub struct Event {
    pub id: EventId,
    pub kind: EventKind,
    pub cause: Cause,
    pub data: EventData,
}

} // verus!
