//! Work-order and operation lifecycles. Illegal transitions are rejected
//! before any write; the tables here are the one definition of what is legal.

use vstd::prelude::*;
use crate::text::str_eq;

verus! {

/// Work-order lifecycle status.
#[derive(Debug, Clone, Copy, PartialEq, Eq, Structural)]
pub enum WoStatus {
    Draft,
    Released,
    InProgress,
    Completed,
    Closed,
    Cancelled,
}

/// The wire form of a work-order status.
pub open spec fn wo_status_text(s: WoStatus) -> Seq<char> {
    match s {
        WoStatus::Draft => "draft"@,
        WoStatus::Released => "released"@,
        WoStatus::InProgress => "in_progress"@,
        WoStatus::Completed => "completed"@,
        WoStatus::Closed => "closed"@,
        WoStatus::Cancelled => "cancelled"@,
    }
}

/// The status a wire form names, if any.
pub open spec fn wo_status_of_text(t: Seq<char>) -> Option<WoStatus> {
    if t == "draft"@ {
        Some(WoStatus::Draft)
    } else if t == "released"@ {
        Some(WoStatus::Released)
    } else if t == "in_progress"@ {
        Some(WoStatus::InProgress)
    } else if t == "completed"@ {
        Some(WoStatus::Completed)
    } else if t == "closed"@ {
        Some(WoStatus::Closed)
    } else if t == "cancelled"@ {
        Some(WoStatus::Cancelled)
    } else {
        None
    }
}

/// The legal work-order moves.
pub open spec fn wo_transition_allowed(from: WoStatus, to: WoStatus) -> bool {
    match (from, to) {
        (WoStatus::Draft, WoStatus::Released) => true,
        (WoStatus::Draft, WoStatus::Cancelled) => true,
        (WoStatus::Released, WoStatus::InProgress) => true,
        (WoStatus::Released, WoStatus::Cancelled) => true,
        (WoStatus::InProgress, WoStatus::Completed) => true,
        (WoStatus::InProgress, WoStatus::Cancelled) => true,
        (WoStatus::Completed, WoStatus::Closed) => true,
        _ => false,
    }
}

impl WoStatus {
    /// Parse the wire form.
    pub fn parse(s: &str) -> (r: Option<WoStatus>)
        ensures
            r == wo_status_of_text(s@),
    {
        if str_eq(s, "draft") {
            Some(WoStatus::Draft)
        } else if str_eq(s, "released") {
            Some(WoStatus::Released)
        } else if str_eq(s, "in_progress") {
            Some(WoStatus::InProgress)
        } else if str_eq(s, "completed") {
            Some(WoStatus::Completed)
        } else if str_eq(s, "closed") {
            Some(WoStatus::Closed)
        } else if str_eq(s, "cancelled") {
            Some(WoStatus::Cancelled)
        } else {
            None
        }
    }

    /// The wire form.
    pub fn as_str(self) -> (r: &'static str)
        ensures
            r@ == wo_status_text(self),
    {
        match self {
            WoStatus::Draft => "draft",
            WoStatus::Released => "released",
            WoStatus::InProgress => "in_progress",
            WoStatus::Completed => "completed",
            WoStatus::Closed => "closed",
            WoStatus::Cancelled => "cancelled",
        }
    }

    /// Whether the order is in a terminal state.
    pub fn is_terminal(self) -> (r: bool)
        ensures
            r == (self == WoStatus::Closed || self == WoStatus::Cancelled),
    {
        match self {
            WoStatus::Closed | WoStatus::Cancelled => true,
            _ => false,
        }
    }

    /// Whether a move to `next` is allowed.
    pub fn can_transition(self, next: WoStatus) -> (r: bool)
        ensures
            r == wo_transition_allowed(self, next),
    {
        match (self, next) {
            (WoStatus::Draft, WoStatus::Released) => true,
            (WoStatus::Draft, WoStatus::Cancelled) => true,
            (WoStatus::Released, WoStatus::InProgress) => true,
            (WoStatus::Released, WoStatus::Cancelled) => true,
            (WoStatus::InProgress, WoStatus::Completed) => true,
            (WoStatus::InProgress, WoStatus::Cancelled) => true,
            (WoStatus::Completed, WoStatus::Closed) => true,
            _ => false,
        }
    }
}

/// Reading back the wire form of a status gives the status itself.
pub proof fn lemma_wo_status_round_trip(s: WoStatus)
    ensures
        wo_status_of_text(wo_status_text(s)) == Some(s),
{
    broadcast use vstd::string::group_string_axioms;
    reveal_strlit("draft");
    reveal_strlit("released");
    reveal_strlit("in_progress");
    reveal_strlit("completed");
    reveal_strlit("closed");
    reveal_strlit("cancelled");
    assert("draft"@.len() == 5 && "released"@.len() == 8 && "in_progress"@.len() == 11);
    assert("completed"@.len() == 9 && "closed"@.len() == 6 && "cancelled"@.len() == 9);
    assert("completed"@[1] != "cancelled"@[1]);
}

/// No legal move leaves a terminal status.
pub proof fn lemma_wo_terminal_is_final(from: WoStatus, to: WoStatus)
    requires
        from == WoStatus::Closed || from == WoStatus::Cancelled,
    ensures
        !wo_transition_allowed(from, to),
{
}

/// Where each work-order status can be reached from: an order is released
/// only from draft, started only once released, completed only once in
/// progress, closed only once completed, and cancelled only before it is
/// completed; nothing returns to draft.
pub proof fn lemma_wo_reached_only_from(from: WoStatus, to: WoStatus)
    ensures
        wo_transition_allowed(from, to) <==> match to {
            WoStatus::Draft => false,
            WoStatus::Released => from == WoStatus::Draft,
            WoStatus::InProgress => from == WoStatus::Released,
            WoStatus::Completed => from == WoStatus::InProgress,
            WoStatus::Closed => from == WoStatus::Completed,
            WoStatus::Cancelled => from == WoStatus::Draft || from == WoStatus::Released || from
                == WoStatus::InProgress,
        },
{
}

/// A work order reaches `Completed` only from `InProgress`: an order that
/// was never started cannot be completed.
pub proof fn lemma_wo_completed_only_after_start(from: WoStatus)
    ensures
        wo_transition_allowed(from, WoStatus::Completed) <==> from == WoStatus::InProgress,
{
    lemma_wo_reached_only_from(from, WoStatus::Completed);
}

/// Operation lifecycle status.
#[derive(Debug, Clone, Copy, PartialEq, Eq, Structural)]
pub enum OpStatus {
    Pending,
    InProgress,
    Completed,
}

/// The wire form of an operation status.
pub open spec fn op_status_text(s: OpStatus) -> Seq<char> {
    match s {
        OpStatus::Pending => "pending"@,
        OpStatus::InProgress => "in_progress"@,
        OpStatus::Completed => "completed"@,
    }
}

/// The operation status a wire form names, if any.
pub open spec fn op_status_of_text(t: Seq<char>) -> Option<OpStatus> {
    if t == "pending"@ {
        Some(OpStatus::Pending)
    } else if t == "in_progress"@ {
        Some(OpStatus::InProgress)
    } else if t == "completed"@ {
        Some(OpStatus::Completed)
    } else {
        None
    }
}

/// The legal operation moves: one step forward at a time.
pub open spec fn op_transition_allowed(from: OpStatus, to: OpStatus) -> bool {
    match (from, to) {
        (OpStatus::Pending, OpStatus::InProgress) => true,
        (OpStatus::InProgress, OpStatus::Completed) => true,
        _ => false,
    }
}

impl OpStatus {
    /// Parse the wire form.
    pub fn parse(s: &str) -> (r: Option<OpStatus>)
        ensures
            r == op_status_of_text(s@),
    {
        if str_eq(s, "pending") {
            Some(OpStatus::Pending)
        } else if str_eq(s, "in_progress") {
            Some(OpStatus::InProgress)
        } else if str_eq(s, "completed") {
            Some(OpStatus::Completed)
        } else {
            None
        }
    }

    /// The wire form.
    pub fn as_str(self) -> (r: &'static str)
        ensures
            r@ == op_status_text(self),
    {
        match self {
            OpStatus::Pending => "pending",
            OpStatus::InProgress => "in_progress",
            OpStatus::Completed => "completed",
        }
    }

    /// Whether a move to `next` is allowed.
    pub fn can_transition(self, next: OpStatus) -> (r: bool)
        ensures
            r == op_transition_allowed(self, next),
    {
        match (self, next) {
            (OpStatus::Pending, OpStatus::InProgress) => true,
            (OpStatus::InProgress, OpStatus::Completed) => true,
            _ => false,
        }
    }
}

/// Reading back the wire form of an operation status gives the status itself.
pub proof fn lemma_op_status_round_trip(s: OpStatus)
    ensures
        op_status_of_text(op_status_text(s)) == Some(s),
{
    broadcast use vstd::string::group_string_axioms;
    reveal_strlit("pending");
    reveal_strlit("in_progress");
    reveal_strlit("completed");
    assert("pending"@.len() == 7 && "in_progress"@.len() == 11 && "completed"@.len() == 9);
}

/// Where each operation status can be reached from: an operation starts
/// only from pending and completes only once started; nothing returns to
/// pending.
pub proof fn lemma_op_reached_only_from(from: OpStatus, to: OpStatus)
    ensures
        op_transition_allowed(from, to) <==> match to {
            OpStatus::Pending => false,
            OpStatus::InProgress => from == OpStatus::Pending,
            OpStatus::Completed => from == OpStatus::InProgress,
        },
{
}

} // verus!
