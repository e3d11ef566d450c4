//! DNC transfer and program-revision lifecycles. A program revision is never
//! promoted automatically: only a deliberate Draft -> Promoted step exists.

use vstd::prelude::*;
use crate::text::str_eq;

verus! {

/// Direction of a DNC transfer relative to the machine.
#[derive(Debug, Clone, Copy, PartialEq, Eq, Structural)]
pub enum TransferDirection {
    /// Program pushed to the machine.
    ToMachine,
    /// Program received back from the machine.
    FromMachine,
}

/// The wire form of a transfer direction.
pub open spec fn transfer_direction_text(d: TransferDirection) -> Seq<char> {
    match d {
        TransferDirection::ToMachine => "to_machine"@,
        TransferDirection::FromMachine => "from_machine"@,
    }
}

impl TransferDirection {
    /// The wire form.
    pub fn as_str(self) -> (r: &'static str)
        ensures
            r@ == transfer_direction_text(self),
    {
        match self {
            TransferDirection::ToMachine => "to_machine",
            TransferDirection::FromMachine => "from_machine",
        }
    }
}

/// Lifecycle of a DNC transfer.
#[derive(Debug, Clone, Copy, PartialEq, Eq, Structural)]
pub enum TransferStatus {
    Scheduled,
    Notified,
    Fetched,
    Completed,
    Failed,
}

/// The wire form of a transfer status.
pub open spec fn transfer_status_text(s: TransferStatus) -> Seq<char> {
    match s {
        TransferStatus::Scheduled => "scheduled"@,
        TransferStatus::Notified => "notified"@,
        TransferStatus::Fetched => "fetched"@,
        TransferStatus::Completed => "completed"@,
        TransferStatus::Failed => "failed"@,
    }
}

/// The transfer status a wire form names, if any.
pub open spec fn transfer_status_of_text(t: Seq<char>) -> Option<TransferStatus> {
    if t == "scheduled"@ {
        Some(TransferStatus::Scheduled)
    } else if t == "notified"@ {
        Some(TransferStatus::Notified)
    } else if t == "fetched"@ {
        Some(TransferStatus::Fetched)
    } else if t == "completed"@ {
        Some(TransferStatus::Completed)
    } else if t == "failed"@ {
        Some(TransferStatus::Failed)
    } else {
        None
    }
}

/// Whether a transfer status is terminal.
pub open spec fn transfer_terminal(s: TransferStatus) -> bool {
    s == TransferStatus::Completed || s == TransferStatus::Failed
}

/// The legal transfer moves: failure from any active state, otherwise forward
/// along Scheduled -> Notified -> Fetched -> Completed, skipping allowed.
pub open spec fn transfer_transition_allowed(from: TransferStatus, to: TransferStatus) -> bool {
    if to == TransferStatus::Failed {
        !transfer_terminal(from)
    } else {
        match (from, to) {
            (TransferStatus::Scheduled, TransferStatus::Notified) => true,
            (TransferStatus::Scheduled, TransferStatus::Fetched) => true,
            (TransferStatus::Scheduled, TransferStatus::Completed) => true,
            (TransferStatus::Notified, TransferStatus::Fetched) => true,
            (TransferStatus::Notified, TransferStatus::Completed) => true,
            (TransferStatus::Fetched, TransferStatus::Completed) => true,
            _ => false,
        }
    }
}

/// Position of a transfer status along the forward path (failure last).
pub open spec fn transfer_rank(s: TransferStatus) -> int {
    match s {
        TransferStatus::Scheduled => 0,
        TransferStatus::Notified => 1,
        TransferStatus::Fetched => 2,
        TransferStatus::Completed => 3,
        TransferStatus::Failed => 4,
    }
}

impl TransferStatus {
    /// Parse the wire form.
    pub fn parse(s: &str) -> (r: Option<TransferStatus>)
        ensures
            r == transfer_status_of_text(s@),
    {
        if str_eq(s, "scheduled") {
            Some(TransferStatus::Scheduled)
        } else if str_eq(s, "notified") {
            Some(TransferStatus::Notified)
        } else if str_eq(s, "fetched") {
            Some(TransferStatus::Fetched)
        } else if str_eq(s, "completed") {
            Some(TransferStatus::Completed)
        } else if str_eq(s, "failed") {
            Some(TransferStatus::Failed)
        } else {
            None
        }
    }

    /// The wire form.
    pub fn as_str(self) -> (r: &'static str)
        ensures
            r@ == transfer_status_text(self),
    {
        match self {
            TransferStatus::Scheduled => "scheduled",
            TransferStatus::Notified => "notified",
            TransferStatus::Fetched => "fetched",
            TransferStatus::Completed => "completed",
            TransferStatus::Failed => "failed",
        }
    }

    /// Whether the transfer has finished, one way or the other.
    pub fn is_terminal(self) -> (r: bool)
        ensures
            r == transfer_terminal(self),
    {
        match self {
            TransferStatus::Completed | TransferStatus::Failed => true,
            _ => false,
        }
    }

    /// Whether a move to `next` is allowed.
    pub fn can_transition(self, next: TransferStatus) -> (r: bool)
        ensures
            r == transfer_transition_allowed(self, next),
    {
        if let TransferStatus::Failed = next {
            return !self.is_terminal();
        }
        match (self, next) {
            (TransferStatus::Scheduled, TransferStatus::Notified) => true,
            (TransferStatus::Scheduled, TransferStatus::Fetched) => true,
            (TransferStatus::Scheduled, TransferStatus::Completed) => true,
            (TransferStatus::Notified, TransferStatus::Fetched) => true,
            (TransferStatus::Notified, TransferStatus::Completed) => true,
            (TransferStatus::Fetched, TransferStatus::Completed) => true,
            _ => false,
        }
    }
}

/// Every legal transfer move goes strictly forward: no status is revisited.
pub proof fn lemma_transfer_moves_forward(from: TransferStatus, to: TransferStatus)
    requires
        transfer_transition_allowed(from, to),
    ensures
        transfer_rank(from) < transfer_rank(to),
        !transfer_terminal(from),
{
}

/// Every forward move from an active transfer is legal, skipping steps
/// included (a notified transfer may complete at once), and failure is
/// legal from any active status.
pub proof fn lemma_transfer_forward_is_allowed(from: TransferStatus, to: TransferStatus)
    requires
        !transfer_terminal(from),
        transfer_rank(from) < transfer_rank(to),
    ensures
        transfer_transition_allowed(from, to),
{
}

/// The legal transfer moves are exactly the forward moves out of an active
/// status, spelled out: scheduled to notified, fetched, completed or failed;
/// notified to fetched, completed or failed; fetched to completed or failed.
pub proof fn lemma_transfer_moves_exactly(from: TransferStatus, to: TransferStatus)
    ensures
        transfer_transition_allowed(from, to) <==> match from {
            TransferStatus::Scheduled => to != TransferStatus::Scheduled,
            TransferStatus::Notified => to == TransferStatus::Fetched || to == TransferStatus::Completed
                || to == TransferStatus::Failed,
            TransferStatus::Fetched => to == TransferStatus::Completed || to == TransferStatus::Failed,
            TransferStatus::Completed => false,
            TransferStatus::Failed => false,
        },
{
}

/// Reading back the wire form of a transfer status gives the status itself.
pub proof fn lemma_transfer_status_round_trip(s: TransferStatus)
    ensures
        transfer_status_of_text(transfer_status_text(s)) == Some(s),
{
    broadcast use vstd::string::group_string_axioms;
    reveal_strlit("scheduled");
    reveal_strlit("notified");
    reveal_strlit("fetched");
    reveal_strlit("completed");
    reveal_strlit("failed");
    assert("scheduled"@.len() == 9 && "notified"@.len() == 8 && "fetched"@.len() == 7);
    assert("completed"@.len() == 9 && "failed"@.len() == 6);
    assert("completed"@[0] != "scheduled"@[0]);
}

/// Lifecycle of an operator-edited program revision.
#[derive(Debug, Clone, Copy, PartialEq, Eq, Structural)]
pub enum RevisionStatus {
    Draft,
    Promoted,
    Rejected,
}

/// The wire form of a revision status.
pub open spec fn revision_status_text(s: RevisionStatus) -> Seq<char> {
    match s {
        RevisionStatus::Draft => "draft"@,
        RevisionStatus::Promoted => "promoted"@,
        RevisionStatus::Rejected => "rejected"@,
    }
}

/// The revision status a wire form names, if any.
pub open spec fn revision_status_of_text(t: Seq<char>) -> Option<RevisionStatus> {
    if t == "draft"@ {
        Some(RevisionStatus::Draft)
    } else if t == "promoted"@ {
        Some(RevisionStatus::Promoted)
    } else if t == "rejected"@ {
        Some(RevisionStatus::Rejected)
    } else {
        None
    }
}

/// A draft may be promoted or rejected; both outcomes are final.
pub open spec fn revision_transition_allowed(from: RevisionStatus, to: RevisionStatus) -> bool {
    from == RevisionStatus::Draft && (to == RevisionStatus::Promoted || to
        == RevisionStatus::Rejected)
}

impl RevisionStatus {
    /// Parse the wire form.
    pub fn parse(s: &str) -> (r: Option<RevisionStatus>)
        ensures
            r == revision_status_of_text(s@),
    {
        if str_eq(s, "draft") {
            Some(RevisionStatus::Draft)
        } else if str_eq(s, "promoted") {
            Some(RevisionStatus::Promoted)
        } else if str_eq(s, "rejected") {
            Some(RevisionStatus::Rejected)
        } else {
            None
        }
    }

    /// The wire form.
    pub fn as_str(self) -> (r: &'static str)
        ensures
            r@ == revision_status_text(self),
    {
        match self {
            RevisionStatus::Draft => "draft",
            RevisionStatus::Promoted => "promoted",
            RevisionStatus::Rejected => "rejected",
        }
    }

    /// Whether a move to `next` is allowed.
    pub fn can_transition(self, next: RevisionStatus) -> (r: bool)
        ensures
            r == revision_transition_allowed(self, next),
    {
        match (self, next) {
            (RevisionStatus::Draft, RevisionStatus::Promoted) => true,
            (RevisionStatus::Draft, RevisionStatus::Rejected) => true,
            _ => false,
        }
    }
}

/// Reading back the wire form of a revision status gives the status itself.
pub proof fn lemma_revision_status_round_trip(s: RevisionStatus)
    ensures
        revision_status_of_text(revision_status_text(s)) == Some(s),
{
    broadcast use vstd::string::group_string_axioms;
    reveal_strlit("draft");
    reveal_strlit("promoted");
    reveal_strlit("rejected");
    assert("draft"@.len() == 5 && "promoted"@.len() == 8 && "rejected"@.len() == 8);
    assert("promoted"@[0] != "rejected"@[0]);
}

/// Where each revision status can be reached from: only a draft is promoted
/// or rejected, and nothing returns to draft.
pub proof fn lemma_revision_reached_only_from(from: RevisionStatus, to: RevisionStatus)
    ensures
        revision_transition_allowed(from, to) <==> (to != RevisionStatus::Draft && from
            == RevisionStatus::Draft),
{
}

} // verus!
