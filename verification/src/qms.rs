//! Quality: characteristic pass/fail, the auto-NCR-and-hold plan on a failed
//! inspection, the NCR lifecycle and the disposition hold-release rules.

use vstd::prelude::*;
use crate::decimal::{dec_less, Dec};
use crate::id::{is_ulid_text, new_id};
use crate::text::str_eq;

verus! {

/// Result of evaluating one measured characteristic.
#[derive(Debug, Clone, Copy, PartialEq, Eq, Structural)]
pub enum InspectionOutcome {
    Pass,
    Fail,
}

pub open spec fn inspection_outcome_text(o: InspectionOutcome) -> Seq<char> {
    match o {
        InspectionOutcome::Pass => "pass"@,
        InspectionOutcome::Fail => "fail"@,
    }
}

impl InspectionOutcome {
    pub fn as_str(self) -> (r: &'static str)
        ensures
            r@ == inspection_outcome_text(self),
    {
        match self {
            InspectionOutcome::Pass => "pass",
            InspectionOutcome::Fail => "fail",
        }
    }
}

/// A measurement fails when it lies below a present lower limit or above a
/// present upper limit; the limits are inclusive and a missing one is not
/// enforced.
pub open spec fn spec_fails(value: Dec, lower: Option<Dec>, upper: Option<Dec>) -> bool {
    (lower matches Some(lo) && dec_less(value, lo)) || (upper matches Some(hi) && dec_less(
        hi,
        value,
    ))
}

/// Evaluate a measurement against optional inclusive tolerance limits.
pub fn evaluate(value: Dec, lower: Option<Dec>, upper: Option<Dec>) -> (r: InspectionOutcome)
    requires
        value.wf(),
        lower matches Some(lo) ==> lo.wf(),
        upper matches Some(hi) ==> hi.wf(),
    ensures
        r == (if spec_fails(value, lower, upper) {
            InspectionOutcome::Fail
        } else {
            InspectionOutcome::Pass
        }),
{
    if let Some(lo) = lower {
        if value.lt(&lo) {
            return InspectionOutcome::Fail;
        }
    }
    if let Some(hi) = upper {
        if hi.lt(&value) {
            return InspectionOutcome::Fail;
        }
    }
    InspectionOutcome::Pass
}

/// With no limits at all, every measurement passes.
pub proof fn lemma_unbounded_always_passes(value: Dec)
    ensures
        !spec_fails(value, None, None),
{
}

/// A hold to place on one entity.
#[derive(Debug, Clone, PartialEq, Eq)]
pub struct HoldTarget {
    /// `lot` or `serial`.
    pub entity_type: String,
    pub entity_id: String,
}

/// What a failed inspection raises: an NCR number and the holds it places.
#[derive(Debug, Clone, PartialEq, Eq)]
pub struct NcrPlan {
    pub ncr_no: String,
    pub holds: Vec<HoldTarget>,
}

/// The writes an inspection result calls for.
#[derive(Debug, Clone, PartialEq, Eq)]
pub struct InspectionPlan {
    pub outcome: InspectionOutcome,
    /// Present exactly when the outcome is a failure.
    pub ncr: Option<NcrPlan>,
}

/// The holds a failure places, in order: the lot (if any), then the serial.
pub open spec fn spec_hold_targets(lot_id: Option<Seq<char>>, serial_id: Option<Seq<char>>) -> Seq<
    (Seq<char>, Seq<char>),
> {
    let l: Seq<(Seq<char>, Seq<char>)> = match lot_id {
        Some(l) => seq![("lot"@, l)],
        None => Seq::empty(),
    };
    let s: Seq<(Seq<char>, Seq<char>)> = match serial_id {
        Some(s) => seq![("serial"@, s)],
        None => Seq::empty(),
    };
    l + s
}

/// The view of a list of hold targets as (type, id) pairs.
pub open spec fn holds_view(h: Seq<HoldTarget>) -> Seq<(Seq<char>, Seq<char>)> {
    h.map_values(|t: HoldTarget| (t.entity_type@, t.entity_id@))
}

/// The view of an optional string slice.
pub open spec fn opt_view(o: Option<&str>) -> Option<Seq<char>> {
    match o {
        Some(s) => Some(s@),
        None => None,
    }
}

/// The NCR number derived from an NCR id: `NCR-` and the id's first ten
/// characters.
pub open spec fn spec_ncr_no(ncr_id: Seq<char>) -> Seq<char> {
    "NCR-"@ + ncr_id.subrange(0, 10)
}

/// Plan the writes for one inspection result: evaluate against the limits;
/// on a failure, raise an NCR numbered from `ncr_id` and hold the lot and/or
/// serial it concerns.
pub fn plan_inspection(
    value: Dec,
    lower: Option<Dec>,
    upper: Option<Dec>,
    lot_id: Option<&str>,
    serial_id: Option<&str>,
    ncr_id: &str,
) -> (r: InspectionPlan)
    requires
        value.wf(),
        lower matches Some(lo) ==> lo.wf(),
        upper matches Some(hi) ==> hi.wf(),
        ncr_id@.len() >= 10,
    ensures
        r.outcome == (if spec_fails(value, lower, upper) {
            InspectionOutcome::Fail
        } else {
            InspectionOutcome::Pass
        }),
        r.ncr is Some <==> r.outcome == InspectionOutcome::Fail,
        r.ncr matches Some(n) ==> n.ncr_no@ == spec_ncr_no(ncr_id@) && holds_view(n.holds@)
            == spec_hold_targets(opt_view(lot_id), opt_view(serial_id)),
{
    let outcome = evaluate(value, lower, upper);
    match outcome {
        InspectionOutcome::Pass => InspectionPlan { outcome, ncr: None },
        InspectionOutcome::Fail => {
            let mut ncr_no = String::from_str("NCR-");
            ncr_no.append(ncr_id.substring_char(0, 10));
            let mut holds: Vec<HoldTarget> = Vec::new();
            if let Some(l) = lot_id {
                holds.push(
                    HoldTarget { entity_type: String::from_str("lot"), entity_id: String::from_str(l) },
                );
            }
            if let Some(s) = serial_id {
                holds.push(
                    HoldTarget {
                        entity_type: String::from_str("serial"),
                        entity_id: String::from_str(s),
                    },
                );
            }
            proof {
                assert(holds_view(holds@) =~= spec_hold_targets(opt_view(lot_id), opt_view(serial_id)));
            }
            InspectionPlan { outcome, ncr: Some(NcrPlan { ncr_no, holds }) }
        },
    }
}

/// Plan an inspection result with a freshly minted NCR id. Returns the id with
/// the plan; every outcome of the id generator gives the plan of
/// `plan_inspection` for that id.
pub fn plan_inspection_with_new_id(
    value: Dec,
    lower: Option<Dec>,
    upper: Option<Dec>,
    lot_id: Option<&str>,
    serial_id: Option<&str>,
) -> (r: (String, InspectionPlan))
    requires
        value.wf(),
        lower matches Some(lo) ==> lo.wf(),
        upper matches Some(hi) ==> hi.wf(),
    ensures
        is_ulid_text(r.0@),
        r.1.outcome == (if spec_fails(value, lower, upper) {
            InspectionOutcome::Fail
        } else {
            InspectionOutcome::Pass
        }),
        r.1.ncr is Some <==> r.1.outcome == InspectionOutcome::Fail,
        r.1.ncr matches Some(n) ==> n.ncr_no@ == spec_ncr_no(r.0@) && holds_view(n.holds@)
            == spec_hold_targets(opt_view(lot_id), opt_view(serial_id)),
{
    let id = new_id();
    let plan = plan_inspection(value, lower, upper, lot_id, serial_id, id.as_str());
    (id, plan)
}

/// NCR lifecycle status.
#[derive(Debug, Clone, Copy, PartialEq, Eq, Structural)]
pub enum NcrStatus {
    Open,
    Dispositioned,
    Closed,
}

pub open spec fn ncr_status_text(s: NcrStatus) -> Seq<char> {
    match s {
        NcrStatus::Open => "open"@,
        NcrStatus::Dispositioned => "dispositioned"@,
        NcrStatus::Closed => "closed"@,
    }
}

pub open spec fn ncr_status_of_text(t: Seq<char>) -> Option<NcrStatus> {
    if t == "open"@ {
        Some(NcrStatus::Open)
    } else if t == "dispositioned"@ {
        Some(NcrStatus::Dispositioned)
    } else if t == "closed"@ {
        Some(NcrStatus::Closed)
    } else {
        None
    }
}

pub open spec fn ncr_transition_allowed(from: NcrStatus, to: NcrStatus) -> bool {
    (from == NcrStatus::Open && to == NcrStatus::Dispositioned) || (from == NcrStatus::Dispositioned
        && to == NcrStatus::Closed)
}

impl NcrStatus {
    pub fn parse(s: &str) -> (r: Option<NcrStatus>)
        ensures
            r == ncr_status_of_text(s@),
    {
        if str_eq(s, "open") {
            Some(NcrStatus::Open)
        } else if str_eq(s, "dispositioned") {
            Some(NcrStatus::Dispositioned)
        } else if str_eq(s, "closed") {
            Some(NcrStatus::Closed)
        } else {
            None
        }
    }

    pub fn as_str(self) -> (r: &'static str)
        ensures
            r@ == ncr_status_text(self),
    {
        match self {
            NcrStatus::Open => "open",
            NcrStatus::Dispositioned => "dispositioned",
            NcrStatus::Closed => "closed",
        }
    }

    pub fn can_transition(self, next: NcrStatus) -> (r: bool)
        ensures
            r == ncr_transition_allowed(self, next),
    {
        match (self, next) {
            (NcrStatus::Open, NcrStatus::Dispositioned) => true,
            (NcrStatus::Dispositioned, NcrStatus::Closed) => true,
            _ => false,
        }
    }
}

/// Where each NCR status can be reached from: an NCR is dispositioned only
/// while open and closed only once dispositioned; no move returns to open.
pub proof fn lemma_ncr_reached_only_from(from: NcrStatus, to: NcrStatus)
    ensures
        ncr_transition_allowed(from, to) <==> match to {
            NcrStatus::Open => false,
            NcrStatus::Dispositioned => from == NcrStatus::Open,
            NcrStatus::Closed => from == NcrStatus::Dispositioned,
        },
{
}

/// No legal NCR move arrives at `Open`: a dispositioned or closed NCR is
/// never reopened.
pub proof fn lemma_ncr_never_reopens(from: NcrStatus)
    ensures
        !ncr_transition_allowed(from, NcrStatus::Open),
{
    lemma_ncr_reached_only_from(from, NcrStatus::Open);
}

/// The disposition applied to a nonconformance.
#[derive(Debug, Clone, Copy, PartialEq, Eq, Structural)]
pub enum Disposition {
    Rework,
    Scrap,
    UseAsIs,
    Return,
}

pub open spec fn disposition_text(d: Disposition) -> Seq<char> {
    match d {
        Disposition::Rework => "rework"@,
        Disposition::Scrap => "scrap"@,
        Disposition::UseAsIs => "use_as_is"@,
        Disposition::Return => "return"@,
    }
}

pub open spec fn disposition_of_text(t: Seq<char>) -> Option<Disposition> {
    if t == "rework"@ {
        Some(Disposition::Rework)
    } else if t == "scrap"@ {
        Some(Disposition::Scrap)
    } else if t == "use_as_is"@ {
        Some(Disposition::UseAsIs)
    } else if t == "return"@ {
        Some(Disposition::Return)
    } else {
        None
    }
}

/// Rework (back to production) and use-as-is (accepted) release the hold;
/// scrap and return keep it.
pub open spec fn spec_releases_hold(d: Disposition) -> bool {
    d == Disposition::Rework || d == Disposition::UseAsIs
}

impl Disposition {
    pub fn parse(s: &str) -> (r: Option<Disposition>)
        ensures
            r == disposition_of_text(s@),
    {
        if str_eq(s, "rework") {
            Some(Disposition::Rework)
        } else if str_eq(s, "scrap") {
            Some(Disposition::Scrap)
        } else if str_eq(s, "use_as_is") {
            Some(Disposition::UseAsIs)
        } else if str_eq(s, "return") {
            Some(Disposition::Return)
        } else {
            None
        }
    }

    pub fn as_str(self) -> (r: &'static str)
        ensures
            r@ == disposition_text(self),
    {
        match self {
            Disposition::Rework => "rework",
            Disposition::Scrap => "scrap",
            Disposition::UseAsIs => "use_as_is",
            Disposition::Return => "return",
        }
    }

    /// Whether this disposition releases the quality hold.
    pub fn releases_hold(self) -> (r: bool)
        ensures
            r == spec_releases_hold(self),
    {
        match self {
            Disposition::Rework | Disposition::UseAsIs => true,
            _ => false,
        }
    }
}

/// Reading back the wire form of a disposition gives the disposition itself.
pub proof fn lemma_disposition_round_trip(d: Disposition)
    ensures
        disposition_of_text(disposition_text(d)) == Some(d),
{
    broadcast use vstd::string::group_string_axioms;
    reveal_strlit("rework");
    reveal_strlit("scrap");
    reveal_strlit("use_as_is");
    reveal_strlit("return");
    assert("rework"@.len() == 6 && "scrap"@.len() == 5 && "use_as_is"@.len() == 9);
    assert("return"@.len() == 6 && "rework"@[2] != "return"@[2]);
}

} // verus!
