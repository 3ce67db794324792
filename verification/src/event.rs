//! The event data model: the closed status enumeration and the partially
//! populated event record, with its narrow equality predicate and the
//! per-field comparisons the ordering engine builds on.

use vstd::prelude::*;

verus! {

use core::cmp::Ordering;
use crate::text::{spec_lex_cmp, str_eq, cmp_str_lex};
use crate::timestamp::{FixedOffsetDateTime, spec_cmp_time};

/// The closed set of event statuses carried by the wire STATUS property.
#[derive(Clone, Copy, PartialEq, Eq, Structural, Debug)]
pub enum EventStatus {
    Tentative,
    Confirmed,
    Cancelled,
}

/// What parsing a status token yields: the three exact case-sensitive tokens
/// are recognized and every other token is a parse failure.
pub open spec fn spec_status_from_chars(s: Seq<char>) -> Result<EventStatus, ()> {
    if s == "TENTATIVE"@ {
        Ok(EventStatus::Tentative)
    } else if s == "CONFIRMED"@ {
        Ok(EventStatus::Confirmed)
    } else if s == "CANCELLED"@ {
        Ok(EventStatus::Cancelled)
    } else {
        Err(())
    }
}

/// The wire token for a status value.
pub open spec fn spec_status_token(s: EventStatus) -> Seq<char> {
    match s {
        EventStatus::Tentative => "TENTATIVE"@,
        EventStatus::Confirmed => "CONFIRMED"@,
        EventStatus::Cancelled => "CANCELLED"@,
    }
}

impl EventStatus {
    /// Parses the exact tokens `TENTATIVE`, `CONFIRMED` and `CANCELLED`,
    /// case-sensitively; any other token is a failure.
    pub fn from_str(input: &str) -> (r: Result<EventStatus, ()>)
        ensures
            r == spec_status_from_chars(input@),
    {
        if str_eq(input, "TENTATIVE") {
            Ok(EventStatus::Tentative)
        } else if str_eq(input, "CONFIRMED") {
            Ok(EventStatus::Confirmed)
        } else if str_eq(input, "CANCELLED") {
            Ok(EventStatus::Cancelled)
        } else {
            Err(())
        }
    }

    /// The wire token for this status.
    pub fn to_token(&self) -> (r: &'static str)
        ensures
            r@ == spec_status_token(*self),
    {
        match self {
            EventStatus::Tentative => "TENTATIVE",
            EventStatus::Confirmed => "CONFIRMED",
            EventStatus::Cancelled => "CANCELLED",
        }
    }
}

/// One partially populated calendar event. Every field is independently
/// optional: wire data may omit any of them, and a record with every field
/// absent is legal.
#[derive(Clone, Debug)]
pub struct MpEvent {
    pub name: Option<String>,
    pub start_time: Option<FixedOffsetDateTime>,
    pub end_time: Option<FixedOffsetDateTime>,
    pub location: Option<String>,
    pub description: Option<String>,
    pub status: Option<EventStatus>,
}

impl MpEvent {
    /// Both timestamps, where present, hold valid calendar values.
    pub open spec fn wf(self) -> bool {
        &&& match self.start_time {
            Some(t) => t.wf(),
            None => true,
        }
        &&& match self.end_time {
            Some(t) => t.wf(),
            None => true,
        }
    }

    /// An executable check that both timestamps, where present, are valid.
    pub fn has_valid_times(&self) -> (r: bool)
        ensures
            r == self.wf(),
    {
        let start_ok = match &self.start_time {
            Some(t) => FixedOffsetDateTime::new(
                t.year,
                t.month,
                t.day,
                t.hour,
                t.minute,
                t.second,
            ).is_some() && t.utc_offset_seconds == 0,
            None => true,
        };
        let end_ok = match &self.end_time {
            Some(t) => FixedOffsetDateTime::new(
                t.year,
                t.month,
                t.day,
                t.hour,
                t.minute,
                t.second,
            ).is_some() && t.utc_offset_seconds == 0,
            None => true,
        };
        start_ok && end_ok
    }
}

/// Creates a new event record from explicit field values.
#[allow(non_snake_case)]
pub fn create_new_MPEvent(
    name: Option<String>,
    start_time: Option<FixedOffsetDateTime>,
    end_time: Option<FixedOffsetDateTime>,
    location: Option<String>,
    description: Option<String>,
    status: Option<EventStatus>,
) -> (r: MpEvent)
    ensures
        r == (MpEvent { name, start_time, end_time, location, description, status }),
{
    MpEvent { name, start_time, end_time, location, description, status }
}

/// The per-field comparison on optional timestamps: an absent value sorts
/// after any present one, two present values compare chronologically, and
/// two absent values compare Equal. The last case is the self-versus-self
/// special case: without it a record would compare greater than itself and
/// the relation would not be an order at all.
pub open spec fn spec_cmp_opt_time(
    a: Option<FixedOffsetDateTime>,
    b: Option<FixedOffsetDateTime>,
) -> Ordering {
    match (a, b) {
        (None, None) => Ordering::Equal,
        (None, Some(_)) => Ordering::Greater,
        (Some(_), None) => Ordering::Less,
        (Some(x), Some(y)) => spec_cmp_time(x, y),
    }
}

/// Optional names compare with absent before present, and present names
/// lexicographically.
pub open spec fn spec_cmp_opt_name(a: Option<String>, b: Option<String>) -> Ordering {
    match (a, b) {
        (None, None) => Ordering::Equal,
        (None, Some(_)) => Ordering::Less,
        (Some(_), None) => Ordering::Greater,
        (Some(x), Some(y)) => spec_lex_cmp(x@, y@),
    }
}

/// The narrow equality predicate: two records are equal iff both carry a
/// present name and a present start time and those two values match exactly.
/// Every other field, the end time included, is ignored.
pub open spec fn spec_event_eq(a: MpEvent, b: MpEvent) -> bool {
    match (a.name, b.name, a.start_time, b.start_time) {
        (Some(an), Some(bn), Some(ast), Some(bst)) => an@ == bn@ && ast == bst,
        _ => false,
    }
}

impl MpEvent {
    /// Comparison by start time alone, under the absent-sorts-last policy,
    /// with two absent starts comparing Equal. A verdict is always reported;
    /// the `Option` wrapper only keeps the shape of a partial comparison.
    pub fn cmp_start_time(&self, other: &MpEvent) -> (r: Option<Ordering>)
        ensures
            r == Some(spec_cmp_opt_time(self.start_time, other.start_time)),
    {
        match (&self.start_time, &other.start_time) {
            (None, None) => Some(Ordering::Equal),
            (None, Some(_)) => Some(Ordering::Greater),
            (Some(_), None) => Some(Ordering::Less),
            (Some(lhs_time), Some(rhs_time)) => Some(lhs_time.cmp_chronological(rhs_time)),
        }
    }

    /// Comparison by end time alone, under the same absent-handling policy
    /// as the start-time comparison.
    pub fn cmp_end_time(&self, other: &MpEvent) -> (r: Option<Ordering>)
        ensures
            r == Some(spec_cmp_opt_time(self.end_time, other.end_time)),
    {
        match (&self.end_time, &other.end_time) {
            (None, None) => Some(Ordering::Equal),
            (None, Some(_)) => Some(Ordering::Greater),
            (Some(_), None) => Some(Ordering::Less),
            (Some(lhs_time), Some(rhs_time)) => Some(lhs_time.cmp_chronological(rhs_time)),
        }
    }

    /// Whether two records overlap, assuming the caller has already
    /// established that `self` sorts no later than `other` by start time.
    /// True iff `self` has an end, `other` has a start, and the end does not
    /// precede the start — touching endpoints count as overlap. Without both
    /// bounds no overlap can be proved, so absence yields false.
    pub fn ordered_has_overlap(&self, other: &MpEvent) -> (r: bool)
        ensures
            r == match (self.end_time, other.start_time) {
                (Some(e), Some(s)) => spec_cmp_time(e, s) != Ordering::Less,
                _ => false,
            },
    {
        let lhs_end_time = match &self.end_time {
            Some(time) => time,
            None => { return false },
        };
        let rhs_start_time = match &other.start_time {
            Some(time) => time,
            None => { return false },
        };
        match lhs_end_time.cmp_chronological(rhs_start_time) {
            Ordering::Less => false,
            _ => true,
        }
    }
}

impl PartialEq for MpEvent {
    fn eq(&self, other: &MpEvent) -> (r: bool) {
        let lhs_name = match &self.name {
            Some(name) => name,
            None => { return false },
        };
        let rhs_name = match &other.name {
            Some(name) => name,
            None => { return false },
        };
        let lhs_start = match &self.start_time {
            Some(time) => time,
            None => { return false },
        };
        let rhs_start = match &other.start_time {
            Some(time) => time,
            None => { return false },
        };
        str_eq(lhs_name.as_str(), rhs_name.as_str()) && lhs_start == rhs_start
    }
}

impl vstd::std_specs::cmp::PartialEqSpecImpl for MpEvent {
    open spec fn obeys_eq_spec() -> bool {
        true
    }

    open spec fn eq_spec(&self, other: &MpEvent) -> bool {
        spec_event_eq(*self, *other)
    }
}

impl PartialOrd for MpEvent {
    /// The default partial order compares by start time alone.
    fn partial_cmp(&self, other: &MpEvent) -> (r: Option<Ordering>) {
        self.cmp_start_time(other)
    }
}

impl vstd::std_specs::cmp::PartialOrdSpecImpl for MpEvent {
    open spec fn obeys_partial_cmp_spec() -> bool {
        true
    }

    open spec fn partial_cmp_spec(&self, other: &MpEvent) -> Option<Ordering> {
        Some(spec_cmp_opt_time(self.start_time, other.start_time))
    }
}

} // verus!
