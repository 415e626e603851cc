//! Points in time and the half-open ranges in which something is valid.

use vstd::prelude::*;

verus! {

/// A point in time, in milliseconds since the epoch.
#[derive(Debug, Clone, Copy, PartialEq, Eq, Hash, PartialOrd, Ord, Structural)]
pub struct Timestamp {
    millis: u64,
}

impl View for Timestamp {
    type V = nat;

    closed spec fn view(&self) -> nat {
        self.millis as nat
    }
}

impl Timestamp {
    /// The point `value` milliseconds after the epoch.
    pub fn from_millis(value: u64) -> (r: Self)
        ensures
            r@ == value,
    {
        Timestamp { millis: value }
    }

    /// The milliseconds since the epoch.
    pub fn as_millis(self) -> (r: u64)
        ensures
            r == self@,
    {
        self.millis
    }
}

/// A range of time with an optional start, which belongs to it, and an
/// optional end, which does not.
#[derive(Debug, Clone, Copy, PartialEq, Eq, Hash, Structural)]
pub struct TemporalValidity {
    valid_from: Option<Timestamp>,
    valid_until: Option<Timestamp>,
}

/// Why a range of time was refused.
#[derive(Debug, Clone, Copy, PartialEq, Eq, Structural)]
pub enum TemporalError {
    InvertedRange,
}

/// Whether the start lies before the end, where both are given.
pub open spec fn ordered_range(from: Option<Timestamp>, until: Option<Timestamp>) -> bool {
    from is Some && until is Some ==> from->0@ < until->0@
}

/// Whether `t` lies in the range from `from` to `until`.
pub open spec fn in_range(from: Option<Timestamp>, until: Option<Timestamp>, t: nat) -> bool {
    &&& from is Some ==> from->0@ <= t
    &&& until is Some ==> t < until->0@
}

impl View for TemporalValidity {
    type V = (Option<Timestamp>, Option<Timestamp>);

    closed spec fn view(&self) -> (Option<Timestamp>, Option<Timestamp>) {
        (self.valid_from, self.valid_until)
    }
}

impl TemporalValidity {
    #[verifier::type_invariant]
    spec fn ordered(self) -> bool {
        ordered_range(self.valid_from, self.valid_until)
    }

    /// The range without a start and without an end.
    pub fn always() -> (r: Self)
        ensures
            r@ == (None::<Timestamp>, None::<Timestamp>),
    {
        TemporalValidity { valid_from: None, valid_until: None }
    }

    /// The range from `valid_from` to `valid_until`; refused where the start
    /// does not lie before the end.
    pub fn new(valid_from: Option<Timestamp>, valid_until: Option<Timestamp>) -> (r: Result<
        Self,
        TemporalError,
    >)
        ensures
            r is Ok <==> ordered_range(valid_from, valid_until),
            r matches Ok(v) ==> v@ == (valid_from, valid_until),
            r matches Err(e) ==> e == TemporalError::InvertedRange,
    {
        if let Some(start) = valid_from {
            if let Some(end) = valid_until {
                if start.as_millis() >= end.as_millis() {
                    return Err(TemporalError::InvertedRange);
                }
            }
        }
        Ok(TemporalValidity { valid_from, valid_until })
    }

    /// The start of the range.
    pub fn valid_from(self) -> (r: Option<Timestamp>)
        ensures
            r == self@.0,
            ordered_range(self@.0, self@.1),
    {
        proof {
            use_type_invariant(&self);
        }
        self.valid_from
    }

    /// The end of the range.
    pub fn valid_until(self) -> (r: Option<Timestamp>)
        ensures
            r == self@.1,
            ordered_range(self@.0, self@.1),
    {
        proof {
            use_type_invariant(&self);
        }
        self.valid_until
    }
}

/// Whether `validity` holds at `timestamp`.
pub fn valid_at(validity: TemporalValidity, timestamp: Timestamp) -> (r: bool)
    ensures
        r == in_range(validity@.0, validity@.1, timestamp@),
{
    if let Some(start) = validity.valid_from() {
        if timestamp.as_millis() < start.as_millis() {
            return false;
        }
    }
    if let Some(end) = validity.valid_until() {
        if timestamp.as_millis() >= end.as_millis() {
            return false;
        }
    }
    true
}

/// A range that has a start and an end is never empty: it holds at its start.
pub proof fn range_holds_at_start(from: Timestamp, until: Option<Timestamp>)
    requires
        ordered_range(Some(from), until),
    ensures
        in_range(Some(from), until, from@),
{
}

/// The range without ends holds at every point.
pub proof fn unbounded_range_always_holds(t: nat)
    ensures
        in_range(None, None, t),
{
}

/// Two ranges that meet at a point divide time: no point lies in both, and
/// every point of the joined range lies in one of them.
pub proof fn adjacent_ranges_partition(
    from: Option<Timestamp>,
    at: Timestamp,
    until: Option<Timestamp>,
    t: nat,
)
    requires
        ordered_range(from, Some(at)),
        ordered_range(Some(at), until),
    ensures
        !(in_range(from, Some(at), t) && in_range(Some(at), until, t)),
        in_range(from, until, t) <==> in_range(from, Some(at), t) || in_range(Some(at), until, t),
{
}

/// A range with a start and an end is refused exactly where it would hold no
/// point, and a range that lacks an end is never refused.
pub proof fn refused_ranges_are_the_empty_ones(from: Timestamp, until: Timestamp)
    ensures
        ordered_range(Some(from), Some(until)) <==> exists|t: nat| #[trigger]
            in_range(Some(from), Some(until), t),
        ordered_range(Some(from), None),
        ordered_range(None, Some(until)),
        ordered_range(None, None),
{
    if ordered_range(Some(from), Some(until)) {
        assert(in_range(Some(from), Some(until), from@));
    }
}

/// A range without an end holds from its start on, and one without a start up to
/// its end, which it leaves out.
pub proof fn open_ranges_hold_on_one_side(at: Timestamp, t: nat)
    ensures
        in_range(Some(at), None, t) <==> at@ <= t,
        in_range(None, Some(at), t) <==> t < at@,
{
}

}
