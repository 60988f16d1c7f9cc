//! Capture timestamps and their rendering as a time of day.

use vstd::prelude::*;
use crate::text::padded_decimal_text;

verus! {

/// The microsecond count that stands for "has not happened".
pub const UNSET_MICROS: u64 = 0xffff_ffff_ffff_ffff;

/// A point in time: microseconds since the Unix epoch, or not set.
#[derive(Clone, Copy, PartialEq, Eq, Structural, Debug)]
pub struct Timestamp {
    pub micros: u64,
}

/// The text `HH:MM:SS`, followed by a point and three, six or nine decimals
/// where the sub-second part is not zero; as few of these as show it exactly.
pub open spec fn time_of_day_text(secs: nat, nanos: nat) -> Seq<char> {
    padded_decimal_text(secs / 3600, 2) + seq![':'] + padded_decimal_text((secs / 60) % 60, 2)
        + seq![':'] + padded_decimal_text(secs % 60, 2) + (if nanos == 0 {
        Seq::<char>::empty()
    } else if nanos % 1_000_000 == 0 {
        seq!['.'] + padded_decimal_text(nanos / 1_000_000, 3)
    } else if nanos % 1_000 == 0 {
        seq!['.'] + padded_decimal_text(nanos / 1_000, 6)
    } else {
        seq!['.'] + padded_decimal_text(nanos, 9)
    })
}

/// Calls `chrono::NaiveTime::from_num_seconds_from_midnight_opt` and renders
/// the time with `NaiveTime`'s `Display`. For a second of the day and a
/// sub-second part below one second (no leap second) the constructor gives a
/// time, and `Display` writes hours, minutes and seconds as two digits each,
/// then the shortest of no, three, six or nine decimals that is exact.
#[verifier::external_body]
fn render_time_of_day(secs: u32, nanos: u32) -> (s: String)
    requires
        secs < 86_400,
        nanos < 1_000_000_000,
    ensures
        s@ == time_of_day_text(secs as nat, nanos as nat),
{
    match chrono::NaiveTime::from_num_seconds_from_midnight_opt(secs, nanos) {
        Some(t) => t.to_string(),
        None => String::new(),
    }
}

impl Timestamp {
    /// The timestamp that stands for "has not happened".
    pub open spec fn never() -> Timestamp {
        Timestamp { micros: UNSET_MICROS }
    }

    pub open spec fn is_set(self) -> bool {
        self.micros != UNSET_MICROS
    }

    /// The second within the day, counted from midnight.
    pub open spec fn second_of_day(self) -> nat {
        ((self.micros / 1_000_000) % 86_400) as nat
    }

    /// The part below one second, in nanoseconds.
    pub open spec fn subsec_nanos(self) -> nat {
        ((self.micros % 1_000_000) * 1_000) as nat
    }

    /// The time of day as text.
    pub open spec fn time_text(self) -> Seq<char> {
        time_of_day_text(self.second_of_day(), self.subsec_nanos())
    }

    /// Whether `self` is no later than `other`.
    pub open spec fn le(self, other: Timestamp) -> bool {
        self.micros <= other.micros
    }

    /// The timestamp that stands for "has not happened".
    pub fn unset() -> (t: Timestamp)
        ensures
            t == Timestamp::never(),
    {
        Timestamp { micros: UNSET_MICROS }
    }

    pub fn from_micros(micros: u64) -> (t: Timestamp)
        ensures
            t.micros == micros,
    {
        Timestamp { micros }
    }

    pub fn has_value(&self) -> (r: bool)
        ensures
            r == self.is_set(),
    {
        self.micros != UNSET_MICROS
    }

    /// The time of day as text.
    pub fn time_to_string(&self) -> (s: String)
        ensures
            s@ == self.time_text(),
    {
        let secs: u32 = ((self.micros / 1_000_000) % 86_400) as u32;
        let nanos: u32 = ((self.micros % 1_000_000) * 1_000) as u32;
        render_time_of_day(secs, nanos)
    }
}

} // verus!
