//! Instants on the UTC time line, with nanosecond precision.

use core::cmp::Ordering;
use vstd::arithmetic::div_mod::lemma_fundamental_div_mod_converse;
use vstd::prelude::*;
use vstd::std_specs::cmp::{PartialEqSpecImpl, PartialOrdSpecImpl};

verus! {

/// Seconds since the Unix epoch of the earliest instant a [`Timestamp`] can
/// hold: the first second of the year -262143, which is where the dates of
/// chrono begin.
pub const MIN_SECONDS: i64 = -8_334_601_228_800;

/// Seconds since the Unix epoch of the last whole second a [`Timestamp`] can
/// hold: the last second of the year 262142, which is where the dates of
/// chrono end.
pub const MAX_SECONDS: i64 = 8_210_266_876_799;

/// Nanoseconds in one second.
pub const NANOS_PER_SECOND: u32 = 1_000_000_000;

/// Nanoseconds in one minute.
pub open spec fn nanos_per_minute() -> int {
    60_000_000_000
}

/// The start of the minute that holds the instant `t`, both in nanoseconds
/// since the Unix epoch.
pub open spec fn minute_start(t: int) -> int {
    t - t % nanos_per_minute()
}

/// The instant that a text names in the notation of RFC 3339, as chrono
/// reads it: whole seconds since the Unix epoch and the nanoseconds after
/// them, or `None` where the text is not in that notation.
pub uninterp spec fn rfc3339_instant(text: Seq<char>) -> Option<(int, int)>;

/// The instant that a text names in the notation of RFC 3339, in nanoseconds
/// since the Unix epoch; `None` where the text is not in that notation or
/// names an instant that a [`Timestamp`] cannot hold.
pub open spec fn instant_named(text: Seq<char>) -> Option<int> {
    match rfc3339_instant(text) {
        Some((secs, nanos)) => if Timestamp::in_range(secs, nanos) {
            Some(secs * 1_000_000_000 + nanos)
        } else {
            None
        },
        None => None,
    }
}

/// An instant, counted in whole seconds since the Unix epoch plus the
/// nanoseconds into that second.
///
/// Its view is the number of nanoseconds since the epoch. Two timestamps are
/// equal when they name the same instant, and the earlier one is the lesser.
#[derive(Clone, Copy, Debug, Eq, Ord, Hash)]
pub struct Timestamp {
    secs: i64,
    nanos: u32,
}

impl View for Timestamp {
    type V = int;

    closed spec fn view(&self) -> int {
        self.secs * 1_000_000_000 + self.nanos
    }
}

impl Timestamp {
    /// The instant lies in the supported range and its nanosecond part is
    /// less than one second.
    pub closed spec fn wf(&self) -> bool {
        &&& MIN_SECONDS <= self.secs <= MAX_SECONDS
        &&& self.nanos < NANOS_PER_SECOND
    }

    /// Whether `secs` and `nanos` name an instant that a `Timestamp` can hold.
    pub open spec fn in_range(secs: int, nanos: int) -> bool {
        &&& MIN_SECONDS <= secs <= MAX_SECONDS
        &&& 0 <= nanos < NANOS_PER_SECOND
    }

    /// The instant `nanos` nanoseconds after the whole second `secs`, or
    /// `None` when that instant is out of range.
    pub fn new(secs: i64, nanos: u32) -> (r: Option<Timestamp>)
        ensures
            r is Some <==> Self::in_range(secs as int, nanos as int),
            r matches Some(t) ==> t.wf() && t@ == secs * 1_000_000_000 + nanos,
    {
        if secs < MIN_SECONDS || secs > MAX_SECONDS || nanos >= NANOS_PER_SECOND {
            None
        } else {
            Some(Timestamp { secs, nanos })
        }
    }

    /// The instant that `text` names in the notation of RFC 3339, such as
    /// `1996-12-19T16:39:57-08:00`; `None` where the text is not in that
    /// notation or names an instant out of range.
    pub fn parse_from_rfc3339(text: &str) -> (r: Option<Timestamp>)
        ensures
            match r {
                Some(t) => t.wf() && instant_named(text@) == Some(t@),
                None => instant_named(text@) is None,
            },
    {
        match read_rfc3339(text) {
            Some((secs, nanos)) => Timestamp::new(secs, nanos),
            None => None,
        }
    }

    /// Whole seconds since the Unix epoch, rounded towards the past.
    pub fn secs(&self) -> (r: i64)
        ensures
            self.wf() ==> r == self@ / 1_000_000_000 && MIN_SECONDS <= r <= MAX_SECONDS,
    {
        proof {
            if self.wf() {
                lemma_fundamental_div_mod_converse(
                    self@,
                    1_000_000_000,
                    self.secs as int,
                    self.nanos as int,
                );
            }
        }
        self.secs
    }

    /// Nanoseconds since the last whole second.
    pub fn nanos(&self) -> (r: u32)
        ensures
            self.wf() ==> r == self@ % 1_000_000_000 && r < NANOS_PER_SECOND,
    {
        proof {
            if self.wf() {
                lemma_fundamental_div_mod_converse(
                    self@,
                    1_000_000_000,
                    self.secs as int,
                    self.nanos as int,
                );
            }
        }
        self.nanos
    }

    /// Nanoseconds since the Unix epoch.
    pub fn total_nanos(&self) -> (r: i128)
        ensures
            r == self@,
    {
        self.secs as i128 * 1_000_000_000 + self.nanos as i128
    }

    /// The start of the minute that holds this instant.
    pub fn truncate_to_minute(&self) -> (r: Timestamp)
        requires
            self.wf(),
        ensures
            r.wf(),
            r@ == minute_start(self@),
    {
        let (secs, nanos) = match without_nanoseconds(self.secs, self.nanos) {
            Some(cleared) => cleared,
            None => (self.secs, 0),
        };
        let (secs, nanos) = match without_seconds(secs, nanos) {
            Some(cleared) => cleared,
            None => (self.secs, 0),
        };
        proof {
            let m = self.secs - self.secs % 60;
            lemma_fundamental_div_mod_converse(
                self@,
                nanos_per_minute(),
                m / 60,
                (self.secs % 60) * 1_000_000_000 + self.nanos,
            );
        }
        Timestamp { secs, nanos }
    }
}

impl PartialEq for Timestamp {
    fn eq(&self, other: &Timestamp) -> (r: bool) {
        self.total_nanos() == other.total_nanos()
    }
}

impl PartialEqSpecImpl for Timestamp {
    open spec fn obeys_eq_spec() -> bool {
        true
    }

    open spec fn eq_spec(&self, other: &Timestamp) -> bool {
        self@ == other@
    }
}

impl PartialOrd for Timestamp {
    fn partial_cmp(&self, other: &Timestamp) -> (r: Option<Ordering>) {
        let a = self.total_nanos();
        let b = other.total_nanos();
        if a < b {
            Some(Ordering::Less)
        } else if a == b {
            Some(Ordering::Equal)
        } else {
            Some(Ordering::Greater)
        }
    }
}

impl PartialOrdSpecImpl for Timestamp {
    open spec fn obeys_partial_cmp_spec() -> bool {
        true
    }

    open spec fn partial_cmp_spec(&self, other: &Timestamp) -> Option<Ordering> {
        if self@ < other@ {
            Some(Ordering::Less)
        } else if self@ == other@ {
            Some(Ordering::Equal)
        } else {
            Some(Ordering::Greater)
        }
    }
}

/// Calls chrono: `Timelike::with_nanosecond(0)` on the UTC date-time that
/// `DateTime::from_timestamp` makes of the instant, and reads the result back
/// with `DateTime::timestamp` and `DateTime::timestamp_subsec_nanos`.
///
/// Trusted: every instant in the supported range has a UTC date-time, and
/// the call clears the nanoseconds and leaves the whole seconds as they are.
#[verifier::external_body]
fn without_nanoseconds(secs: i64, nanos: u32) -> (r: Option<(i64, u32)>)
    requires
        Timestamp::in_range(secs as int, nanos as int),
    ensures
        r == Some((secs, 0u32)),
{
    let at = chrono::DateTime::from_timestamp(secs, nanos)?;
    let at = chrono::Timelike::with_nanosecond(&at, 0)?;
    Some((at.timestamp(), at.timestamp_subsec_nanos()))
}

/// Calls chrono: `Timelike::with_second(0)` on the UTC date-time that
/// `DateTime::from_timestamp` makes of the instant, and reads the result back
/// with `DateTime::timestamp` and `DateTime::timestamp_subsec_nanos`.
///
/// Trusted: every instant in the supported range has a UTC date-time, and
/// on the UTC time line the call moves the whole seconds back to the start of
/// their minute and leaves the nanoseconds as they are.
#[verifier::external_body]
fn without_seconds(secs: i64, nanos: u32) -> (r: Option<(i64, u32)>)
    requires
        Timestamp::in_range(secs as int, nanos as int),
    ensures
        r == Some(((secs - secs % 60) as i64, nanos)),
{
    let at = chrono::DateTime::from_timestamp(secs, nanos)?;
    let at = chrono::Timelike::with_second(&at, 0)?;
    Some((at.timestamp(), at.timestamp_subsec_nanos()))
}

/// Calls chrono: `DateTime::parse_from_rfc3339`, and reads the instant off
/// the result with `DateTime::timestamp` and
/// `DateTime::timestamp_subsec_nanos`.
///
/// Trusted: what comes back depends on the text alone.
#[verifier::external_body]
fn read_rfc3339(text: &str) -> (r: Option<(i64, u32)>)
    ensures
        match r {
            Some((secs, nanos)) => rfc3339_instant(text@) == Some((secs as int, nanos as int)),
            None => rfc3339_instant(text@) is None,
        },
{
    let at = chrono::DateTime::parse_from_rfc3339(text).ok()?;
    Some((at.timestamp(), at.timestamp_subsec_nanos()))
}

} // verus!
