//! Points in time on the UTC scale, and their textual form.

use vstd::prelude::*;

verus! {

/// Earliest second that a [`Timestamp`] can name (start of the year -262143).
pub const MIN_SECS: i64 = -8_334_601_228_800;

/// Latest second that a [`Timestamp`] can name (end of the year 262142).
pub const MAX_SECS: i64 = 8_210_266_876_799;

/// A point in time: whole seconds since the Unix epoch, rounded down, and
/// the nanoseconds after that second.
#[derive(Debug, Clone, Copy, PartialEq, Eq, PartialOrd, Ord, Hash, Structural)]
pub struct Timestamp {
    pub secs: i64,
    pub nanos: u32,
}

impl Timestamp {
    /// The points in time that have a calendar date. Within the last second
    /// of a minute the nanoseconds may run on into a leap second.
    pub open spec fn valid(self) -> bool {
        &&& MIN_SECS <= self.secs <= MAX_SECS
        &&& self.nanos < 2_000_000_000
        &&& self.nanos >= 1_000_000_000 ==> self.secs % 60 == 59
    }

    /// The point in time that `secs` and `nanos` name, if it has a date.
    pub fn from_timestamp(secs: i64, nanos: u32) -> (r: Option<Timestamp>)
        ensures
            match r {
                Some(t) => t.secs == secs && t.nanos == nanos && t.valid(),
                None => !(Timestamp { secs, nanos }).valid(),
            },
    {
        if secs < MIN_SECS || secs > MAX_SECS || nanos >= 2_000_000_000 {
            return None;
        }
        let t = Timestamp { secs, nanos };
        if nanos >= 1_000_000_000 {
            // Shifting by whole minutes keeps the second within its minute
            // and makes it positive.
            let shifted: i64 = secs + 8_334_601_228_800;
            assert(shifted % 60 == (secs as int) % 60);
            if shifted % 60 != 59 {
                return None;
            }
        }
        Some(t)
    }

    /// Milliseconds since the Unix epoch, rounded down.
    pub open spec fn millis(self) -> int {
        self.secs * 1000 + self.nanos as int / 1_000_000
    }

    /// Milliseconds since the Unix epoch, rounded down.
    pub fn timestamp_millis(&self) -> (r: i64)
        requires
            self.valid(),
        ensures
            r == self.millis(),
    {
        self.secs * 1000 + (self.nanos / 1_000_000) as i64
    }

    /// The point in time in RFC 3339 form.
    pub fn to_rfc3339(&self) -> (s: String)
        requires
            self.valid(),
        ensures
            s@ == rfc3339_text(self.secs as int, self.nanos as int),
    {
        utc_rfc3339(self.secs, self.nanos)
    }
}

/// The latest point in time before the calendar ends.
pub open spec fn latest() -> Timestamp {
    Timestamp { secs: MAX_SECS, nanos: 999_999_999 }
}

/// Whether `a` is at `b` or before it.
pub open spec fn not_after(a: Timestamp, b: Timestamp) -> bool {
    a.secs < b.secs || (a.secs == b.secs && a.nanos <= b.nanos)
}

/// The point in time `secs` seconds later, if the calendar has it. A leap
/// second is left behind by any step.
pub open spec fn later_by(t: Timestamp, secs: int) -> Option<Timestamp> {
    if secs == 0 {
        Some(t)
    } else if t.secs + secs <= MAX_SECS {
        Some(Timestamp { secs: (t.secs + secs) as i64, nanos: t.nanos % 1_000_000_000 })
    } else {
        None
    }
}

/// The nanoseconds from `b` to `a`. A leap second at the one counts where
/// the other stands on the far side of it by the time of day.
pub open spec fn nanos_from(b: Timestamp, a: Timestamp) -> int {
    let over = a.secs as int % 86_400;
    let under = b.secs as int % 86_400;
    let leap: int = if over > under && b.nanos >= 1_000_000_000 {
        1
    } else if over < under && a.nanos >= 1_000_000_000 {
        -1
    } else {
        0
    };
    (a.secs - b.secs + leap) * 1_000_000_000 + a.nanos - b.nanos
}

/// `chrono::DateTime::<Utc>::checked_add_signed` of whole seconds: the date
/// and time that many seconds later, and `None` past the end of the
/// calendar. `from_timestamp` finds a date for every valid timestamp, and
/// `TimeDelta::try_seconds` takes up to `i64::MAX / 1000` seconds.
#[verifier::external_body]
fn utc_plus(t: Timestamp, secs: i64) -> (r: Option<Timestamp>)
    requires
        t.valid(),
        0 <= secs <= i64::MAX / 1000,
    ensures
        r == later_by(t, secs as int),
{
    chrono::DateTime::<chrono::Utc>::from_timestamp(t.secs, t.nanos).unwrap().checked_add_signed(
        chrono::TimeDelta::try_seconds(secs).unwrap(),
    ).map(|d| Timestamp { secs: d.timestamp(), nanos: d.timestamp_subsec_nanos() })
}

/// `chrono::DateTime::<Utc>::signed_duration_since` as a
/// `std::time::Duration`, which cannot be negative.
#[verifier::external_body]
fn utc_since(later: Timestamp, earlier: Timestamp) -> (r: Option<u128>)
    requires
        later.valid(),
        earlier.valid(),
    ensures
        match r {
            Some(n) => n == nanos_from(earlier, later),
            None => nanos_from(earlier, later) < 0,
        },
{
    let end = chrono::DateTime::<chrono::Utc>::from_timestamp(later.secs, later.nanos).unwrap();
    let start = chrono::DateTime::<chrono::Utc>::from_timestamp(earlier.secs, earlier.nanos);
    end.signed_duration_since(start.unwrap()).to_std().ok().map(|d| d.as_nanos())
}

impl Timestamp {
    /// Whether the point in time is at `other` or before it.
    pub fn is_not_after(&self, other: &Timestamp) -> (r: bool)
        ensures
            r == not_after(*self, *other),
    {
        self.secs < other.secs || (self.secs == other.secs && self.nanos <= other.nanos)
    }

    /// The point in time `secs` seconds later, or the latest one that the
    /// calendar has.
    pub fn after_secs(&self, secs: u64) -> (r: Timestamp)
        requires
            self.valid(),
        ensures
            r.valid(),
            r == (match later_by(*self, secs as int) {
                Some(t) => t,
                None => latest(),
            }),
    {
        let end = Timestamp { secs: MAX_SECS, nanos: 999_999_999 };
        if secs > (i64::MAX / 1000) as u64 {
            return end;
        }
        match utc_plus(*self, secs as i64) {
            Some(t) => t,
            None => end,
        }
    }

    /// The nanoseconds since `earlier`; `None` where those would be
    /// negative.
    pub fn nanos_since(&self, earlier: &Timestamp) -> (r: Option<u128>)
        requires
            self.valid(),
            earlier.valid(),
        ensures
            match r {
                Some(n) => n == nanos_from(*earlier, *self),
                None => nanos_from(*earlier, *self) < 0,
            },
    {
        utc_since(*self, *earlier)
    }
}

/// The text that `chrono::DateTime::<Utc>::to_rfc3339` prints for the point
/// in time `nanos` after second `secs`.
pub uninterp spec fn rfc3339_text(secs: int, nanos: int) -> Seq<char>;

/// `chrono::DateTime::<Utc>::to_rfc3339` of the point in time that
/// `from_timestamp` makes of the arguments. `from_timestamp` finds one for
/// every valid timestamp, and the text depends on that point alone.
#[verifier::external_body]
fn utc_rfc3339(secs: i64, nanos: u32) -> (s: String)
    requires
        (Timestamp { secs, nanos }).valid(),
    ensures
        s@ == rfc3339_text(secs as int, nanos as int),
{
    chrono::DateTime::<chrono::Utc>::from_timestamp(secs, nanos).unwrap().to_rfc3339()
}

} // verus!
