//! Points in time, as the host's clock gives them.

use crate::types::Object;
use crate::types::duration::Duration;
use vstd::prelude::*;
use vstd::string::*;

verus! {

/// A point in time: the seconds since the start of 1970 in universal time,
/// and the nanoseconds since the start of the second.
#[derive(Copy, Clone, Debug, PartialEq, Eq, Structural)]
pub struct Date {
    pub seconds: i64,
    pub nanos: u32,
}

/// What `chrono` writes for a point in time in the notation of RFC 3339,
/// where it can hold the point in time.
pub uninterp spec fn rfc3339(seconds: i64, nanos: u32) -> Option<Seq<char>>;

/// `chrono::Utc::now`, taken apart by `DateTime::timestamp` and
/// `DateTime::timestamp_subsec_nanos`: the clock of the host, of which
/// nothing is known. It does not return where the clock stands before the
/// year 1970.
#[verifier::external_body]
pub(crate) fn clock() -> (r: (i64, u32)) {
    let now = chrono::Utc::now();
    (now.timestamp(), now.timestamp_subsec_nanos())
}

/// `chrono::DateTime::to_rfc3339` of the point in time that
/// `chrono::DateTime::from_timestamp` makes of seconds and nanoseconds:
/// none where that makes none.
#[verifier::external_body]
pub(crate) fn write_rfc3339(seconds: i64, nanos: u32) -> (r: Option<String>)
    ensures
        r is Some == rfc3339(seconds, nanos) is Some,
        r is Some ==> r->Some_0@ == rfc3339(seconds, nanos)->Some_0,
{
    match chrono::DateTime::from_timestamp(seconds, nanos) {
        Some(date) => Some(date.to_rfc3339()),
        None => None,
    }
}

/// The nanoseconds in a second.
pub const NANOS_PER_SECOND: i128 = 1_000_000_000;

impl Date {
    /// The nanoseconds from the start of 1970 to the point in time.
    pub open spec fn instant(self) -> int {
        self.seconds * 1_000_000_000 + self.nanos
    }

    /// How the point in time is displayed: in the notation of RFC 3339, or
    /// as `<date>` where it is out of the range of that.
    pub open spec fn shown(self) -> Seq<char> {
        match rfc3339(self.seconds, self.nanos) {
            Some(t) => t,
            None => "<date>"@,
        }
    }

    /// The point in time `seconds` seconds and `nanos` nanoseconds after the
    /// start of 1970.
    pub fn at(seconds: i64, nanos: u32) -> (d: Date)
        ensures
            d == (Date { seconds, nanos }),
    {
        Date { seconds, nanos }
    }

    /// The point in time that the clock of the host shows.
    pub fn new() -> Date {
        let (seconds, nanos) = clock();
        Date::at(seconds, nanos)
    }

    /// The time from `rhs` to this point in time, where its seconds fit 64
    /// bits.
    pub fn sub(self, rhs: Date) -> (r: Option<Duration>)
        ensures
            r is Some ==> r->Some_0.span() == self.instant() - rhs.instant(),
            r is Some ==> r->Some_0.nanos < 1_000_000_000,
            r is Some == (i64::MIN * 1_000_000_000 <= self.instant() - rhs.instant() < (i64::MAX
                + 1) * 1_000_000_000),
    {
        let a: i128 = self.seconds as i128 * NANOS_PER_SECOND + self.nanos as i128;
        let b: i128 = rhs.seconds as i128 * NANOS_PER_SECOND + rhs.nanos as i128;
        Duration::of_nanos(a - b)
    }
}

impl Object for Date {
    open spec fn text(&self) -> Seq<char> {
        self.shown()
    }

    fn to_text(&self) -> String {
        match write_rfc3339(self.seconds, self.nanos) {
            Some(s) => s,
            None => String::from_str("<date>"),
        }
    }
}

} // verus!
