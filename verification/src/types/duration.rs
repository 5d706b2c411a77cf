//! Spans of time.

use crate::text::{decimal, push_decimal, push_signed, push_str, signed_decimal};
use crate::types::Object;
use vstd::prelude::*;
use vstd::string::*;

verus! {

/// A span of time: whole seconds, which may be negative, and the
/// nanoseconds that are to be added to them.
#[derive(Copy, Clone, Debug, PartialEq, Eq, Structural)]
pub struct Duration {
    pub seconds: i64,
    pub nanos: u32,
}

impl Duration {
    /// The span in nanoseconds.
    pub open spec fn span(self) -> int {
        self.seconds * 1_000_000_000 + self.nanos
    }

    /// How the span is displayed: the seconds, and the nanoseconds.
    pub open spec fn shown(self) -> Seq<char> {
        signed_decimal(self.seconds as int) + "s "@ + decimal(self.nanos as nat) + "ns"@
    }

    /// The empty span.
    pub fn new() -> (d: Duration)
        ensures
            d.span() == 0,
    {
        Duration { seconds: 0, nanos: 0 }
    }

    /// The span of `seconds` seconds and `nanos` nanoseconds.
    pub fn from(seconds: i64, nanos: u32) -> (d: Duration)
        ensures
            d == (Duration { seconds, nanos }),
    {
        Duration { seconds, nanos }
    }

    /// The span of `nanos` nanoseconds, where its seconds fit 64 bits.
    pub fn of_nanos(nanos: i128) -> (r: Option<Duration>)
        ensures
            r is Some ==> r->Some_0.span() == nanos && r->Some_0.nanos < 1_000_000_000,
            r is Some == (i64::MIN * 1_000_000_000 <= nanos < (i64::MAX + 1) * 1_000_000_000),
    {
        if nanos <= -0x4000_0000_0000_0000_0000_0000_0000 || nanos
            >= 0x4000_0000_0000_0000_0000_0000_0000 {
            return None;
        }
        let below: i128 = if nanos >= 0 {
            nanos % 1_000_000_000
        } else {
            let r = (-nanos) % 1_000_000_000;
            if r == 0 {
                0
            } else {
                1_000_000_000 - r
            }
        };
        let whole: i128 = (nanos - below) / 1_000_000_000;
        if whole < i64::MIN as i128 || whole > i64::MAX as i128 {
            None
        } else {
            Some(Duration { seconds: whole as i64, nanos: below as u32 })
        }
    }

    /// The span that is left of this one when `rhs` is taken from it,
    /// where its seconds fit 64 bits.
    pub fn sub(self, rhs: Duration) -> (r: Option<Duration>)
        ensures
            r is Some ==> r->Some_0.span() == self.span() - rhs.span(),
            r is Some == (i64::MIN * 1_000_000_000 <= self.span() - rhs.span() < (i64::MAX + 1)
                * 1_000_000_000),
    {
        let a: i128 = self.seconds as i128 * 1_000_000_000 + self.nanos as i128;
        let b: i128 = rhs.seconds as i128 * 1_000_000_000 + rhs.nanos as i128;
        Duration::of_nanos(a - b)
    }
}

impl Object for Duration {
    open spec fn text(&self) -> Seq<char> {
        self.shown()
    }

    fn to_text(&self) -> String {
        let mut s = String::new();
        push_signed(&mut s, self.seconds);
        push_str(&mut s, "s ");
        push_decimal(&mut s, self.nanos as u64);
        push_str(&mut s, "ns");
        s
    }
}

} // verus!
