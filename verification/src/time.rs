//! Spans of time as whole nanoseconds.

use vstd::prelude::*;

verus! {

/// A length of time, in nanoseconds.
#[derive(Debug, Clone, Copy, PartialEq, Eq, Structural, PartialOrd, Ord, Hash)]
pub struct Span {
    pub nanos: u128,
}

impl Span {
    /// The empty span.
    pub fn zero() -> (s: Span)
        ensures
            s.nanos == 0,
    {
        Span { nanos: 0 }
    }

    /// A span of whole seconds.
    pub fn from_secs(secs: u64) -> (s: Span)
        ensures
            s.nanos == secs * 1_000_000_000,
    {
        Span { nanos: secs as u128 * 1_000_000_000 }
    }

    /// A span of whole milliseconds.
    pub fn from_millis(millis: u64) -> (s: Span)
        ensures
            s.nanos == millis * 1_000_000,
    {
        Span { nanos: millis as u128 * 1_000_000 }
    }

    /// A span of whole microseconds.
    pub fn from_micros(micros: u64) -> (s: Span)
        ensures
            s.nanos == micros * 1_000,
    {
        Span { nanos: micros as u128 * 1_000 }
    }

    /// A span of nanoseconds.
    pub fn from_nanos(nanos: u128) -> (s: Span)
        ensures
            s.nanos == nanos,
    {
        Span { nanos }
    }

    /// The whole milliseconds in the span.
    pub fn as_millis(&self) -> (m: u128)
        ensures
            m == self.nanos / 1_000_000,
    {
        self.nanos / 1_000_000
    }

    /// The whole seconds in the span.
    pub fn as_secs(&self) -> (m: u128)
        ensures
            m == self.nanos / 1_000_000_000,
    {
        self.nanos / 1_000_000_000
    }
}


/// Whether a span is short enough to be a `std::time::Duration`.
pub open spec fn fits_duration(d: Span) -> bool {
    d.nanos / 1_000_000_000 <= u64::MAX
}

// ---------------------------------------------------------------------------
// Durations as std writes and divides them
// ---------------------------------------------------------------------------

/// What `{:?}` writes for a `Duration` of this many nanoseconds.
pub uninterp spec fn duration_debug(nanos: nat) -> Seq<char>;

/// The quotient `Duration / u32` gives for a duration of this many
/// nanoseconds, in nanoseconds.
pub uninterp spec fn duration_quotient(nanos: nat, divisor: nat) -> nat;

/// `{:?}` of `std::time::Duration`: std's formatting of a duration, which
/// depends on its length alone.
#[verifier::external_body]
pub fn duration_debug_text(d: Span) -> (s: String)
    requires
        d.nanos / 1_000_000_000 <= u64::MAX,
    ensures
        s@ == duration_debug(d.nanos as nat),
{
    let secs = (d.nanos / 1_000_000_000) as u64;
    let sub = (d.nanos % 1_000_000_000) as u32;
    format!("{:?}", std::time::Duration::new(secs, sub))
}

/// `Duration / u32` from std: the quotient of a duration by a non-zero
/// count. The documentation promises no more than a duration, so the result
/// is named, not restated; that it is a `Duration` bounds its seconds.
#[verifier::external_body]
pub(crate) fn duration_divide(d: Span, n: u32) -> (q: Span)
    requires
        n > 0,
        d.nanos / 1_000_000_000 <= u64::MAX,
    ensures
        q.nanos == duration_quotient(d.nanos as nat, n as nat),
        fits_duration(q),
{
    let secs = (d.nanos / 1_000_000_000) as u64;
    let sub = (d.nanos % 1_000_000_000) as u32;
    Span { nanos: (std::time::Duration::new(secs, sub) / n).as_nanos() }
}


/// `std::time::SystemTime::now()`, as the span since the Unix epoch (zero
/// for a clock set before the epoch). The reading depends on the machine's
/// clock, so nothing is promised of it but that it is a `Duration`.
#[verifier::external_body]
pub fn now_since_epoch() -> (s: Span)
    ensures
        fits_duration(s),
{
    Span {
        nanos: std::time::SystemTime::now().duration_since(std::time::UNIX_EPOCH).map(|d| d.as_nanos()).unwrap_or(0),
    }
}

} // verus!
