//! Event instants: the UNIX seconds and sub-second nanoseconds of a
//! `chrono::DateTime<Utc>`, ordered as the date-times are, and their RFC 3339 text.

use vstd::prelude::*;

verus! {

/// Whether `chrono::DateTime::<Utc>::from_timestamp(secs, nanos)` is `Some`,
/// that is, whether the pair denotes an instant chrono can represent.
pub uninterp spec fn utc_instant_exists(secs: int, nanos: int) -> bool;

/// The text of `to_rfc3339()` on `chrono::DateTime::<Utc>::from_timestamp(secs, nanos)`.
pub uninterp spec fn utc_rfc3339(secs: int, nanos: int) -> Seq<char>;

/// Rebuilds the instant `(secs, nanos)` with `DateTime::<Utc>::from_timestamp`
/// and writes it with `DateTime::to_rfc3339`. Claims that the result is `Some`
/// exactly when chrono accepts the pair (the name [`utc_instant_exists`]) and
/// that the text is the one the name [`utc_rfc3339`] stands for; and, as
/// chrono's date range (years up to 262142) and its nanosecond check show,
/// that every instant from 1970 up to the end of year 9999 with fewer than
/// 1,000,000,000 nanoseconds is accepted.
#[verifier::external_body]
fn utc_rfc3339_text(secs: i64, nanos: u32) -> (s: Option<String>)
    ensures
        s is Some <==> utc_instant_exists(secs as int, nanos as int),
        0 <= secs < 253_402_300_800 && nanos < 1_000_000_000 ==> s is Some,
        s matches Some(t) ==> t@ == utc_rfc3339(secs as int, nanos as int),
{
    match chrono::DateTime::from_timestamp(secs, nanos) {
        Some(dt) => Some(dt.to_rfc3339()),
        None => None,
    }
}

/// An instant of an event: UNIX seconds plus nanoseconds since the last whole
/// second, always one that chrono can represent. Instants are ordered as the
/// `DateTime<Utc>` values they come from: by seconds, then by nanoseconds.
#[derive(Debug, Clone, Copy, PartialEq, Eq)]
pub struct Timestamp {
    secs: i64,
    nanos: u32,
}

impl Timestamp {
    #[verifier::type_invariant]
    closed spec fn representable(self) -> bool {
        utc_instant_exists(self.secs as int, self.nanos as int)
    }

    /// UNIX seconds of the instant.
    pub closed spec fn seconds(self) -> int {
        self.secs as int
    }

    /// Nanoseconds since the last whole second.
    pub closed spec fn subsec_nanos(self) -> int {
        self.nanos as int
    }

    /// Whether `self` is the same instant as `other` or a later one.
    pub open spec fn spec_at_or_after(self, other: Timestamp) -> bool {
        self.seconds() > other.seconds() || (self.seconds() == other.seconds()
            && self.subsec_nanos() >= other.subsec_nanos())
    }

    /// The RFC 3339 text of the instant.
    pub open spec fn rfc3339(self) -> Seq<char> {
        utc_rfc3339(self.seconds(), self.subsec_nanos())
    }

    /// The instant `secs` UNIX seconds plus `nanos` nanoseconds, as given by
    /// `DateTime::timestamp` and `DateTime::timestamp_subsec_nanos`; `None` when
    /// chrono cannot represent it.
    pub fn from_unix_parts(secs: i64, nanos: u32) -> (t: Option<Timestamp>)
        ensures
            t is Some <==> utc_instant_exists(secs as int, nanos as int),
            0 <= secs < 253_402_300_800 && nanos < 1_000_000_000 ==> t is Some,
            t matches Some(ts) ==> ts.seconds() == secs && ts.subsec_nanos() == nanos,
    {
        match utc_rfc3339_text(secs, nanos) {
            Some(_) => Some(Timestamp { secs, nanos }),
            None => None,
        }
    }

    /// UNIX seconds of the instant.
    pub fn unix_seconds(&self) -> (s: i64)
        ensures
            s == self.seconds(),
    {
        self.secs
    }

    /// Nanoseconds since the last whole second.
    pub fn unix_subsec_nanos(&self) -> (n: u32)
        ensures
            n == self.subsec_nanos(),
    {
        self.nanos
    }

    /// Whether `self` is the same instant as `other` or a later one.
    pub fn is_at_or_after(&self, other: &Timestamp) -> (r: bool)
        ensures
            r == self.spec_at_or_after(*other),
    {
        self.secs > other.secs || (self.secs == other.secs && self.nanos >= other.nanos)
    }

    /// RFC 3339 text of the instant, as `DateTime::to_rfc3339` writes it.
    pub fn to_rfc3339(&self) -> (s: String)
        ensures
            s@ == self.rfc3339(),
    {
        proof {
            use_type_invariant(self);
        }
        match utc_rfc3339_text(self.secs, self.nanos) {
            Some(text) => text,
            None => {
                proof {
                    assert(false);
                }
                String::new()
            },
        }
    }
}

} // verus!
