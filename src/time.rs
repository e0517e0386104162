use vstd::prelude::*;

verus! {

/// An instant in UTC: whole seconds since the Unix epoch, and the nanoseconds
/// past that second.
#[derive(Clone, Copy, Debug, PartialEq, Eq, Structural)]
pub struct Timestamp {
    pub secs: i64,
    pub nanos: u32,
}

/// `x` is strictly earlier than `y`.
pub open spec fn earlier(x: Timestamp, y: Timestamp) -> bool {
    x.secs < y.secs || (x.secs == y.secs && x.nanos < y.nanos)
}

pub fn is_earlier(x: Timestamp, y: Timestamp) -> (r: bool)
    ensures
        r == earlier(x, y),
{
    x.secs < y.secs || (x.secs == y.secs && x.nanos < y.nanos)
}

/// The instant that a stored timestamp text denotes, if it parses.
pub uninterp spec fn utc_instant(s: Seq<char>) -> Option<Timestamp>;

/// Relies on chrono's `FromStr` for `DateTime<Utc>`, with `timestamp` and
/// `timestamp_subsec_nanos`: parsing is a function of the text alone.
#[verifier::external_body]
pub(crate) fn parse_utc(s: &str) -> (r: Option<Timestamp>)
    ensures
        r == utc_instant(s@),
{
    s.parse::<chrono::DateTime<chrono::Utc>>().ok().map(
        |d| Timestamp { secs: d.timestamp(), nanos: d.timestamp_subsec_nanos() },
    )
}

/// Relies on chrono's `Utc::now` and `DateTime::to_rfc3339`: the current time
/// as RFC 3339 text. Nothing is promised of which instant it is.
#[verifier::external_body]
pub(crate) fn now_text() -> (r: String) {
    chrono::Utc::now().to_rfc3339()
}

} // verus!
