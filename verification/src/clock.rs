//! Instants: reading GitHub's timestamps, ordering them, and the current time.
use vstd::prelude::*;

verus! {

/// An instant as seconds since the Unix epoch and the nanoseconds past that
/// second (`DateTime<Utc>` as `timestamp()` and `timestamp_subsec_nanos()`).
#[derive(Debug, Clone, Copy, PartialEq, Eq, Structural, Hash)]
pub struct Stamp {
    pub secs: i64,
    pub nanos: u32,
}

impl Stamp {
    /// Whether `self` is strictly later than `other`.
    pub open spec fn is_after(self, other: Stamp) -> bool {
        self.secs > other.secs || (self.secs == other.secs && self.nanos > other.nanos)
    }

    /// Whether `self` is strictly later than `other`.
    pub fn after(&self, other: &Stamp) -> (r: bool)
        ensures
            r == self.is_after(*other),
    {
        self.secs > other.secs || (self.secs == other.secs && self.nanos > other.nanos)
    }
}

/// What `text.parse::<DateTime<Utc>>()` gives, as `(timestamp, subsec_nanos)`,
/// or `None` where chrono refuses the text.
pub uninterp spec fn rfc3339_instant(text: Seq<char>) -> Option<(i64, u32)>;

/// chrono's `FromStr for DateTime<Utc>` (RFC 3339, any offset, turned to UTC).
/// The result is named `rfc3339_instant`: chrono's grammar is not restated here.
#[verifier::external_body]
fn read_rfc3339(text: &str) -> (r: Option<(i64, u32)>)
    ensures
        r == rfc3339_instant(text@),
{
    match text.parse::<chrono::DateTime<chrono::Utc>>() {
        Ok(t) => Some((t.timestamp(), t.timestamp_subsec_nanos())),
        Err(_) => None,
    }
}

/// The instant that `text` names, as chrono reads RFC 3339.
pub open spec fn instant_of(text: Seq<char>) -> Option<Stamp> {
    match rfc3339_instant(text) {
        Some(p) => Some(Stamp { secs: p.0, nanos: p.1 }),
        None => None,
    }
}

/// The instant that `text` names, or `None` where it is no timestamp.
pub fn parse_instant(text: &str) -> (r: Option<Stamp>)
    ensures
        r == instant_of(text@),
{
    match read_rfc3339(text) {
        Some(p) => Some(Stamp { secs: p.0, nanos: p.1 }),
        None => None,
    }
}

/// chrono's `Utc::now()`. The current time is not a function of anything the
/// library holds, so nothing is stated of it.
#[verifier::external_body]
pub(crate) fn now() -> (r: Stamp) {
    let t = chrono::Utc::now();
    Stamp { secs: t.timestamp(), nanos: t.timestamp_subsec_nanos() }
}

/// What chrono writes for the instant `secs`, `nanos` after the Unix epoch
/// with the pattern "%-d %b": the day of the month without padding and the
/// month's short English name, as "1 Sep"; `None` where chrono has no date
/// for the instant.
pub uninterp spec fn day_month_of(secs: i64, nanos: u32) -> Option<Seq<char>>;

/// What chrono writes for the instant `secs`, `nanos` after the Unix epoch
/// with the pattern "%Y-%m-%d %H:%M", in UTC, as "2026-09-01 08:05"; `None`
/// where chrono has no date for the instant.
pub uninterp spec fn minute_of(secs: i64, nanos: u32) -> Option<Seq<char>>;

/// chrono's `DateTime::<Utc>::from_timestamp` and `format("%-d %b")`. The
/// text is named `day_month_of`: chrono's calendar is not restated here.
#[verifier::external_body]
pub(crate) fn day_month(t: Stamp) -> (r: Option<String>)
    ensures
        crate::model::opt_view(r) == day_month_of(t.secs, t.nanos),
{
    match chrono::DateTime::<chrono::Utc>::from_timestamp(t.secs, t.nanos) {
        Some(d) => Some(d.format("%-d %b").to_string()),
        None => None,
    }
}

/// chrono's `DateTime::<Utc>::from_timestamp` and `format("%Y-%m-%d %H:%M")`.
/// The text is named `minute_of`: chrono's calendar is not restated here.
#[verifier::external_body]
pub(crate) fn minute(t: Stamp) -> (r: Option<String>)
    ensures
        crate::model::opt_view(r) == minute_of(t.secs, t.nanos),
{
    match chrono::DateTime::<chrono::Utc>::from_timestamp(t.secs, t.nanos) {
        Some(d) => Some(d.format("%Y-%m-%d %H:%M").to_string()),
        None => None,
    }
}

} // verus!
