//! Dates: chrono reads them, and they are compared as instants.
use vstd::prelude::*;

verus! {

/// What chrono's `FromStr for DateTime<Utc>` makes of the text `s` (a relaxed RFC 3339
/// form, converted to UTC): the instant, as whole seconds since the Unix epoch and the
/// nanoseconds within that second; or, where chrono refuses the text, the text of its
/// `ParseError` (`Display`).
pub uninterp spec fn utc_parse(s: Seq<char>) -> Result<(i64, u32), Seq<char>>;

/// The instant that `s` denotes, or `None` where it is not a date.
pub open spec fn utc_instant(s: Seq<char>) -> Option<(i64, u32)> {
    match utc_parse(s) {
        Ok(t) => Some(t),
        Err(_) => None,
    }
}

/// Parses `s` with chrono's `FromStr for DateTime<Utc>` (`str::parse`) and hands back the
/// instant read as `DateTime::timestamp` and `DateTime::timestamp_subsec_nanos`, or the
/// `Display` text of chrono's `ParseError`. Claimed of chrono: the outcome depends on the
/// text alone, and is `utc_parse(s@)`.
#[verifier::external_body]
pub(crate) fn parse_utc_instant(s: &str) -> (r: Result<(i64, u32), String>)
    ensures
        match r {
            Ok(t) => utc_parse(s@) == Ok::<(i64, u32), Seq<char>>(t),
            Err(m) => utc_parse(s@) == Err::<(i64, u32), Seq<char>>(m@),
        },
{
    match s.parse::<chrono::DateTime<chrono::Utc>>() {
        Ok(d) => Ok((d.timestamp(), d.timestamp_subsec_nanos())),
        Err(e) => Err(e.to_string()),
    }
}

/// Instant `a` comes before instant `b`. chrono orders `DateTime`s by their UTC date
/// and time of day (seconds, then nanoseconds), which is this order on the pair.
pub open spec fn instant_lt(a: (i64, u32), b: (i64, u32)) -> bool {
    a.0 < b.0 || (a.0 == b.0 && a.1 < b.1)
}

/// Whether instant `a` comes before instant `b`.
pub fn instant_before(a: (i64, u32), b: (i64, u32)) -> (r: bool)
    ensures
        r == instant_lt(a, b),
{
    a.0 < b.0 || (a.0 == b.0 && a.1 < b.1)
}

} // verus!
