//! Instants, and reading them from RFC 2822 and RFC 3339 text.
use vstd::prelude::*;

verus! {

/// An instant in UTC: whole seconds since the Unix epoch and the nanoseconds
/// past that second.
#[derive(Clone, Copy, Debug, PartialEq, Eq, Structural)]
pub struct Timestamp {
    pub secs: i64,
    pub nanos: u32,
}

/// What `str::trim` leaves of a string.
pub uninterp spec fn trim_of(s: Seq<char>) -> Seq<char>;

/// The instant, as seconds and nanoseconds, that chrono reads from an
/// RFC 2822 date; `None` where it does not read one.
pub uninterp spec fn rfc2822_of(s: Seq<char>) -> Option<(i64, u32)>;

/// The instant, as seconds and nanoseconds, that chrono reads from an
/// RFC 3339 date; `None` where it does not read one.
pub uninterp spec fn rfc3339_of(s: Seq<char>) -> Option<(i64, u32)>;

/// Relies on `str::trim`: the string without its leading and trailing
/// whitespace, which depends on the characters alone.
#[verifier::external_body]
fn trim(s: &str) -> (r: String)
    ensures
        r@ == trim_of(s@),
{
    s.trim().to_owned()
}

/// Relies on chrono's `DateTime::parse_from_rfc2822`; the instant it reads is
/// taken as seconds and nanoseconds since the epoch, which is its value in UTC.
#[verifier::external_body]
fn parse_rfc2822(s: &str) -> (r: Option<(i64, u32)>)
    ensures
        r == rfc2822_of(s@),
{
    chrono::DateTime::parse_from_rfc2822(s).ok().map(|d| (d.timestamp(), d.timestamp_subsec_nanos()))
}

/// Relies on chrono's `DateTime::parse_from_rfc3339`; the instant it reads is
/// taken as seconds and nanoseconds since the epoch, which is its value in UTC.
#[verifier::external_body]
fn parse_rfc3339(s: &str) -> (r: Option<(i64, u32)>)
    ensures
        r == rfc3339_of(s@),
{
    chrono::DateTime::parse_from_rfc3339(s).ok().map(|d| (d.timestamp(), d.timestamp_subsec_nanos()))
}

/// Relies on chrono's `Utc::now`: the current time, of which nothing is promised.
#[verifier::external_body]
pub(crate) fn now() -> (r: Timestamp) {
    let t = chrono::Utc::now();
    Timestamp { secs: t.timestamp(), nanos: t.timestamp_subsec_nanos() }
}

pub open spec fn stamp_of(p: Option<(i64, u32)>) -> Option<Timestamp> {
    match p {
        Some((secs, nanos)) => Some(Timestamp { secs, nanos }),
        None => None,
    }
}

/// An RFC 3339 date, after trimming.
pub open spec fn rfc3339_spec(s: Seq<char>) -> Option<Timestamp> {
    stamp_of(rfc3339_of(trim_of(s)))
}

/// An RFC 2822 date, after trimming.
pub open spec fn rfc2822_spec(s: Seq<char>) -> Option<Timestamp> {
    stamp_of(rfc2822_of(trim_of(s)))
}

/// An RFC 2822 date, or failing that an RFC 3339 date, after trimming.
pub open spec fn either_spec(s: Seq<char>) -> Option<Timestamp> {
    match rfc2822_spec(s) {
        Some(t) => Some(t),
        None => rfc3339_spec(s),
    }
}

/// The same, of text that may be missing.
pub open spec fn opt_either_spec(s: Option<Seq<char>>) -> Option<Timestamp> {
    match s {
        Some(s) => either_spec(s),
        None => None,
    }
}

/// Builds an instant from what a date reader returned.
pub fn stamp(p: Option<(i64, u32)>) -> (r: Option<Timestamp>)
    ensures
        r == stamp_of(p),
{
    match p {
        Some((secs, nanos)) => Some(Timestamp { secs, nanos }),
        None => None,
    }
}

/// Picks the first of two readings that succeeded.
pub fn first_reading(first: Option<(i64, u32)>, second: Option<(i64, u32)>) -> (r: Option<Timestamp>)
    ensures
        r == (match stamp_of(first) {
            Some(t) => Some(t),
            None => stamp_of(second),
        }),
{
    match first {
        Some(_) => stamp(first),
        None => stamp(second),
    }
}

/// Reads an RFC 3339 date from trimmed text.
pub fn rfc3339_from_str(s: &str) -> (r: Option<Timestamp>)
    ensures
        r == rfc3339_spec(s@),
{
    let t = trim(s);
    stamp(parse_rfc3339(t.as_str()))
}

/// Reads an RFC 2822 date from trimmed text.
pub fn rfc2822_from_str(s: &str) -> (r: Option<Timestamp>)
    ensures
        r == rfc2822_spec(s@),
{
    let t = trim(s);
    stamp(parse_rfc2822(t.as_str()))
}

/// Reads an RFC 2822 date from trimmed text, or failing that an RFC 3339 date.
pub fn timestamp_from_str(s: &str) -> (r: Option<Timestamp>)
    ensures
        r == either_spec(s@),
{
    let t = trim(s);
    let first = parse_rfc2822(t.as_str());
    match first {
        Some(_) => stamp(first),
        None => first_reading(first, parse_rfc3339(t.as_str())),
    }
}

} // verus!
