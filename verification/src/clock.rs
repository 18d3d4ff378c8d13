//! The time of day, in words.
use vstd::prelude::*;

verus! {

/// Whether a pattern is made of characters that stand for themselves and of the
/// marks for year, month, day, hour, minute, second and offset.
pub open spec fn printable(pattern: Seq<char>) -> bool
    decreases pattern.len(),
{
    if pattern.len() == 0 {
        true
    } else if pattern[0] != '%' {
        printable(pattern.skip(1))
    } else if pattern.len() >= 2 && (pattern[1] == 'Y' || pattern[1] == 'm' || pattern[1] == 'd'
        || pattern[1] == 'H' || pattern[1] == 'M' || pattern[1] == 'S') {
        printable(pattern.skip(2))
    } else if pattern.len() >= 3 && pattern[1] == ':' && pattern[2] == 'z' {
        printable(pattern.skip(3))
    } else {
        false
    }
}

/// How `chrono` prints a moment in UTC by a pattern: the one that lies so many
/// seconds after the epoch, and so many nanoseconds after that second.
pub uninterp spec fn utc_text(pattern: Seq<char>, seconds: i64, nanos: u32) -> Seq<char>;

/// How `chrono` prints a moment in UTC by RFC 3339.
pub uninterp spec fn utc_rfc3339(seconds: i64, nanos: u32) -> Seq<char>;

/// `chrono::Local::now`, printed with `format` by a pattern. Nothing holds of the
/// moment at which it is called, nor of the zone of the machine.
#[verifier::external_body]
fn local_time_text(pattern: &str) -> (r: String)
    requires
        printable(pattern@),
{
    chrono::Local::now().format(pattern).to_string()
}

/// `chrono::Utc::now`, printed with `format` by a pattern, with the seconds of
/// `timestamp` and the nanoseconds of `timestamp_subsec_nanos`: the text is that of
/// this moment. Nothing holds of the moment at which it is called.
#[verifier::external_body]
fn utc_time_text(pattern: &str) -> (r: (String, i64, u32))
    requires
        printable(pattern@),
    ensures
        r.0@ == utc_text(pattern@, r.1, r.2),
{
    let now = chrono::Utc::now();
    (now.format(pattern).to_string(), now.timestamp(), now.timestamp_subsec_nanos())
}

/// `chrono::Utc::now`, printed with `to_rfc3339`, with the seconds of `timestamp`
/// and the nanoseconds of `timestamp_subsec_nanos`: the text is that of this
/// moment. Nothing holds of the moment at which it is called.
#[verifier::external_body]
pub(crate) fn utc_moment() -> (r: (String, i64, u32))
    ensures
        r.0@ == utc_rfc3339(r.1, r.2),
{
    let now = chrono::Utc::now();
    (now.to_rfc3339(), now.timestamp(), now.timestamp_subsec_nanos())
}

/// `chrono::Local::now`, printed with `to_rfc3339`. Nothing holds of the moment at
/// which it is called, nor of the zone of the machine.
#[verifier::external_body]
pub(crate) fn local_rfc3339() -> (r: String) {
    chrono::Local::now().to_rfc3339()
}

/// How a model is told the time in UTC.
pub open spec fn utc_words(seconds: i64, nanos: u32) -> Seq<char> {
    utc_text("%Y-%m-%d %H:%M:%S UTC"@, seconds, nanos)
}

/// The time now, as a model is told it: where the machine stands, and in UTC.
pub(crate) fn now_in_words() -> (r: (String, String))
    ensures
        exists|seconds: i64, nanos: u32| r.1@ == #[trigger] utc_words(seconds, nanos),
{
    proof {
        reveal_strlit("%Y-%m-%d %H:%M:%S %:z");
        reveal_strlit("%Y-%m-%d %H:%M:%S UTC");
        reveal_with_fuel(printable, 16);
    }
    let local = local_time_text("%Y-%m-%d %H:%M:%S %:z");
    let (utc, seconds, nanos) = utc_time_text("%Y-%m-%d %H:%M:%S UTC");
    assert(utc@ == utc_words(seconds, nanos));
    (local, utc)
}

} // verus!
