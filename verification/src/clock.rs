//! Wall-clock time, as milliseconds since the Unix epoch, read and
//! formatted by `chrono`.
use vstd::prelude::*;

verus! {

/// What `chrono` prints for the UTC instant `millis` (milliseconds since the
/// Unix epoch) in RFC 3339 form; empty when the instant is out of chrono's range.
pub uninterp spec fn rfc3339_text(millis: i64) -> Seq<char>;

/// What `chrono` prints for the UTC instant `millis` with a `strftime` pattern;
/// empty when the instant is out of chrono's range.
pub uninterp spec fn time_text(millis: i64, pattern: Seq<char>) -> Seq<char>;

/// `chrono::Utc::now().timestamp_millis()`: the current time. Nothing is
/// promised of it.
#[verifier::external_body]
pub fn now_millis() -> i64 {
    chrono::Utc::now().timestamp_millis()
}

/// `chrono::DateTime::to_rfc3339` of the UTC instant `millis`; the result is named.
#[verifier::external_body]
pub fn format_rfc3339(millis: i64) -> (r: String)
    ensures
        r@ == rfc3339_text(millis),
{
    match chrono::DateTime::from_timestamp_millis(millis) {
        Some(t) => t.to_rfc3339(),
        None => String::new(),
    }
}

/// A `strftime` item that chrono writes for any date and time without
/// fail: the year, month, day, hour, minute or second, or `%` itself.
pub open spec fn known_item(c: char) -> bool {
    c == 'Y' || c == 'm' || c == 'd' || c == 'H' || c == 'M' || c == 'S' || c == '%'
}

/// A pattern of plain text and known items only: every `%` is followed by
/// a known item.
pub open spec fn plain_pattern(p: Seq<char>) -> bool
    decreases p.len(),
{
    if p.len() == 0 {
        true
    } else if p[0] == '%' {
        p.len() >= 2 && known_item(p[1]) && plain_pattern(p.skip(2))
    } else {
        plain_pattern(p.skip(1))
    }
}

/// The patterns this library formats times with are plain.
pub proof fn lemma_plain_patterns()
    ensures
        plain_pattern("%H:%M:%S"@),
        plain_pattern("%Y-%m-%d %H:%M:%S"@),
        plain_pattern("%Y-%m-%d %H:%M:%S UTC"@),
{
    reveal_strlit("%H:%M:%S");
    reveal_strlit("%Y-%m-%d %H:%M:%S");
    reveal_strlit("%Y-%m-%d %H:%M:%S UTC");
    reveal_with_fuel(plain_pattern, 16);
}

/// `chrono::DateTime::format` of the UTC instant `millis`; the result is
/// named. A pattern with an item chrono cannot write makes it panic, so
/// only plain patterns are taken.
#[verifier::external_body]
pub fn format_time(millis: i64, pattern: &str) -> (r: String)
    requires
        plain_pattern(pattern@),
    ensures
        r@ == time_text(millis, pattern@),
{
    match chrono::DateTime::from_timestamp_millis(millis) {
        Some(t) => t.format(pattern).to_string(),
        None => String::new(),
    }
}

} // verus!
