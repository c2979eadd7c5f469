//! The wall clock.

use vstd::prelude::*;

verus! {

/// The present time, in milliseconds since the Unix epoch.
///
/// Wraps `chrono::Utc::now` and `DateTime::timestamp_millis`. Nothing is
/// promised of the value: it is whatever the system clock says.
#[verifier::external_body]
pub(crate) fn now_millis() -> i64 {
    chrono::Utc::now().timestamp_millis()
}

/// The text that `chrono` writes for a moment in UTC, given in
/// milliseconds since the Unix epoch, under a format pattern; `None` for a
/// moment outside the years that `chrono` can represent.
pub uninterp spec fn utc_text(millis: int, pattern: Seq<char>) -> Option<Seq<char>>;

/// The two patterns that this library formats times with. Both hold only
/// specifiers that `chrono` knows.
pub open spec fn is_known_pattern(pattern: Seq<char>) -> bool {
    pattern == "%Y-%m-%d_%H-%M-%S"@ || pattern == "%Y-%m-%d %H:%M:%S"@
}

/// Writes a moment in UTC under a format pattern.
///
/// Wraps `DateTime::from_timestamp_millis` and `DateTime::format` of
/// `chrono`. The first gives nothing for a moment out of range. The
/// second fails on a pattern with a specifier it does not know, so only
/// the library's own two patterns are admitted. The calendar arithmetic
/// is not written out here: the contract only names the result.
#[verifier::external_body]
pub(crate) fn format_utc(millis: i64, pattern: &str) -> (r: Option<String>)
    requires
        is_known_pattern(pattern@),
    ensures
        match utc_text(millis as int, pattern@) {
            Some(t) => r matches Some(s) && s@ == t,
            None => r is None,
        },
{
    match chrono::DateTime::from_timestamp_millis(millis) {
        Some(t) => Some(t.format(pattern).to_string()),
        None => None,
    }
}

} // verus!
