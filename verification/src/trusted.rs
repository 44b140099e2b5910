//! Calls into outside crates.
//!
//! Each function here makes exactly one kind of outside call and gives it a
//! contract over a named result: the name stands for what the call returns,
//! which depends on the arguments alone. Nothing else in the library calls
//! these crates directly.

use vstd::prelude::*;
use validator::ValidateEmail;
use base64::Engine;

verus! {

/// Whether `p` compiles as a regular expression under the `regex` crate's
/// syntax.
pub uninterp spec fn regex_compiles(p: Seq<char>) -> bool;

/// Whether the regular expression `p` matches anywhere inside `t`.
pub uninterp spec fn regex_is_match(p: Seq<char>, t: Seq<char>) -> bool;

/// Relies on `regex::Regex::new` (whether the pattern compiles) and
/// `regex::Regex::is_match` (an unanchored search over the text).
#[verifier::external_body]
pub(crate) fn regex_match(pattern: &str, text: &str) -> (r: Result<bool, ()>)
    ensures
        r is Ok <==> regex_compiles(pattern@),
        r matches Ok(b) ==> b == regex_is_match(pattern@, text@),
{
    match regex::Regex::new(pattern) {
        Ok(re) => Ok(re.is_match(text)),
        Err(_) => Err(()),
    }
}

/// Whether `s` is a syntactically valid email address under the
/// `validator` crate's HTML5-based rule.
pub uninterp spec fn email_ok(s: Seq<char>) -> bool;

/// Relies on `validator::ValidateEmail::validate_email` for `&str`, whose
/// result depends on the characters alone.
#[verifier::external_body]
pub(crate) fn is_email(s: &str) -> (r: bool)
    ensures
        r == email_ok(s@),
{
    s.validate_email()
}

/// Whether `s` parses as a calendar date in strict `%Y-%m-%d` form.
pub uninterp spec fn date_ok(s: Seq<char>) -> bool;

/// Relies on `chrono::NaiveDate::parse_from_str` with format `%Y-%m-%d`.
#[verifier::external_body]
pub(crate) fn is_date(s: &str) -> (r: bool)
    ensures
        r == date_ok(s@),
{
    chrono::NaiveDate::parse_from_str(s, "%Y-%m-%d").is_ok()
}

/// Whether `s` parses as a 24-hour clock time in strict `%H:%M:%S` form.
pub uninterp spec fn time_ok(s: Seq<char>) -> bool;

/// Relies on `chrono::NaiveTime::parse_from_str` with format `%H:%M:%S`.
#[verifier::external_body]
pub(crate) fn is_time(s: &str) -> (r: bool)
    ensures
        r == time_ok(s@),
{
    chrono::NaiveTime::parse_from_str(s, "%H:%M:%S").is_ok()
}

/// Whether `s` parses as an RFC 3339 date-time.
pub uninterp spec fn datetime_ok(s: Seq<char>) -> bool;

/// Relies on `chrono::DateTime::parse_from_rfc3339`.
#[verifier::external_body]
pub(crate) fn is_datetime(s: &str) -> (r: bool)
    ensures
        r == datetime_ok(s@),
{
    chrono::DateTime::parse_from_rfc3339(s).is_ok()
}

/// Whether `s` parses as a UUID in one of the textual forms the `uuid`
/// crate accepts (hyphenated, simple, braced or URN).
pub uninterp spec fn uuid_ok(s: Seq<char>) -> bool;

/// Relies on `uuid::Uuid::parse_str`.
#[verifier::external_body]
pub(crate) fn is_uuid(s: &str) -> (r: bool)
    ensures
        r == uuid_ok(s@),
{
    uuid::Uuid::parse_str(s).is_ok()
}

/// Whether `s` decodes under the standard Base64 alphabet with canonical
/// padding.
pub uninterp spec fn base64_ok(s: Seq<char>) -> bool;

/// Relies on `base64::engine::general_purpose::STANDARD.decode`.
#[verifier::external_body]
pub(crate) fn is_base64(s: &str) -> (r: bool)
    ensures
        r == base64_ok(s@),
{
    base64::engine::general_purpose::STANDARD.decode(s).is_ok()
}

} // verus!
