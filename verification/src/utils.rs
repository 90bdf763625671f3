//! The clock, and two checks on addresses and subjects.

use vstd::prelude::*;
use crate::text::{
    chars_have, chars_of, contains_ignore_case, test_marker, text_contains_ignore_case,
};

verus! {

/// The current time, as `chrono::Utc::now` gives it and `to_rfc3339` writes
/// it. Nothing is promised of it: two calls may differ. `chrono` reads the
/// system clock and does not return where that is set before 1970.
#[verifier::external_body]
pub fn get_current_timestamp() -> String {
    chrono::Utc::now().to_rfc3339()
}

/// A basic check of an address: it holds an `@` and a `.`.
pub fn is_valid_email(email: &str) -> (r: bool)
    ensures
        r == (email@.contains('@') && email@.contains('.')),
{
    let v = chars_of(email);
    chars_have(&v, '@') && chars_have(&v, '.')
}

/// Whether a subject holds the marker `[test]`, in any mix of capital and
/// small letters.
pub fn is_test_email(subject: &str) -> (r: bool)
    ensures
        r == contains_ignore_case(subject@, test_marker()),
{
    let marker = "[test]";
    proof {
        reveal_strlit("[test]");
        assert(marker@ =~= test_marker());
    }
    text_contains_ignore_case(subject, marker)
}

} // verus!
