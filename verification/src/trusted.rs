//! The thin layer of calls whose behavior is taken from the outside world:
//! string content comparison, token minting, and wall-clock timestamps.

use vstd::prelude::*;

verus! {

/// Relies on str's PartialEq: two string slices compare equal exactly when
/// their character contents are equal.
#[verifier::external_body]
pub(crate) fn str_eq(a: &str, b: &str) -> (r: bool)
    ensures
        r == (a@ == b@),
{
    a == b
}

/// Relies on uuid's Uuid::new_v4 and its Display form: a fresh random token
/// rendered as 36 characters in five groups of lowercase hexadecimal digits,
/// with the first separator dash at index 8. Nothing else can be promised of
/// a random token.
#[verifier::external_body]
pub(crate) fn fresh_token() -> (r: String)
    ensures
        r@.len() == 36,
        r@[8] == '-',
        forall|i: int| 0 <= i < 8 ==> r@[i] != '-',
{
    uuid::Uuid::new_v4().to_string()
}

/// Relies on chrono's Local::now and its %H:%M:%S formatting: two zero-padded
/// digits for each of hour, minute and second, separated by colons. What the
/// digits are depends on the clock, so only the shape is stated.
#[verifier::external_body]
pub(crate) fn now_hms() -> (r: String)
    ensures
        r@.len() == 8,
        r@[2] == ':',
        r@[5] == ':',
{
    chrono::Local::now().format("%H:%M:%S").to_string()
}

} // verus!
