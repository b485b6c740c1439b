//! Text operations of the standard library that the configuration uses.

use vstd::prelude::*;

verus! {

/// The text that `str::trim` returns for `s`: `s` without its leading and
/// trailing white space.
pub uninterp spec fn spec_trim(s: Seq<char>) -> Seq<char>;

/// The text that `str::to_lowercase` returns for `s`.
pub uninterp spec fn spec_lowercase(s: Seq<char>) -> Seq<char>;

/// The number that `str::parse::<u64>` reads from `s`, or `None` where it
/// reports an error.
pub uninterp spec fn spec_parse_u64(s: Seq<char>) -> Option<u64>;

/// `c` with an ASCII capital letter replaced by its small letter.
pub open spec fn spec_ascii_lower(c: char) -> char {
    if 'A' <= c && c <= 'Z' {
        ((c as u8) + 32) as char
    } else {
        c
    }
}

/// Whether `a` and `b` are the same text up to the case of ASCII letters.
pub open spec fn spec_eq_ignore_ascii_case(a: Seq<char>, b: Seq<char>) -> bool {
    a.len() == b.len() && forall|i: int|
        0 <= i < a.len() ==> spec_ascii_lower(#[trigger] a[i]) == spec_ascii_lower(b[i])
}

/// Calls `str::trim`. Trusted: the result is what the standard library
/// returns, named by `spec_trim`.
#[verifier::external_body]
pub(crate) fn trim(s: &str) -> (r: &str)
    ensures
        r@ == spec_trim(s@),
{
    s.trim()
}

/// Calls `str::to_lowercase`. Trusted: the result is what the standard
/// library returns, named by `spec_lowercase`.
#[verifier::external_body]
pub(crate) fn lowercase(s: &str) -> (r: String)
    ensures
        r@ == spec_lowercase(s@),
{
    s.to_lowercase()
}

/// Calls `str::parse::<u64>` and drops the error. Trusted: the result is
/// what the standard library returns, named by `spec_parse_u64`.
#[verifier::external_body]
pub(crate) fn parse_u64(s: &str) -> (r: Option<u64>)
    ensures
        r == spec_parse_u64(s@),
{
    s.parse::<u64>().ok()
}

/// Calls `str::eq_ignore_ascii_case`. Trusted: the standard library documents
/// the result as the equality of the two texts after each ASCII capital
/// letter has been replaced by its small letter.
#[verifier::external_body]
pub(crate) fn eq_ignore_ascii_case(a: &str, b: &str) -> (r: bool)
    ensures
        r == spec_eq_ignore_ascii_case(a@, b@),
{
    a.eq_ignore_ascii_case(b)
}

} // verus!
