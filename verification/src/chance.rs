//! The two places where chance enters: the draw of a grid index and the
//! random part of a preset's identifier.

use vstd::prelude::*;
use rand::distr::SampleString;
use rand::Rng;

verus! {

/// Whether `c` is an ASCII letter or digit.
pub open spec fn spec_is_alphanumeric(c: char) -> bool {
    ('A' <= c && c <= 'Z') || ('a' <= c && c <= 'z') || ('0' <= c && c <= '9')
}

/// An index drawn at random from `lo..hi`.
///
/// Calls `rand::Rng::random_range` on the thread's generator with the
/// half-open range `lo..hi`. The call panics on an empty range, which
/// `requires` leaves out; of the value drawn the contract claims only that it
/// lies in the range.
#[verifier::external_body]
pub(crate) fn random_in(lo: usize, hi: usize) -> (drawn: usize)
    requires
        lo < hi,
    ensures
        lo <= drawn < hi,
{
    rand::rng().random_range(lo..hi)
}

/// A random text of `len` ASCII letters and digits.
///
/// Calls `rand::distr::SampleString::sample_string` on `Alphanumeric` with
/// the thread's generator. The contract claims of the text its length and
/// that every character is one of `A-Z`, `a-z`, `0-9`.
#[verifier::external_body]
pub(crate) fn random_alphanumeric(len: usize) -> (text: String)
    ensures
        text@.len() == len,
        forall|i: int| 0 <= i < len ==> spec_is_alphanumeric(#[trigger] text@[i]),
{
    rand::distr::Alphanumeric.sample_string(&mut rand::rng(), len)
}

} // verus!
