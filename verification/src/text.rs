//! Character-level helpers for the strings the library builds and compares.

use vstd::prelude::*;
use vstd::string::*;

verus! {

/// Whether two string slices hold the same characters.
///
/// Calls `str`'s own `==`. The standard library documents it as comparing the
/// two strings' contents, which is what the contract states.
#[verifier::external_body]
pub(crate) fn str_eq(a: &str, b: &str) -> (same: bool)
    ensures
        same == (a@ == b@),
{
    a == b
}

/// Appends one character to a string.
///
/// Calls `String::push`, which the standard library documents as appending
/// the given `char` to the end of the string.
#[verifier::external_body]
pub(crate) fn push_char(s: &mut String, c: char)
    ensures
        final(s)@ == old(s)@.push(c),
{
    s.push(c)
}

/// Whether `text` begins with `prefix`.
pub open spec fn spec_starts_with(text: Seq<char>, prefix: Seq<char>) -> bool {
    prefix.len() <= text.len() && text.subrange(0, prefix.len() as int) == prefix
}

/// Decides whether `text` begins with `prefix`.
pub fn starts_with(text: &str, prefix: &str) -> (yes: bool)
    ensures
        yes == spec_starts_with(text@, prefix@),
{
    let n = prefix.unicode_len();
    if text.unicode_len() < n {
        return false;
    }
    let mut i: usize = 0;
    while i < n
        invariant
            i <= n,
            n == prefix@.len(),
            n <= text@.len(),
            text@.subrange(0, i as int) == prefix@.subrange(0, i as int),
        decreases n - i,
    {
        if text.get_char(i) != prefix.get_char(i) {
            assert(text@.subrange(0, n as int)[i as int] != prefix@[i as int]);
            return false;
        }
        i += 1;
        assert(text@.subrange(0, i as int) =~= prefix@.subrange(0, i as int)) by {
            assert forall|k: int| 0 <= k < i implies text@.subrange(0, i as int)[k]
                == prefix@.subrange(0, i as int)[k] by {
                if k < i - 1 {
                    assert(text@.subrange(0, i - 1)[k] == prefix@.subrange(0, i - 1)[k]);
                }
            }
        }
    }
    assert(prefix@.subrange(0, n as int) =~= prefix@);
    true
}

/// The upper-case form of an ASCII letter; every other character is itself.
pub open spec fn spec_ascii_upper(c: char) -> char {
    if 'a' <= c && c <= 'z' {
        ((c as u8) - 32) as char
    } else {
        c
    }
}

/// Upper-cases an ASCII letter and leaves every other character alone.
pub fn ascii_upper(c: char) -> (up: char)
    ensures
        up == spec_ascii_upper(c),
{
    if 'a' <= c && c <= 'z' {
        ((c as u8) - 32) as char
    } else {
        c
    }
}

/// An underscore becomes a space; every other character is itself.
pub open spec fn spec_unscore(c: char) -> char {
    if c == '_' { ' ' } else { c }
}

/// What [`format_filename`] makes of a file stem: the first character
/// upper-cased, then every underscore turned into a space.
pub open spec fn spec_format_filename(stem: Seq<char>) -> Seq<char> {
    Seq::new(
        stem.len(),
        |i: int| spec_unscore(if i == 0 { spec_ascii_upper(stem[i]) } else { stem[i] }),
    )
}

/// Turns a file stem such as `door_slam` into the caption `Door slam`.
///
/// The stem must start with a one-byte character: the caption is cut after
/// the first byte.
pub fn format_filename(filename: &str) -> (caption: String)
    requires
        filename@.len() > 0,
        (filename@[0] as u32) < 128,
    ensures
        caption@ == spec_format_filename(filename@),
{
    let n = filename.unicode_len();
    let mut caption = String::new();
    let mut i: usize = 0;
    while i < n
        invariant
            n == filename@.len(),
            i <= n,
            caption@ == spec_format_filename(filename@).subrange(0, i as int),
        decreases n - i,
    {
        let c = filename.get_char(i);
        let shown = if i == 0 { ascii_upper(c) } else { c };
        let shown = if shown == '_' { ' ' } else { shown };
        push_char(&mut caption, shown);
        i += 1;
        assert(caption@ =~= spec_format_filename(filename@).subrange(0, i as int));
    }
    assert(caption@ =~= spec_format_filename(filename@));
    caption
}

} // verus!
