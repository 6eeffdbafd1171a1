//! The settings menu's rules: the steps of the gap, and what becomes of the
//! text typed into the gap's field.

use vstd::prelude::*;
use vstd::string::*;
use crate::shared::Operation;

verus! {

/// Milliseconds by which one step changes the gap.
pub const GAP_STEP_MS: u64 = 500;

/// The gap after one step. A step that would leave the range of the gap
/// changes nothing.
pub open spec fn spec_step_gap(gap_ms: int, op: Operation) -> int {
    match op {
        Operation::Inc => if gap_ms + GAP_STEP_MS <= u64::MAX {
            gap_ms + GAP_STEP_MS
        } else {
            gap_ms
        },
        Operation::Dec => if gap_ms >= GAP_STEP_MS {
            gap_ms - GAP_STEP_MS
        } else {
            gap_ms
        },
    }
}

/// Lengthens or shortens the gap by one step.
pub fn step_gap(gap_ms: u64, op: Operation) -> (stepped: u64)
    ensures
        stepped == spec_step_gap(gap_ms as int, op),
{
    match op {
        Operation::Inc => match gap_ms.checked_add(GAP_STEP_MS) {
            Some(longer) => longer,
            None => gap_ms,
        },
        Operation::Dec => match gap_ms.checked_sub(GAP_STEP_MS) {
            Some(shorter) => shorter,
            None => gap_ms,
        },
    }
}

/// The text with every dot that follows a dot taken out.
pub open spec fn spec_collapse_dots(text: Seq<char>) -> Seq<char>
    decreases text.len(),
{
    if text.len() == 0 {
        text
    } else if text.len() >= 2 && text[text.len() - 1] == '.' && text[text.len() - 2] == '.' {
        spec_collapse_dots(text.drop_last())
    } else {
        spec_collapse_dots(text.drop_last()).push(text.last())
    }
}

/// Puts a single dot in place of every run of dots.
///
/// Calls `regex::Regex::replace_all` with the pattern `\.+` and the
/// replacement `.`: every run of dots, taken as long as it goes, becomes one
/// dot, and the rest of the text stays. The contract states the same as:
/// every dot that follows a dot is taken out.
#[verifier::external_body]
pub(crate) fn collapse_dots(text: &str) -> (collapsed: String)
    ensures
        collapsed@ == spec_collapse_dots(text@),
{
    regex::Regex::new(r"\.+").unwrap().replace_all(text, ".").into_owned()
}

/// What the gap's field does with the text typed into it.
#[derive(Debug, PartialEq, Eq)]
pub enum GapEdit {
    /// The field shows this text instead; the gap stays.
    Rewrite(String),
    /// The gap becomes this many milliseconds.
    Assign(u64),
}

/// What the gap's field does with `text`, where `millis` is the number that
/// the text writes, in milliseconds, if it writes one.
pub open spec fn spec_gap_edit_matches(text: Seq<char>, millis: Option<u64>, edit: GapEdit) -> bool {
    if text.len() > 0 && text.last() == '.' {
        edit matches GapEdit::Rewrite(shown) && shown@ == spec_collapse_dots(text)
    } else if millis is Some {
        edit == GapEdit::Assign(millis.unwrap())
    } else if text.len() > 0 {
        edit matches GapEdit::Rewrite(shown) && shown@ == text.drop_last()
    } else {
        edit matches GapEdit::Rewrite(shown) && shown@ == text
    }
}

/// Decides what the gap's field does with the text typed into it. A text
/// that ends in a dot is still being typed: it is shown with its runs of dots
/// collapsed. A text that writes a number sets the gap. Any other text loses
/// its last character.
pub fn edit_gap(text: &str, millis: Option<u64>) -> (edit: GapEdit)
    ensures
        spec_gap_edit_matches(text@, millis, edit),
{
    let n = text.unicode_len();
    if n > 0 && text.get_char(n - 1) == '.' {
        GapEdit::Rewrite(collapse_dots(text))
    } else {
        match millis {
            Some(ms) => GapEdit::Assign(ms),
            None => {
                if n > 0 {
                    let shorter = text.substring_char(0, n - 1);
                    GapEdit::Rewrite(String::from_str(shorter))
                } else {
                    GapEdit::Rewrite(String::from_str(text))
                }
            },
        }
    }
}

} // verus!
