//! What the key-value store holds: the keys under which the state is kept,
//! and the reading of the values that are kept as plain text.

use vstd::prelude::*;
use vstd::string::*;
use crate::grid::{default_grid, spec_empty_row, spec_seeded};
use crate::sample::Sample;
use crate::sequencer::Sequencer;
use crate::shared::{DEFAULT_GAP_MS, DEFAULT_VOLUME};
use crate::text::str_eq;

verus! {

/// Name of the store.
pub const STORE_NAME: &'static str = "store.bin";

/// Key of the gap, in milliseconds.
pub const KEY_GAP: &'static str = "duration";

/// Key of the volume.
pub const KEY_VOLUME: &'static str = "volume";

/// Key of the random flag.
pub const KEY_RANDOM: &'static str = "random_playback";

/// Key of the grid.
pub const KEY_GRID: &'static str = "grid_data";

/// Key of the planned schedules.
pub const KEY_PLANNED: &'static str = "planned_schedules";

/// Key of the recurring schedules.
pub const KEY_RECURRING: &'static str = "recurring_schedules";

/// The random flag that a stored text stands for: set for `true`, clear for
/// anything else.
pub fn parse_random_flag(text: &str) -> (flag: bool)
    ensures
        flag == (text@ == "true"@),
{
    str_eq(text, "true")
}

/// Whether `c` is one of the digits `0` to `9`.
pub open spec fn spec_is_digit(c: char) -> bool {
    '0' <= c && c <= '9'
}

/// Whether the text holds digits only.
pub open spec fn spec_all_digits(text: Seq<char>) -> bool {
    forall|i: int| 0 <= i < text.len() ==> spec_is_digit(#[trigger] text[i])
}

/// The number that a text of digits writes in decimal.
pub open spec fn spec_decimal(digits: Seq<char>) -> nat
    decreases digits.len(),
{
    if digits.len() == 0 {
        0
    } else {
        10 * spec_decimal(digits.drop_last()) + ((digits.last() as u32 - 48) as nat)
    }
}

/// The digits of a stored number: the text without a leading plus sign.
pub open spec fn spec_number_body(text: Seq<char>) -> Seq<char> {
    if text.len() > 0 && text[0] == '+' {
        text.skip(1)
    } else {
        text
    }
}

/// The gap that a stored text stands for: the text is digits, with or
/// without a plus sign before them, and the number fits in 64 bits.
pub open spec fn spec_parse_gap(text: Seq<char>) -> Option<u64> {
    let body = spec_number_body(text);
    if body.len() > 0 && spec_all_digits(body) && spec_decimal(body) <= u64::MAX {
        Some(spec_decimal(body) as u64)
    } else {
        None
    }
}

/// A text of digits writes no smaller a number than any of its beginnings.
pub proof fn lemma_decimal_grows(digits: Seq<char>, n: int)
    requires
        0 <= n <= digits.len(),
        spec_all_digits(digits),
    ensures
        spec_decimal(digits.subrange(0, n)) <= spec_decimal(digits),
    decreases digits.len() - n,
{
    if n < digits.len() {
        lemma_decimal_grows(digits, n + 1);
        let longer = digits.subrange(0, n + 1);
        assert(longer.drop_last() =~= digits.subrange(0, n));
        assert(spec_is_digit(digits[n]));
        assert(longer.last() == digits[n]);
    } else {
        assert(digits.subrange(0, n) =~= digits);
    }
}

/// Reads the gap from its stored text. A text that is no number, or a number
/// that does not fit, gives none.
pub fn parse_gap(text: &str) -> (gap: Option<u64>)
    ensures
        gap == spec_parse_gap(text@),
{
    let n = text.unicode_len();
    let first: usize = if n > 0 && text.get_char(0) == '+' { 1 } else { 0 };
    let ghost body = spec_number_body(text@);
    assert(body =~= text@.skip(first as int));
    if first == n {
        return None;
    }
    let mut value: u64 = 0;
    let mut i: usize = first;
    assert(body.subrange(0, 0) =~= Seq::<char>::empty());
    while i < n
        invariant
            first <= i <= n,
            n == text@.len(),
            body == text@.skip(first as int),
            body == spec_number_body(text@),
            body.len() == n - first,
            spec_all_digits(body.subrange(0, i - first)),
            value == spec_decimal(body.subrange(0, i - first)),
        decreases n - i,
    {
        let c = text.get_char(i);
        let ghost shorter = body.subrange(0, i - first);
        let ghost longer = body.subrange(0, i - first + 1);
        proof {
            assert(longer.drop_last() =~= shorter);
            assert(longer.last() == c);
            assert(body[i - first] == c);
        }
        if !('0' <= c && c <= '9') {
            assert(!spec_is_digit(body[i - first]));
            return None;
        }
        let digit: u64 = (c as u32 - 48) as u64;
        proof {
            assert forall|k: int| 0 <= k < longer.len() implies spec_is_digit(#[trigger] longer[k]) by {
                if k < shorter.len() {
                    assert(shorter[k] == longer[k]);
                }
            }
        }
        let next = match value.checked_mul(10) {
            Some(tens) => tens.checked_add(digit),
            None => None,
        };
        match next {
            Some(v) => {
                value = v;
            },
            None => {
                proof {
                    assert(spec_decimal(longer) > u64::MAX);
                    if spec_all_digits(body) {
                        lemma_decimal_grows(body, i - first + 1);
                    }
                }
                return None;
            },
        }
        i += 1;
    }
    assert(body.subrange(0, n - first) =~= body);
    Some(value)
}

/// The gap that a start takes up: the stored one where there is one and it
/// can be read, else the gap of a first start.
pub open spec fn spec_restored_gap(stored: Option<Seq<char>>) -> u64 {
    match stored {
        Some(text) => match spec_parse_gap(text) {
            Some(gap) => gap,
            None => DEFAULT_GAP_MS,
        },
        None => DEFAULT_GAP_MS,
    }
}

/// The sequencer as a start finds it in the store. What the store lacks, or
/// holds in a form that cannot be read, is as on a first start: a gap of one
/// second, playing in order, full volume, and the seeded grid of two rows.
/// The sequencer is stopped at the first cell.
pub fn restore_sequencer(
    gap: Option<&str>,
    random: Option<&str>,
    volume: Option<u8>,
    grid: Option<Vec<Option<Sample>>>,
    row_size: u16,
) -> (seq: Sequencer)
    ensures
        seq.gap_ms == spec_restored_gap(
            match gap {
                Some(text) => Some(text@),
                None => None,
            },
        ),
        seq.random == (random matches Some(text) && text@ == "true"@),
        seq.volume == (match volume {
            Some(percent) => percent,
            None => DEFAULT_VOLUME,
        }),
        match grid {
            Some(cells) => seq.grid@ == cells@,
            None => spec_seeded(spec_empty_row(2 * row_size as nat), seq.grid@),
        },
        seq.row_size == row_size,
        seq.current == 0,
        !seq.playing,
        !seq.timer_armed,
{
    let cells = match grid {
        Some(cells) => cells,
        None => default_grid(row_size),
    };
    let mut seq = Sequencer::new(cells, row_size);
    match gap {
        Some(text) => match parse_gap(text) {
            Some(gap_ms) => {
                seq.gap_ms = gap_ms;
            },
            None => {},
        },
        None => {},
    }
    match random {
        Some(text) => {
            seq.random = parse_random_flag(text);
        },
        None => {},
    }
    match volume {
        Some(percent) => {
            seq.volume = percent;
        },
        None => {},
    }
    seq
}

} // verus!
