//! Width-aware cursor placement: the terminal column at which the
//! cursor stands after the input buffer's text, inside the input box.
//!
//! The displayed width of a character comes from the `unicode_width`
//! crate; everything around that call is verified.

use vstd::prelude::*;

verus! {

/// What `unicode_width` answers for one character: its displayed width
/// in terminal columns, or `None` for a control character. The answer
/// depends on the character alone.
pub uninterp spec fn width_of(c: char) -> Option<usize>;

/// Relies on `unicode_width::UnicodeWidthChar::width`: the displayed
/// column width of `c`, `None` for a control character. Widths are
/// stored in two bits (0 to 3); printable ASCII is single-width and
/// ASCII control characters have no width.
#[verifier::external_body]
fn char_width(c: char) -> (w: Option<usize>)
    ensures
        w == width_of(c),
        w matches Some(n) ==> n <= 3,
        32 <= (c as int) && (c as int) < 127 ==> w == Some(1usize),
        (c as int) < 32 ==> w is None,
{
    unicode_width::UnicodeWidthChar::width(c)
}

/// The columns one character occupies on screen: its displayed width,
/// with a control character occupying none.
pub open spec fn column_width(c: char) -> nat {
    match width_of(c) {
        Some(n) => n as nat,
        None => 0,
    }
}

/// The columns a text occupies: the sum of its characters' widths.
pub open spec fn display_width(s: Seq<char>) -> nat
    decreases s.len(),
{
    if s.len() == 0 {
        0
    } else {
        display_width(s.drop_last()) + column_width(s.last())
    }
}

/// `n` clamped to what a terminal column coordinate can hold.
pub open spec fn clamp_u16(n: int) -> int {
    if n > u16::MAX {
        u16::MAX as int
    } else {
        n
    }
}

/// The input box starts after a margin and a border, so its first text
/// column is this one.
pub const INPUT_BOX_COLUMN: u16 = 4;

/// The column at which the cursor stands after the buffer's text:
/// the input box's first column plus the displayed width of the
/// buffer, saturating at the largest representable column.
#[verifier::loop_isolation(false)]
pub fn cursor_column(buffer: &Vec<char>) -> (col: u16)
    ensures
        col as int == clamp_u16(INPUT_BOX_COLUMN + display_width(buffer@)),
{
    let mut col: u16 = INPUT_BOX_COLUMN;
    let mut i: usize = 0;
    while i < buffer.len()
        invariant
            i <= buffer@.len(),
            col as int == clamp_u16(INPUT_BOX_COLUMN + display_width(buffer@.take(i as int))),
        decreases buffer@.len() - i,
    {
        proof {
            assert(buffer@.take(i + 1).drop_last() =~= buffer@.take(i as int));
            assert(buffer@.take(i + 1).last() == buffer@[i as int]);
        }
        let w: u16 = match char_width(buffer[i]) {
            Some(n) => n as u16,
            None => 0,
        };
        if col > u16::MAX - w {
            col = u16::MAX;
        } else {
            col = col + w;
        }
        i = i + 1;
    }
    proof {
        assert(buffer@.take(buffer@.len() as int) =~= buffer@);
    }
    col
}

} // verus!
