//! Padding of short texts to a fixed width, done by the `pad` crate.

use crate::ansi::within;
use vstd::prelude::*;

verus! {

/// Where the text stands within the padded width.
#[derive(Clone, Copy, Debug, PartialEq, Eq, Structural)]
pub enum Alignment {
    /// Text on the left, spaces on the right.
    Left,
    /// Text on the right, spaces on the left.
    Right,
    /// Text in the middle; the odd space goes to the right of it.
    Middle,
    /// Text in the middle; the odd space goes to the left of it.
    MiddleRight,
}

/// `n` spaces.
pub open spec fn spaces(n: nat) -> Seq<char> {
    Seq::new(n, |i: int| ' ')
}

/// Whether every character of `s` is a printable ASCII character, from the
/// space to the tilde. Each of them is one column wide.
pub open spec fn is_printable_ascii(s: Seq<char>) -> bool {
    forall|i: int| 0 <= i < s.len() ==> within(#[trigger] s[i], ' ', '~')
}

/// How many of the `gap` missing columns are filled on the left of the text.
pub open spec fn left_share(gap: nat, alignment: Alignment) -> nat {
    match alignment {
        Alignment::Left => 0,
        Alignment::Right => gap,
        Alignment::Middle => gap / 2,
        Alignment::MiddleRight => (gap - gap / 2) as nat,
    }
}

/// A text of printable ASCII characters brought to at least `width` columns:
/// a text that is wide enough stays as it is, a shorter one gets the missing
/// spaces around it as `alignment` says.
pub open spec fn padded(text: Seq<char>, width: nat, alignment: Alignment) -> Seq<char> {
    if text.len() >= width {
        text
    } else {
        let gap = (width - text.len()) as nat;
        let left = left_share(gap, alignment);
        spaces(left) + text + spaces((gap - left) as nat)
    }
}

/// `PadStr::pad_to_width_with_alignment` of the `pad` crate. The crate counts
/// columns, not characters; the two agree on printable ASCII text, which is
/// all that this contract speaks of.
#[verifier::external_body]
pub(crate) fn pad_to_width(text: &str, width: usize, alignment: Alignment) -> (out: String)
    requires
        is_printable_ascii(text@),
    ensures
        out@ == padded(text@, width as nat, alignment),
{
    let side = match alignment {
        Alignment::Left => pad::Alignment::Left,
        Alignment::Right => pad::Alignment::Right,
        Alignment::Middle => pad::Alignment::Middle,
        Alignment::MiddleRight => pad::Alignment::MiddleRight,
    };
    pad::PadStr::pad_to_width_with_alignment(text, width, side)
}

} // verus!
