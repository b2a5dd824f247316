//! Display width: how many terminal columns a character or a text occupies.
//!
//! The width of a single character comes from the `unicode_width` crate. The
//! width of a text is the sum of the widths of its characters, where a control
//! character counts as zero columns.
//!
//! This is how release 0.1.11 of `unicode_width` measures, and the crate is
//! held to that release: later ones measure some sequences of characters as a
//! whole, so that a text is no longer as wide as its characters together, and
//! a cut made by the widths of the characters could overflow its column.

use unicode_width::{UnicodeWidthChar, UnicodeWidthStr};
use vstd::prelude::*;

verus! {

/// The width that `unicode_width` finds in its tables for a character at or
/// above U+00A0. Nothing is proved about this value; it is whatever
/// `UnicodeWidthChar::width` reports.
pub uninterp spec fn table_width(c: char) -> nat;

/// The width of one character, `None` for a control character other than NUL.
///
/// Below U+00A0 the answer is fixed: NUL is zero columns wide, printable ASCII
/// is one column wide, and the C0 and C1 control characters have no width.
pub open spec fn char_width(c: char) -> Option<nat> {
    let code = c as u32;
    if code == 0 {
        Some(0nat)
    } else if code < 0x20 {
        None
    } else if code < 0x7f {
        Some(1nat)
    } else if code < 0xa0 {
        None
    } else {
        Some(table_width(c))
    }
}

/// The number of columns a character adds to a text: its width, or zero where
/// it has none.
pub open spec fn columns_of(c: char) -> nat {
    match char_width(c) {
        Some(n) => n,
        None => 0,
    }
}

/// The display width of a text: the sum of the columns of its characters.
pub open spec fn display_width(s: Seq<char>) -> nat
    decreases s.len(),
{
    if s.len() == 0 {
        0
    } else {
        display_width(s.drop_last()) + columns_of(s.last())
    }
}

/// A run of `n` spaces.
pub open spec fn spaces(n: nat) -> Seq<char> {
    Seq::new(n, |i: int| ' ')
}

/// Appending one character adds its columns.
pub proof fn lemma_width_push(s: Seq<char>, c: char)
    ensures
        display_width(s.push(c)) == display_width(s) + columns_of(c),
{
    assert(s.push(c).drop_last() == s);
}

/// The display width of a concatenation is the sum of the widths of its parts.
pub proof fn lemma_width_concat(a: Seq<char>, b: Seq<char>)
    ensures
        display_width(a + b) == display_width(a) + display_width(b),
    decreases b.len(),
{
    if b.len() > 0 {
        lemma_width_concat(a, b.drop_last());
        assert((a + b).drop_last() == a + b.drop_last());
    }
}

/// A text in which every character is printable ASCII is as wide as it is long.
pub proof fn lemma_width_printable(s: Seq<char>)
    requires
        forall|i: int| 0 <= i < s.len() ==> 0x20 <= #[trigger] s[i] as u32 && s[i] as u32 <= 0x7e,
    ensures
        display_width(s) == s.len(),
    decreases s.len(),
{
    if s.len() > 0 {
        lemma_width_printable(s.drop_last());
    }
}

/// A run of spaces is as wide as it is long.
pub proof fn lemma_width_spaces(n: nat)
    ensures
        display_width(spaces(n)) == n,
{
    lemma_width_printable(spaces(n));
}

/// Calls `unicode_width::UnicodeWidthChar::width`. The contract says that the
/// call returns `char_width`: the fixed answers below U+00A0, the table's answer
/// from there on, and that no character is wider than two columns.
#[verifier::external_body]
pub(crate) fn glyph_width(c: char) -> (w: Option<usize>)
    ensures
        w is Some <==> char_width(c) is Some,
        w matches Some(n) ==> char_width(c) == Some(n as nat) && n <= 2,
        c as u32 >= 0xa0 ==> w == Some(table_width(c) as usize),
{
    UnicodeWidthChar::width(c)
}

/// Calls `unicode_width::UnicodeWidthStr::width`, which adds up the widths of
/// the characters and counts a character without a width as zero.
#[verifier::external_body]
pub(crate) fn text_width(s: &str) -> (w: usize)
    ensures
        w == display_width(s@),
{
    UnicodeWidthStr::width(s)
}

} // verus!
