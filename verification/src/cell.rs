//! Cells: truncating a text to the width limit and padding it to a column.

use vstd::prelude::*;
use vstd::std_specs::iter::IteratorSpec;
use vstd::string::StringExecFns;

use crate::datum::{Datum, DatumView};
use crate::json::{compact_text, json_text};
use crate::number::{is_float_literal, parses_as_float};
use crate::text::push_spaces;
use crate::width::{
    columns_of, display_width, glyph_width, lemma_width_concat, lemma_width_printable,
    lemma_width_push, lemma_width_spaces, spaces, text_width,
};

verus! {

/// No cell is laid out wider than this many columns.
pub const MAX_COLUMN_WIDTH: usize = 120;

/// The number of columns that the ellipsis takes.
pub const ELLIPSIS_WIDTH: usize = 3;

/// The marker that ends a shortened text.
pub open spec fn ellipsis() -> Seq<char> {
    seq!['.', '.', '.']
}

/// The text of a value in a cell: a string as it is, a number as its decimal
/// text, a boolean as `true` or `false`, null as `null`, and a sequence or a
/// record as its compact JSON text.
pub open spec fn scalar_text(v: DatumView) -> Seq<char> {
    match v {
        DatumView::String(s) => s,
        DatumView::Number(n) => n,
        DatumView::Bool(b) => if b {
            "true"@
        } else {
            "false"@
        },
        DatumView::Null => "null"@,
        _ => json_text(v),
    }
}

/// Whether a value counts as a number when a column is aligned: a number
/// does, a string does if it parses in full as a floating-point number, and
/// nothing else does.
pub open spec fn is_numeric(v: DatumView) -> bool {
    match v {
        DatumView::Number(_) => true,
        DatumView::String(s) => is_float_literal(s),
        _ => false,
    }
}

/// How many leading characters of `text` fit into `limit` columns: characters
/// are taken from the front for as long as the running width stays within the
/// limit, and the first one that would exceed it ends the count.
pub open spec fn fit_len(text: Seq<char>, limit: nat) -> nat
    decreases text.len(),
{
    if text.len() == 0 || columns_of(text[0]) > limit {
        0
    } else {
        1 + fit_len(text.skip(1), (limit - columns_of(text[0])) as nat)
    }
}

/// What `truncate_string` returns: the text to show, and whether the cell is to
/// be left unpadded.
pub open spec fn truncated(text: Seq<char>, is_uri: bool, max_width: nat) -> (Seq<char>, bool) {
    if is_uri && display_width(text) > max_width {
        (text, true)
    } else if display_width(text) > MAX_COLUMN_WIDTH {
        (
            text.take(fit_len(text, (MAX_COLUMN_WIDTH - ELLIPSIS_WIDTH) as nat) as int)
                + ellipsis(),
            false,
        )
    } else {
        (text, false)
    }
}

/// What `pad_cell` returns: the content followed (or, when right-aligned,
/// preceded) by as many spaces as it is short of `width` columns.
pub open spec fn padded(content: Seq<char>, width: nat, align_right: bool) -> Seq<char> {
    let used = display_width(content);
    if used >= width {
        content
    } else if align_right {
        spaces((width - used) as nat) + content
    } else {
        content + spaces((width - used) as nat)
    }
}

/// `fit_len` names the longest prefix that fits: it fits, and taking even one
/// more character does not.
pub proof fn lemma_fit_len_longest(text: Seq<char>, limit: nat)
    ensures
        fit_len(text, limit) <= text.len(),
        display_width(text.take(fit_len(text, limit) as int)) <= limit,
        forall|k: int|
            fit_len(text, limit) < k <= text.len() ==> display_width(#[trigger] text.take(k))
                > limit,
    decreases text.len(),
{
    if text.len() == 0 || columns_of(text[0]) > limit {
        assert forall|k: int| 0 < k <= text.len() implies display_width(#[trigger] text.take(k))
            > limit by {
            lemma_split_first(text.take(k));
        }
    } else {
        let rest = text.skip(1);
        let left = (limit - columns_of(text[0])) as nat;
        lemma_fit_len_longest(rest, left);
        let n = fit_len(rest, left) as int;
        lemma_split_first(text.take(n + 1));
        assert(text.take(n + 1).skip(1) == rest.take(n));
        assert forall|k: int| n + 1 < k <= text.len() implies display_width(
            #[trigger] text.take(k),
        ) > limit by {
            lemma_split_first(text.take(k));
            assert(text.take(k).skip(1) == rest.take(k - 1));
        }
    }
}

/// The width of a text is the columns of its first character plus the width
/// of the rest.
proof fn lemma_split_first(s: Seq<char>)
    requires
        s.len() > 0,
    ensures
        display_width(s) == columns_of(s[0]) + display_width(s.skip(1)),
{
    let head = Seq::<char>::empty().push(s[0]);
    assert(head + s.skip(1) == s);
    lemma_width_concat(head, s.skip(1));
    lemma_width_push(Seq::empty(), s[0]);
}

/// The ellipsis is three columns wide.
pub proof fn lemma_ellipsis_width()
    ensures
        display_width(ellipsis()) == ELLIPSIS_WIDTH,
{
    lemma_width_printable(ellipsis());
}

/// A text that `truncate_string` hands back without the instruction to skip
/// padding is at most `MAX_COLUMN_WIDTH` columns wide.
pub proof fn lemma_truncated_width(text: Seq<char>, is_uri: bool, max_width: nat)
    requires
        !truncated(text, is_uri, max_width).1,
    ensures
        display_width(truncated(text, is_uri, max_width).0) <= MAX_COLUMN_WIDTH,
        display_width(truncated(text, is_uri, max_width).0) <= display_width(text),
{
    if display_width(text) > MAX_COLUMN_WIDTH {
        let limit = (MAX_COLUMN_WIDTH - ELLIPSIS_WIDTH) as nat;
        lemma_fit_len_longest(text, limit);
        lemma_ellipsis_width();
        lemma_width_concat(text.take(fit_len(text, limit) as int), ellipsis());
    }
}

/// A text that is within its limits comes back unchanged, and is padded as
/// usual: within `MAX_COLUMN_WIDTH` columns, and for an identifier column also
/// within the column's width.
pub proof fn lemma_truncate_short_unchanged(text: Seq<char>, is_uri: bool, max_width: nat)
    requires
        display_width(text) <= MAX_COLUMN_WIDTH,
        is_uri ==> display_width(text) <= max_width,
    ensures
        truncated(text, is_uri, max_width) == (text, false),
{
}

/// A text in an identifier column that is wider than the column is never
/// shortened: it comes back as it is, with the instruction to skip padding.
pub proof fn lemma_identifier_never_shortened(text: Seq<char>, max_width: nat)
    requires
        display_width(text) > max_width,
    ensures
        truncated(text, true, max_width) == (text, true),
{
}

/// A padded cell fills its column exactly, as long as its content is not wider
/// than the column.
pub proof fn lemma_padded_width(content: Seq<char>, width: nat, align_right: bool)
    requires
        display_width(content) <= width,
    ensures
        display_width(padded(content, width, align_right)) == width,
{
    let used = display_width(content);
    if used < width {
        let fill = spaces((width - used) as nat);
        lemma_width_spaces((width - used) as nat);
        if align_right {
            lemma_width_concat(fill, content);
        } else {
            lemma_width_concat(content, fill);
        }
    }
}

/// The text that stands for a value in a cell.
pub fn format_value(v: &Datum) -> (r: String)
    ensures
        r@ == scalar_text(v@),
{
    match v {
        Datum::String(s) => s.clone(),
        Datum::Number(n) => String::from_str(n.as_str()),
        Datum::Bool(b) => if *b {
            String::from_str("true")
        } else {
            String::from_str("false")
        },
        Datum::Null => String::from_str("null"),
        _ => compact_text(v),
    }
}

/// Whether a value counts as a number when its column is aligned.
pub fn is_numeric_value(v: &Datum) -> (r: bool)
    ensures
        r == is_numeric(v@),
{
    match v {
        Datum::Number(_) => true,
        Datum::String(s) => parses_as_float(s.as_str()),
        _ => false,
    }
}

/// Shortens a text for display.
///
/// In an identifier column a text wider than the column is returned whole,
/// with `true`: the caller prints it without padding. Otherwise a text wider
/// than `MAX_COLUMN_WIDTH` columns is cut to the longest prefix that leaves room
/// for the ellipsis, which is appended. Any other text is returned unchanged.
pub fn truncate_string(s: &str, is_uri: bool, max_width: usize) -> (r: (String, bool))
    ensures
        (r.0@, r.1) == truncated(s@, is_uri, max_width as nat),
{
    broadcast use vstd::string::group_string_axioms;

    let display_width = text_width(s);
    if is_uri && display_width > max_width {
        return (String::from_str(s), true);
    }
    if display_width > MAX_COLUMN_WIDTH {
        let limit: usize = MAX_COLUMN_WIDTH - ELLIPSIS_WIDTH;
        let mut current_width: usize = 0;
        let mut shown = String::new();
        let mut chars = s.chars();
        assert(s@.skip(0) == s@);
        loop
            invariant_except_break
                chars.obeys_prophetic_iter_laws(),
                chars.remaining() == s@.skip(shown@.len() as int),
            invariant
                limit == MAX_COLUMN_WIDTH - ELLIPSIS_WIDTH,
                current_width <= limit,
                shown@.len() <= s@.len(),
                shown@ == s@.take(shown@.len() as int),
                fit_len(s@, limit as nat) == shown@.len() + fit_len(
                    s@.skip(shown@.len() as int),
                    (limit - current_width) as nat,
                ),
            ensures
                fit_len(s@, limit as nat) == shown@.len(),
            decreases s@.len() - shown@.len(),
        {
            match chars.next() {
                Some(ch) => {
                    let ch_width = match glyph_width(ch) {
                        Some(w) => w,
                        None => 0,
                    };
                    if current_width + ch_width > limit {
                        break;
                    }
                    current_width = current_width + ch_width;
                    shown.push(ch);
                },
                None => {
                    break;
                },
            }
        }
        proof {
            reveal_strlit("...");
        }
        shown.append("...");
        (shown, false)
    } else {
        (String::from_str(s), false)
    }
}

/// Pads a cell to `width` columns with spaces: on the left when `align_right`
/// is set, on the right otherwise. Content that already fills the column, or
/// overflows it, is returned unchanged.
pub fn pad_cell(content: &str, width: usize, align_right: bool) -> (r: String)
    ensures
        r@ == padded(content@, width as nat, align_right),
{
    let display_width = text_width(content);
    if display_width >= width {
        return String::from_str(content);
    }
    let padding_needed = width - display_width;
    if align_right {
        let mut out = String::new();
        push_spaces(&mut out, padding_needed);
        out.append(content);
        out
    } else {
        let mut out = String::from_str(content);
        push_spaces(&mut out, padding_needed);
        out
    }
}

} // verus!
