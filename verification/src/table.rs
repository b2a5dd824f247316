//! Layout: cells become lines, and lines become the text that is shown.

use vstd::prelude::*;
use vstd::string::StringExecFns;

use crate::cell::{
    format_value, lemma_padded_width, lemma_truncated_width, pad_cell, padded, scalar_text,
    truncate_string, truncated, MAX_COLUMN_WIDTH,
};
use crate::columns::{
    analyze_columns, column_names, column_numeric, column_width, describes, fields_of, find_field,
    lemma_column_width_covers, lemma_column_width_floor, lookup, texts_of, uri_name, ColumnInfo,
};
use crate::datum::{
    field_views, lemma_record_view, lemma_sequence_view, views_of, Datum, DatumView, FieldView,
};
use crate::shape::{all_records, only_records, plan_of, RenderPlan};
use crate::width::{display_width, lemma_width_concat, text_width};

verus! {

/// What stands between two cells of a line: two spaces.
pub open spec fn separator() -> Seq<char> {
    seq![' ', ' ']
}

/// What is shown for a sequence or a record that holds nothing.
pub open spec fn empty_notice() -> Seq<char> {
    "(empty)"@
}

/// The cells of a line, with the separator between each two.
pub open spec fn joined(cells: Seq<Seq<char>>) -> Seq<char>
    decreases cells.len(),
{
    if cells.len() == 0 {
        Seq::empty()
    } else if cells.len() == 1 {
        cells[0]
    } else {
        joined(cells.drop_last()) + separator() + cells.last()
    }
}

/// The lines of a text one after the other, each ended by a line feed.
pub open spec fn stacked(lines: Seq<Seq<char>>) -> Seq<char>
    decreases lines.len(),
{
    if lines.len() == 0 {
        Seq::empty()
    } else {
        stacked(lines.drop_last()) + lines.last().push('\n')
    }
}

/// A text as it stands in a column: shortened if need be, then padded to the
/// column's width, on the left if the column is numeric. A text that comes back
/// with the instruction to skip padding stands as it is.
pub open spec fn laid_out(text: Seq<char>, width: nat, numeric: bool, uri: bool) -> Seq<char> {
    let shown = truncated(text, uri, width);
    if shown.1 {
        shown.0
    } else {
        padded(shown.0, width, numeric)
    }
}

/// The text of a record's field before layout; empty where the record has no
/// such field.
pub open spec fn cell_text(fields: Seq<FieldView>, name: Seq<char>) -> Seq<char> {
    match lookup(fields, name) {
        Some(v) => scalar_text(v),
        None => Seq::empty(),
    }
}

/// The cell of one record in the column `name` of the table of `items`.
pub open spec fn row_cell(items: Seq<DatumView>, fields: Seq<FieldView>, name: Seq<char>) -> Seq<
    char,
> {
    laid_out(
        cell_text(fields, name),
        column_width(items, name),
        column_numeric(items, name),
        name == uri_name(),
    )
}

/// The header of the table: each column's name, padded on the right to the
/// column's width.
pub open spec fn header_line(items: Seq<DatumView>) -> Seq<char> {
    let names = column_names(items);
    joined(Seq::new(names.len(), |j: int| padded(names[j], column_width(items, names[j]), false)))
}

/// The line of one record: its cell in each column.
pub open spec fn row_line(items: Seq<DatumView>, fields: Seq<FieldView>) -> Seq<char> {
    let names = column_names(items);
    joined(Seq::new(names.len(), |j: int| row_cell(items, fields, names[j])))
}

/// The table of a list of records: the header, then one line for each record.
pub open spec fn table_text(items: Seq<DatumView>) -> Seq<char> {
    header_line(items).push('\n') + stacked(
        Seq::new(items.len(), |i: int| row_line(items, fields_of(items[i]))),
    )
}

/// The line of an item of a list: its text, shortened to `MAX_COLUMN_WIDTH`
/// columns if need be. An item of a list is never treated as an identifier.
pub open spec fn list_line(item: DatumView) -> Seq<char> {
    truncated(scalar_text(item), false, MAX_COLUMN_WIDTH as nat).0
}

/// A list shown item by item, one line each.
pub open spec fn list_text(items: Seq<DatumView>) -> Seq<char> {
    stacked(Seq::new(items.len(), |i: int| list_line(items[i])))
}

/// The width of the widest field name of a record.
pub open spec fn key_width(fields: Seq<FieldView>) -> nat
    decreases fields.len(),
{
    if fields.len() == 0 {
        0
    } else {
        let before = key_width(fields.drop_last());
        if display_width(fields.last().name) > before {
            display_width(fields.last().name)
        } else {
            before
        }
    }
}

/// The line of one field of a record: the name padded on the right to `width`
/// columns, two spaces, and the value, shortened if need be. The value of a
/// field named `uri` is an identifier and is never shortened.
pub open spec fn record_line(field: FieldView, width: nat) -> Seq<char> {
    padded(field.name, width, false) + separator() + truncated(
        scalar_text(field.value),
        field.name == uri_name(),
        MAX_COLUMN_WIDTH as nat,
    ).0
}

/// A record shown field by field, in the order of the record, with the names
/// padded to the width of the widest.
pub open spec fn record_text(fields: Seq<FieldView>) -> Seq<char> {
    stacked(Seq::new(fields.len(), |i: int| record_line(fields[i], key_width(fields))))
}

/// What `format_array_to_table` makes of a list: nothing of an empty list; of
/// a list that holds something other than records, its items line by line; of
/// records without any field, nothing; and of other records, their table.
pub open spec fn array_text(items: Seq<DatumView>) -> Option<Seq<char>> {
    if items.len() == 0 {
        None
    } else if !all_records(items) {
        Some(list_text(items))
    } else if column_names(items).len() == 0 {
        None
    } else {
        Some(table_text(items))
    }
}

/// The text that is shown for a value, by its layout. A list of records none
/// of which has a field has no table, and is shown item by item.
pub open spec fn rendered(v: DatumView) -> Seq<char> {
    match plan_of(v) {
        RenderPlan::Scalar => scalar_text(v),
        RenderPlan::Empty => empty_notice(),
        RenderPlan::ScalarList => list_text(v->Sequence_0),
        RenderPlan::RecordList => match array_text(v->Sequence_0) {
            Some(text) => text,
            None => list_text(v->Sequence_0),
        },
        RenderPlan::SingleRecord => record_text(v->Record_0),
    }
}

/// Whether the cell of item `i` in the column `name` is padded: it is, unless
/// it is an identifier that overflows its column.
pub open spec fn is_padded(items: Seq<DatumView>, i: int, name: Seq<char>) -> bool {
    !truncated(
        cell_text(fields_of(items[i]), name),
        name == uri_name(),
        column_width(items, name),
    ).1
}

/// Every cell of a table fills its column exactly, in display columns, unless
/// it is an identifier that overflows the column and is left unpadded.
pub proof fn lemma_cell_fills_column(items: Seq<DatumView>, i: int, name: Seq<char>)
    requires
        0 <= i < items.len(),
        is_padded(items, i, name),
    ensures
        display_width(row_cell(items, fields_of(items[i]), name)) == column_width(items, name),
{
    let width = column_width(items, name);
    let text = cell_text(fields_of(items[i]), name);
    let uri = name == uri_name();
    lemma_column_width_covers(items, i, name);
    lemma_truncated_width(text, uri, width);
    lemma_padded_width(truncated(text, uri, width).0, width, column_numeric(items, name));
}

/// An identifier that is wider than its column stands in the table as it is:
/// not shortened, and without padding.
pub proof fn lemma_identifier_cell_verbatim(items: Seq<DatumView>, fields: Seq<FieldView>)
    requires
        display_width(cell_text(fields, uri_name())) > column_width(items, uri_name()),
    ensures
        row_cell(items, fields, uri_name()) == cell_text(fields, uri_name()),
{
}

/// Every cell of the header fills its column exactly.
pub proof fn lemma_header_cell_fills_column(items: Seq<DatumView>, name: Seq<char>)
    ensures
        display_width(padded(name, column_width(items, name), false)) == column_width(items, name),
{
    lemma_column_width_floor(items, name);
    lemma_padded_width(name, column_width(items, name), false);
}

/// In a record shown field by field, every name is padded to the same width:
/// that of the widest name.
pub proof fn lemma_record_keys_aligned(fields: Seq<FieldView>, i: int)
    requires
        0 <= i < fields.len(),
    ensures
        display_width(fields[i].name) <= key_width(fields),
        display_width(padded(fields[i].name, key_width(fields), false)) == key_width(fields),
    decreases fields.len(),
{
    let before = fields.drop_last();
    if i < before.len() {
        assert(before[i] == fields[i]);
        lemma_record_keys_aligned(before, i);
    }
    lemma_padded_width(fields[i].name, key_width(fields), false);
}

/// Two lines whose cells are as wide, one by one, are as wide.
pub proof fn lemma_joined_width(a: Seq<Seq<char>>, b: Seq<Seq<char>>)
    requires
        a.len() == b.len(),
        forall|j: int| 0 <= j < a.len() ==> display_width(#[trigger] a[j]) == display_width(b[j]),
    ensures
        display_width(joined(a)) == display_width(joined(b)),
    decreases a.len(),
{
    if a.len() > 1 {
        let n = a.len() - 1;
        assert forall|j: int| 0 <= j < n implies display_width(#[trigger] a.drop_last()[j])
            == display_width(b.drop_last()[j]) by {}
        lemma_joined_width(a.drop_last(), b.drop_last());
        lemma_width_concat(joined(a.drop_last()), separator());
        lemma_width_concat(joined(b.drop_last()), separator());
        lemma_width_concat(joined(a.drop_last()) + separator(), a.last());
        lemma_width_concat(joined(b.drop_last()) + separator(), b.last());
    }
}

/// A row in which no identifier overflows its column is exactly as wide as
/// the header: the lines of a table are aligned.
pub proof fn lemma_row_as_wide_as_header(items: Seq<DatumView>, i: int)
    requires
        0 <= i < items.len(),
        forall|j: int|
            0 <= j < column_names(items).len() ==> is_padded(
                items,
                i,
                #[trigger] column_names(items)[j],
            ),
    ensures
        display_width(row_line(items, fields_of(items[i]))) == display_width(header_line(items)),
{
    let names = column_names(items);
    let row = Seq::new(names.len(), |j: int| row_cell(items, fields_of(items[i]), names[j]));
    let header = Seq::new(
        names.len(),
        |j: int| padded(names[j], column_width(items, names[j]), false),
    );
    assert forall|j: int| 0 <= j < row.len() implies display_width(#[trigger] row[j])
        == display_width(header[j]) by {
        lemma_cell_fills_column(items, i, names[j]);
        lemma_header_cell_fills_column(items, names[j]);
    }
    lemma_joined_width(row, header);
}

/// Joins the cells of a line with two spaces.
pub fn join_cells(cells: &Vec<String>) -> (line: String)
    ensures
        line@ == joined(texts_of(cells@)),
{
    let ghost texts = texts_of(cells@);
    let mut line = String::new();
    let mut j: usize = 0;
    while j < cells.len()
        invariant
            j <= cells.len(),
            texts == texts_of(cells@),
            line@ == joined(texts.take(j as int)),
        decreases cells.len() - j,
    {
        proof {
            assert(texts.take(j + 1).drop_last() == texts.take(j as int));
            reveal_strlit("  ");
        }
        if j > 0 {
            line.append("  ");
        }
        line.append(cells[j].as_str());
        j = j + 1;
    }
    assert(texts.take(j as int) == texts);
    line
}

/// Adds one line, and the line feed that ends it, to a text.
fn push_line(out: &mut String, line: &str)
    ensures
        final(out)@ == old(out)@ + line@.push('\n'),
{
    out.append(line);
    out.push('\n');
}

/// Shows a list item by item.
pub fn format_list(items: &Vec<Datum>) -> (r: String)
    ensures
        r@ == list_text(views_of(items@)),
{
    let ghost views = views_of(items@);
    let ghost lines = Seq::new(views.len(), |i: int| list_line(views[i]));
    let mut output = String::new();
    let mut i: usize = 0;
    while i < items.len()
        invariant
            i <= items.len(),
            views == views_of(items@),
            lines == Seq::new(views.len(), |i: int| list_line(views[i])),
            output@ == stacked(lines.take(i as int)),
        decreases items.len() - i,
    {
        proof {
            assert(lines.take(i + 1).drop_last() == lines.take(i as int));
        }
        let formatted = format_value(&items[i]);
        let shown = truncate_string(formatted.as_str(), false, MAX_COLUMN_WIDTH);
        push_line(&mut output, shown.0.as_str());
        i = i + 1;
    }
    assert(lines.take(i as int) == lines);
    output
}

/// The width of the widest field name.
fn widest_key(fields: &Vec<(String, Datum)>) -> (w: usize)
    ensures
        w == key_width(field_views(fields@)),
{
    let ghost all = field_views(fields@);
    let mut w: usize = 0;
    let mut i: usize = 0;
    while i < fields.len()
        invariant
            i <= fields.len(),
            all == field_views(fields@),
            w == key_width(all.take(i as int)),
        decreases fields.len() - i,
    {
        proof {
            assert(all.take(i + 1).drop_last() == all.take(i as int));
        }
        let k = text_width(fields[i].0.as_str());
        if k > w {
            w = k;
        }
        i = i + 1;
    }
    assert(all.take(i as int) == all);
    w
}

/// Shows a record field by field.
pub fn format_record(fields: &Vec<(String, Datum)>) -> (r: String)
    ensures
        r@ == record_text(field_views(fields@)),
{
    let ghost all = field_views(fields@);
    let max_key_width = widest_key(fields);
    let ghost lines = Seq::new(all.len(), |i: int| record_line(all[i], max_key_width as nat));
    let uri = String::from_str("uri");
    proof {
        reveal_strlit("uri");
    }
    let mut output = String::new();
    let mut i: usize = 0;
    while i < fields.len()
        invariant
            i <= fields.len(),
            all == field_views(fields@),
            uri@ == uri_name(),
            lines == Seq::new(all.len(), |i: int| record_line(all[i], max_key_width as nat)),
            output@ == stacked(lines.take(i as int)),
        decreases fields.len() - i,
    {
        proof {
            assert(lines.take(i + 1).drop_last() == lines.take(i as int));
            reveal_strlit("  ");
        }
        let is_uri = fields[i].0 == uri;
        let formatted_value = format_value(&fields[i].1);
        let shown = truncate_string(formatted_value.as_str(), is_uri, MAX_COLUMN_WIDTH);
        let mut line = pad_cell(fields[i].0.as_str(), max_key_width, false);
        line.append("  ");
        line.append(shown.0.as_str());
        push_line(&mut output, line.as_str());
        i = i + 1;
    }
    assert(lines.take(i as int) == lines);
    output
}

/// The header line for these columns.
fn format_header(cols: &Vec<ColumnInfo>) -> (line: String)
    ensures
        line@ == joined(
            Seq::new(
                cols@.len(),
                |j: int| padded(cols@[j].name@, cols@[j].max_width as nat, false),
            ),
        ),
{
    let ghost cells = Seq::new(
        cols@.len(),
        |j: int| padded(cols@[j].name@, cols@[j].max_width as nat, false),
    );
    let mut header_cells: Vec<String> = Vec::new();
    let mut j: usize = 0;
    while j < cols.len()
        invariant
            j <= cols.len(),
            header_cells@.len() == j,
            forall|k: int| 0 <= k < j ==> (#[trigger] header_cells@[k])@ == cells[k],
            cells == Seq::new(
                cols@.len(),
                |j: int| padded(cols@[j].name@, cols@[j].max_width as nat, false),
            ),
        decreases cols.len() - j,
    {
        header_cells.push(pad_cell(cols[j].name.as_str(), cols[j].max_width, false));
        j = j + 1;
    }
    assert(texts_of(header_cells@) == cells);
    join_cells(&header_cells)
}

/// The line of one record in these columns.
fn format_row(cols: &Vec<ColumnInfo>, fields: &Vec<(String, Datum)>) -> (line: String)
    ensures
        line@ == joined(
            Seq::new(
                cols@.len(),
                |j: int|
                    laid_out(
                        cell_text(field_views(fields@), cols@[j].name@),
                        cols@[j].max_width as nat,
                        cols@[j].is_numeric,
                        cols@[j].is_uri_column,
                    ),
            ),
        ),
{
    let ghost cells = Seq::new(
        cols@.len(),
        |j: int|
            laid_out(
                cell_text(field_views(fields@), cols@[j].name@),
                cols@[j].max_width as nat,
                cols@[j].is_numeric,
                cols@[j].is_uri_column,
            ),
    );
    let mut row_cells: Vec<String> = Vec::new();
    let mut j: usize = 0;
    while j < cols.len()
        invariant
            j <= cols.len(),
            row_cells@.len() == j,
            forall|k: int| 0 <= k < j ==> (#[trigger] row_cells@[k])@ == cells[k],
            cells == Seq::new(
                cols@.len(),
                |j: int|
                    laid_out(
                        cell_text(field_views(fields@), cols@[j].name@),
                        cols@[j].max_width as nat,
                        cols@[j].is_numeric,
                        cols@[j].is_uri_column,
                    ),
            ),
        decreases cols.len() - j,
    {
        let info = &cols[j];
        let value = match find_field(fields, &info.name) {
            Some(v) => format_value(v),
            None => String::new(),
        };
        let shown = truncate_string(value.as_str(), info.is_uri_column, info.max_width);
        let cell = if shown.1 {
            shown.0
        } else {
            pad_cell(shown.0.as_str(), info.max_width, info.is_numeric)
        };
        row_cells.push(cell);
        j = j + 1;
    }
    assert(texts_of(row_cells@) == cells);
    join_cells(&row_cells)
}

/// Lays a list out for display. A list that holds something other than records
/// is shown item by item. A list of records becomes a table: a header, then
/// one line for each record. There is nothing to show for an empty list, and no
/// table for records without any field.
pub fn format_array_to_table(items: &Vec<Datum>) -> (r: Option<String>)
    ensures
        r is Some <==> array_text(views_of(items@)) is Some,
        r matches Some(text) ==> Some(text@) == array_text(views_of(items@)),
{
    let ghost views = views_of(items@);
    if items.len() == 0 {
        return None;
    }
    if !only_records(items) {
        return Some(format_list(items));
    }
    let cols = match analyze_columns(items) {
        Some(cols) => cols,
        None => {
            return None;
        },
    };
    let ghost names = column_names(views);
    let ghost rows = Seq::new(views.len(), |i: int| row_line(views, fields_of(views[i])));
    let header = format_header(&cols);
    proof {
        assert(Seq::new(
            cols@.len(),
            |j: int| padded(cols@[j].name@, cols@[j].max_width as nat, false),
        ) == Seq::new(names.len(), |j: int| padded(names[j], column_width(views, names[j]), false)));
    }
    let mut output = String::new();
    push_line(&mut output, header.as_str());
    let mut i: usize = 0;
    while i < items.len()
        invariant
            i <= items.len(),
            views == views_of(items@),
            all_records(views),
            names == column_names(views),
            rows == Seq::new(views.len(), |i: int| row_line(views, fields_of(views[i]))),
            cols@.len() == names.len(),
            forall|j: int| 0 <= j < cols@.len() ==> describes(#[trigger] cols@[j], views, names[j]),
            output@ == header_line(views).push('\n') + stacked(rows.take(i as int)),
        decreases items.len() - i,
    {
        proof {
            assert(rows.take(i + 1).drop_last() == rows.take(i as int));
        }
        match &items[i] {
            Datum::Record(fields) => {
                let line = format_row(&cols, fields);
                proof {
                    lemma_record_view(*fields);
                    let fv = field_views(fields@);
                    assert(Seq::new(
                        cols@.len(),
                        |j: int|
                            laid_out(
                                cell_text(fv, cols@[j].name@),
                                cols@[j].max_width as nat,
                                cols@[j].is_numeric,
                                cols@[j].is_uri_column,
                            ),
                    ) == Seq::new(names.len(), |j: int| row_cell(views, fv, names[j])));
                }
                push_line(&mut output, line.as_str());
            },
            _ => {},
        }
        i = i + 1;
    }
    assert(rows.take(i as int) == rows);
    Some(output)
}

/// The text that is shown for a value: a scalar as its text, an empty sequence
/// or record as a notice, a list of records as a table, any other list item by
/// item, and a record field by field.
pub fn render_table(v: &Datum) -> (r: String)
    ensures
        r@ == rendered(v@),
{
    match v {
        Datum::Sequence(items) => {
            proof {
                lemma_sequence_view(*items);
            }
            if items.len() == 0 {
                String::from_str("(empty)")
            } else {
                match format_array_to_table(items) {
                    Some(table) => table,
                    None => format_list(items),
                }
            }
        },
        Datum::Record(fields) => {
            proof {
                lemma_record_view(*fields);
            }
            if fields.len() == 0 {
                String::from_str("(empty)")
            } else {
                format_record(fields)
            }
        },
        _ => format_value(v),
    }
}

} // verus!
