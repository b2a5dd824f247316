use ov_cli::datum::{Datum, Number};
use ov_cli::shape::{classify, RenderPlan};
use ov_cli::table::{format_array_to_table, format_list, format_record, join_cells, render_table};
use unicode_width::UnicodeWidthStr;

fn text(s: &str) -> Datum {
    Datum::String(s.to_string())
}

fn number(s: &str) -> Datum {
    Datum::Number(Number::parse(s).unwrap())
}

fn fields(fields: &[(&str, Datum)]) -> Vec<(String, Datum)> {
    fields.iter().map(|(k, v)| (k.to_string(), v.clone())).collect()
}

fn record(list: &[(&str, Datum)]) -> Datum {
    Datum::Record(fields(list))
}

#[test]
fn test_object_formatting_with_alignment() {
    // An object with keys of different lengths.
    let obj = record(&[
        ("id", text("123")),
        ("name", text("Test Resource")),
        ("uri", text("viking://resources/test")),
        ("type", text("document")),
    ]);
    assert_eq!(
        render_table(&obj),
        "id    123\nname  Test Resource\nuri   viking://resources/test\ntype  document\n"
    );
}

#[test]
fn test_object_with_long_uri() {
    // A long URI is not shortened.
    let uri = "viking://resources/very/long/path/that/exceeds/normal/width/limits/and/should/not/be/truncated/because/it/is/a/uri";
    let obj = record(&[("id", text("456")), ("uri", text(uri))]);
    assert_eq!(render_table(&obj), format!("id   456\nuri  {}\n", uri));
}

#[test]
fn test_empty_object() {
    let obj = record(&[]);
    assert_eq!(render_table(&obj), "(empty)");
}

#[test]
fn classify_knows_each_shape() {
    assert_eq!(classify(&Datum::Null), RenderPlan::Scalar);
    assert_eq!(classify(&Datum::Bool(false)), RenderPlan::Scalar);
    assert_eq!(classify(&number("1")), RenderPlan::Scalar);
    assert_eq!(classify(&text("")), RenderPlan::Scalar);
    assert_eq!(classify(&Datum::Sequence(vec![])), RenderPlan::Empty);
    assert_eq!(classify(&record(&[])), RenderPlan::Empty);
    assert_eq!(classify(&record(&[("a", Datum::Null)])), RenderPlan::SingleRecord);
    assert_eq!(
        classify(&Datum::Sequence(vec![record(&[]), record(&[("a", Datum::Null)])])),
        RenderPlan::RecordList
    );
    assert_eq!(classify(&Datum::Sequence(vec![Datum::Null])), RenderPlan::ScalarList);
    assert_eq!(
        classify(&Datum::Sequence(vec![record(&[]), Datum::Sequence(vec![])])),
        RenderPlan::ScalarList
    );
}

#[test]
fn two_records_make_a_table() {
    let list = Datum::Sequence(vec![
        record(&[("id", text("1")), ("name", text("Alpha"))]),
        record(&[("id", text("2")), ("name", text("Beta"))]),
    ]);
    let out = render_table(&list);
    let lines: Vec<&str> = out.lines().collect();
    assert_eq!(lines.len(), 3);
    // The columns are 2 and 5 wide.
    assert_eq!(lines[0], "id  name ");
    assert_eq!(lines[0].trim_end(), "id  name");
    // Every `id` parses as a number, so the column is numeric and its cells
    // stand on the right.
    assert_eq!(lines[1], " 1  Alpha");
    assert_eq!(lines[2], " 2  Beta ");
    assert_eq!(out, "id  name \n 1  Alpha\n 2  Beta \n");
}

#[test]
fn two_records_with_text_ids_make_a_left_aligned_table() {
    let list = Datum::Sequence(vec![
        record(&[("id", text("a")), ("name", text("Alpha"))]),
        record(&[("id", text("b")), ("name", text("Beta"))]),
    ]);
    assert_eq!(render_table(&list), "id  name \na   Alpha\nb   Beta \n");
}

#[test]
fn an_empty_list_is_a_notice() {
    assert_eq!(render_table(&Datum::Sequence(vec![])), "(empty)");
}

#[test]
fn a_single_record_is_shown_field_by_field() {
    let obj = record(&[("id", text("123")), ("uri", text("viking://x"))]);
    let out = render_table(&obj);
    let lines: Vec<&str> = out.lines().collect();
    assert_eq!(lines, vec!["id   123", "uri  viking://x"]);
}

#[test]
fn a_wide_uri_in_a_record_is_printed_whole() {
    let uri = "u".repeat(200);
    let obj = record(&[("uri", text(&uri))]);
    assert_eq!(render_table(&obj), format!("uri  {}\n", uri));
}

#[test]
fn a_wide_uri_in_a_table_is_printed_whole_and_unpadded() {
    let uri = "u".repeat(200);
    let list = Datum::Sequence(vec![
        record(&[("uri", text(&uri)), ("n", text("1"))]),
        record(&[("uri", text("short")), ("n", text("22"))]),
    ]);
    let out = render_table(&list);
    let lines: Vec<&str> = out.lines().collect();
    // The column is capped at 120; the long cell is printed whole and unpadded.
    assert_eq!(lines[0], format!("{}  {}", pad("uri", 120), "n "));
    assert_eq!(lines[1], format!("{}  {}", uri, " 1"));
    assert_eq!(lines[2], format!("{}  {}", pad("short", 120), "22"));
    assert_eq!(lines[0].width(), lines[2].width());
    assert_eq!(lines[1].width(), 200 + 2 + 2);
}

fn pad(s: &str, width: usize) -> String {
    format!("{:<width$}", s, width = width)
}

#[test]
fn a_string_is_printed_verbatim() {
    assert_eq!(render_table(&text("hello")), "hello");
}

#[test]
fn scalars_are_shown_as_their_text() {
    assert_eq!(render_table(&Datum::Null), "null");
    assert_eq!(render_table(&Datum::Bool(true)), "true");
    assert_eq!(render_table(&number("-12.5")), "-12.5");
    // A scalar is never shortened.
    let long = "x".repeat(500);
    assert_eq!(render_table(&text(&long)), long);
}

#[test]
fn a_list_of_scalars_has_one_line_for_each_item() {
    let list = Datum::Sequence(vec![text("one"), number("2"), Datum::Bool(false), Datum::Null]);
    assert_eq!(render_table(&list), "one\n2\nfalse\nnull\n");
}

#[test]
fn a_list_with_anything_but_records_is_shown_item_by_item() {
    let list = Datum::Sequence(vec![
        text("x"),
        Datum::Sequence(vec![number("1"), Datum::Null]),
        record(&[("k", text("v \"q\""))]),
    ]);
    assert_eq!(render_table(&list), "x\n[1,null]\n{\"k\":\"v \\\"q\\\"\"}\n");
}

#[test]
fn list_items_are_shortened_but_never_treated_as_identifiers() {
    let long = "viking://".to_string() + &"p".repeat(200);
    let list = Datum::Sequence(vec![text(&long), text("uri")]);
    let expected = format!("{}...\nuri\n", &long[..117]);
    assert_eq!(render_table(&list), expected);
    assert_eq!(format_list(&vec![text(&long), text("uri")]), expected);
}

#[test]
fn records_without_fields_are_shown_as_their_json() {
    let list = Datum::Sequence(vec![record(&[]), record(&[])]);
    assert_eq!(format_array_to_table(&vec![record(&[]), record(&[])]), None);
    assert_eq!(render_table(&list), "{}\n{}\n");
}

#[test]
fn format_array_to_table_has_nothing_for_an_empty_list() {
    assert_eq!(format_array_to_table(&vec![]), None);
}

#[test]
fn a_missing_field_is_an_empty_cell() {
    let list = Datum::Sequence(vec![
        record(&[("a", text("x")), ("b", text("yy"))]),
        record(&[("b", text("z")), ("c", text("w"))]),
    ]);
    assert_eq!(render_table(&list), "a  b   c\nx  yy   \n   z   w\n");
}

#[test]
fn numeric_columns_are_right_aligned() {
    let list = Datum::Sequence(vec![
        record(&[("name", text("a")), ("count", number("5")), ("score", text("1.5"))]),
        record(&[("name", text("bb")), ("count", number("1234")), ("score", text("10"))]),
    ]);
    assert_eq!(
        render_table(&list),
        "name  count  score\na         5    1.5\nbb     1234     10\n"
    );
}

#[test]
fn one_text_makes_the_whole_column_left_aligned() {
    let list = Datum::Sequence(vec![
        record(&[("v", text("1"))]),
        record(&[("v", text("n/a"))]),
        record(&[("v", text("22"))]),
    ]);
    assert_eq!(render_table(&list), "v  \n1  \nn/a\n22 \n");
}

#[test]
fn long_cells_are_shortened_to_the_cap() {
    let long = "z".repeat(150);
    let list = Datum::Sequence(vec![
        record(&[("note", text(&long)), ("k", text("a"))]),
        record(&[("note", text("short")), ("k", text("b"))]),
    ]);
    let out = render_table(&list);
    let lines: Vec<&str> = out.lines().collect();
    assert_eq!(lines[0], format!("{}  k", pad("note", 120)));
    assert_eq!(lines[1], format!("{}...  a", "z".repeat(117)));
    assert_eq!(lines[2], format!("{}  b", pad("short", 120)));
    for line in &lines {
        assert_eq!(line.width(), 123);
    }
}

#[test]
fn every_line_of_a_table_is_as_wide_as_the_header() {
    let list = Datum::Sequence(vec![
        record(&[("id", number("1")), ("title", text("\u{4f60}\u{597d}")), ("tag", text("a"))]),
        record(&[("id", number("20")), ("title", text("caf\u{e9}")), ("uri", text("viking://y"))]),
        record(&[("title", text(&"w".repeat(300))), ("tag", Datum::Null)]),
        record(&[]),
    ]);
    let out = render_table(&list);
    let lines: Vec<&str> = out.lines().collect();
    assert_eq!(lines.len(), 5);
    for line in &lines {
        assert_eq!(line.width(), lines[0].width());
    }
    // id: 2, title: 120, tag: 4, uri: 10, and three separators.
    assert_eq!(lines[0].width(), 2 + 120 + 4 + 10 + 3 * 2);
}

#[test]
fn a_record_pads_its_keys_to_the_widest() {
    let out = format_record(&fields(&[
        ("a", number("1")),
        ("\u{540d}\u{524d}", text("x")),
        ("long_key", Datum::Sequence(vec![number("1"), number("2")])),
    ]));
    assert_eq!(out, "a         1\n\u{540d}\u{524d}      x\nlong_key  [1,2]\n");
}

#[test]
fn a_record_pads_to_its_widest_key_however_wide() {
    let wide = "k".repeat(130);
    let out = format_record(&fields(&[(wide.as_str(), text("x")), ("b", text("y"))]));
    assert_eq!(out, format!("{}  x
b{}  y
", wide, " ".repeat(129)));
}

#[test]
fn a_record_shortens_its_values_but_not_its_uri() {
    let long = "v".repeat(130);
    let out = render_table(&record(&[("note", text(&long)), ("uri", text(&long))]));
    assert_eq!(out, format!("note  {}...\nuri   {}\n", "v".repeat(117), long));
}

#[test]
fn join_cells_puts_two_spaces_between_cells() {
    assert_eq!(join_cells(&vec![]), "");
    assert_eq!(join_cells(&vec!["a".to_string()]), "a");
    assert_eq!(join_cells(&vec!["a".to_string(), "".to_string(), "c".to_string()]), "a    c");
}

#[test]
fn rendering_twice_gives_the_same_text() {
    let list = Datum::Sequence(vec![
        record(&[("id", number("1")), ("uri", text("viking://a"))]),
        record(&[("id", number("2")), ("extra", Datum::Sequence(vec![Datum::Null]))]),
    ]);
    assert_eq!(render_table(&list), render_table(&list));
    assert_eq!(render_table(&list), render_table(&list.clone()));
}
