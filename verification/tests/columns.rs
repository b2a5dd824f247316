use ov_cli::columns::{analyze_columns, find_field, ColumnInfo};
use ov_cli::datum::{Datum, Number};

fn text(s: &str) -> Datum {
    Datum::String(s.to_string())
}

fn number(s: &str) -> Datum {
    Datum::Number(Number::parse(s).unwrap())
}

fn record(fields: &[(&str, Datum)]) -> Datum {
    Datum::Record(fields.iter().map(|(k, v)| (k.to_string(), v.clone())).collect())
}

fn names(cols: &[ColumnInfo]) -> Vec<&str> {
    cols.iter().map(|c| c.name.as_str()).collect()
}

#[test]
fn columns_stand_in_first_seen_order() {
    let items = vec![
        record(&[("b", text("1")), ("a", text("2"))]),
        record(&[("c", text("3")), ("a", text("4")), ("b", text("5"))]),
        record(&[("d", text("6"))]),
    ];
    let cols = analyze_columns(&items).unwrap();
    assert_eq!(names(&cols), vec!["b", "a", "c", "d"]);
}

#[test]
fn column_order_ignores_rearrangements_that_keep_first_occurrences() {
    let first = vec![
        record(&[("id", text("1")), ("name", text("x"))]),
        record(&[("name", text("y")), ("id", text("2")), ("uri", text("u"))]),
        record(&[("uri", text("v")), ("id", text("3"))]),
    ];
    // The second and third record change places, and the fields of the second
    // are rearranged: `id`, `name` and `uri` are still first seen in this order.
    let second = vec![
        record(&[("id", text("1")), ("name", text("x"))]),
        record(&[("id", text("3")), ("uri", text("v"))]),
        record(&[("uri", text("u")), ("id", text("2")), ("name", text("y"))]),
    ];
    let a = analyze_columns(&first).unwrap();
    let b = analyze_columns(&second).unwrap();
    assert_eq!(names(&a), vec!["id", "name", "uri"]);
    assert_eq!(names(&a), names(&b));
}

#[test]
fn column_order_follows_the_first_record_that_names_a_field() {
    let items = vec![
        record(&[("name", text("x"))]),
        record(&[("id", text("1")), ("name", text("y"))]),
    ];
    let cols = analyze_columns(&items).unwrap();
    assert_eq!(names(&cols), vec!["name", "id"]);
}

#[test]
fn a_column_is_as_wide_as_its_widest_cell_or_its_name() {
    let items = vec![
        record(&[("id", text("1")), ("name", text("Alpha"))]),
        record(&[("id", text("2")), ("name", text("Beta"))]),
    ];
    let cols = analyze_columns(&items).unwrap();
    assert_eq!(cols[0].max_width, 2);
    assert_eq!(cols[1].max_width, 5);
}

#[test]
fn a_column_width_is_capped_but_the_name_is_a_floor() {
    let long_name = "n".repeat(130);
    let items = vec![record(&[
        ("wide", text(&"w".repeat(300))),
        (long_name.as_str(), text("x")),
        ("cjk", text("\u{4f60}\u{597d}\u{5417}")),
    ])];
    let cols = analyze_columns(&items).unwrap();
    assert_eq!(cols[0].max_width, 120);
    assert_eq!(cols[1].max_width, 130);
    assert_eq!(cols[2].max_width, 6);
}

#[test]
fn a_column_is_numeric_when_every_present_value_is() {
    let items = vec![
        record(&[("n", number("1")), ("s", text("2.5")), ("m", text("7")), ("t", text("x"))]),
        record(&[("n", number("-3e2")), ("s", text("inf")), ("t", text("1"))]),
        record(&[("m", text("abc"))]),
    ];
    let cols = analyze_columns(&items).unwrap();
    assert_eq!(names(&cols), vec!["n", "s", "m", "t"]);
    // Numbers only; the third record does not have the field.
    assert!(cols[0].is_numeric);
    // Strings that parse as numbers.
    assert!(cols[1].is_numeric);
    // One value that does not parse.
    assert!(!cols[2].is_numeric);
    assert!(!cols[3].is_numeric);
}

#[test]
fn booleans_and_null_are_not_numeric() {
    let items = vec![
        record(&[("b", Datum::Bool(true)), ("z", Datum::Null), ("l", Datum::Sequence(vec![]))]),
    ];
    let cols = analyze_columns(&items).unwrap();
    assert!(!cols[0].is_numeric);
    assert!(!cols[1].is_numeric);
    assert!(!cols[2].is_numeric);
}

#[test]
fn only_the_column_named_uri_holds_identifiers() {
    let items = vec![record(&[("uri", text("a")), ("URI", text("b")), ("url", text("c"))])];
    let cols = analyze_columns(&items).unwrap();
    assert!(cols[0].is_uri_column);
    assert!(!cols[1].is_uri_column);
    assert!(!cols[2].is_uri_column);
}

#[test]
fn the_whole_description_of_a_column() {
    let items = vec![record(&[("uri", text("viking://x"))])];
    assert_eq!(
        analyze_columns(&items),
        Some(vec![ColumnInfo {
            name: "uri".to_string(),
            max_width: 10,
            is_numeric: false,
            is_uri_column: true,
        }])
    );
}

#[test]
fn records_without_fields_have_no_columns() {
    assert_eq!(analyze_columns(&vec![record(&[]), record(&[])]), None);
    assert_eq!(analyze_columns(&vec![]), None);
}

#[test]
fn items_that_are_no_records_add_no_columns() {
    let items = vec![text("x"), record(&[("a", text("1"))]), Datum::Null];
    let cols = analyze_columns(&items).unwrap();
    assert_eq!(names(&cols), vec!["a"]);
}

#[test]
fn find_field_reads_the_first_field_of_a_name() {
    let fields = vec![
        ("a".to_string(), text("first")),
        ("b".to_string(), text("other")),
        ("a".to_string(), text("second")),
    ];
    assert_eq!(find_field(&fields, &"a".to_string()), Some(&text("first")));
    assert_eq!(find_field(&fields, &"b".to_string()), Some(&text("other")));
    assert_eq!(find_field(&fields, &"c".to_string()), None);
}
