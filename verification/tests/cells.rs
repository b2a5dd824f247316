use ov_cli::cell::{format_value, is_numeric_value, pad_cell, truncate_string};
use ov_cli::datum::{Datum, Number};
use unicode_width::UnicodeWidthStr;

fn number(text: &str) -> Datum {
    Datum::Number(Number::parse(text).unwrap())
}

#[test]
fn pad_cell_pads_on_the_right_by_default() {
    assert_eq!(pad_cell("id", 5, false), "id   ");
}

#[test]
fn pad_cell_pads_on_the_left_when_right_aligned() {
    assert_eq!(pad_cell("42", 5, true), "   42");
}

#[test]
fn pad_cell_leaves_content_that_fills_the_column() {
    assert_eq!(pad_cell("abcde", 5, false), "abcde");
    assert_eq!(pad_cell("abcde", 5, true), "abcde");
}

#[test]
fn pad_cell_leaves_content_that_overflows() {
    assert_eq!(pad_cell("abcdefgh", 5, false), "abcdefgh");
    assert_eq!(pad_cell("abc", 0, true), "abc");
}

#[test]
fn pad_cell_pads_the_empty_text() {
    assert_eq!(pad_cell("", 3, false), "   ");
    assert_eq!(pad_cell("", 0, false), "");
}

#[test]
fn pad_cell_counts_wide_characters_as_two_columns() {
    // Two wide characters take four columns: two spaces fill a column of six.
    assert_eq!(pad_cell("\u{4f60}\u{597d}", 6, false), "\u{4f60}\u{597d}  ");
    assert_eq!(pad_cell("\u{4f60}\u{597d}", 6, true), "  \u{4f60}\u{597d}");
    assert_eq!(pad_cell("\u{4f60}\u{597d}", 4, false), "\u{4f60}\u{597d}");
}

#[test]
fn pad_cell_counts_combining_and_control_characters_as_nothing() {
    // "e" with a combining acute accent is one column wide.
    assert_eq!(pad_cell("e\u{301}", 3, false), "e\u{301}  ");
    // A tabulator has no width.
    assert_eq!(pad_cell("a\tb", 4, true), "  a\tb");
}

#[test]
fn padded_cells_fill_their_column_exactly() {
    for content in ["", "a", "id", "\u{4f60}", "e\u{301}x", "a\tb", "hello world"] {
        for width in [0usize, 1, 2, 5, 11, 40] {
            for align_right in [false, true] {
                let cell = pad_cell(content, width, align_right);
                let expected = if content.width() > width { content.width() } else { width };
                assert_eq!(cell.width(), expected);
            }
        }
    }
}

#[test]
fn truncate_string_keeps_a_short_text() {
    assert_eq!(truncate_string("hello", false, 120), ("hello".to_string(), false));
    assert_eq!(truncate_string("hello", true, 120), ("hello".to_string(), false));
    assert_eq!(truncate_string("", false, 0), (String::new(), false));
}

#[test]
fn truncate_string_keeps_a_text_of_exactly_the_limit() {
    let text = "a".repeat(120);
    assert_eq!(truncate_string(&text, false, 120), (text.clone(), false));
    assert_eq!(truncate_string(&text, true, 120), (text.clone(), false));
}

#[test]
fn truncate_string_ignores_the_column_width_outside_identifier_columns() {
    assert_eq!(truncate_string("hello", false, 3), ("hello".to_string(), false));
}

#[test]
fn truncate_string_shortens_a_long_text_to_the_limit() {
    let text = "a".repeat(121);
    let (shown, skip) = truncate_string(&text, false, 120);
    assert_eq!(shown, format!("{}...", "a".repeat(117)));
    assert_eq!(shown.width(), 120);
    assert!(!skip);
}

#[test]
fn truncate_string_never_splits_a_wide_character() {
    // Seventy wide characters are 140 columns. Fifty-eight of them are 116
    // columns; one more would be 118, beyond the 117 that leave room for the
    // ellipsis.
    let text = "\u{4f60}".repeat(70);
    let (shown, skip) = truncate_string(&text, false, 120);
    assert_eq!(shown, format!("{}...", "\u{4f60}".repeat(58)));
    assert_eq!(shown.width(), 119);
    assert!(!skip);
}

#[test]
fn truncate_string_stops_at_the_first_character_that_does_not_fit() {
    // 116 narrow columns, then a wide character that does not fit, then more.
    let text = format!("{}\u{4f60}{}", "a".repeat(116), "b".repeat(10));
    let (shown, skip) = truncate_string(&text, false, 120);
    assert_eq!(shown, format!("{}...", "a".repeat(116)));
    assert!(!skip);
}

#[test]
fn truncate_string_keeps_characters_without_width() {
    // 117 letters, each followed by a combining accent, then more letters.
    let text = format!("{}{}", "e\u{301}".repeat(117), "x".repeat(10));
    let (shown, skip) = truncate_string(&text, false, 120);
    assert_eq!(shown, format!("{}...", "e\u{301}".repeat(117)));
    assert_eq!(shown.width(), 120);
    assert!(!skip);
}

#[test]
fn truncate_string_never_shortens_an_identifier() {
    let uri = format!("viking://{}", "x".repeat(191));
    assert_eq!(uri.width(), 200);
    assert_eq!(truncate_string(&uri, true, 120), (uri.clone(), true));
    assert_eq!(truncate_string("viking://x", true, 3), ("viking://x".to_string(), true));
}

#[test]
fn truncate_string_shortens_an_identifier_that_fits_its_column() {
    // The column is wider than the text, so it is no overflow: the usual limit
    // applies.
    let uri = "u".repeat(130);
    let (shown, skip) = truncate_string(&uri, true, 130);
    assert_eq!(shown, format!("{}...", "u".repeat(117)));
    assert!(!skip);
}

#[test]
fn truncated_texts_are_never_wider_than_the_limit() {
    let texts = [
        "a".repeat(200),
        "\u{4f60}".repeat(100),
        format!("{}{}", "a".repeat(117), "\u{4f60}".repeat(5)),
        format!("{}{}", "\t".repeat(50), "z".repeat(300)),
        "e\u{301}".repeat(150),
    ];
    for text in texts {
        let (shown, skip) = truncate_string(&text, false, 120);
        assert!(!skip);
        assert!(shown.width() <= 120);
        assert!(shown.ends_with("..."));
        assert!(text.starts_with(&shown[..shown.len() - 3]));
    }
}

#[test]
fn format_value_shows_a_string_as_it_is() {
    assert_eq!(format_value(&Datum::String("say \"hi\"\n".to_string())), "say \"hi\"\n");
    assert_eq!(format_value(&Datum::String(String::new())), "");
}

#[test]
fn format_value_shows_numbers_booleans_and_null() {
    assert_eq!(format_value(&number("42")), "42");
    assert_eq!(format_value(&number("-1.5e3")), "-1.5e3");
    assert_eq!(format_value(&Datum::Bool(true)), "true");
    assert_eq!(format_value(&Datum::Bool(false)), "false");
    assert_eq!(format_value(&Datum::Null), "null");
}

#[test]
fn format_value_shows_a_sequence_as_compact_json() {
    let v = Datum::Sequence(vec![
        number("1"),
        Datum::String("two".to_string()),
        Datum::Null,
        Datum::Bool(false),
    ]);
    assert_eq!(format_value(&v), "[1,\"two\",null,false]");
    assert_eq!(format_value(&Datum::Sequence(vec![])), "[]");
}

#[test]
fn format_value_shows_a_record_as_compact_json_in_field_order() {
    let v = Datum::Record(vec![
        ("zeta".to_string(), number("1.5")),
        ("alpha".to_string(), Datum::Sequence(vec![Datum::Bool(true)])),
        ("quote\"d".to_string(), Datum::String("line\nbreak".to_string())),
    ]);
    assert_eq!(
        format_value(&v),
        "{\"zeta\":1.5,\"alpha\":[true],\"quote\\\"d\":\"line\\nbreak\"}"
    );
    assert_eq!(format_value(&Datum::Record(vec![])), "{}");
}

#[test]
fn is_numeric_value_accepts_numbers_and_numeric_strings() {
    assert!(is_numeric_value(&number("0")));
    assert!(is_numeric_value(&number("-12.5e-3")));
    assert!(is_numeric_value(&Datum::String("42".to_string())));
    assert!(is_numeric_value(&Datum::String("-0.5".to_string())));
    assert!(is_numeric_value(&Datum::String("1e9".to_string())));
    assert!(is_numeric_value(&Datum::String("inf".to_string())));
    assert!(is_numeric_value(&Datum::String("NaN".to_string())));
}

#[test]
fn is_numeric_value_refuses_everything_else() {
    assert!(!is_numeric_value(&Datum::String("abc".to_string())));
    assert!(!is_numeric_value(&Datum::String("".to_string())));
    assert!(!is_numeric_value(&Datum::String(" 1".to_string())));
    assert!(!is_numeric_value(&Datum::String("1 ".to_string())));
    assert!(!is_numeric_value(&Datum::String("12px".to_string())));
    assert!(!is_numeric_value(&Datum::Bool(true)));
    assert!(!is_numeric_value(&Datum::Null));
    assert!(!is_numeric_value(&Datum::Sequence(vec![number("1")])));
    assert!(!is_numeric_value(&Datum::Record(vec![])));
}
