//! What is written for a result or a failure, for a reader or for a program.

use vstd::prelude::*;
use vstd::string::StringExecFns;

use crate::datum::{field_views, lemma_record_view, Datum, DatumView, FieldView};
use crate::json::{compact_text, json_text};
use crate::table::{render_table, rendered};
use crate::text::same_text;

verus! {

/// For whom the output is written.
#[derive(Clone, Copy, Debug, PartialEq, Eq, Structural)]
pub enum OutputFormat {
    /// Aligned text for a reader.
    Table,
    /// JSON for a program.
    Json,
}

/// The format that a name selects: `json` selects JSON, and every other name
/// the table.
pub open spec fn format_named(name: Seq<char>) -> OutputFormat {
    if name == "json"@ {
        OutputFormat::Json
    } else {
        OutputFormat::Table
    }
}

impl From<&str> for OutputFormat {
    fn from(s: &str) -> (r: OutputFormat) {
        if same_text(s, "json") {
            OutputFormat::Json
        } else {
            OutputFormat::Table
        }
    }
}

impl vstd::std_specs::convert::FromSpecImpl<&str> for OutputFormat {
    open spec fn obeys_from_spec() -> bool {
        true
    }

    open spec fn from_spec(s: &str) -> OutputFormat {
        format_named(s@)
    }
}

/// Whether the output is JSON: when the format says so, or when JSON was asked
/// for on its own.
pub open spec fn wants_json(format: OutputFormat, json_output: bool) -> bool {
    json_output || format == OutputFormat::Json
}

/// A field of a record in the model.
pub open spec fn field(name: Seq<char>, value: DatumView) -> FieldView {
    FieldView { name, value }
}

/// The envelope of a result: `{"ok": true, "result": ...}`.
pub open spec fn success_envelope(result: DatumView) -> DatumView {
    DatumView::Record(seq![field("ok"@, DatumView::Bool(true)), field("result"@, result)])
}

/// The envelope of a failure:
/// `{"ok": false, "error": {"code": ..., "message": ...}}`.
pub open spec fn failure_envelope(code: Seq<char>, message: Seq<char>) -> DatumView {
    DatumView::Record(
        seq![
            field("ok"@, DatumView::Bool(false)),
            field(
                "error"@,
                DatumView::Record(
                    seq![
                        field("code"@, DatumView::String(code)),
                        field("message"@, DatumView::String(message)),
                    ],
                ),
            ),
        ],
    )
}

/// The line that tells a reader of a failure: `ERROR[code]: message`.
pub open spec fn failure_line(code: Seq<char>, message: Seq<char>) -> Seq<char> {
    "ERROR["@ + code + "]: "@ + message
}

/// The text of a result: for a program the compact JSON of its envelope, for a
/// reader its layout.
pub open spec fn success_text(result: DatumView, format: OutputFormat, json_output: bool) -> Seq<
    char,
> {
    if wants_json(format, json_output) {
        json_text(success_envelope(result))
    } else {
        rendered(result)
    }
}

/// The text of a failure: for a program the compact JSON of its envelope, for a
/// reader one line.
pub open spec fn failure_text(
    code: Seq<char>,
    message: Seq<char>,
    format: OutputFormat,
    json_output: bool,
) -> Seq<char> {
    if wants_json(format, json_output) {
        json_text(failure_envelope(code, message))
    } else {
        failure_line(code, message)
    }
}

/// Writing the same result twice in the same mode gives the same text: what
/// is written depends on the value and the mode alone.
pub proof fn lemma_same_result_same_text(
    first: Seq<char>,
    second: Seq<char>,
    result: DatumView,
    format: OutputFormat,
    json_output: bool,
)
    requires
        first == success_text(result, format, json_output),
        second == success_text(result, format, json_output),
    ensures
        first == second,
{
}

/// A record of two fields.
fn pair(first: &str, a: Datum, second: &str, b: Datum) -> (r: Datum)
    ensures
        r@ == DatumView::Record(seq![field(first@, a@), field(second@, b@)]),
{
    let mut fields: Vec<(String, Datum)> = Vec::new();
    fields.push((String::from_str(first), a));
    fields.push((String::from_str(second), b));
    proof {
        lemma_record_view(fields);
        assert(field_views(fields@) == seq![field(first@, a@), field(second@, b@)]);
    }
    Datum::Record(fields)
}

/// The text to write for a result.
pub fn render_success(result: &Datum, format: OutputFormat, json_output: bool) -> (out: String)
    ensures
        out@ == success_text(result@, format, json_output),
{
    if json_output || format == OutputFormat::Json {
        let envelope = pair("ok", Datum::Bool(true), "result", result.clone());
        compact_text(&envelope)
    } else {
        render_table(result)
    }
}

/// The text to write for a failure.
pub fn render_failure(code: &str, message: &str, format: OutputFormat, json_output: bool) -> (out:
    String)
    ensures
        out@ == failure_text(code@, message@, format, json_output),
{
    if json_output || format == OutputFormat::Json {
        let error = pair(
            "code",
            Datum::String(String::from_str(code)),
            "message",
            Datum::String(String::from_str(message)),
        );
        let envelope = pair("ok", Datum::Bool(false), "error", error);
        compact_text(&envelope)
    } else {
        let mut out = String::from_str("ERROR[");
        out.append(code);
        out.append("]: ");
        out.append(message);
        out
    }
}

} // verus!
