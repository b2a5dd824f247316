//! Compact JSON text of a value, as `serde_json` writes it.

use vstd::prelude::*;

use crate::datum::{Datum, DatumView};

verus! {

/// Declares `serde_json::Value` as a type whose inside is not looked at.
#[verifier::external_type_specification]
#[verifier::external_body]
pub struct ExJson(serde_json::Value);

/// The compact JSON text that `serde_json` writes for a value: no white space
/// between tokens, the fields of a record in their order. Nothing more is
/// known of it here.
pub uninterp spec fn json_text(v: DatumView) -> Seq<char>;

/// Rebuilds a value as a `serde_json::Value`, variant by variant. A number goes
/// through `serde_json`'s own reader, and becomes `null` where that reader
/// refuses its text.
#[verifier::external_body]
fn to_json(v: &Datum) -> serde_json::Value {
    match v {
        Datum::Null => serde_json::Value::Null,
        Datum::Bool(b) => serde_json::Value::Bool(*b),
        Datum::Number(n) => n.as_str().parse().unwrap_or(serde_json::Value::Null),
        Datum::String(s) => serde_json::Value::String(s.clone()),
        Datum::Sequence(items) => serde_json::Value::Array(items.iter().map(to_json).collect()),
        Datum::Record(fields) => serde_json::Value::Object(
            fields.iter().map(|(k, v)| (k.clone(), to_json(v))).collect(),
        ),
    }
}

/// Calls `to_string` of `serde_json::Value` (its `Display`), which writes the
/// value as compact JSON. The contract only gives that text its name.
#[verifier::external_body]
pub(crate) fn compact_text(v: &Datum) -> (s: String)
    ensures
        s@ == json_text(v@),
{
    to_json(v).to_string()
}

} // verus!
