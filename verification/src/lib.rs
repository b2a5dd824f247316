//! Shows a semi-structured value as aligned text: a list of records as a
//! table, a record field by field, a list item by item, and a scalar as it is.
//! Widths are display columns, so that wide characters line up.
//!
//! - `datum`: the value and its model.
//! - `shape`: which layout a value calls for.
//! - `columns`: the columns of a table, their widths and alignment.
//! - `cell`: the text of a cell, shortened and padded.
//! - `table`: lines and the text that is shown.
//! - `output`: what is written for a result or a failure, as text or as JSON.
//! - `session`: the paths and bodies of requests about sessions.
//! - `number`, `width`, `json`, `text`: number literals, display width, JSON
//!   text and string helpers.

pub mod cell;
pub mod columns;
pub mod datum;
pub mod json;
pub mod number;
pub mod output;
pub mod session;
pub mod shape;
pub mod table;
pub mod text;
pub mod width;
