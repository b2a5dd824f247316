//! Requests about sessions: where they go and what they carry.

use vstd::prelude::*;
use vstd::std_specs::iter::IteratorSpec;
use vstd::string::StringExecFns;

use crate::datum::{field_views, lemma_record_view, Datum, DatumView};
use crate::output::field;

verus! {

/// What stands for a character in a path: `/`, `:` and the space are escaped,
/// and every other character stands for itself.
pub open spec fn encoded_char(c: char) -> Seq<char> {
    if c == '/' {
        "%2F"@
    } else if c == ':' {
        "%3A"@
    } else if c == ' ' {
        "%20"@
    } else {
        seq![c]
    }
}

/// A text with each of its characters encoded for a path.
pub open spec fn url_encoded(s: Seq<char>) -> Seq<char>
    decreases s.len(),
{
    if s.len() == 0 {
        Seq::empty()
    } else {
        url_encoded(s.drop_last()) + encoded_char(s.last())
    }
}

/// The path of a session.
pub open spec fn session_path_of(id: Seq<char>) -> Seq<char> {
    "/api/v1/sessions/"@ + url_encoded(id)
}

/// What is shown after a session was deleted: the answer of the service, or,
/// where that is null or a record without fields, a record that names the
/// session.
pub open spec fn deletion_view(response: DatumView, id: Seq<char>) -> DatumView {
    if response is Null || (response matches DatumView::Record(fields) && fields.len() == 0) {
        DatumView::Record(seq![field("session_id"@, DatumView::String(id))])
    } else {
        response
    }
}

/// The body of a request that adds a message to a session.
pub open spec fn message_view(role: Seq<char>, content: Seq<char>) -> DatumView {
    DatumView::Record(
        seq![field("role"@, DatumView::String(role)), field("content"@, DatumView::String(content))],
    )
}

/// Encodes a session id for use in a path.
pub fn url_encode(s: &str) -> (r: String)
    ensures
        r@ == url_encoded(s@),
{
    broadcast use vstd::string::group_string_axioms;

    let mut out = String::new();
    let mut chars = s.chars();
    let ghost mut done: int = 0;
    loop
        invariant_except_break
            chars.obeys_prophetic_iter_laws(),
            0 <= done <= s@.len(),
            chars.remaining() == s@.skip(done),
            out@ == url_encoded(s@.take(done)),
        ensures
            out@ == url_encoded(s@),
        decreases s@.len() - done,
    {
        match chars.next() {
            Some(c) => {
                proof {
                    assert(s@.take(done + 1).drop_last() == s@.take(done));
                }
                if c == '/' {
                    out.append("%2F");
                } else if c == ':' {
                    out.append("%3A");
                } else if c == ' ' {
                    out.append("%20");
                } else {
                    out.push(c);
                }
                proof {
                    done = done + 1;
                }
            },
            None => {
                assert(s@.take(done) == s@);
                break;
            },
        }
    }
    out
}

/// The path of a session.
pub fn session_path(session_id: &str) -> (path: String)
    ensures
        path@ == session_path_of(session_id@),
{
    let mut path = String::from_str("/api/v1/sessions/");
    let id = url_encode(session_id);
    path.append(id.as_str());
    path
}

/// The path of the messages of a session.
pub fn messages_path(session_id: &str) -> (path: String)
    ensures
        path@ == session_path_of(session_id@) + "/messages"@,
{
    let mut path = session_path(session_id);
    path.append("/messages");
    path
}

/// The path that commits a session.
pub fn commit_path(session_id: &str) -> (path: String)
    ensures
        path@ == session_path_of(session_id@) + "/commit"@,
{
    let mut path = session_path(session_id);
    path.append("/commit");
    path
}

/// The body of a request that adds a message to a session.
pub fn message_body(role: &str, content: &str) -> (body: Datum)
    ensures
        body@ == message_view(role@, content@),
{
    let mut fields: Vec<(String, Datum)> = Vec::new();
    fields.push((String::from_str("role"), Datum::String(String::from_str(role))));
    fields.push((String::from_str("content"), Datum::String(String::from_str(content))));
    proof {
        lemma_record_view(fields);
        assert(field_views(fields@) == seq![
            field("role"@, DatumView::String(role@)),
            field("content"@, DatumView::String(content@)),
        ]);
    }
    Datum::Record(fields)
}

/// What to show after a session was deleted.
pub fn deletion_result(response: Datum, session_id: &str) -> (result: Datum)
    ensures
        result@ == deletion_view(response@, session_id@),
{
    let told_nothing = match &response {
        Datum::Null => true,
        Datum::Record(fields) => {
            proof {
                lemma_record_view(*fields);
            }
            fields.len() == 0
        },
        _ => false,
    };
    if told_nothing {
        let mut fields: Vec<(String, Datum)> = Vec::new();
        fields.push((String::from_str("session_id"), Datum::String(String::from_str(session_id))));
        proof {
            lemma_record_view(fields);
            assert(field_views(fields@) == seq![
                field("session_id"@, DatumView::String(session_id@)),
            ]);
        }
        Datum::Record(fields)
    } else {
        response
    }
}

} // verus!
