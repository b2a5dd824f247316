//! The semi-structured value that the renderer takes, and its mathematical
//! model.

use vstd::prelude::*;
use vstd::string::StringExecFns;

use crate::number::{is_json_number, is_json_number_text};

verus! {

/// A number, held as the decimal text of its JSON literal. Every `Number` holds
/// a text that is such a literal.
#[derive(Debug, PartialEq, Eq)]
pub struct Number {
    text: String,
}

impl View for Number {
    type V = Seq<char>;

    closed spec fn view(&self) -> Seq<char> {
        self.text@
    }
}

impl Number {
    #[verifier::type_invariant]
    spec fn well_formed(&self) -> bool {
        is_json_number(self.text@)
    }

    /// Reads a number from its literal: `Some` exactly when the text is the
    /// literal of a JSON number, and then the number holds that text.
    pub fn parse(text: &str) -> (r: Option<Number>)
        ensures
            r is Some <==> is_json_number(text@),
            r matches Some(n) ==> n@ == text@,
    {
        if is_json_number_text(text) {
            Some(Number { text: String::from_str(text) })
        } else {
            None
        }
    }

    /// The decimal text of the number, which is always a JSON number literal.
    pub fn as_str(&self) -> (s: &str)
        ensures
            s@ == self@,
            is_json_number(s@),
    {
        proof {
            use_type_invariant(self);
        }
        self.text.as_str()
    }
}

/// A semi-structured datum: what a JSON document can hold.
///
/// A record keeps its fields in the order in which they were written. Where a
/// name occurs twice, the first field of that name is the one that is read.
#[derive(Debug, PartialEq, Eq)]
pub enum Datum {
    Null,
    Bool(bool),
    Number(Number),
    String(String),
    Sequence(Vec<Datum>),
    Record(Vec<(String, Datum)>),
}

/// The mathematical model of a `Datum`.
pub enum DatumView {
    Null,
    Bool(bool),
    Number(Seq<char>),
    String(Seq<char>),
    Sequence(Seq<DatumView>),
    Record(Seq<FieldView>),
}

/// The mathematical model of one field of a record.
pub struct FieldView {
    pub name: Seq<char>,
    pub value: DatumView,
}

impl View for Datum {
    type V = DatumView;

    open spec fn view(&self) -> DatumView
        decreases self,
    {
        match self {
            Datum::Null => DatumView::Null,
            Datum::Bool(b) => DatumView::Bool(*b),
            Datum::Number(n) => DatumView::Number(n@),
            Datum::String(s) => DatumView::String(s@),
            Datum::Sequence(items) => DatumView::Sequence(
                Seq::new(
                    items@.len(),
                    |i: int|
                        if 0 <= i < items@.len() {
                            items@[i].view()
                        } else {
                            DatumView::Null
                        },
                ),
            ),
            Datum::Record(fields) => DatumView::Record(
                Seq::new(
                    fields@.len(),
                    |i: int|
                        if 0 <= i < fields@.len() {
                            FieldView { name: fields@[i].0@, value: fields@[i].1.view() }
                        } else {
                            FieldView { name: Seq::empty(), value: DatumView::Null }
                        },
                ),
            ),
        }
    }
}

impl Clone for Number {
    fn clone(&self) -> (r: Self)
        ensures
            r@ == self@,
    {
        proof {
            use_type_invariant(self);
        }
        Number { text: self.text.clone() }
    }
}

impl Clone for Datum {
    fn clone(&self) -> (r: Self)
        ensures
            r@ == self@,
        decreases self,
    {
        match self {
            Datum::Null => Datum::Null,
            Datum::Bool(b) => Datum::Bool(*b),
            Datum::Number(n) => Datum::Number(n.clone()),
            Datum::String(s) => Datum::String(s.clone()),
            Datum::Sequence(items) => {
                let mut copies: Vec<Datum> = Vec::new();
                let mut i: usize = 0;
                while i < items.len()
                    invariant
                        i <= items.len(),
                        copies@.len() == i,
                        *self == Datum::Sequence(*items),
                        forall|k: int| 0 <= k < i ==> (#[trigger] copies@[k])@ == items@[k]@,
                    decreases items.len() - i,
                {
                    proof {
                        vstd::std_specs::vec::axiom_vec_index_decreases(*items, i as int);
                        assert(self->Sequence_0 == *items);
                    }
                    copies.push(items[i].clone());
                    i = i + 1;
                }
                proof {
                    lemma_sequence_view(*items);
                    lemma_sequence_view(copies);
                    assert(views_of(copies@) == views_of(items@));
                }
                Datum::Sequence(copies)
            },
            Datum::Record(fields) => {
                let mut copies: Vec<(String, Datum)> = Vec::new();
                let mut i: usize = 0;
                while i < fields.len()
                    invariant
                        i <= fields.len(),
                        copies@.len() == i,
                        *self == Datum::Record(*fields),
                        forall|k: int|
                            0 <= k < i ==> (#[trigger] copies@[k]).0@ == fields@[k].0@
                                && copies@[k].1@ == fields@[k].1@,
                    decreases fields.len() - i,
                {
                    proof {
                        vstd::std_specs::vec::axiom_vec_index_decreases(*fields, i as int);
                        assert(self->Record_0 == *fields);
                    }
                    copies.push((fields[i].0.clone(), fields[i].1.clone()));
                    i = i + 1;
                }
                proof {
                    lemma_record_view(*fields);
                    lemma_record_view(copies);
                    assert(field_views(copies@) == field_views(fields@));
                }
                Datum::Record(copies)
            },
        }
    }
}

/// The models of the items of a sequence, in order.
pub open spec fn views_of(items: Seq<Datum>) -> Seq<DatumView> {
    Seq::new(items.len(), |i: int| items[i]@)
}

/// The models of the fields of a record, in order.
pub open spec fn field_views(fields: Seq<(String, Datum)>) -> Seq<FieldView> {
    Seq::new(fields.len(), |i: int| FieldView { name: fields[i].0@, value: fields[i].1@ })
}

/// The model of a sequence holds the models of its items.
pub proof fn lemma_sequence_view(items: Vec<Datum>)
    ensures
        Datum::Sequence(items)@ == DatumView::Sequence(views_of(items@)),
{
    assert(Datum::Sequence(items)@->Sequence_0 =~= views_of(items@));
}

/// The model of a record holds the models of its fields.
pub proof fn lemma_record_view(fields: Vec<(String, Datum)>)
    ensures
        Datum::Record(fields)@ == DatumView::Record(field_views(fields@)),
{
    assert(Datum::Record(fields)@->Record_0 =~= field_views(fields@));
}

} // verus!
