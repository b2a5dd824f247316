//! The shape of a value decides how it is laid out.

use vstd::prelude::*;

use crate::datum::{lemma_record_view, lemma_sequence_view, views_of, Datum, DatumView};

verus! {

/// The layout that a value calls for.
#[derive(Clone, Copy, Debug, PartialEq, Eq, Structural)]
pub enum RenderPlan {
    /// A single text, printed as it is.
    Scalar,
    /// One line for each field of a record.
    SingleRecord,
    /// A table with one row for each record.
    RecordList,
    /// One line for each item.
    ScalarList,
    /// Nothing to show.
    Empty,
}

/// Whether every item is a record.
pub open spec fn all_records(items: Seq<DatumView>) -> bool {
    forall|i: int| 0 <= i < items.len() ==> #[trigger] items[i] is Record
}

/// The layout of each shape: an empty sequence or record is `Empty`, a
/// sequence of records is a `RecordList`, any other sequence a `ScalarList`, a
/// record with fields a `SingleRecord`, and everything else a `Scalar`.
pub open spec fn plan_of(v: DatumView) -> RenderPlan {
    match v {
        DatumView::Sequence(items) => if items.len() == 0 {
            RenderPlan::Empty
        } else if all_records(items) {
            RenderPlan::RecordList
        } else {
            RenderPlan::ScalarList
        },
        DatumView::Record(fields) => if fields.len() == 0 {
            RenderPlan::Empty
        } else {
            RenderPlan::SingleRecord
        },
        _ => RenderPlan::Scalar,
    }
}

/// Whether every item of the list is a record.
pub fn only_records(items: &Vec<Datum>) -> (r: bool)
    ensures
        r == all_records(views_of(items@)),
{
    let ghost views = views_of(items@);
    let mut i: usize = 0;
    while i < items.len()
        invariant
            i <= items.len(),
            views == views_of(items@),
            forall|k: int| 0 <= k < i ==> #[trigger] views[k] is Record,
        decreases items.len() - i,
    {
        match &items[i] {
            Datum::Record(_) => {},
            _ => {
                assert(!(views[i as int] is Record));
                return false;
            },
        }
        i = i + 1;
    }
    true
}

/// Picks the layout for a value.
pub fn classify(v: &Datum) -> (plan: RenderPlan)
    ensures
        plan == plan_of(v@),
{
    match v {
        Datum::Sequence(items) => {
            proof {
                lemma_sequence_view(*items);
            }
            if items.len() == 0 {
                RenderPlan::Empty
            } else if only_records(items) {
                RenderPlan::RecordList
            } else {
                RenderPlan::ScalarList
            }
        },
        Datum::Record(fields) => {
            proof {
                lemma_record_view(*fields);
            }
            if fields.len() == 0 {
                RenderPlan::Empty
            } else {
                RenderPlan::SingleRecord
            }
        },
        _ => RenderPlan::Scalar,
    }
}

} // verus!
