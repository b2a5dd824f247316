//! The columns of a table: which there are, in what order, how wide each is and
//! how it is aligned.

use vstd::prelude::*;
use vstd::string::StringExecFns;

use crate::cell::{format_value, is_numeric, is_numeric_value, scalar_text, MAX_COLUMN_WIDTH};
use crate::datum::{field_views, lemma_record_view, views_of, Datum, DatumView, FieldView};
use crate::width::{display_width, text_width};

verus! {

/// What the layout needs to know of one column.
#[derive(Debug, PartialEq, Eq)]
pub struct ColumnInfo {
    /// The name of the field that the column shows.
    pub name: String,
    /// The width of the column, never more than `MAX_COLUMN_WIDTH` unless the
    /// name itself is wider.
    pub max_width: usize,
    /// Whether every value of the column is a number.
    pub is_numeric: bool,
    /// Whether the column holds identifiers, which are never shortened.
    pub is_uri_column: bool,
}

/// The name of the column whose values are identifiers.
pub open spec fn uri_name() -> Seq<char> {
    "uri"@
}

/// The fields of an item: those of a record, and none of anything else.
pub open spec fn fields_of(item: DatumView) -> Seq<FieldView> {
    match item {
        DatumView::Record(fields) => fields,
        _ => Seq::empty(),
    }
}

/// The names of the fields of a record, in order.
pub open spec fn names_of(fields: Seq<FieldView>) -> Seq<Seq<char>> {
    Seq::new(fields.len(), |i: int| fields[i].name)
}

/// Every field name of every item, in reading order.
pub open spec fn all_names(items: Seq<DatumView>) -> Seq<Seq<char>>
    decreases items.len(),
{
    if items.len() == 0 {
        Seq::empty()
    } else {
        all_names(items.drop_last()) + names_of(fields_of(items.last()))
    }
}

/// The distinct elements of a sequence, each where it first occurs.
pub open spec fn first_seen<A>(s: Seq<A>) -> Seq<A>
    decreases s.len(),
{
    if s.len() == 0 {
        Seq::empty()
    } else {
        let before = first_seen(s.drop_last());
        if before.contains(s.last()) {
            before
        } else {
            before.push(s.last())
        }
    }
}

/// The columns of a table: the field names of its records, each where it is
/// first seen.
pub open spec fn column_names(items: Seq<DatumView>) -> Seq<Seq<char>> {
    first_seen(all_names(items))
}

/// The value of the first field of that name, if there is one.
pub open spec fn lookup(fields: Seq<FieldView>, name: Seq<char>) -> Option<DatumView>
    decreases fields.len(),
{
    if fields.len() == 0 {
        None
    } else if fields[0].name == name {
        Some(fields[0].value)
    } else {
        lookup(fields.skip(1), name)
    }
}

/// The width that a value asks of its column: the width of its text, but no
/// more than `MAX_COLUMN_WIDTH`.
pub open spec fn capped_width(v: DatumView) -> nat {
    if display_width(scalar_text(v)) <= MAX_COLUMN_WIDTH {
        display_width(scalar_text(v))
    } else {
        MAX_COLUMN_WIDTH as nat
    }
}

/// The width of a column: the largest of the width of its name and the capped
/// widths of the values that the items hold under that name.
pub open spec fn column_width(items: Seq<DatumView>, name: Seq<char>) -> nat
    decreases items.len(),
{
    if items.len() == 0 {
        display_width(name)
    } else {
        let before = column_width(items.drop_last(), name);
        match lookup(fields_of(items.last()), name) {
            Some(v) => if capped_width(v) > before {
                capped_width(v)
            } else {
                before
            },
            None => before,
        }
    }
}

/// Whether a column is numeric: every item that has the field holds a numeric
/// value in it. An item without the field does not count against it.
pub open spec fn column_numeric(items: Seq<DatumView>, name: Seq<char>) -> bool {
    forall|i: int|
        0 <= i < items.len() ==> (#[trigger] lookup(fields_of(items[i]), name) matches Some(v)
            ==> is_numeric(v))
}

/// Whether `col` is the description of the column `name` of these items.
pub open spec fn describes(col: ColumnInfo, items: Seq<DatumView>, name: Seq<char>) -> bool {
    &&& col.name@ == name
    &&& col.max_width == column_width(items, name)
    &&& col.is_numeric == column_numeric(items, name)
    &&& col.is_uri_column == (name == uri_name())
}

/// The texts of a list of strings.
pub open spec fn texts_of(strings: Seq<String>) -> Seq<Seq<char>> {
    Seq::new(strings.len(), |i: int| strings[i]@)
}

/// A column stays numeric with one more item exactly if that item has no such
/// field or holds a numeric value in it.
pub proof fn lemma_column_numeric_step(items: Seq<DatumView>, name: Seq<char>)
    requires
        items.len() > 0,
    ensures
        column_numeric(items, name) == (column_numeric(items.drop_last(), name) && (lookup(
            fields_of(items.last()),
            name,
        ) matches Some(v) ==> is_numeric(v))),
{
    let before = items.drop_last();
    if column_numeric(items, name) {
        assert forall|k: int| 0 <= k < before.len() implies (#[trigger] lookup(
            fields_of(before[k]),
            name,
        ) matches Some(v) ==> is_numeric(v)) by {}
    }
    if column_numeric(before, name) && (lookup(fields_of(items.last()), name) matches Some(v)
        ==> is_numeric(v)) {
        assert forall|k: int| 0 <= k < items.len() implies (#[trigger] lookup(
            fields_of(items[k]),
            name,
        ) matches Some(v) ==> is_numeric(v)) by {
            if k < before.len() {
                assert(before[k] == items[k]);
            }
        }
    }
}

/// Whether `k` is the place where `x` first occurs in `s`.
pub open spec fn first_occurs_at<A>(s: Seq<A>, x: A, k: int) -> bool {
    &&& 0 <= k < s.len()
    &&& s[k] == x
    &&& forall|m: int| 0 <= m < k ==> s[m] != x
}

/// The place where `x` first occurs in `s`, for an `x` that occurs in it.
pub open spec fn first_index<A>(s: Seq<A>, x: A) -> int {
    choose|k: int| first_occurs_at(s, x, k)
}

/// Whatever occurs in a sequence has a first occurrence, and only one.
pub proof fn lemma_first_index<A>(s: Seq<A>, x: A)
    requires
        s.contains(x),
    ensures
        first_occurs_at(s, x, first_index(s, x)),
        forall|k: int| first_occurs_at(s, x, k) ==> k == first_index(s, x),
    decreases s.len(),
{
    let before = s.drop_last();
    if before.contains(x) {
        lemma_first_index(before, x);
        let k = first_index(before, x);
        assert(first_occurs_at(s, x, k)) by {
            assert forall|m: int| 0 <= m < k implies s[m] != x by {
                assert(s[m] == before[m]);
            }
        }
    } else {
        let k = s.len() - 1;
        assert(first_occurs_at(s, x, k)) by {
            assert forall|m: int| 0 <= m < k implies s[m] != x by {
                assert(s[m] == before[m]);
            }
        }
    }
    let f = first_index(s, x);
    assert forall|k: int| first_occurs_at(s, x, k) implies k == f by {}
}

/// An element that occurs before the end first occurs where it did without
/// the last element.
proof fn lemma_first_index_stable<A>(s: Seq<A>, x: A)
    requires
        s.len() > 0,
        s.drop_last().contains(x),
    ensures
        s.contains(x),
        first_index(s, x) == first_index(s.drop_last(), x),
{
    let before = s.drop_last();
    lemma_first_index(before, x);
    let k = first_index(before, x);
    assert(first_occurs_at(s, x, k)) by {
        assert forall|m: int| 0 <= m < k implies s[m] != x by {
            assert(s[m] == before[m]);
        }
    }
    lemma_first_index(s, x);
}

/// No name stands twice among the columns.
pub proof fn lemma_first_seen_distinct<A>(s: Seq<A>)
    ensures
        first_seen(s).no_duplicates(),
    decreases s.len(),
{
    if s.len() > 0 {
        lemma_first_seen_distinct(s.drop_last());
    }
}

/// The columns are the names that occur, all of them and no others.
pub proof fn lemma_first_seen_elements<A>(s: Seq<A>)
    ensures
        forall|x: A| #![trigger first_seen(s).contains(x)] #![trigger s.contains(x)]
            first_seen(s).contains(x) <==> s.contains(x),
    decreases s.len(),
{
    if s.len() > 0 {
        let before = s.drop_last();
        lemma_first_seen_elements(before);
        assert forall|x: A| #![trigger first_seen(s).contains(x)] #![trigger s.contains(x)]
            first_seen(s).contains(x) <==> s.contains(x) by {
            if s.contains(x) {
                let w = s.index_of(x);
                if w < s.len() - 1 {
                    assert(before[w] == x);
                    assert(first_seen(before).contains(x));
                    let v = first_seen(before).index_of(x);
                    assert(first_seen(s)[v] == x);
                } else if !first_seen(before).contains(x) {
                    assert(first_seen(s)[first_seen(s).len() - 1] == x);
                }
            }
            if first_seen(s).contains(x) {
                let v = first_seen(s).index_of(x);
                if v < first_seen(before).len() {
                    assert(before.contains(x));
                }
            }
        }
    }
}

/// The columns stand in the order in which their names are first seen: of two
/// columns, the one to the left has the earlier first occurrence.
pub proof fn lemma_first_seen_order<A>(s: Seq<A>, i: int, j: int)
    requires
        0 <= i < j < first_seen(s).len(),
    ensures
        s.contains(first_seen(s)[i]),
        s.contains(first_seen(s)[j]),
        first_index(s, first_seen(s)[i]) < first_index(s, first_seen(s)[j]),
    decreases s.len(),
{
    let r = first_seen(s);
    lemma_first_seen_elements(s);
    if s.len() > 0 {
        let before = s.drop_last();
        let rb = first_seen(before);
        lemma_first_seen_elements(before);
        assert(rb.contains(r[i]));
        lemma_first_index_stable(s, r[i]);
        lemma_first_index(before, r[i]);
        if j < rb.len() {
            assert(rb.contains(r[j]));
            lemma_first_seen_order(before, i, j);
            lemma_first_index_stable(s, r[j]);
        } else {
            // The column on the right was added for the last name, which had
            // not occurred before.
            lemma_first_index(s, r[j]);
            let q = first_index(s, r[j]);
            if q < s.len() - 1 {
                assert(before[q] == r[j]);
            }
        }
    }
}

/// The order of the columns depends on nothing but the order in which the
/// names are first seen: two lists of names that hold the same names, and in
/// which each two names are first seen in the same order, give the same columns.
/// So the records may be rearranged, and the fields within a record, as long as
/// no name is first seen earlier or later relative to another.
pub proof fn lemma_first_seen_depends_on_first_occurrences<A>(s1: Seq<A>, s2: Seq<A>)
    requires
        forall|x: A| #![trigger s1.contains(x)] #![trigger s2.contains(x)]
            s1.contains(x) <==> s2.contains(x),
        forall|a: A, b: A|
            s1.contains(a) && s1.contains(b) ==> (first_index(s1, a) < first_index(s1, b)
                <==> #[trigger] first_index(s2, a) < #[trigger] first_index(s2, b)),
    ensures
        first_seen(s1) == first_seen(s2),
{
    let r1 = first_seen(s1);
    let r2 = first_seen(s2);
    lemma_first_seen_distinct(s1);
    lemma_first_seen_distinct(s2);
    lemma_first_seen_elements(s1);
    lemma_first_seen_elements(s2);
    let n = if r1.len() <= r2.len() {
        r1.len()
    } else {
        r2.len()
    };
    lemma_same_start(s1, s2, n as int);
    if r1.len() < r2.len() {
        let extra = r2[n as int];
        assert(r1.contains(extra));
        let m = r1.index_of(extra);
        assert(r1.take(n as int)[m] == r2.take(n as int)[m]);
    } else if r2.len() < r1.len() {
        let extra = r1[n as int];
        assert(r2.contains(extra));
        let m = r2.index_of(extra);
        assert(r1.take(n as int)[m] == r2.take(n as int)[m]);
    } else {
        assert(r2.take(n as int) == r2);
    }
}

/// Under the conditions of `lemma_first_seen_depends_on_first_occurrences`, the
/// two lists of columns agree in their first `n` places.
proof fn lemma_same_start<A>(s1: Seq<A>, s2: Seq<A>, n: int)
    requires
        forall|x: A| #![trigger s1.contains(x)] #![trigger s2.contains(x)]
            s1.contains(x) <==> s2.contains(x),
        forall|a: A, b: A|
            s1.contains(a) && s1.contains(b) ==> (first_index(s1, a) < first_index(s1, b)
                <==> #[trigger] first_index(s2, a) < #[trigger] first_index(s2, b)),
        0 <= n <= first_seen(s1).len(),
        n <= first_seen(s2).len(),
    ensures
        first_seen(s1).take(n) == first_seen(s2).take(n),
    decreases n,
{
    let r1 = first_seen(s1);
    let r2 = first_seen(s2);
    if n > 0 {
        lemma_same_start(s1, s2, n - 1);
        lemma_first_seen_distinct(s1);
        lemma_first_seen_distinct(s2);
        lemma_first_seen_elements(s1);
        lemma_first_seen_elements(s2);
        let a = r1[n - 1];
        let b = r2[n - 1];
        if a != b {
            // Each of the two stands further right in the other list.
            assert(r1.contains(b));
            let m1 = r1.index_of(b);
            if m1 < n - 1 {
                assert(r1.take(n - 1)[m1] == r2.take(n - 1)[m1]);
            }
            lemma_first_seen_order(s1, n - 1, m1);
            let m2 = r2.index_of(a);
            if m2 < n - 1 {
                assert(r1.take(n - 1)[m2] == r2.take(n - 1)[m2]);
            }
            lemma_first_seen_order(s2, n - 1, m2);
        }
    }
}

/// The columns of two lists are the same, and in the same order, whenever the
/// lists hold the same field names and each two names are first seen in the
/// same order in both.
pub proof fn lemma_columns_follow_first_occurrences(a: Seq<DatumView>, b: Seq<DatumView>)
    requires
        forall|x: Seq<char>|
            #![trigger all_names(a).contains(x)]
            #![trigger all_names(b).contains(x)]
            all_names(a).contains(x) <==> all_names(b).contains(x),
        forall|x: Seq<char>, y: Seq<char>|
            all_names(a).contains(x) && all_names(a).contains(y) ==> (first_index(all_names(a), x)
                < first_index(all_names(a), y) <==> #[trigger] first_index(all_names(b), x)
                < #[trigger] first_index(all_names(b), y)),
    ensures
        column_names(a) == column_names(b),
{
    lemma_first_seen_depends_on_first_occurrences(all_names(a), all_names(b));
}

/// One value that is not a number makes its column not numeric, for every row.
pub proof fn lemma_one_text_clears_numeric(items: Seq<DatumView>, i: int, name: Seq<char>)
    requires
        0 <= i < items.len(),
        lookup(fields_of(items[i]), name) matches Some(v) && !is_numeric(v),
    ensures
        !column_numeric(items, name),
{
}

/// A column is at least as wide as its name, and as each of its values up to
/// the cap.
pub proof fn lemma_column_width_covers(items: Seq<DatumView>, i: int, name: Seq<char>)
    requires
        0 <= i < items.len(),
    ensures
        display_width(name) <= column_width(items, name),
        lookup(fields_of(items[i]), name) matches Some(v) ==> capped_width(v) <= column_width(
            items,
            name,
        ),
    decreases items.len(),
{
    let before = items.drop_last();
    if i < before.len() {
        lemma_column_width_covers(before, i, name);
    } else {
        lemma_column_width_floor(before, name);
    }
}

/// A column is no wider than it has to be: it is as wide as its name, or as
/// one of its values up to the cap.
pub proof fn lemma_column_width_attained(items: Seq<DatumView>, name: Seq<char>)
    ensures
        column_width(items, name) == display_width(name) || exists|i: int|
            0 <= i < items.len() && (#[trigger] lookup(fields_of(items[i]), name) matches Some(v)
                && capped_width(v) == column_width(items, name)),
    decreases items.len(),
{
    if items.len() > 0 {
        let before = items.drop_last();
        lemma_column_width_attained(before, name);
        if column_width(items, name) == column_width(before, name) && column_width(before, name)
            != display_width(name) {
            let i = choose|i: int|
                0 <= i < before.len() && (#[trigger] lookup(fields_of(before[i]), name) matches Some(
                    v,
                ) && capped_width(v) == column_width(before, name));
            assert(before[i] == items[i]);
        }
    }
}

/// A column is at least as wide as its name.
pub proof fn lemma_column_width_floor(items: Seq<DatumView>, name: Seq<char>)
    ensures
        display_width(name) <= column_width(items, name),
    decreases items.len(),
{
    if items.len() > 0 {
        lemma_column_width_floor(items.drop_last(), name);
    }
}

/// The value of the first field named `key`.
pub fn find_field<'a>(fields: &'a Vec<(String, Datum)>, key: &String) -> (r: Option<&'a Datum>)
    ensures
        match r {
            Some(v) => lookup(field_views(fields@), key@) == Some(v@),
            None => lookup(field_views(fields@), key@) is None,
        },
{
    let ghost all = field_views(fields@);
    let mut i: usize = 0;
    assert(all.skip(0) == all);
    while i < fields.len()
        invariant
            i <= fields.len(),
            all == field_views(fields@),
            lookup(all, key@) == lookup(all.skip(i as int), key@),
        decreases fields.len() - i,
    {
        assert(all.skip(i as int).skip(1) == all.skip(i + 1));
        if fields[i].0 == *key {
            return Some(&fields[i].1);
        }
        i = i + 1;
    }
    None
}

/// Whether `key` is among `keys`.
fn has_key(keys: &Vec<String>, key: &String) -> (r: bool)
    ensures
        r == texts_of(keys@).contains(key@),
{
    let ghost texts = texts_of(keys@);
    let mut i: usize = 0;
    while i < keys.len()
        invariant
            i <= keys.len(),
            texts == texts_of(keys@),
            forall|k: int| 0 <= k < i ==> texts[k] != key@,
        decreases keys.len() - i,
    {
        if keys[i] == *key {
            assert(texts[i as int] == key@);
            return true;
        }
        i = i + 1;
    }
    false
}

/// The names of the columns, each where it is first seen.
fn collect_keys(items: &Vec<Datum>) -> (keys: Vec<String>)
    ensures
        texts_of(keys@) == column_names(views_of(items@)),
{
    let ghost views = views_of(items@);
    let mut keys: Vec<String> = Vec::new();
    let mut i: usize = 0;
    while i < items.len()
        invariant
            i <= items.len(),
            views == views_of(items@),
            texts_of(keys@) == column_names(views.take(i as int)),
        decreases items.len() - i,
    {
        let ghost seen = all_names(views.take(i as int));
        let ghost names = names_of(fields_of(views[i as int]));
        proof {
            assert(views.take(i + 1).drop_last() == views.take(i as int));
        }
        match &items[i] {
            Datum::Record(fields) => {
                proof {
                    lemma_record_view(*fields);
                }
                let mut j: usize = 0;
                while j < fields.len()
                    invariant
                        j <= fields.len(),
                        names == names_of(field_views(fields@)),
                        texts_of(keys@) == first_seen(seen + names.take(j as int)),
                    decreases fields.len() - j,
                {
                    let ghost so_far = seen + names.take(j as int);
                    proof {
                        assert(seen + names.take(j + 1) == so_far.push(names[j as int]));
                        assert(so_far.push(names[j as int]).drop_last() == so_far);
                    }
                    if !has_key(&keys, &fields[j].0) {
                        keys.push(fields[j].0.clone());
                    }
                    j = j + 1;
                }
                assert(names.take(j as int) == names);
            },
            _ => {},
        }
        i = i + 1;
    }
    assert(views.take(i as int) == views);
    keys
}

/// The width, the alignment and the kind of one column.
fn analyze_column(items: &Vec<Datum>, key: &String) -> (col: ColumnInfo)
    ensures
        describes(col, views_of(items@), key@),
{
    let ghost views = views_of(items@);
    let is_uri_column = *key == String::from_str("uri");
    let mut numeric = true;
    let mut max_width = text_width(key.as_str());
    let mut i: usize = 0;
    while i < items.len()
        invariant
            i <= items.len(),
            views == views_of(items@),
            max_width == column_width(views.take(i as int), key@),
            numeric == column_numeric(views.take(i as int), key@),
        decreases items.len() - i,
    {
        proof {
            assert(views.take(i + 1).drop_last() == views.take(i as int));
            lemma_column_numeric_step(views.take(i + 1), key@);
        }
        match &items[i] {
            Datum::Record(fields) => {
                proof {
                    lemma_record_view(*fields);
                }
                match find_field(fields, key) {
                    Some(value) => {
                        let formatted = format_value(value);
                        let display_width = text_width(formatted.as_str());
                        let capped = if display_width <= MAX_COLUMN_WIDTH {
                            display_width
                        } else {
                            MAX_COLUMN_WIDTH
                        };
                        if capped > max_width {
                            max_width = capped;
                        }
                        if numeric && !is_numeric_value(value) {
                            numeric = false;
                        }
                    },
                    None => {},
                }
            },
            _ => {},
        }
        i = i + 1;
    }
    assert(views.take(i as int) == views);
    proof {
        reveal_strlit("uri");
    }
    ColumnInfo { name: key.clone(), max_width, is_numeric: numeric, is_uri_column }
}

/// Describes the columns of a list of records: one for each field name, in
/// the order in which the names are first seen. There is no description when
/// no item has a field.
pub fn analyze_columns(items: &Vec<Datum>) -> (r: Option<Vec<ColumnInfo>>)
    ensures
        r is None <==> column_names(views_of(items@)).len() == 0,
        r matches Some(cols) ==> {
            &&& cols@.len() == column_names(views_of(items@)).len()
            &&& forall|j: int|
                0 <= j < cols@.len() ==> describes(
                    #[trigger] cols@[j],
                    views_of(items@),
                    column_names(views_of(items@))[j],
                )
        },
{
    let keys = collect_keys(items);
    if keys.len() == 0 {
        return None;
    }
    let ghost names = column_names(views_of(items@));
    let mut cols: Vec<ColumnInfo> = Vec::new();
    let mut j: usize = 0;
    while j < keys.len()
        invariant
            j <= keys.len(),
            cols@.len() == j,
            names == column_names(views_of(items@)),
            texts_of(keys@) == names,
            forall|k: int| 0 <= k < j ==> describes(#[trigger] cols@[k], views_of(items@), names[k]),
        decreases keys.len() - j,
    {
        let col = analyze_column(items, &keys[j]);
        cols.push(col);
        j = j + 1;
    }
    Some(cols)
}

} // verus!
