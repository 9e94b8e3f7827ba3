//! The sparse typed value store and the predicate evaluator.
//!
//! One table per data kind holds the value rows, keyed by (entry id, field
//! id); relation edges are keyed by their source entry. A compiled filter
//! fragment is scoped to rows of its own table with the resolved field's id,
//! so an entry without such a row fails the fragment under every comparison.

use vstd::prelude::*;
use crate::collection::{
    BooleanComparison, Collection, CompiledFilter, DateTimeComparison, EntryOrderBy, Field,
    FieldV, NumberComparison, NumberListOp, ObjectOp, RelationOp, TextListOp, TextOp, fields_of,
    fields_view,
};
use crate::entries::{Entry, EntryV, entries_view};
use crate::text::{like_match, like_matches, str_eq, str_lt, str_lt_spec};

verus! {

/// A text value row; Text and TypstText filters both target this table.
#[derive(Debug)]
pub struct TextRow {
    pub entry_id: u128,
    pub field_id: u128,
    pub value: Option<String>,
}

/// A source text row with its rendered form.
#[derive(Debug)]
pub struct TypstTextRow {
    pub entry_id: u128,
    pub field_id: u128,
    pub raw: String,
    pub rendered: String,
}

#[derive(Debug)]
pub struct BooleanRow {
    pub entry_id: u128,
    pub field_id: u128,
    pub value: Option<bool>,
}

#[derive(Debug)]
pub struct NumberRow {
    pub entry_id: u128,
    pub field_id: u128,
    pub value: Option<i64>,
}

/// A timestamp row carried as ISO-8601 text, compared as written.
#[derive(Debug)]
pub struct DateTimeRow {
    pub entry_id: u128,
    pub field_id: u128,
    pub value: Option<String>,
}

#[derive(Debug)]
pub struct TextListRow {
    pub entry_id: u128,
    pub field_id: u128,
    pub value: Option<Vec<String>>,
}

#[derive(Debug)]
pub struct NumberListRow {
    pub entry_id: u128,
    pub field_id: u128,
    pub value: Option<Vec<i64>>,
}

/// A directed relation edge.
#[derive(Debug)]
pub struct RelationRow {
    pub from_entry_id: u128,
    pub field_id: u128,
    pub to_entry_id: u128,
}

/// An opaque JSON payload row, carried as its text.
#[derive(Debug)]
pub struct ObjectRow {
    pub entry_id: u128,
    pub field_id: u128,
    pub value: Option<String>,
}

/// The whole readable state: catalog, entries, and one value table per data
/// kind. Row order is the storage order; lookups take the first match.
#[derive(Debug)]
pub struct Store {
    pub collections: Vec<Collection>,
    pub fields: Vec<Field>,
    pub entries: Vec<Entry>,
    pub text_rows: Vec<TextRow>,
    pub typst_text_rows: Vec<TypstTextRow>,
    pub boolean_rows: Vec<BooleanRow>,
    pub number_rows: Vec<NumberRow>,
    pub date_time_rows: Vec<DateTimeRow>,
    pub text_list_rows: Vec<TextListRow>,
    pub number_list_rows: Vec<NumberListRow>,
    pub relation_rows: Vec<RelationRow>,
    pub object_rows: Vec<ObjectRow>,
}

/// Whether a nullable text payload passes a compiled text comparison; a null
/// payload passes none.
pub open spec fn text_op_passes(v: Option<String>, op: TextOp) -> bool {
    match op {
        TextOp::Eq(s) => v matches Some(x) && x@ == s@,
        TextOp::Neq(s) => v matches Some(x) && x@ != s@,
        TextOp::Like(p) => v matches Some(x) && like_matches(p@, x@),
    }
}

/// Whether a nullable number payload passes a comparison against `w`.
pub open spec fn number_cmp_passes(v: Option<i64>, cmp: NumberComparison, w: i64) -> bool {
    v matches Some(x) && match cmp {
        NumberComparison::Eq => x == w,
        NumberComparison::Neq => x != w,
        NumberComparison::Gt => x > w,
        NumberComparison::Gte => x >= w,
        NumberComparison::Lt => x < w,
        NumberComparison::Lte => x <= w,
    }
}

/// Whether a nullable boolean payload passes a comparison against `w`.
pub open spec fn boolean_cmp_passes(v: Option<bool>, cmp: BooleanComparison, w: bool) -> bool {
    v matches Some(x) && match cmp {
        BooleanComparison::Eq => x == w,
        BooleanComparison::Neq => x != w,
    }
}

/// Whether a nullable timestamp payload passes a comparison against the
/// literal `w`, in lexicographic code-point order over the ISO-8601 text.
pub open spec fn date_time_cmp_passes(
    v: Option<String>,
    cmp: DateTimeComparison,
    w: Seq<char>,
) -> bool {
    v matches Some(x) && match cmp {
        DateTimeComparison::Eq => x@ == w,
        DateTimeComparison::Neq => x@ != w,
        DateTimeComparison::Gt => str_lt_spec(w, x@),
        DateTimeComparison::Gte => str_lt_spec(w, x@) || x@ == w,
        DateTimeComparison::Lt => str_lt_spec(x@, w),
        DateTimeComparison::Lte => str_lt_spec(x@, w) || x@ == w,
    }
}

/// Whether a nullable text-list payload passes a compiled list fragment.
pub open spec fn text_list_op_passes(v: Option<Vec<String>>, op: TextListOp) -> bool {
    match op {
        TextListOp::FirstLike(p) => v matches Some(l) && l@.len() > 0 && like_matches(
            p@,
            l@[0]@,
        ),
        TextListOp::AnyRow => true,
        TextListOp::IsNull => v is None,
        TextListOp::IsNotNull => v is Some,
    }
}

/// Whether a nullable number-list payload passes a compiled list fragment.
pub open spec fn number_list_op_passes(v: Option<Vec<i64>>, op: NumberListOp) -> bool {
    match op {
        NumberListOp::IsNull => v is None,
        NumberListOp::IsNotNull => v is Some,
    }
}

/// Whether a nullable object payload passes a compiled object fragment.
pub open spec fn object_op_passes(v: Option<String>, op: ObjectOp) -> bool {
    match op {
        ObjectOp::IsNull => v is None,
        ObjectOp::IsNotNull => v is Some,
    }
}

/// A text row in scope of the fragment whose payload passes.
pub open spec fn text_row_hit(row: TextRow, entry_id: u128, field_id: u128, op: TextOp) -> bool {
    row.entry_id == entry_id && row.field_id == field_id && text_op_passes(row.value, op)
}

pub open spec fn matches_text(
    rows: Seq<TextRow>,
    entry_id: u128,
    field_id: u128,
    op: TextOp,
) -> bool {
    exists|i: int| 0 <= i < rows.len() && text_row_hit(#[trigger] rows[i], entry_id, field_id, op)
}

pub open spec fn number_row_hit(
    row: NumberRow,
    entry_id: u128,
    field_id: u128,
    cmp: NumberComparison,
    w: i64,
) -> bool {
    row.entry_id == entry_id && row.field_id == field_id && number_cmp_passes(row.value, cmp, w)
}

pub open spec fn matches_number(
    rows: Seq<NumberRow>,
    entry_id: u128,
    field_id: u128,
    cmp: NumberComparison,
    w: i64,
) -> bool {
    exists|i: int|
        0 <= i < rows.len() && number_row_hit(#[trigger] rows[i], entry_id, field_id, cmp, w)
}

pub open spec fn boolean_row_hit(
    row: BooleanRow,
    entry_id: u128,
    field_id: u128,
    cmp: BooleanComparison,
    w: bool,
) -> bool {
    row.entry_id == entry_id && row.field_id == field_id && boolean_cmp_passes(row.value, cmp, w)
}

pub open spec fn matches_boolean(
    rows: Seq<BooleanRow>,
    entry_id: u128,
    field_id: u128,
    cmp: BooleanComparison,
    w: bool,
) -> bool {
    exists|i: int|
        0 <= i < rows.len() && boolean_row_hit(#[trigger] rows[i], entry_id, field_id, cmp, w)
}

pub open spec fn date_time_row_hit(
    row: DateTimeRow,
    entry_id: u128,
    field_id: u128,
    cmp: DateTimeComparison,
    w: Seq<char>,
) -> bool {
    row.entry_id == entry_id && row.field_id == field_id && date_time_cmp_passes(row.value, cmp, w)
}

pub open spec fn matches_date_time(
    rows: Seq<DateTimeRow>,
    entry_id: u128,
    field_id: u128,
    cmp: DateTimeComparison,
    w: Seq<char>,
) -> bool {
    exists|i: int|
        0 <= i < rows.len() && date_time_row_hit(#[trigger] rows[i], entry_id, field_id, cmp, w)
}

pub open spec fn text_list_row_hit(
    row: TextListRow,
    entry_id: u128,
    field_id: u128,
    op: TextListOp,
) -> bool {
    row.entry_id == entry_id && row.field_id == field_id && text_list_op_passes(row.value, op)
}

pub open spec fn matches_text_list(
    rows: Seq<TextListRow>,
    entry_id: u128,
    field_id: u128,
    op: TextListOp,
) -> bool {
    exists|i: int|
        0 <= i < rows.len() && text_list_row_hit(#[trigger] rows[i], entry_id, field_id, op)
}

pub open spec fn number_list_row_hit(
    row: NumberListRow,
    entry_id: u128,
    field_id: u128,
    op: NumberListOp,
) -> bool {
    row.entry_id == entry_id && row.field_id == field_id && number_list_op_passes(row.value, op)
}

pub open spec fn matches_number_list(
    rows: Seq<NumberListRow>,
    entry_id: u128,
    field_id: u128,
    op: NumberListOp,
) -> bool {
    exists|i: int|
        0 <= i < rows.len() && number_list_row_hit(#[trigger] rows[i], entry_id, field_id, op)
}

pub open spec fn object_row_hit(
    row: ObjectRow,
    entry_id: u128,
    field_id: u128,
    op: ObjectOp,
) -> bool {
    row.entry_id == entry_id && row.field_id == field_id && object_op_passes(row.value, op)
}

pub open spec fn matches_object(
    rows: Seq<ObjectRow>,
    entry_id: u128,
    field_id: u128,
    op: ObjectOp,
) -> bool {
    exists|i: int|
        0 <= i < rows.len() && object_row_hit(#[trigger] rows[i], entry_id, field_id, op)
}

/// Some edge for the field leaves the entry.
pub open spec fn has_edge(rows: Seq<RelationRow>, entry_id: u128, field_id: u128) -> bool {
    exists|i: int|
        0 <= i < rows.len() && (#[trigger] rows[i]).from_entry_id == entry_id && rows[i].field_id
            == field_id
}

/// An edge for the field leaves the entry and reaches `target`.
pub open spec fn has_edge_to(
    rows: Seq<RelationRow>,
    entry_id: u128,
    field_id: u128,
    target: u128,
) -> bool {
    exists|i: int|
        0 <= i < rows.len() && (#[trigger] rows[i]).from_entry_id == entry_id && rows[i].field_id
            == field_id && rows[i].to_entry_id == target
}

/// Whether an entry satisfies one compiled fragment. Every fragment demands
/// a row of its own table for the fragment's field, so an entry without one
/// is excluded under every comparison; in particular no entry ever satisfies
/// a HasNoConnections fragment, since an entry with an edge fails the
/// comparison and one without fails the row scope.
pub open spec fn filter_matches(store: Store, entry_id: u128, f: CompiledFilter) -> bool {
    match f {
        CompiledFilter::Text { field_id, op } => matches_text(
            store.text_rows@,
            entry_id,
            field_id,
            op,
        ),
        CompiledFilter::Number { field_id, comparison, value } => matches_number(
            store.number_rows@,
            entry_id,
            field_id,
            comparison,
            value,
        ),
        CompiledFilter::Boolean { field_id, comparison, value } => matches_boolean(
            store.boolean_rows@,
            entry_id,
            field_id,
            comparison,
            value,
        ),
        CompiledFilter::DateTime { field_id, comparison, value } => matches_date_time(
            store.date_time_rows@,
            entry_id,
            field_id,
            comparison,
            value@,
        ),
        CompiledFilter::TextList { field_id, op } => matches_text_list(
            store.text_list_rows@,
            entry_id,
            field_id,
            op,
        ),
        CompiledFilter::NumberList { field_id, op } => matches_number_list(
            store.number_list_rows@,
            entry_id,
            field_id,
            op,
        ),
        CompiledFilter::Relation { field_id, op } => match op {
            RelationOp::ConnectedTo(t) => has_edge_to(store.relation_rows@, entry_id, field_id, t),
            RelationOp::NotConnectedTo(t) => has_edge(store.relation_rows@, entry_id, field_id)
                && !has_edge_to(store.relation_rows@, entry_id, field_id, t),
            RelationOp::HasConnections => has_edge(store.relation_rows@, entry_id, field_id),
            RelationOp::HasNoConnections => false,
        },
        CompiledFilter::Object { field_id, op } => matches_object(
            store.object_rows@,
            entry_id,
            field_id,
            op,
        ),
    }
}

/// Whether an entry satisfies the conjunction of all compiled fragments.
pub open spec fn entry_matches_all(store: Store, entry_id: u128, fs: Seq<CompiledFilter>) -> bool {
    forall|i: int| 0 <= i < fs.len() ==> filter_matches(store, entry_id, #[trigger] fs[i])
}

fn eval_text_op(v: &Option<String>, op: &TextOp) -> (r: bool)
    ensures
        r == text_op_passes(*v, *op),
{
    match v {
        Some(x) => match op {
            TextOp::Eq(s) => str_eq(x.as_str(), s.as_str()),
            TextOp::Neq(s) => !str_eq(x.as_str(), s.as_str()),
            TextOp::Like(p) => like_match(p.as_str(), x.as_str()),
        },
        None => false,
    }
}

fn eval_number_cmp(v: &Option<i64>, cmp: NumberComparison, w: i64) -> (r: bool)
    ensures
        r == number_cmp_passes(*v, cmp, w),
{
    match v {
        Some(x) => match cmp {
            NumberComparison::Eq => *x == w,
            NumberComparison::Neq => *x != w,
            NumberComparison::Gt => *x > w,
            NumberComparison::Gte => *x >= w,
            NumberComparison::Lt => *x < w,
            NumberComparison::Lte => *x <= w,
        },
        None => false,
    }
}

fn eval_boolean_cmp(v: &Option<bool>, cmp: BooleanComparison, w: bool) -> (r: bool)
    ensures
        r == boolean_cmp_passes(*v, cmp, w),
{
    match v {
        Some(x) => match cmp {
            BooleanComparison::Eq => *x == w,
            BooleanComparison::Neq => *x != w,
        },
        None => false,
    }
}

fn eval_date_time_cmp(v: &Option<String>, cmp: DateTimeComparison, w: &str) -> (r: bool)
    ensures
        r == date_time_cmp_passes(*v, cmp, w@),
{
    match v {
        Some(x) => match cmp {
            DateTimeComparison::Eq => str_eq(x.as_str(), w),
            DateTimeComparison::Neq => !str_eq(x.as_str(), w),
            DateTimeComparison::Gt => str_lt(w, x.as_str()),
            DateTimeComparison::Gte => str_lt(w, x.as_str()) || str_eq(x.as_str(), w),
            DateTimeComparison::Lt => str_lt(x.as_str(), w),
            DateTimeComparison::Lte => str_lt(x.as_str(), w) || str_eq(x.as_str(), w),
        },
        None => false,
    }
}

fn eval_text_list_op(v: &Option<Vec<String>>, op: &TextListOp) -> (r: bool)
    ensures
        r == text_list_op_passes(*v, *op),
{
    match op {
        TextListOp::FirstLike(p) => match v {
            Some(l) => l.len() > 0 && like_match(p.as_str(), l[0].as_str()),
            None => false,
        },
        TextListOp::AnyRow => true,
        TextListOp::IsNull => v.is_none(),
        TextListOp::IsNotNull => v.is_some(),
    }
}

fn eval_number_list_op(v: &Option<Vec<i64>>, op: &NumberListOp) -> (r: bool)
    ensures
        r == number_list_op_passes(*v, *op),
{
    match op {
        NumberListOp::IsNull => v.is_none(),
        NumberListOp::IsNotNull => v.is_some(),
    }
}

fn eval_object_op(v: &Option<String>, op: &ObjectOp) -> (r: bool)
    ensures
        r == object_op_passes(*v, *op),
{
    match op {
        ObjectOp::IsNull => v.is_none(),
        ObjectOp::IsNotNull => v.is_some(),
    }
}

fn scan_text(rows: &Vec<TextRow>, entry_id: u128, field_id: u128, op: &TextOp) -> (r: bool)
    ensures
        r == matches_text(rows@, entry_id, field_id, *op),
{
    let n = rows.len();
    let mut i: usize = 0;
    while i < n
        invariant
            n == rows@.len(),
            i <= n,
            forall|k: int| 0 <= k < i ==> !text_row_hit(#[trigger] rows@[k], entry_id, field_id, *op),
        decreases n - i,
    {
        let row = &rows[i];
        if row.entry_id == entry_id && row.field_id == field_id && eval_text_op(&row.value, op) {
            return true;
        }
        i = i + 1;
    }
    false
}

fn scan_number(
    rows: &Vec<NumberRow>,
    entry_id: u128,
    field_id: u128,
    cmp: NumberComparison,
    w: i64,
) -> (r: bool)
    ensures
        r == matches_number(rows@, entry_id, field_id, cmp, w),
{
    let n = rows.len();
    let mut i: usize = 0;
    while i < n
        invariant
            n == rows@.len(),
            i <= n,
            forall|k: int|
                0 <= k < i ==> !number_row_hit(#[trigger] rows@[k], entry_id, field_id, cmp, w),
        decreases n - i,
    {
        let row = &rows[i];
        if row.entry_id == entry_id && row.field_id == field_id && eval_number_cmp(
            &row.value,
            cmp,
            w,
        ) {
            return true;
        }
        i = i + 1;
    }
    false
}

fn scan_boolean(
    rows: &Vec<BooleanRow>,
    entry_id: u128,
    field_id: u128,
    cmp: BooleanComparison,
    w: bool,
) -> (r: bool)
    ensures
        r == matches_boolean(rows@, entry_id, field_id, cmp, w),
{
    let n = rows.len();
    let mut i: usize = 0;
    while i < n
        invariant
            n == rows@.len(),
            i <= n,
            forall|k: int|
                0 <= k < i ==> !boolean_row_hit(#[trigger] rows@[k], entry_id, field_id, cmp, w),
        decreases n - i,
    {
        let row = &rows[i];
        if row.entry_id == entry_id && row.field_id == field_id && eval_boolean_cmp(
            &row.value,
            cmp,
            w,
        ) {
            return true;
        }
        i = i + 1;
    }
    false
}

fn scan_date_time(
    rows: &Vec<DateTimeRow>,
    entry_id: u128,
    field_id: u128,
    cmp: DateTimeComparison,
    w: &str,
) -> (r: bool)
    ensures
        r == matches_date_time(rows@, entry_id, field_id, cmp, w@),
{
    let n = rows.len();
    let mut i: usize = 0;
    while i < n
        invariant
            n == rows@.len(),
            i <= n,
            forall|k: int|
                0 <= k < i ==> !date_time_row_hit(#[trigger] rows@[k], entry_id, field_id, cmp, w@),
        decreases n - i,
    {
        let row = &rows[i];
        if row.entry_id == entry_id && row.field_id == field_id && eval_date_time_cmp(
            &row.value,
            cmp,
            w,
        ) {
            return true;
        }
        i = i + 1;
    }
    false
}

fn scan_text_list(rows: &Vec<TextListRow>, entry_id: u128, field_id: u128, op: &TextListOp) -> (r:
    bool)
    ensures
        r == matches_text_list(rows@, entry_id, field_id, *op),
{
    let n = rows.len();
    let mut i: usize = 0;
    while i < n
        invariant
            n == rows@.len(),
            i <= n,
            forall|k: int|
                0 <= k < i ==> !text_list_row_hit(#[trigger] rows@[k], entry_id, field_id, *op),
        decreases n - i,
    {
        let row = &rows[i];
        if row.entry_id == entry_id && row.field_id == field_id && eval_text_list_op(
            &row.value,
            op,
        ) {
            return true;
        }
        i = i + 1;
    }
    false
}

fn scan_number_list(
    rows: &Vec<NumberListRow>,
    entry_id: u128,
    field_id: u128,
    op: &NumberListOp,
) -> (r: bool)
    ensures
        r == matches_number_list(rows@, entry_id, field_id, *op),
{
    let n = rows.len();
    let mut i: usize = 0;
    while i < n
        invariant
            n == rows@.len(),
            i <= n,
            forall|k: int|
                0 <= k < i ==> !number_list_row_hit(#[trigger] rows@[k], entry_id, field_id, *op),
        decreases n - i,
    {
        let row = &rows[i];
        if row.entry_id == entry_id && row.field_id == field_id && eval_number_list_op(
            &row.value,
            op,
        ) {
            return true;
        }
        i = i + 1;
    }
    false
}

fn scan_object(rows: &Vec<ObjectRow>, entry_id: u128, field_id: u128, op: &ObjectOp) -> (r: bool)
    ensures
        r == matches_object(rows@, entry_id, field_id, *op),
{
    let n = rows.len();
    let mut i: usize = 0;
    while i < n
        invariant
            n == rows@.len(),
            i <= n,
            forall|k: int| 0 <= k < i ==> !object_row_hit(#[trigger] rows@[k], entry_id, field_id, *op),
        decreases n - i,
    {
        let row = &rows[i];
        if row.entry_id == entry_id && row.field_id == field_id && eval_object_op(&row.value, op) {
            return true;
        }
        i = i + 1;
    }
    false
}

fn scan_edge(rows: &Vec<RelationRow>, entry_id: u128, field_id: u128) -> (r: bool)
    ensures
        r == has_edge(rows@, entry_id, field_id),
{
    let n = rows.len();
    let mut i: usize = 0;
    while i < n
        invariant
            n == rows@.len(),
            i <= n,
            forall|k: int|
                0 <= k < i ==> !((#[trigger] rows@[k]).from_entry_id == entry_id && rows@[k].field_id
                    == field_id),
        decreases n - i,
    {
        let row = &rows[i];
        if row.from_entry_id == entry_id && row.field_id == field_id {
            return true;
        }
        i = i + 1;
    }
    false
}

fn scan_edge_to(rows: &Vec<RelationRow>, entry_id: u128, field_id: u128, target: u128) -> (r: bool)
    ensures
        r == has_edge_to(rows@, entry_id, field_id, target),
{
    let n = rows.len();
    let mut i: usize = 0;
    while i < n
        invariant
            n == rows@.len(),
            i <= n,
            forall|k: int|
                0 <= k < i ==> !((#[trigger] rows@[k]).from_entry_id == entry_id && rows@[k].field_id
                    == field_id && rows@[k].to_entry_id == target),
        decreases n - i,
    {
        let row = &rows[i];
        if row.from_entry_id == entry_id && row.field_id == field_id && row.to_entry_id == target {
            return true;
        }
        i = i + 1;
    }
    false
}

/// Evaluates one compiled fragment against an entry.
pub fn eval_filter(store: &Store, entry_id: u128, f: &CompiledFilter) -> (r: bool)
    ensures
        r == filter_matches(*store, entry_id, *f),
{
    match f {
        CompiledFilter::Text { field_id, op } => scan_text(&store.text_rows, entry_id, *field_id, op),
        CompiledFilter::Number { field_id, comparison, value } => scan_number(
            &store.number_rows,
            entry_id,
            *field_id,
            *comparison,
            *value,
        ),
        CompiledFilter::Boolean { field_id, comparison, value } => scan_boolean(
            &store.boolean_rows,
            entry_id,
            *field_id,
            *comparison,
            *value,
        ),
        CompiledFilter::DateTime { field_id, comparison, value } => scan_date_time(
            &store.date_time_rows,
            entry_id,
            *field_id,
            *comparison,
            value.as_str(),
        ),
        CompiledFilter::TextList { field_id, op } => scan_text_list(
            &store.text_list_rows,
            entry_id,
            *field_id,
            op,
        ),
        CompiledFilter::NumberList { field_id, op } => scan_number_list(
            &store.number_list_rows,
            entry_id,
            *field_id,
            op,
        ),
        CompiledFilter::Relation { field_id, op } => match op {
            RelationOp::ConnectedTo(t) => scan_edge_to(
                &store.relation_rows,
                entry_id,
                *field_id,
                *t,
            ),
            RelationOp::NotConnectedTo(t) => scan_edge(&store.relation_rows, entry_id, *field_id)
                && !scan_edge_to(&store.relation_rows, entry_id, *field_id, *t),
            RelationOp::HasConnections => scan_edge(&store.relation_rows, entry_id, *field_id),
            RelationOp::HasNoConnections => false,
        },
        CompiledFilter::Object { field_id, op } => scan_object(
            &store.object_rows,
            entry_id,
            *field_id,
            op,
        ),
    }
}

/// Evaluates the conjunction of all compiled fragments against an entry.
pub fn eval_filters(store: &Store, entry_id: u128, fs: &Vec<CompiledFilter>) -> (r: bool)
    ensures
        r == entry_matches_all(*store, entry_id, fs@),
{
    let n = fs.len();
    let mut i: usize = 0;
    while i < n
        invariant
            n == fs@.len(),
            i <= n,
            forall|k: int| 0 <= k < i ==> filter_matches(*store, entry_id, #[trigger] fs@[k]),
        decreases n - i,
    {
        if !eval_filter(store, entry_id, &fs[i]) {
            return false;
        }
        i = i + 1;
    }
    true
}

/// With an empty compiled filter set, the selected entries are exactly
/// those belonging to the collection: a listing without filters returns
/// the whole collection.
pub proof fn lemma_no_filters_selects_collection(store: Store, collection_id: u128, e: Entry)
    ensures
        entry_selected(store, collection_id, Seq::<CompiledFilter>::empty(), e) == (
        e.collection_id == collection_id),
{
}

/// No value row for the fragment's field: the entry fails the fragment,
/// whatever the comparison — negatives included. The row scope of each
/// fragment is an inner join, not an outer one.
pub proof fn lemma_missing_row_excludes(store: Store, entry_id: u128, f: CompiledFilter)
    requires
        match f {
            CompiledFilter::Text { field_id, .. } => forall|i: int|
                0 <= i < store.text_rows@.len() ==> !((#[trigger] store.text_rows@[i]).entry_id
                    == entry_id && store.text_rows@[i].field_id == field_id),
            CompiledFilter::Number { field_id, .. } => forall|i: int|
                0 <= i < store.number_rows@.len() ==> !((#[trigger] store.number_rows@[i]).entry_id
                    == entry_id && store.number_rows@[i].field_id == field_id),
            CompiledFilter::Boolean { field_id, .. } => forall|i: int|
                0 <= i < store.boolean_rows@.len() ==> !((
                #[trigger] store.boolean_rows@[i]).entry_id == entry_id
                    && store.boolean_rows@[i].field_id == field_id),
            CompiledFilter::DateTime { field_id, .. } => forall|i: int|
                0 <= i < store.date_time_rows@.len() ==> !((
                #[trigger] store.date_time_rows@[i]).entry_id == entry_id
                    && store.date_time_rows@[i].field_id == field_id),
            CompiledFilter::TextList { field_id, .. } => forall|i: int|
                0 <= i < store.text_list_rows@.len() ==> !((
                #[trigger] store.text_list_rows@[i]).entry_id == entry_id
                    && store.text_list_rows@[i].field_id == field_id),
            CompiledFilter::NumberList { field_id, .. } => forall|i: int|
                0 <= i < store.number_list_rows@.len() ==> !((
                #[trigger] store.number_list_rows@[i]).entry_id == entry_id
                    && store.number_list_rows@[i].field_id == field_id),
            CompiledFilter::Relation { field_id, .. } => forall|i: int|
                0 <= i < store.relation_rows@.len() ==> !((
                #[trigger] store.relation_rows@[i]).from_entry_id == entry_id
                    && store.relation_rows@[i].field_id == field_id),
            CompiledFilter::Object { field_id, .. } => forall|i: int|
                0 <= i < store.object_rows@.len() ==> !((#[trigger] store.object_rows@[i]).entry_id
                    == entry_id && store.object_rows@[i].field_id == field_id),
        },
    ensures
        !filter_matches(store, entry_id, f),
{
}

/// Whether an entry belongs to the collection and satisfies every compiled
/// fragment.
pub open spec fn entry_selected(
    store: Store,
    collection_id: u128,
    cs: Seq<CompiledFilter>,
    e: Entry,
) -> bool {
    e.collection_id == collection_id && entry_matches_all(store, e.id, cs)
}

/// The subsequence of `entries` selected by the compiled predicate, in
/// storage order.
pub open spec fn selected_from(
    store: Store,
    collection_id: u128,
    cs: Seq<CompiledFilter>,
    entries: Seq<Entry>,
) -> Seq<Entry> {
    entries.filter(|e: Entry| entry_selected(store, collection_id, cs, e))
}

/// The values of the store's entries selected by the compiled predicate.
pub open spec fn selected_views(store: Store, collection_id: u128, cs: Seq<CompiledFilter>) -> Seq<
    EntryV,
> {
    entries_view(selected_from(store, collection_id, cs, store.entries@))
}

proof fn lemma_selected_take_step(
    store: Store,
    collection_id: u128,
    cs: Seq<CompiledFilter>,
    entries: Seq<Entry>,
    i: int,
)
    requires
        0 <= i < entries.len(),
    ensures
        selected_from(store, collection_id, cs, entries.take(i + 1)) == if entry_selected(
            store,
            collection_id,
            cs,
            entries[i],
        ) {
            selected_from(store, collection_id, cs, entries.take(i)).push(entries[i])
        } else {
            selected_from(store, collection_id, cs, entries.take(i))
        },
{
    let t = entries.take(i + 1);
    assert(t.drop_last() =~= entries.take(i));
    assert(t.last() == entries[i]);
    reveal(Seq::filter);
}

proof fn lemma_fields_of_take_step(fields: Seq<FieldV>, collection_id: u128, i: int)
    requires
        0 <= i < fields.len(),
    ensures
        fields_of(fields.take(i + 1), collection_id) == if fields[i].collection_id
            == collection_id {
            fields_of(fields.take(i), collection_id).push(fields[i])
        } else {
            fields_of(fields.take(i), collection_id)
        },
{
    let t = fields.take(i + 1);
    assert(t.drop_last() =~= fields.take(i));
    assert(t.last() == fields[i]);
    reveal(Seq::filter);
}

proof fn lemma_entries_view_push(s: Seq<Entry>, e: Entry)
    ensures
        entries_view(s.push(e)) =~= entries_view(s).push(e@),
{
}

proof fn lemma_entries_view_remove(s: Seq<Entry>, i: int)
    requires
        0 <= i < s.len(),
    ensures
        entries_view(s.remove(i)) =~= entries_view(s).remove(i),
{
}

proof fn lemma_fields_view_push(s: Seq<Field>, f: Field)
    ensures
        fields_view(s.push(f)) =~= fields_view(s).push(f@),
{
}

/// Loads the fields declared for a collection, in declaration order.
pub fn load_fields(store: &Store, collection_id: u128) -> (r: Vec<Field>)
    ensures
        fields_view(r@) == fields_of(fields_view(store.fields@), collection_id),
{
    let ghost fv = fields_view(store.fields@);
    let n = store.fields.len();
    let mut acc: Vec<Field> = Vec::new();
    let mut i: usize = 0;
    while i < n
        invariant
            n == store.fields@.len(),
            i <= n,
            fv == fields_view(store.fields@),
            fv.len() == n,
            fields_view(acc@) == fields_of(fv.take(i as int), collection_id),
        decreases n - i,
    {
        proof {
            lemma_fields_of_take_step(fv, collection_id, i as int);
            assert(fv[i as int] == store.fields@[i as int]@);
        }
        let f = &store.fields[i];
        if f.collection_id == collection_id {
            let ghost before = acc@;
            acc.push(f.clone());
            proof {
                lemma_fields_view_push(before, acc@[acc@.len() - 1]);
                assert(fields_view(acc@) =~= fields_view(before).push(fv[i as int]));
            }
        }
        i = i + 1;
    }
    proof {
        assert(fv.take(n as int) =~= fv);
    }
    acc
}

/// The single sort key: `created_at`, ascending or descending.
pub open spec fn created_le(a: EntryV, b: EntryV, order: EntryOrderBy) -> bool {
    match order {
        EntryOrderBy::Asc => a.created_at <= b.created_at,
        EntryOrderBy::Desc => a.created_at >= b.created_at,
    }
}

/// The sequence is sorted by `created_at` in the requested direction.
pub open spec fn entries_ordered(s: Seq<EntryV>, order: EntryOrderBy) -> bool {
    forall|i: int, j: int| 0 <= i < j < s.len() ==> created_le(s[i], s[j], order)
}

/// Sorts entries by creation time in the requested direction; ties keep an
/// arbitrary order.
pub fn sort_entries_by_created(entries: Vec<Entry>, order: EntryOrderBy) -> (out: Vec<Entry>)
    ensures
        entries_view(out@).to_multiset() == entries_view(entries@).to_multiset(),
        entries_ordered(entries_view(out@), order),
{
    broadcast use vstd::seq_lib::group_to_multiset_ensures;

    let ghost orig: Seq<Entry> = entries@;
    let mut rest = entries;
    let mut out: Vec<Entry> = Vec::new();
    while rest.len() > 0
        invariant
            entries_view(out@).to_multiset().add(entries_view(rest@).to_multiset())
                =~= entries_view(orig).to_multiset(),
            entries_ordered(entries_view(out@), order),
            forall|a: int, b: int|
                0 <= a < out@.len() && 0 <= b < rest@.len() ==> created_le(
                    entries_view(out@)[a],
                    entries_view(rest@)[b],
                    order,
                ),
        decreases rest@.len(),
    {
        let n = rest.len();
        let mut m: usize = 0;
        let mut k: usize = 1;
        while k < n
            invariant
                n == rest@.len(),
                n > 0,
                1 <= k <= n,
                m < k,
                forall|t: int|
                    0 <= t < k ==> created_le(
                        entries_view(rest@)[m as int],
                        entries_view(rest@)[t],
                        order,
                    ),
            decreases n - k,
        {
            let better = match order {
                EntryOrderBy::Asc => rest[k].created_at < rest[m].created_at,
                EntryOrderBy::Desc => rest[k].created_at > rest[m].created_at,
            };
            proof {
                assert(entries_view(rest@)[k as int] == rest@[k as int]@);
                assert(entries_view(rest@)[m as int] == rest@[m as int]@);
            }
            if better {
                m = k;
            }
            k = k + 1;
        }
        let ghost rest_before = rest@;
        let ghost out_before = out@;
        let x = rest.remove(m);
        out.push(x);
        proof {
            let xv = rest_before[m as int]@;
            lemma_entries_view_remove(rest_before, m as int);
            lemma_entries_view_push(out_before, rest_before[m as int]);
            entries_view(rest_before).to_multiset_ensures();
            entries_view(out_before).to_multiset_ensures();
            assert(entries_view(rest_before)[m as int] == xv);
            assert(entries_view(rest_before).contains(xv));
            assert(entries_view(rest@) == entries_view(rest_before).remove(m as int));
            assert(entries_view(out@) == entries_view(out_before).push(xv));
            assert(entries_view(rest@).to_multiset() =~= entries_view(
                rest_before,
            ).to_multiset().remove(xv));
            assert(entries_view(out@).to_multiset() =~= entries_view(
                out_before,
            ).to_multiset().insert(xv));
            assert(entries_view(out@).to_multiset().add(entries_view(rest@).to_multiset())
                =~= entries_view(orig).to_multiset());
            assert forall|a: int, b: int|
                0 <= a < out@.len() && 0 <= b < rest@.len() implies created_le(
                entries_view(out@)[a],
                entries_view(rest@)[b],
                order,
            ) by {
                assert(entries_view(rest@)[b] == entries_view(rest_before).remove(m as int)[b]);
                if a < out_before.len() {
                    assert(entries_view(out@)[a] == entries_view(out_before)[a]);
                } else {
                    assert(entries_view(out@)[a] == xv);
                }
            }
            assert(entries_ordered(entries_view(out@), order));
        }
    }
    out
}

/// Runs a compiled predicate over a collection's entries and orders the
/// result by creation time: the storage capability this engine models.
pub fn run_query(
    store: &Store,
    collection_id: u128,
    cs: &Vec<CompiledFilter>,
    order: EntryOrderBy,
) -> (r: Vec<Entry>)
    ensures
        entries_view(r@).to_multiset() == selected_views(*store, collection_id, cs@).to_multiset(),
        entries_ordered(entries_view(r@), order),
{
    let n = store.entries.len();
    let mut acc: Vec<Entry> = Vec::new();
    let mut i: usize = 0;
    while i < n
        invariant
            n == store.entries@.len(),
            i <= n,
            entries_view(acc@) == entries_view(
                selected_from(*store, collection_id, cs@, store.entries@.take(i as int)),
            ),
        decreases n - i,
    {
        proof {
            lemma_selected_take_step(*store, collection_id, cs@, store.entries@, i as int);
        }
        let e = &store.entries[i];
        if e.collection_id == collection_id && eval_filters(store, e.id, cs) {
            let ghost acc_before = acc@;
            let ghost sel_before = selected_from(
                *store,
                collection_id,
                cs@,
                store.entries@.take(i as int),
            );
            acc.push(e.clone());
            proof {
                lemma_entries_view_push(acc_before, acc@[acc@.len() - 1]);
                lemma_entries_view_push(sel_before, store.entries@[i as int]);
                assert(entries_view(acc@) =~= entries_view(acc_before).push(
                    store.entries@[i as int]@,
                ));
            }
        }
        i = i + 1;
    }
    proof {
        assert(store.entries@.take(n as int) =~= store.entries@);
    }
    sort_entries_by_created(acc, order)
}

} // verus!
