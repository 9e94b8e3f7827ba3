//! Entries and their sparse typed values.
//!
//! A value row exists per (entry, field) pair in a table specific to the
//! field's data kind; absence of a row means "no value set". Materialization
//! walks the collection's catalog and reassembles the values that exist into
//! a uniform list, omitting fields without a row.

use vstd::prelude::*;
use crate::collection::{DataType, Field, FieldV, fields_view, fields_of};
use crate::store::{
    BooleanRow, DateTimeRow, NumberListRow, NumberRow, ObjectRow, RelationRow, Store, TextListRow,
    TextRow, TypstTextRow,
};

verus! {

/// One record within a collection.
#[derive(Debug)]
pub struct Entry {
    pub id: u128,
    pub created_at: i64,
    pub collection_id: u128,
    pub created_by: u128,
    pub name: String,
}

/// The mathematical value of an entry.
pub ghost struct EntryV {
    pub id: u128,
    pub created_at: i64,
    pub collection_id: u128,
    pub created_by: u128,
    pub name: Seq<char>,
}

impl View for Entry {
    type V = EntryV;

    open spec fn view(&self) -> EntryV {
        EntryV {
            id: self.id,
            created_at: self.created_at,
            collection_id: self.collection_id,
            created_by: self.created_by,
            name: self.name@,
        }
    }
}

impl Clone for Entry {
    fn clone(&self) -> (r: Self)
        ensures
            r@ == self@,
    {
        Entry {
            id: self.id,
            created_at: self.created_at,
            collection_id: self.collection_id,
            created_by: self.created_by,
            name: self.name.clone(),
        }
    }
}

/// The values of an entry sequence, in order.
pub open spec fn entries_view(s: Seq<Entry>) -> Seq<EntryV> {
    s.map_values(|e: Entry| e@)
}

/// A directed edge between two entries through a Relation field.
#[derive(Debug, Clone, Copy, PartialEq, Eq, Structural)]
pub struct EntryRelation {
    pub from_entry_id: u128,
    pub to_entry_id: u128,
}

/// The first entry with the given id, if any.
pub open spec fn find_entry_by_id(entries: Seq<EntryV>, id: u128) -> Option<EntryV>
    decreases entries.len(),
{
    if entries.len() == 0 {
        None
    } else if entries[0].id == id {
        Some(entries[0])
    } else {
        find_entry_by_id(entries.skip(1), id)
    }
}

proof fn lemma_find_entry_by_id_step(entries: Seq<EntryV>, id: u128, i: int)
    requires
        0 <= i < entries.len(),
        forall|k: int| 0 <= k < i ==> entries[k].id != id,
    ensures
        entries[i].id == id ==> find_entry_by_id(entries, id) == Some(entries[i]),
        entries[i].id != id && i == entries.len() - 1 ==> find_entry_by_id(entries, id) is None,
    decreases i,
{
    if i == 0 {
        if entries[0].id != id && entries.len() == 1 {
            assert(entries.skip(1).len() == 0);
        }
    } else {
        lemma_find_entry_by_id_step(entries.skip(1), id, i - 1);
        assert(entries.skip(1)[i - 1] == entries[i]);
    }
}

proof fn lemma_find_entry_by_id_none(entries: Seq<EntryV>, id: u128)
    requires
        forall|k: int| 0 <= k < entries.len() ==> entries[k].id != id,
    ensures
        find_entry_by_id(entries, id) is None,
    decreases entries.len(),
{
    if entries.len() > 0 {
        lemma_find_entry_by_id_none(entries.skip(1), id);
    }
}

/// Looks an entry up by id: the lazy lookup a relation value exposes.
fn lookup_entry(store: &Store, id: u128) -> (r: Option<Entry>)
    ensures
        match r {
            Some(e) => find_entry_by_id(entries_view(store.entries@), id) == Some(e@),
            None => find_entry_by_id(entries_view(store.entries@), id) is None,
        },
{
    let n = store.entries.len();
    let mut i: usize = 0;
    while i < n
        invariant
            n == store.entries@.len(),
            i <= n,
            forall|k: int| #![trigger entries_view(store.entries@).index(k)]
                0 <= k < i ==> entries_view(store.entries@)[k].id != id,
        decreases n - i,
    {
        proof {
            assert(entries_view(store.entries@)[i as int] == store.entries@[i as int]@);
        }
        if store.entries[i].id == id {
            proof {
                lemma_find_entry_by_id_step(entries_view(store.entries@), id, i as int);
            }
            return Some(store.entries[i].clone());
        }
        i = i + 1;
    }
    proof {
        lemma_find_entry_by_id_none(entries_view(store.entries@), id);
    }
    None
}

impl EntryRelation {
    /// The entry this edge starts from, looked up lazily in the store.
    pub fn from_entry(&self, store: &Store) -> (r: Option<Entry>)
        ensures
            match r {
                Some(e) => find_entry_by_id(entries_view(store.entries@), self.from_entry_id)
                    == Some(e@),
                None => find_entry_by_id(entries_view(store.entries@), self.from_entry_id)
                    is None,
            },
    {
        lookup_entry(store, self.from_entry_id)
    }

    /// The entry this edge points to, looked up lazily in the store.
    pub fn to_entry(&self, store: &Store) -> (r: Option<Entry>)
        ensures
            match r {
                Some(e) => find_entry_by_id(entries_view(store.entries@), self.to_entry_id)
                    == Some(e@),
                None => find_entry_by_id(entries_view(store.entries@), self.to_entry_id) is None,
            },
    {
        lookup_entry(store, self.to_entry_id)
    }
}

/// A source text with its rendered form; rendering happens outside this
/// engine.
#[derive(Debug)]
pub struct TypstText {
    pub raw: String,
    pub rendered: String,
}

/// An opaque JSON payload carried as its text.
#[derive(Debug)]
pub struct EntryObject {
    pub value: String,
}

#[derive(Debug)]
pub struct TextValue {
    pub value: Option<String>,
}

#[derive(Debug)]
pub struct BooleanValue {
    pub value: Option<bool>,
}

/// Numbers are 64-bit integers in this engine.
#[derive(Debug)]
pub struct NumberValue {
    pub value: Option<i64>,
}

/// A timestamp carried as its ISO-8601 text.
#[derive(Debug)]
pub struct DateTimeValue {
    pub value: Option<String>,
}

#[derive(Debug)]
pub struct TextListValue {
    pub value: Vec<String>,
}

#[derive(Debug)]
pub struct NumberListValue {
    pub value: Vec<i64>,
}

/// The closed union of typed values, one variant per data kind.
#[derive(Debug)]
pub enum ValueType {
    Text(TextValue),
    TypstText(TypstText),
    Boolean(BooleanValue),
    Number(NumberValue),
    Relation(EntryRelation),
    DateTime(DateTimeValue),
    TextList(TextListValue),
    NumberList(NumberListValue),
    Object(EntryObject),
}

/// One materialized (field, value) pair.
#[derive(Debug)]
pub struct FieldValue {
    pub field: Field,
    pub value: ValueType,
}


/// The first text value row for (entry, field), if any.
pub open spec fn find_text_row(rows: Seq<TextRow>, entry_id: u128, field_id: u128) -> Option<TextRow>
    decreases rows.len(),
{
    if rows.len() == 0 {
        None
    } else if rows[0].entry_id == entry_id && rows[0].field_id == field_id {
        Some(rows[0])
    } else {
        find_text_row(rows.skip(1), entry_id, field_id)
    }
}

proof fn lemma_find_text_row_step(rows: Seq<TextRow>, entry_id: u128, field_id: u128, i: int)
    requires
        0 <= i < rows.len(),
        forall|k: int|
            0 <= k < i ==> !(rows[k].entry_id == entry_id && rows[k].field_id == field_id),
    ensures
        rows[i].entry_id == entry_id && rows[i].field_id == field_id ==> find_text_row(
            rows,
            entry_id,
            field_id,
        ) == Some(rows[i]),
    decreases i,
{
    if i > 0 {
        lemma_find_text_row_step(rows.skip(1), entry_id, field_id, i - 1);
        assert(rows.skip(1)[i - 1] == rows[i]);
    }
}

proof fn lemma_find_text_row_none(rows: Seq<TextRow>, entry_id: u128, field_id: u128)
    requires
        forall|k: int|
            0 <= k < rows.len() ==> !(rows[k].entry_id == entry_id && rows[k].field_id
                == field_id),
    ensures
        find_text_row(rows, entry_id, field_id) is None,
    decreases rows.len(),
{
    if rows.len() > 0 {
        lemma_find_text_row_none(rows.skip(1), entry_id, field_id);
    }
}

fn get_text_row<'a>(rows: &'a Vec<TextRow>, entry_id: u128, field_id: u128) -> (r: Option<
    &'a TextRow,
>)
    ensures
        match r {
            Some(row) => find_text_row(rows@, entry_id, field_id) == Some(*row),
            None => find_text_row(rows@, entry_id, field_id) is None,
        },
{
    let n = rows.len();
    let mut i: usize = 0;
    while i < n
        invariant
            n == rows@.len(),
            i <= n,
            forall|k: int|
                0 <= k < i ==> !(rows@[k].entry_id == entry_id && rows@[k].field_id == field_id),
        decreases n - i,
    {
        if rows[i].entry_id == entry_id && rows[i].field_id == field_id {
            proof {
                lemma_find_text_row_step(rows@, entry_id, field_id, i as int);
            }
            return Some(&rows[i]);
        }
        i = i + 1;
    }
    proof {
        lemma_find_text_row_none(rows@, entry_id, field_id);
    }
    None
}


/// The first typst-text value row for (entry, field), if any.
pub open spec fn find_typst_text_row(rows: Seq<TypstTextRow>, entry_id: u128, field_id: u128) -> Option<TypstTextRow>
    decreases rows.len(),
{
    if rows.len() == 0 {
        None
    } else if rows[0].entry_id == entry_id && rows[0].field_id == field_id {
        Some(rows[0])
    } else {
        find_typst_text_row(rows.skip(1), entry_id, field_id)
    }
}

proof fn lemma_find_typst_text_row_step(rows: Seq<TypstTextRow>, entry_id: u128, field_id: u128, i: int)
    requires
        0 <= i < rows.len(),
        forall|k: int|
            0 <= k < i ==> !(rows[k].entry_id == entry_id && rows[k].field_id == field_id),
    ensures
        rows[i].entry_id == entry_id && rows[i].field_id == field_id ==> find_typst_text_row(
            rows,
            entry_id,
            field_id,
        ) == Some(rows[i]),
    decreases i,
{
    if i > 0 {
        lemma_find_typst_text_row_step(rows.skip(1), entry_id, field_id, i - 1);
        assert(rows.skip(1)[i - 1] == rows[i]);
    }
}

proof fn lemma_find_typst_text_row_none(rows: Seq<TypstTextRow>, entry_id: u128, field_id: u128)
    requires
        forall|k: int|
            0 <= k < rows.len() ==> !(rows[k].entry_id == entry_id && rows[k].field_id
                == field_id),
    ensures
        find_typst_text_row(rows, entry_id, field_id) is None,
    decreases rows.len(),
{
    if rows.len() > 0 {
        lemma_find_typst_text_row_none(rows.skip(1), entry_id, field_id);
    }
}

fn get_typst_text_row<'a>(rows: &'a Vec<TypstTextRow>, entry_id: u128, field_id: u128) -> (r: Option<
    &'a TypstTextRow,
>)
    ensures
        match r {
            Some(row) => find_typst_text_row(rows@, entry_id, field_id) == Some(*row),
            None => find_typst_text_row(rows@, entry_id, field_id) is None,
        },
{
    let n = rows.len();
    let mut i: usize = 0;
    while i < n
        invariant
            n == rows@.len(),
            i <= n,
            forall|k: int|
                0 <= k < i ==> !(rows@[k].entry_id == entry_id && rows@[k].field_id == field_id),
        decreases n - i,
    {
        if rows[i].entry_id == entry_id && rows[i].field_id == field_id {
            proof {
                lemma_find_typst_text_row_step(rows@, entry_id, field_id, i as int);
            }
            return Some(&rows[i]);
        }
        i = i + 1;
    }
    proof {
        lemma_find_typst_text_row_none(rows@, entry_id, field_id);
    }
    None
}


/// The first boolean value row for (entry, field), if any.
pub open spec fn find_boolean_row(rows: Seq<BooleanRow>, entry_id: u128, field_id: u128) -> Option<BooleanRow>
    decreases rows.len(),
{
    if rows.len() == 0 {
        None
    } else if rows[0].entry_id == entry_id && rows[0].field_id == field_id {
        Some(rows[0])
    } else {
        find_boolean_row(rows.skip(1), entry_id, field_id)
    }
}

proof fn lemma_find_boolean_row_step(rows: Seq<BooleanRow>, entry_id: u128, field_id: u128, i: int)
    requires
        0 <= i < rows.len(),
        forall|k: int|
            0 <= k < i ==> !(rows[k].entry_id == entry_id && rows[k].field_id == field_id),
    ensures
        rows[i].entry_id == entry_id && rows[i].field_id == field_id ==> find_boolean_row(
            rows,
            entry_id,
            field_id,
        ) == Some(rows[i]),
    decreases i,
{
    if i > 0 {
        lemma_find_boolean_row_step(rows.skip(1), entry_id, field_id, i - 1);
        assert(rows.skip(1)[i - 1] == rows[i]);
    }
}

proof fn lemma_find_boolean_row_none(rows: Seq<BooleanRow>, entry_id: u128, field_id: u128)
    requires
        forall|k: int|
            0 <= k < rows.len() ==> !(rows[k].entry_id == entry_id && rows[k].field_id
                == field_id),
    ensures
        find_boolean_row(rows, entry_id, field_id) is None,
    decreases rows.len(),
{
    if rows.len() > 0 {
        lemma_find_boolean_row_none(rows.skip(1), entry_id, field_id);
    }
}

fn get_boolean_row<'a>(rows: &'a Vec<BooleanRow>, entry_id: u128, field_id: u128) -> (r: Option<
    &'a BooleanRow,
>)
    ensures
        match r {
            Some(row) => find_boolean_row(rows@, entry_id, field_id) == Some(*row),
            None => find_boolean_row(rows@, entry_id, field_id) is None,
        },
{
    let n = rows.len();
    let mut i: usize = 0;
    while i < n
        invariant
            n == rows@.len(),
            i <= n,
            forall|k: int|
                0 <= k < i ==> !(rows@[k].entry_id == entry_id && rows@[k].field_id == field_id),
        decreases n - i,
    {
        if rows[i].entry_id == entry_id && rows[i].field_id == field_id {
            proof {
                lemma_find_boolean_row_step(rows@, entry_id, field_id, i as int);
            }
            return Some(&rows[i]);
        }
        i = i + 1;
    }
    proof {
        lemma_find_boolean_row_none(rows@, entry_id, field_id);
    }
    None
}


/// The first number value row for (entry, field), if any.
pub open spec fn find_number_row(rows: Seq<NumberRow>, entry_id: u128, field_id: u128) -> Option<NumberRow>
    decreases rows.len(),
{
    if rows.len() == 0 {
        None
    } else if rows[0].entry_id == entry_id && rows[0].field_id == field_id {
        Some(rows[0])
    } else {
        find_number_row(rows.skip(1), entry_id, field_id)
    }
}

proof fn lemma_find_number_row_step(rows: Seq<NumberRow>, entry_id: u128, field_id: u128, i: int)
    requires
        0 <= i < rows.len(),
        forall|k: int|
            0 <= k < i ==> !(rows[k].entry_id == entry_id && rows[k].field_id == field_id),
    ensures
        rows[i].entry_id == entry_id && rows[i].field_id == field_id ==> find_number_row(
            rows,
            entry_id,
            field_id,
        ) == Some(rows[i]),
    decreases i,
{
    if i > 0 {
        lemma_find_number_row_step(rows.skip(1), entry_id, field_id, i - 1);
        assert(rows.skip(1)[i - 1] == rows[i]);
    }
}

proof fn lemma_find_number_row_none(rows: Seq<NumberRow>, entry_id: u128, field_id: u128)
    requires
        forall|k: int|
            0 <= k < rows.len() ==> !(rows[k].entry_id == entry_id && rows[k].field_id
                == field_id),
    ensures
        find_number_row(rows, entry_id, field_id) is None,
    decreases rows.len(),
{
    if rows.len() > 0 {
        lemma_find_number_row_none(rows.skip(1), entry_id, field_id);
    }
}

fn get_number_row<'a>(rows: &'a Vec<NumberRow>, entry_id: u128, field_id: u128) -> (r: Option<
    &'a NumberRow,
>)
    ensures
        match r {
            Some(row) => find_number_row(rows@, entry_id, field_id) == Some(*row),
            None => find_number_row(rows@, entry_id, field_id) is None,
        },
{
    let n = rows.len();
    let mut i: usize = 0;
    while i < n
        invariant
            n == rows@.len(),
            i <= n,
            forall|k: int|
                0 <= k < i ==> !(rows@[k].entry_id == entry_id && rows@[k].field_id == field_id),
        decreases n - i,
    {
        if rows[i].entry_id == entry_id && rows[i].field_id == field_id {
            proof {
                lemma_find_number_row_step(rows@, entry_id, field_id, i as int);
            }
            return Some(&rows[i]);
        }
        i = i + 1;
    }
    proof {
        lemma_find_number_row_none(rows@, entry_id, field_id);
    }
    None
}


/// The first date-time value row for (entry, field), if any.
pub open spec fn find_date_time_row(rows: Seq<DateTimeRow>, entry_id: u128, field_id: u128) -> Option<DateTimeRow>
    decreases rows.len(),
{
    if rows.len() == 0 {
        None
    } else if rows[0].entry_id == entry_id && rows[0].field_id == field_id {
        Some(rows[0])
    } else {
        find_date_time_row(rows.skip(1), entry_id, field_id)
    }
}

proof fn lemma_find_date_time_row_step(rows: Seq<DateTimeRow>, entry_id: u128, field_id: u128, i: int)
    requires
        0 <= i < rows.len(),
        forall|k: int|
            0 <= k < i ==> !(rows[k].entry_id == entry_id && rows[k].field_id == field_id),
    ensures
        rows[i].entry_id == entry_id && rows[i].field_id == field_id ==> find_date_time_row(
            rows,
            entry_id,
            field_id,
        ) == Some(rows[i]),
    decreases i,
{
    if i > 0 {
        lemma_find_date_time_row_step(rows.skip(1), entry_id, field_id, i - 1);
        assert(rows.skip(1)[i - 1] == rows[i]);
    }
}

proof fn lemma_find_date_time_row_none(rows: Seq<DateTimeRow>, entry_id: u128, field_id: u128)
    requires
        forall|k: int|
            0 <= k < rows.len() ==> !(rows[k].entry_id == entry_id && rows[k].field_id
                == field_id),
    ensures
        find_date_time_row(rows, entry_id, field_id) is None,
    decreases rows.len(),
{
    if rows.len() > 0 {
        lemma_find_date_time_row_none(rows.skip(1), entry_id, field_id);
    }
}

fn get_date_time_row<'a>(rows: &'a Vec<DateTimeRow>, entry_id: u128, field_id: u128) -> (r: Option<
    &'a DateTimeRow,
>)
    ensures
        match r {
            Some(row) => find_date_time_row(rows@, entry_id, field_id) == Some(*row),
            None => find_date_time_row(rows@, entry_id, field_id) is None,
        },
{
    let n = rows.len();
    let mut i: usize = 0;
    while i < n
        invariant
            n == rows@.len(),
            i <= n,
            forall|k: int|
                0 <= k < i ==> !(rows@[k].entry_id == entry_id && rows@[k].field_id == field_id),
        decreases n - i,
    {
        if rows[i].entry_id == entry_id && rows[i].field_id == field_id {
            proof {
                lemma_find_date_time_row_step(rows@, entry_id, field_id, i as int);
            }
            return Some(&rows[i]);
        }
        i = i + 1;
    }
    proof {
        lemma_find_date_time_row_none(rows@, entry_id, field_id);
    }
    None
}


/// The first text-list value row for (entry, field), if any.
pub open spec fn find_text_list_row(rows: Seq<TextListRow>, entry_id: u128, field_id: u128) -> Option<TextListRow>
    decreases rows.len(),
{
    if rows.len() == 0 {
        None
    } else if rows[0].entry_id == entry_id && rows[0].field_id == field_id {
        Some(rows[0])
    } else {
        find_text_list_row(rows.skip(1), entry_id, field_id)
    }
}

proof fn lemma_find_text_list_row_step(rows: Seq<TextListRow>, entry_id: u128, field_id: u128, i: int)
    requires
        0 <= i < rows.len(),
        forall|k: int|
            0 <= k < i ==> !(rows[k].entry_id == entry_id && rows[k].field_id == field_id),
    ensures
        rows[i].entry_id == entry_id && rows[i].field_id == field_id ==> find_text_list_row(
            rows,
            entry_id,
            field_id,
        ) == Some(rows[i]),
    decreases i,
{
    if i > 0 {
        lemma_find_text_list_row_step(rows.skip(1), entry_id, field_id, i - 1);
        assert(rows.skip(1)[i - 1] == rows[i]);
    }
}

proof fn lemma_find_text_list_row_none(rows: Seq<TextListRow>, entry_id: u128, field_id: u128)
    requires
        forall|k: int|
            0 <= k < rows.len() ==> !(rows[k].entry_id == entry_id && rows[k].field_id
                == field_id),
    ensures
        find_text_list_row(rows, entry_id, field_id) is None,
    decreases rows.len(),
{
    if rows.len() > 0 {
        lemma_find_text_list_row_none(rows.skip(1), entry_id, field_id);
    }
}

fn get_text_list_row<'a>(rows: &'a Vec<TextListRow>, entry_id: u128, field_id: u128) -> (r: Option<
    &'a TextListRow,
>)
    ensures
        match r {
            Some(row) => find_text_list_row(rows@, entry_id, field_id) == Some(*row),
            None => find_text_list_row(rows@, entry_id, field_id) is None,
        },
{
    let n = rows.len();
    let mut i: usize = 0;
    while i < n
        invariant
            n == rows@.len(),
            i <= n,
            forall|k: int|
                0 <= k < i ==> !(rows@[k].entry_id == entry_id && rows@[k].field_id == field_id),
        decreases n - i,
    {
        if rows[i].entry_id == entry_id && rows[i].field_id == field_id {
            proof {
                lemma_find_text_list_row_step(rows@, entry_id, field_id, i as int);
            }
            return Some(&rows[i]);
        }
        i = i + 1;
    }
    proof {
        lemma_find_text_list_row_none(rows@, entry_id, field_id);
    }
    None
}


/// The first number-list value row for (entry, field), if any.
pub open spec fn find_number_list_row(rows: Seq<NumberListRow>, entry_id: u128, field_id: u128) -> Option<NumberListRow>
    decreases rows.len(),
{
    if rows.len() == 0 {
        None
    } else if rows[0].entry_id == entry_id && rows[0].field_id == field_id {
        Some(rows[0])
    } else {
        find_number_list_row(rows.skip(1), entry_id, field_id)
    }
}

proof fn lemma_find_number_list_row_step(rows: Seq<NumberListRow>, entry_id: u128, field_id: u128, i: int)
    requires
        0 <= i < rows.len(),
        forall|k: int|
            0 <= k < i ==> !(rows[k].entry_id == entry_id && rows[k].field_id == field_id),
    ensures
        rows[i].entry_id == entry_id && rows[i].field_id == field_id ==> find_number_list_row(
            rows,
            entry_id,
            field_id,
        ) == Some(rows[i]),
    decreases i,
{
    if i > 0 {
        lemma_find_number_list_row_step(rows.skip(1), entry_id, field_id, i - 1);
        assert(rows.skip(1)[i - 1] == rows[i]);
    }
}

proof fn lemma_find_number_list_row_none(rows: Seq<NumberListRow>, entry_id: u128, field_id: u128)
    requires
        forall|k: int|
            0 <= k < rows.len() ==> !(rows[k].entry_id == entry_id && rows[k].field_id
                == field_id),
    ensures
        find_number_list_row(rows, entry_id, field_id) is None,
    decreases rows.len(),
{
    if rows.len() > 0 {
        lemma_find_number_list_row_none(rows.skip(1), entry_id, field_id);
    }
}

fn get_number_list_row<'a>(rows: &'a Vec<NumberListRow>, entry_id: u128, field_id: u128) -> (r: Option<
    &'a NumberListRow,
>)
    ensures
        match r {
            Some(row) => find_number_list_row(rows@, entry_id, field_id) == Some(*row),
            None => find_number_list_row(rows@, entry_id, field_id) is None,
        },
{
    let n = rows.len();
    let mut i: usize = 0;
    while i < n
        invariant
            n == rows@.len(),
            i <= n,
            forall|k: int|
                0 <= k < i ==> !(rows@[k].entry_id == entry_id && rows@[k].field_id == field_id),
        decreases n - i,
    {
        if rows[i].entry_id == entry_id && rows[i].field_id == field_id {
            proof {
                lemma_find_number_list_row_step(rows@, entry_id, field_id, i as int);
            }
            return Some(&rows[i]);
        }
        i = i + 1;
    }
    proof {
        lemma_find_number_list_row_none(rows@, entry_id, field_id);
    }
    None
}


/// The first object value row for (entry, field), if any.
pub open spec fn find_object_row(rows: Seq<ObjectRow>, entry_id: u128, field_id: u128) -> Option<ObjectRow>
    decreases rows.len(),
{
    if rows.len() == 0 {
        None
    } else if rows[0].entry_id == entry_id && rows[0].field_id == field_id {
        Some(rows[0])
    } else {
        find_object_row(rows.skip(1), entry_id, field_id)
    }
}

proof fn lemma_find_object_row_step(rows: Seq<ObjectRow>, entry_id: u128, field_id: u128, i: int)
    requires
        0 <= i < rows.len(),
        forall|k: int|
            0 <= k < i ==> !(rows[k].entry_id == entry_id && rows[k].field_id == field_id),
    ensures
        rows[i].entry_id == entry_id && rows[i].field_id == field_id ==> find_object_row(
            rows,
            entry_id,
            field_id,
        ) == Some(rows[i]),
    decreases i,
{
    if i > 0 {
        lemma_find_object_row_step(rows.skip(1), entry_id, field_id, i - 1);
        assert(rows.skip(1)[i - 1] == rows[i]);
    }
}

proof fn lemma_find_object_row_none(rows: Seq<ObjectRow>, entry_id: u128, field_id: u128)
    requires
        forall|k: int|
            0 <= k < rows.len() ==> !(rows[k].entry_id == entry_id && rows[k].field_id
                == field_id),
    ensures
        find_object_row(rows, entry_id, field_id) is None,
    decreases rows.len(),
{
    if rows.len() > 0 {
        lemma_find_object_row_none(rows.skip(1), entry_id, field_id);
    }
}

fn get_object_row<'a>(rows: &'a Vec<ObjectRow>, entry_id: u128, field_id: u128) -> (r: Option<
    &'a ObjectRow,
>)
    ensures
        match r {
            Some(row) => find_object_row(rows@, entry_id, field_id) == Some(*row),
            None => find_object_row(rows@, entry_id, field_id) is None,
        },
{
    let n = rows.len();
    let mut i: usize = 0;
    while i < n
        invariant
            n == rows@.len(),
            i <= n,
            forall|k: int|
                0 <= k < i ==> !(rows@[k].entry_id == entry_id && rows@[k].field_id == field_id),
        decreases n - i,
    {
        if rows[i].entry_id == entry_id && rows[i].field_id == field_id {
            proof {
                lemma_find_object_row_step(rows@, entry_id, field_id, i as int);
            }
            return Some(&rows[i]);
        }
        i = i + 1;
    }
    proof {
        lemma_find_object_row_none(rows@, entry_id, field_id);
    }
    None
}


/// The first relation edge leaving (entry, field), if any.
pub open spec fn find_relation_row(rows: Seq<RelationRow>, entry_id: u128, field_id: u128) -> Option<
    RelationRow,
>
    decreases rows.len(),
{
    if rows.len() == 0 {
        None
    } else if rows[0].from_entry_id == entry_id && rows[0].field_id == field_id {
        Some(rows[0])
    } else {
        find_relation_row(rows.skip(1), entry_id, field_id)
    }
}

proof fn lemma_find_relation_row_step(rows: Seq<RelationRow>, entry_id: u128, field_id: u128, i: int)
    requires
        0 <= i < rows.len(),
        forall|k: int|
            0 <= k < i ==> !(rows[k].from_entry_id == entry_id && rows[k].field_id == field_id),
    ensures
        rows[i].from_entry_id == entry_id && rows[i].field_id == field_id ==> find_relation_row(
            rows,
            entry_id,
            field_id,
        ) == Some(rows[i]),
    decreases i,
{
    if i > 0 {
        lemma_find_relation_row_step(rows.skip(1), entry_id, field_id, i - 1);
        assert(rows.skip(1)[i - 1] == rows[i]);
    }
}

proof fn lemma_find_relation_row_none(rows: Seq<RelationRow>, entry_id: u128, field_id: u128)
    requires
        forall|k: int|
            0 <= k < rows.len() ==> !(rows[k].from_entry_id == entry_id && rows[k].field_id
                == field_id),
    ensures
        find_relation_row(rows, entry_id, field_id) is None,
    decreases rows.len(),
{
    if rows.len() > 0 {
        lemma_find_relation_row_none(rows.skip(1), entry_id, field_id);
    }
}

fn get_relation_row<'a>(rows: &'a Vec<RelationRow>, entry_id: u128, field_id: u128) -> (r: Option<
    &'a RelationRow,
>)
    ensures
        match r {
            Some(row) => find_relation_row(rows@, entry_id, field_id) == Some(*row),
            None => find_relation_row(rows@, entry_id, field_id) is None,
        },
{
    let n = rows.len();
    let mut i: usize = 0;
    while i < n
        invariant
            n == rows@.len(),
            i <= n,
            forall|k: int|
                0 <= k < i ==> !(rows@[k].from_entry_id == entry_id && rows@[k].field_id
                    == field_id),
        decreases n - i,
    {
        if rows[i].from_entry_id == entry_id && rows[i].field_id == field_id {
            proof {
                lemma_find_relation_row_step(rows@, entry_id, field_id, i as int);
            }
            return Some(&rows[i]);
        }
        i = i + 1;
    }
    proof {
        lemma_find_relation_row_none(rows@, entry_id, field_id);
    }
    None
}


/// A nullable string payload as its character sequence.
pub open spec fn opt_str(v: Option<String>) -> Option<Seq<char>> {
    match v {
        Some(s) => Some(s@),
        None => None,
    }
}

/// The character sequences of a string list.
pub open spec fn strs_view(v: Seq<String>) -> Seq<Seq<char>> {
    v.map_values(|s: String| s@)
}

/// Whether a value row exists for (entry, field) in the table of the
/// field's data kind.
pub open spec fn has_row(store: Store, dt: DataType, entry_id: u128, field_id: u128) -> bool {
    match dt {
        DataType::Text => find_text_row(store.text_rows@, entry_id, field_id) is Some,
        DataType::TypstText => find_typst_text_row(store.typst_text_rows@, entry_id, field_id)
            is Some,
        DataType::Boolean => find_boolean_row(store.boolean_rows@, entry_id, field_id) is Some,
        DataType::Number => find_number_row(store.number_rows@, entry_id, field_id) is Some,
        DataType::DateTime => find_date_time_row(store.date_time_rows@, entry_id, field_id)
            is Some,
        DataType::TextList => find_text_list_row(store.text_list_rows@, entry_id, field_id)
            is Some,
        DataType::NumberList => find_number_list_row(store.number_list_rows@, entry_id, field_id)
            is Some,
        DataType::Relation => find_relation_row(store.relation_rows@, entry_id, field_id) is Some,
        DataType::Object => find_object_row(store.object_rows@, entry_id, field_id) is Some,
    }
}

/// `r` is the typed value of (entry, field) under the field's data kind:
/// the first stored row of the kind's table converted to the value union,
/// or nothing when no row exists.
pub open spec fn value_of(
    store: Store,
    dt: DataType,
    entry_id: u128,
    field_id: u128,
    r: Option<ValueType>,
) -> bool {
    match dt {
        DataType::Text => match find_text_row(store.text_rows@, entry_id, field_id) {
            Some(row) => r matches Some(ValueType::Text(tv)) && opt_str(tv.value) == opt_str(
                row.value,
            ),
            None => r is None,
        },
        DataType::TypstText => match find_typst_text_row(
            store.typst_text_rows@,
            entry_id,
            field_id,
        ) {
            Some(row) => r matches Some(ValueType::TypstText(t)) && t.raw@ == row.raw@
                && t.rendered@ == row.rendered@,
            None => r is None,
        },
        DataType::Boolean => match find_boolean_row(store.boolean_rows@, entry_id, field_id) {
            Some(row) => r matches Some(ValueType::Boolean(bv)) && bv.value == row.value,
            None => r is None,
        },
        DataType::Number => match find_number_row(store.number_rows@, entry_id, field_id) {
            Some(row) => r matches Some(ValueType::Number(nv)) && nv.value == row.value,
            None => r is None,
        },
        DataType::DateTime => match find_date_time_row(store.date_time_rows@, entry_id, field_id) {
            Some(row) => r matches Some(ValueType::DateTime(dv)) && opt_str(dv.value) == opt_str(
                row.value,
            ),
            None => r is None,
        },
        DataType::TextList => match find_text_list_row(store.text_list_rows@, entry_id, field_id) {
            Some(row) => r matches Some(ValueType::TextList(lv)) && strs_view(lv.value@) == (
            match row.value {
                Some(l) => strs_view(l@),
                None => Seq::<Seq<char>>::empty(),
            }),
            None => r is None,
        },
        DataType::NumberList => match find_number_list_row(
            store.number_list_rows@,
            entry_id,
            field_id,
        ) {
            Some(row) => r matches Some(ValueType::NumberList(lv)) && lv.value@ == (
            match row.value {
                Some(l) => l@,
                None => Seq::<i64>::empty(),
            }),
            None => r is None,
        },
        DataType::Relation => match find_relation_row(store.relation_rows@, entry_id, field_id) {
            Some(row) => r matches Some(ValueType::Relation(er)) && er.from_entry_id
                == row.from_entry_id && er.to_entry_id == row.to_entry_id,
            None => r is None,
        },
        DataType::Object => match find_object_row(store.object_rows@, entry_id, field_id) {
            Some(row) => r matches Some(ValueType::Object(o)) && (match row.value {
                Some(s) => o.value@ == s@,
                None => o.value@ == "null"@,
            }),
            None => r is None,
        },
    }
}

fn clone_opt_string(v: &Option<String>) -> (r: Option<String>)
    ensures
        opt_str(r) == opt_str(*v),
{
    match v {
        Some(s) => Some(s.clone()),
        None => None,
    }
}

fn clone_strings(v: &Vec<String>) -> (r: Vec<String>)
    ensures
        strs_view(r@) == strs_view(v@),
{
    let n = v.len();
    let mut out: Vec<String> = Vec::new();
    let mut i: usize = 0;
    while i < n
        invariant
            n == v@.len(),
            i <= n,
            out@.len() == i,
            forall|k: int| 0 <= k < i ==> out@[k]@ == v@[k]@,
        decreases n - i,
    {
        out.push(v[i].clone());
        i = i + 1;
    }
    proof {
        assert(strs_view(out@) =~= strs_view(v@));
    }
    out
}

fn clone_numbers(v: &Vec<i64>) -> (r: Vec<i64>)
    ensures
        r@ == v@,
{
    let n = v.len();
    let mut out: Vec<i64> = Vec::new();
    let mut i: usize = 0;
    while i < n
        invariant
            n == v@.len(),
            i <= n,
            out@ == v@.take(i as int),
        decreases n - i,
    {
        out.push(v[i]);
        proof {
            assert(out@ =~= v@.take(i + 1));
        }
        i = i + 1;
    }
    proof {
        assert(v@.take(n as int) =~= v@);
    }
    out
}

impl ValueType {
    /// Fetches the typed value of (entry, field) from the table of the
    /// field's data kind; no stored row yields nothing.
    pub fn from_data_type(
        data_type: DataType,
        entry_id: u128,
        field_id: u128,
        store: &Store,
    ) -> (r: Option<ValueType>)
        ensures
            value_of(*store, data_type, entry_id, field_id, r),
            r is Some == has_row(*store, data_type, entry_id, field_id),
    {
        match data_type {
            DataType::Text => match get_text_row(&store.text_rows, entry_id, field_id) {
                Some(row) => Some(
                    ValueType::Text(TextValue { value: clone_opt_string(&row.value) }),
                ),
                None => None,
            },
            DataType::TypstText => match get_typst_text_row(
                &store.typst_text_rows,
                entry_id,
                field_id,
            ) {
                Some(row) => Some(
                    ValueType::TypstText(
                        TypstText { raw: row.raw.clone(), rendered: row.rendered.clone() },
                    ),
                ),
                None => None,
            },
            DataType::Boolean => match get_boolean_row(&store.boolean_rows, entry_id, field_id) {
                Some(row) => Some(ValueType::Boolean(BooleanValue { value: row.value })),
                None => None,
            },
            DataType::Number => match get_number_row(&store.number_rows, entry_id, field_id) {
                Some(row) => Some(ValueType::Number(NumberValue { value: row.value })),
                None => None,
            },
            DataType::DateTime => match get_date_time_row(
                &store.date_time_rows,
                entry_id,
                field_id,
            ) {
                Some(row) => Some(
                    ValueType::DateTime(DateTimeValue { value: clone_opt_string(&row.value) }),
                ),
                None => None,
            },
            DataType::TextList => match get_text_list_row(
                &store.text_list_rows,
                entry_id,
                field_id,
            ) {
                Some(row) => {
                    let value = match &row.value {
                        Some(l) => clone_strings(l),
                        None => Vec::new(),
                    };
                    proof {
                        assert(strs_view(Seq::<String>::empty()) =~= Seq::<Seq<char>>::empty());
                    }
                    Some(ValueType::TextList(TextListValue { value }))
                },
                None => None,
            },
            DataType::NumberList => match get_number_list_row(
                &store.number_list_rows,
                entry_id,
                field_id,
            ) {
                Some(row) => {
                    let value = match &row.value {
                        Some(l) => clone_numbers(l),
                        None => Vec::new(),
                    };
                    Some(ValueType::NumberList(NumberListValue { value }))
                },
                None => None,
            },
            DataType::Relation => match get_relation_row(&store.relation_rows, entry_id, field_id) {
                Some(row) => Some(
                    ValueType::Relation(
                        EntryRelation {
                            from_entry_id: row.from_entry_id,
                            to_entry_id: row.to_entry_id,
                        },
                    ),
                ),
                None => None,
            },
            DataType::Object => match get_object_row(&store.object_rows, entry_id, field_id) {
                Some(row) => {
                    let value = match &row.value {
                        Some(s) => s.clone(),
                        None => String::from_str("null"),
                    };
                    Some(ValueType::Object(EntryObject { value }))
                },
                None => None,
            },
        }
    }
}

/// `out` is the materialization of `fields` for the entry: one pair per
/// field with a stored row, in catalog order; fields without a row are
/// absent from the output, not null-valued.
pub open spec fn materialized(
    store: Store,
    fields: Seq<FieldV>,
    entry_id: u128,
    out: Seq<FieldValue>,
) -> bool
    decreases fields.len(),
{
    if fields.len() == 0 {
        out.len() == 0
    } else {
        let fld = fields[0];
        if has_row(store, fld.data_type, entry_id, fld.id) {
            &&& out.len() > 0
            &&& out[0].field@ == fld
            &&& value_of(store, fld.data_type, entry_id, fld.id, Some(out[0].value))
            &&& materialized(store, fields.skip(1), entry_id, out.skip(1))
        } else {
            materialized(store, fields.skip(1), entry_id, out)
        }
    }
}

/// How many of the fields have a stored row for the entry.
pub open spec fn rows_count(store: Store, fields: Seq<FieldV>, entry_id: u128) -> int
    decreases fields.len(),
{
    if fields.len() == 0 {
        0
    } else {
        (if has_row(store, fields[0].data_type, entry_id, fields[0].id) {
            1int
        } else {
            0int
        }) + rows_count(store, fields.skip(1), entry_id)
    }
}

/// A materialization holds exactly one pair per field with a stored row:
/// never more pairs than such fields, and never more than fields at all.
pub proof fn lemma_materialized_len(
    store: Store,
    fields: Seq<FieldV>,
    entry_id: u128,
    out: Seq<FieldValue>,
)
    requires
        materialized(store, fields, entry_id, out),
    ensures
        out.len() == rows_count(store, fields, entry_id),
        rows_count(store, fields, entry_id) <= fields.len(),
    decreases fields.len(),
{
    if fields.len() > 0 {
        let fld = fields[0];
        if has_row(store, fld.data_type, entry_id, fld.id) {
            lemma_materialized_len(store, fields.skip(1), entry_id, out.skip(1));
        } else {
            lemma_materialized_len(store, fields.skip(1), entry_id, out);
        }
    }
}

proof fn lemma_materialized_snoc(
    store: Store,
    fields: Seq<FieldV>,
    entry_id: u128,
    out: Seq<FieldValue>,
    fld: FieldV,
    x: FieldValue,
)
    requires
        materialized(store, fields, entry_id, out),
    ensures
        !has_row(store, fld.data_type, entry_id, fld.id) ==> materialized(
            store,
            fields.push(fld),
            entry_id,
            out,
        ),
        has_row(store, fld.data_type, entry_id, fld.id) && x.field@ == fld && value_of(
            store,
            fld.data_type,
            entry_id,
            fld.id,
            Some(x.value),
        ) ==> materialized(store, fields.push(fld), entry_id, out.push(x)),
    decreases fields.len(),
{
    if fields.len() == 0 {
        assert(fields.push(fld)[0] == fld);
        assert(fields.push(fld).skip(1) =~= Seq::<FieldV>::empty());
        assert(out.len() == 0);
        assert(out.push(x).skip(1) =~= Seq::<FieldValue>::empty());
        assert(out.push(x)[0] == x);
        assert(materialized(store, Seq::<FieldV>::empty(), entry_id, Seq::<FieldValue>::empty()));
        assert(materialized(store, Seq::<FieldV>::empty(), entry_id, out));
    } else {
        let ftail = fields.skip(1);
        assert(fields.push(fld)[0] == fields[0]);
        assert(fields.push(fld).skip(1) =~= ftail.push(fld));
        if has_row(store, fields[0].data_type, entry_id, fields[0].id) {
            lemma_materialized_snoc(store, ftail, entry_id, out.skip(1), fld, x);
            assert(out.push(x).skip(1) =~= out.skip(1).push(x));
            assert(out.push(x)[0] == out[0]);
        } else {
            lemma_materialized_snoc(store, ftail, entry_id, out, fld, x);
        }
    }
}

impl Entry {
    pub fn id(&self) -> (r: u128)
        ensures
            r == self.id,
    {
        self.id
    }

    pub fn created_at(&self) -> (r: i64)
        ensures
            r == self.created_at,
    {
        self.created_at
    }

    pub fn created_by(&self) -> (r: u128)
        ensures
            r == self.created_by,
    {
        self.created_by
    }

    pub fn name(&self) -> (r: &str)
        ensures
            r@ == self.name@,
    {
        self.name.as_str()
    }

    /// Reassembles this entry's sparse typed values: one (field, value)
    /// pair per catalog field that has a stored row, in catalog order.
    pub fn values(&self, store: &Store) -> (r: Vec<FieldValue>)
        ensures
            materialized(
                *store,
                fields_of(fields_view(store.fields@), self.collection_id),
                self.id,
                r@,
            ),
    {
        let flds = crate::store::load_fields(store, self.collection_id);
        let ghost fv = fields_view(flds@);
        let n = flds.len();
        let mut out: Vec<FieldValue> = Vec::new();
        let mut i: usize = 0;
        while i < n
            invariant
                n == flds@.len(),
                fv == fields_view(flds@),
                fv.len() == n,
                i <= n,
                materialized(*store, fv.take(i as int), self.id, out@),
            decreases n - i,
        {
            proof {
                assert(fv[i as int] == flds@[i as int]@);
                assert(fv.take(i as int).push(fv[i as int]) =~= fv.take(i + 1));
            }
            let field = &flds[i];
            let ghost out_before = out@;
            match ValueType::from_data_type(field.data_type, self.id, field.id, store) {
                Some(v) => {
                    out.push(FieldValue { field: field.clone(), value: v });
                    proof {
                        let x = out@[out@.len() - 1];
                        lemma_materialized_snoc(
                            *store,
                            fv.take(i as int),
                            self.id,
                            out_before,
                            fv[i as int],
                            x,
                        );
                        assert(out@ =~= out_before.push(x));
                    }
                },
                None => {
                    proof {
                        lemma_materialized_snoc(
                            *store,
                            fv.take(i as int),
                            self.id,
                            out_before,
                            fv[i as int],
                            arbitrary(),
                        );
                    }
                },
            }
            i = i + 1;
        }
        proof {
            assert(fv.take(n as int) =~= fv);
        }
        out
    }
}

} // verus!
