//! Collections, their typed field catalog, and the filter compiler.
//!
//! An `EntryFilters` value carries one optional sequence of filters per data
//! kind. Compilation validates every filter against the field catalog and
//! translates it into a [`CompiledFilter`] predicate fragment; the compiled
//! set denotes the conjunction of all fragments. The first validation
//! failure aborts the whole compilation, so no partial predicate is ever
//! produced.

use vstd::prelude::*;
use crate::text::{pattern_contains, pattern_ends_with, pattern_starts_with};
use crate::entries::{Entry, EntryV, entries_view};
use crate::store::{
    Store, entries_ordered, run_query, selected_views, load_fields,
};

verus! {

/// The closed set of data kinds a field can be declared with.
#[derive(Clone, Copy, Debug, PartialEq, Eq, Structural)]
pub enum DataType {
    Text,
    TypstText,
    Boolean,
    Number,
    DateTime,
    TextList,
    NumberList,
    Relation,
    Object,
}

/// A named group of entries sharing one field schema.
#[derive(Debug)]
pub struct Collection {
    pub id: u128,
    pub name: String,
    pub created_at: i64,
    pub created_by: u128,
}

impl Clone for Collection {
    fn clone(&self) -> (r: Self)
        ensures
            r@ == self@,
    {
        Collection {
            id: self.id,
            name: self.name.clone(),
            created_at: self.created_at,
            created_by: self.created_by,
        }
    }
}

/// The mathematical value of a collection: its fields with strings as
/// character sequences.
pub ghost struct CollectionV {
    pub id: u128,
    pub name: Seq<char>,
    pub created_at: i64,
    pub created_by: u128,
}

impl View for Collection {
    type V = CollectionV;

    open spec fn view(&self) -> CollectionV {
        CollectionV {
            id: self.id,
            name: self.name@,
            created_at: self.created_at,
            created_by: self.created_by,
        }
    }
}

/// A typed column declaration within a collection.
#[derive(Debug)]
pub struct Field {
    pub id: u128,
    pub collection_id: u128,
    pub name: String,
    pub data_type: DataType,
    pub created_at: i64,
}

/// The mathematical value of a field declaration.
pub ghost struct FieldV {
    pub id: u128,
    pub collection_id: u128,
    pub name: Seq<char>,
    pub data_type: DataType,
    pub created_at: i64,
}

impl View for Field {
    type V = FieldV;

    open spec fn view(&self) -> FieldV {
        FieldV {
            id: self.id,
            collection_id: self.collection_id,
            name: self.name@,
            data_type: self.data_type,
            created_at: self.created_at,
        }
    }
}

/// The values of a field catalog, in declaration order.
pub open spec fn fields_view(fields: Seq<Field>) -> Seq<FieldV> {
    fields.map_values(|f: Field| f@)
}

/// The fields declared for one collection, in declaration order.
pub open spec fn fields_of(fields: Seq<FieldV>, collection_id: u128) -> Seq<FieldV> {
    fields.filter(|f: FieldV| f.collection_id == collection_id)
}

impl Clone for Field {
    fn clone(&self) -> (r: Self)
        ensures
            r@ == self@,
    {
        Field {
            id: self.id,
            collection_id: self.collection_id,
            name: self.name.clone(),
            data_type: self.data_type,
            created_at: self.created_at,
        }
    }
}

#[derive(Clone, Copy, Debug, PartialEq, Eq, Structural)]
pub enum TextComparison {
    Eq,
    Neq,
    Contains,
    StartsWith,
    EndsWith,
}

#[derive(Clone, Copy, Debug, PartialEq, Eq, Structural)]
pub enum NumberComparison {
    Eq,
    Neq,
    Gt,
    Gte,
    Lt,
    Lte,
}

#[derive(Clone, Copy, Debug, PartialEq, Eq, Structural)]
pub enum BooleanComparison {
    Eq,
    Neq,
}

#[derive(Clone, Copy, Debug, PartialEq, Eq, Structural)]
pub enum DateTimeComparison {
    Eq,
    Neq,
    Gt,
    Gte,
    Lt,
    Lte,
}

#[derive(Clone, Copy, Debug, PartialEq, Eq, Structural)]
pub enum ListComparison {
    Contains,
    ContainsAll,
    ContainsAny,
    IsEmpty,
    IsNotEmpty,
}

#[derive(Clone, Copy, Debug, PartialEq, Eq, Structural)]
pub enum RelationComparison {
    ConnectedTo,
    NotConnectedTo,
    HasConnections,
    HasNoConnections,
}

#[derive(Clone, Copy, Debug, PartialEq, Eq, Structural)]
pub enum ObjectComparison {
    HasProperty,
    PropertyEquals,
    PropertyContains,
    IsEmpty,
    IsNotEmpty,
}

/// Filter on a Text or TypstText field.
#[derive(Debug)]
pub struct TextFilter {
    pub field_name: String,
    pub comparison: TextComparison,
    pub value: String,
}

/// Filter on a Number field. Numbers are 64-bit integers in this engine.
#[derive(Debug)]
pub struct NumberFilter {
    pub field_name: String,
    pub comparison: NumberComparison,
    pub value: i64,
}

/// Filter on a Boolean field.
#[derive(Debug)]
pub struct BooleanFilter {
    pub field_name: String,
    pub comparison: BooleanComparison,
    pub value: bool,
}

/// Filter on a DateTime field; the operand is an ISO-8601 literal compared
/// as written, character by character.
#[derive(Debug)]
pub struct DateTimeFilter {
    pub field_name: String,
    pub comparison: DateTimeComparison,
    pub value: String,
}

/// Filter on a TextList or NumberList field.
#[derive(Debug)]
pub struct ListFilter {
    pub field_name: String,
    pub comparison: ListComparison,
    pub values: Option<Vec<String>>,
}

/// Filter on a Relation field; the target entry id is a UUID literal.
#[derive(Debug)]
pub struct RelationFilter {
    pub field_name: String,
    pub comparison: RelationComparison,
    pub target_entry_id: Option<String>,
}

/// Filter on an Object field.
#[derive(Debug)]
pub struct ObjectFilter {
    pub field_name: String,
    pub comparison: ObjectComparison,
    pub property_path: Option<String>,
    pub property_value: Option<String>,
}

/// One optional sequence of filters per data kind; the whole set denotes a
/// conjunction.
#[derive(Debug)]
pub struct EntryFilters {
    pub text_filters: Option<Vec<TextFilter>>,
    pub number_filters: Option<Vec<NumberFilter>>,
    pub boolean_filters: Option<Vec<BooleanFilter>>,
    pub date_time_filters: Option<Vec<DateTimeFilter>>,
    pub list_filters: Option<Vec<ListFilter>>,
    pub relation_filters: Option<Vec<RelationFilter>>,
    pub object_filters: Option<Vec<ObjectFilter>>,
}

/// Direction of the single `created_at` sort key.
#[derive(Clone, Copy, Debug, PartialEq, Eq, Structural)]
pub enum EntryOrderBy {
    Asc,
    Desc,
}

/// Why a filter set was rejected, or a lookup failed. Every validation error
/// is detected before any predicate is evaluated.
#[derive(Debug, Clone, PartialEq, Eq)]
pub enum FilterError {
    /// The filter names a field the collection does not declare.
    FieldNotFound { field_name: String },
    /// The named field's declared type is outside the filter kind's allowed
    /// set.
    FieldTypeMismatch { field_name: String, actual: DataType },
    /// An operand does not parse as the required literal form.
    InvalidOperand { field_name: String, value: String },
    /// The comparison needs an operand that was not supplied.
    MissingRequiredOperand { field_name: String },
    /// The comparison is not supported for the field's kind.
    UnsupportedComparison { field_name: String },
    /// No entry with the requested name exists in the collection.
    EntryNotFound { name: String },
}

/// The display name of a data kind.
pub fn data_type_name(dt: DataType) -> (r: &'static str)
    ensures
        r@ == data_type_name_spec(dt),
{
    match dt {
        DataType::Text => "Text",
        DataType::TypstText => "TypstText",
        DataType::Boolean => "Boolean",
        DataType::Number => "Number",
        DataType::DateTime => "DateTime",
        DataType::TextList => "TextList",
        DataType::NumberList => "NumberList",
        DataType::Relation => "Relation",
        DataType::Object => "Object",
    }
}

/// The display name of a data kind, as characters.
pub open spec fn data_type_name_spec(dt: DataType) -> Seq<char> {
    match dt {
        DataType::Text => "Text"@,
        DataType::TypstText => "TypstText"@,
        DataType::Boolean => "Boolean"@,
        DataType::Number => "Number"@,
        DataType::DateTime => "DateTime"@,
        DataType::TextList => "TextList"@,
        DataType::NumberList => "NumberList"@,
        DataType::Relation => "Relation"@,
        DataType::Object => "Object"@,
    }
}

impl FilterError {
    /// A human-readable message naming the offending field or comparison.
    pub fn message(&self) -> (r: String)
        ensures
            match *self {
                FilterError::FieldNotFound { ref field_name } => r@ == "Field '"@ + field_name@
                    + "' does not exist in collection"@,
                FilterError::FieldTypeMismatch { ref field_name, actual } => r@ == "Field '"@
                    + field_name@ + "' has type "@ + data_type_name_spec(actual)
                    + ", which the filter does not allow"@,
                FilterError::InvalidOperand { ref field_name, ref value } => r@
                    == "Invalid UUID format: '"@ + value@ + "' for field '"@ + field_name@ + "'"@,
                FilterError::MissingRequiredOperand { ref field_name } => r@
                    == "A required operand is missing for the filter on field '"@ + field_name@
                    + "'"@,
                FilterError::UnsupportedComparison { ref field_name } => r@
                    == "The comparison is not supported for field '"@ + field_name@ + "'"@,
                FilterError::EntryNotFound { ref name } => r@ == "Entry not found: '"@ + name@
                    + "'"@,
            },
    {
        let mut r = String::new();
        match self {
            FilterError::FieldNotFound { field_name } => {
                r.append("Field '");
                r.append(field_name.as_str());
                r.append("' does not exist in collection");
                proof {
                    assert(r@ =~= "Field '"@ + field_name@ + "' does not exist in collection"@);
                }
            },
            FilterError::FieldTypeMismatch { field_name, actual } => {
                r.append("Field '");
                r.append(field_name.as_str());
                r.append("' has type ");
                r.append(data_type_name(*actual));
                r.append(", which the filter does not allow");
                proof {
                    assert(r@ =~= "Field '"@ + field_name@ + "' has type "@
                        + data_type_name_spec(*actual) + ", which the filter does not allow"@);
                }
            },
            FilterError::InvalidOperand { field_name, value } => {
                r.append("Invalid UUID format: '");
                r.append(value.as_str());
                r.append("' for field '");
                r.append(field_name.as_str());
                r.append("'");
                proof {
                    assert(r@ =~= "Invalid UUID format: '"@ + value@ + "' for field '"@
                        + field_name@ + "'"@);
                }
            },
            FilterError::MissingRequiredOperand { field_name } => {
                r.append("A required operand is missing for the filter on field '");
                r.append(field_name.as_str());
                r.append("'");
                proof {
                    assert(r@ =~= "A required operand is missing for the filter on field '"@
                        + field_name@ + "'"@);
                }
            },
            FilterError::UnsupportedComparison { field_name } => {
                r.append("The comparison is not supported for field '");
                r.append(field_name.as_str());
                r.append("'");
                proof {
                    assert(r@ =~= "The comparison is not supported for field '"@ + field_name@
                        + "'"@);
                }
            },
            FilterError::EntryNotFound { name } => {
                r.append("Entry not found: '");
                r.append(name.as_str());
                r.append("'");
                proof {
                    assert(r@ =~= "Entry not found: '"@ + name@ + "'"@);
                }
            },
        }
        r
    }
}

/// The first field declared under `name`, if any.
pub open spec fn find_field(fields: Seq<FieldV>, name: Seq<char>) -> Option<FieldV>
    decreases fields.len(),
{
    if fields.len() == 0 {
        None
    } else if fields[0].name == name {
        Some(fields[0])
    } else {
        find_field(fields.skip(1), name)
    }
}

proof fn lemma_find_field_step(fields: Seq<FieldV>, name: Seq<char>, i: int)
    requires
        0 <= i < fields.len(),
        forall|k: int| 0 <= k < i ==> fields[k].name != name,
    ensures
        fields[i].name == name ==> find_field(fields, name) == Some(fields[i]),
        fields[i].name != name && i == fields.len() - 1 ==> find_field(fields, name) is None,
    decreases i,
{
    if i == 0 {
        if fields[0].name != name && fields.len() == 1 {
            assert(fields.skip(1).len() == 0);
        }
    } else {
        lemma_find_field_step(fields.skip(1), name, i - 1);
        assert(fields.skip(1)[i - 1] == fields[i]);
        assert(fields[0].name != name);
    }
}

proof fn lemma_find_field_none(fields: Seq<FieldV>, name: Seq<char>)
    requires
        forall|k: int| 0 <= k < fields.len() ==> fields[k].name != name,
    ensures
        find_field(fields, name) is None,
    decreases fields.len(),
{
    if fields.len() > 0 {
        lemma_find_field_none(fields.skip(1), name);
    }
}

/// Looks a field up by exact name and checks its declared type against the
/// allowed set of the filter kind at hand.
pub fn resolve_field<'a>(fields: &'a Vec<Field>, field_name: &str, allowed_types: &Vec<
    DataType,
>) -> (r: Result<&'a Field, FilterError>)
    ensures
        match r {
            Ok(f) => find_field(fields_view(fields@), field_name@) == Some(f@) && allowed_types@.contains(
                f.data_type,
            ),
            Err(e) => match e {
                FilterError::FieldNotFound { field_name: n } => find_field(fields_view(fields@), field_name@)
                    is None && n@ == field_name@,
                FilterError::FieldTypeMismatch { field_name: n, actual } => {
                    &&& find_field(fields_view(fields@), field_name@) is Some
                    &&& actual == find_field(fields_view(fields@), field_name@)->0.data_type
                    &&& !allowed_types@.contains(actual)
                    &&& n@ == field_name@
                },
                _ => false,
            },
        },
{
    let n = fields.len();
    let mut i: usize = 0;
    while i < n
        invariant
            n == fields@.len(),
            i <= n,
            forall|k: int| #![trigger fields_view(fields@).index(k)]
                0 <= k < i ==> fields_view(fields@)[k].name != field_name@,
        decreases n - i,
    {
        proof {
            assert(fields_view(fields@)[i as int] == fields@[i as int]@);
        }
        if crate::text::str_eq(fields[i].name.as_str(), field_name) {
            proof {
                lemma_find_field_step(fields_view(fields@), field_name@, i as int);
                assert(fields_view(fields@)[i as int] == fields@[i as int]@);
            }
            let f = &fields[i];
            if contains_type(allowed_types, f.data_type) {
                return Ok(f);
            } else {
                return Err(
                    FilterError::FieldTypeMismatch {
                        field_name: field_name.to_owned(),
                        actual: f.data_type,
                    },
                );
            }
        }
        i = i + 1;
    }
    proof {
        lemma_find_field_none(fields_view(fields@), field_name@);
    }
    Err(FilterError::FieldNotFound { field_name: field_name.to_owned() })
}

/// Compiled predicate fragment over a text value row.
#[derive(Debug)]
pub enum TextOp {
    /// The stored text equals the literal.
    Eq(String),
    /// The stored text differs from the literal.
    Neq(String),
    /// The stored text matches the wildcard pattern.
    Like(String),
}

/// Compiled predicate fragment over a text-list value row.
#[derive(Debug)]
pub enum TextListOp {
    /// The first element of the stored list matches the wildcard pattern.
    FirstLike(String),
    /// Any value row for the field is enough; no operand was supplied.
    AnyRow,
    /// The stored payload is null.
    IsNull,
    /// The stored payload is not null.
    IsNotNull,
}

/// Compiled predicate fragment over a number-list value row.
#[derive(Debug)]
pub enum NumberListOp {
    IsNull,
    IsNotNull,
}

/// Compiled predicate fragment over the relation edge table.
#[derive(Debug)]
pub enum RelationOp {
    /// An edge to exactly this target entry exists.
    ConnectedTo(u128),
    /// No edge to this target entry exists.
    NotConnectedTo(u128),
    /// Some edge exists for the field.
    HasConnections,
    /// No edge exists for the field.
    HasNoConnections,
}

/// Compiled predicate fragment over an object value row.
#[derive(Debug)]
pub enum ObjectOp {
    IsNull,
    IsNotNull,
}

/// One validated, storage-executable filter fragment. Every fragment is
/// scoped to rows of its own value table whose `field_id` equals the
/// resolved field's id, so an entry without a row for that field fails the
/// fragment whatever the comparison.
#[derive(Debug)]
pub enum CompiledFilter {
    Text { field_id: u128, op: TextOp },
    Number { field_id: u128, comparison: NumberComparison, value: i64 },
    Boolean { field_id: u128, comparison: BooleanComparison, value: bool },
    DateTime { field_id: u128, comparison: DateTimeComparison, value: String },
    TextList { field_id: u128, op: TextListOp },
    NumberList { field_id: u128, op: NumberListOp },
    Relation { field_id: u128, op: RelationOp },
    Object { field_id: u128, op: ObjectOp },
}

/// What `uuid::Uuid::parse_str` accepts and yields, as a 128-bit value:
/// a function of the characters alone.
pub uninterp spec fn uuid_of(s: Seq<char>) -> Option<u128>;

/// Relies on uuid::Uuid::parse_str: parses hexadecimal digits with optional
/// hyphens into a 128-bit identifier, deterministically in its input.
#[verifier::external_body]
fn parse_entry_id(s: &str) -> (r: Option<u128>)
    ensures
        r == uuid_of(s@),
{
    match uuid::Uuid::parse_str(s) {
        Ok(u) => Some(u.as_u128()),
        Err(_) => None,
    }
}

/// Membership test over the allowed-type set of a filter kind.
fn contains_type(types: &Vec<DataType>, t: DataType) -> (r: bool)
    ensures
        r == types@.contains(t),
{
    let n = types.len();
    let mut i: usize = 0;
    while i < n
        invariant
            n == types@.len(),
            i <= n,
            forall|k: int| 0 <= k < i ==> types@[k] != t,
        decreases n - i,
    {
        if types[i] == t {
            return true;
        }
        i = i + 1;
    }
    false
}

/// Whether a text filter validates: its field exists and is Text or
/// TypstText.
pub open spec fn text_filter_ok(fields: Seq<FieldV>, f: TextFilter) -> bool {
    match find_field(fields, f.field_name@) {
        Some(fld) => fld.data_type == DataType::Text || fld.data_type == DataType::TypstText,
        None => false,
    }
}

/// The compiled form of a text filter: an equality, inequality, or wildcard
/// pattern over the resolved field's text rows.
pub open spec fn text_compiled(fields: Seq<FieldV>, f: TextFilter, c: CompiledFilter) -> bool {
    &&& text_filter_ok(fields, f)
    &&& match c {
        CompiledFilter::Text { field_id, op } => {
            &&& field_id == find_field(fields, f.field_name@)->0.id
            &&& match (f.comparison, op) {
                (TextComparison::Eq, TextOp::Eq(v)) => v@ == f.value@,
                (TextComparison::Neq, TextOp::Neq(v)) => v@ == f.value@,
                (TextComparison::Contains, TextOp::Like(p)) => p@ == "%"@ + f.value@ + "%"@,
                (TextComparison::StartsWith, TextOp::Like(p)) => p@ == f.value@ + "%"@,
                (TextComparison::EndsWith, TextOp::Like(p)) => p@ == "%"@ + f.value@,
                _ => false,
            }
        },
        _ => false,
    }
}

/// The error a failing text filter compiles to.
pub open spec fn text_filter_err(fields: Seq<FieldV>, f: TextFilter, e: FilterError) -> bool {
    match find_field(fields, f.field_name@) {
        None => e matches FilterError::FieldNotFound { field_name } && field_name@
            == f.field_name@,
        Some(fld) => {
            &&& !(fld.data_type == DataType::Text || fld.data_type == DataType::TypstText)
            &&& e matches FilterError::FieldTypeMismatch { field_name, actual } && field_name@
                == f.field_name@ && actual == fld.data_type
        },
    }
}

/// Validates and compiles one text filter (Text and TypstText fields share
/// the text value table).
pub fn compile_text_filter(fields: &Vec<Field>, filter: &TextFilter) -> (r: Result<
    CompiledFilter,
    FilterError,
>)
    ensures
        r is Ok == text_filter_ok(fields_view(fields@), *filter),
        match r {
            Ok(c) => text_compiled(fields_view(fields@), *filter, c),
            Err(e) => text_filter_err(fields_view(fields@), *filter, e),
        },
{
    let mut allowed: Vec<DataType> = Vec::new();
    allowed.push(DataType::Text);
    allowed.push(DataType::TypstText);
    proof {
        assert(allowed@[0] == DataType::Text && allowed@[1] == DataType::TypstText);
        assert forall|t: DataType| allowed@.contains(t) implies (t == DataType::Text || t
            == DataType::TypstText) by {
            let i = choose|i: int| 0 <= i < allowed@.len() && allowed@[i] == t;
        }
    }
    let field = match resolve_field(fields, filter.field_name.as_str(), &allowed) {
        Ok(f) => f,
        Err(e) => {
            return Err(e);
        },
    };
    match filter.comparison {
        TextComparison::Eq => Ok(
            CompiledFilter::Text { field_id: field.id, op: TextOp::Eq(filter.value.clone()) },
        ),
        TextComparison::Neq => Ok(
            CompiledFilter::Text { field_id: field.id, op: TextOp::Neq(filter.value.clone()) },
        ),
        TextComparison::Contains => Ok(
            CompiledFilter::Text {
                field_id: field.id,
                op: TextOp::Like(pattern_contains(filter.value.as_str())),
            },
        ),
        TextComparison::StartsWith => Ok(
            CompiledFilter::Text {
                field_id: field.id,
                op: TextOp::Like(pattern_starts_with(filter.value.as_str())),
            },
        ),
        TextComparison::EndsWith => Ok(
            CompiledFilter::Text {
                field_id: field.id,
                op: TextOp::Like(pattern_ends_with(filter.value.as_str())),
            },
        ),
    }
}

/// Whether a number filter validates: its field exists and is Number.
pub open spec fn number_filter_ok(fields: Seq<FieldV>, f: NumberFilter) -> bool {
    match find_field(fields, f.field_name@) {
        Some(fld) => fld.data_type == DataType::Number,
        None => false,
    }
}

/// The compiled form of a number filter.
pub open spec fn number_compiled(fields: Seq<FieldV>, f: NumberFilter, c: CompiledFilter) -> bool {
    &&& number_filter_ok(fields, f)
    &&& c matches CompiledFilter::Number { field_id, comparison, value } && field_id == find_field(
        fields,
        f.field_name@,
    )->0.id && comparison == f.comparison && value == f.value
}

/// The error a failing number filter compiles to.
pub open spec fn number_filter_err(fields: Seq<FieldV>, f: NumberFilter, e: FilterError) -> bool {
    match find_field(fields, f.field_name@) {
        None => e matches FilterError::FieldNotFound { field_name } && field_name@
            == f.field_name@,
        Some(fld) => {
            &&& fld.data_type != DataType::Number
            &&& e matches FilterError::FieldTypeMismatch { field_name, actual } && field_name@
                == f.field_name@ && actual == fld.data_type
        },
    }
}

/// Validates and compiles one number filter.
pub fn compile_number_filter(fields: &Vec<Field>, filter: &NumberFilter) -> (r: Result<
    CompiledFilter,
    FilterError,
>)
    ensures
        r is Ok == number_filter_ok(fields_view(fields@), *filter),
        match r {
            Ok(c) => number_compiled(fields_view(fields@), *filter, c),
            Err(e) => number_filter_err(fields_view(fields@), *filter, e),
        },
{
    let mut allowed: Vec<DataType> = Vec::new();
    allowed.push(DataType::Number);
    proof {
        assert(allowed@[0] == DataType::Number);
        assert forall|t: DataType| allowed@.contains(t) implies t == DataType::Number by {
            let i = choose|i: int| 0 <= i < allowed@.len() && allowed@[i] == t;
        }
    }
    let field = match resolve_field(fields, filter.field_name.as_str(), &allowed) {
        Ok(f) => f,
        Err(e) => {
            return Err(e);
        },
    };
    Ok(
        CompiledFilter::Number {
            field_id: field.id,
            comparison: filter.comparison,
            value: filter.value,
        },
    )
}

/// Whether a boolean filter validates: its field exists and is Boolean.
pub open spec fn boolean_filter_ok(fields: Seq<FieldV>, f: BooleanFilter) -> bool {
    match find_field(fields, f.field_name@) {
        Some(fld) => fld.data_type == DataType::Boolean,
        None => false,
    }
}

/// The compiled form of a boolean filter.
pub open spec fn boolean_compiled(fields: Seq<FieldV>, f: BooleanFilter, c: CompiledFilter) -> bool {
    &&& boolean_filter_ok(fields, f)
    &&& c matches CompiledFilter::Boolean { field_id, comparison, value } && field_id
        == find_field(fields, f.field_name@)->0.id && comparison == f.comparison && value
        == f.value
}

/// The error a failing boolean filter compiles to.
pub open spec fn boolean_filter_err(fields: Seq<FieldV>, f: BooleanFilter, e: FilterError) -> bool {
    match find_field(fields, f.field_name@) {
        None => e matches FilterError::FieldNotFound { field_name } && field_name@
            == f.field_name@,
        Some(fld) => {
            &&& fld.data_type != DataType::Boolean
            &&& e matches FilterError::FieldTypeMismatch { field_name, actual } && field_name@
                == f.field_name@ && actual == fld.data_type
        },
    }
}

/// Validates and compiles one boolean filter.
pub fn compile_boolean_filter(fields: &Vec<Field>, filter: &BooleanFilter) -> (r: Result<
    CompiledFilter,
    FilterError,
>)
    ensures
        r is Ok == boolean_filter_ok(fields_view(fields@), *filter),
        match r {
            Ok(c) => boolean_compiled(fields_view(fields@), *filter, c),
            Err(e) => boolean_filter_err(fields_view(fields@), *filter, e),
        },
{
    let mut allowed: Vec<DataType> = Vec::new();
    allowed.push(DataType::Boolean);
    proof {
        assert(allowed@[0] == DataType::Boolean);
        assert forall|t: DataType| allowed@.contains(t) implies t == DataType::Boolean by {
            let i = choose|i: int| 0 <= i < allowed@.len() && allowed@[i] == t;
        }
    }
    let field = match resolve_field(fields, filter.field_name.as_str(), &allowed) {
        Ok(f) => f,
        Err(e) => {
            return Err(e);
        },
    };
    Ok(
        CompiledFilter::Boolean {
            field_id: field.id,
            comparison: filter.comparison,
            value: filter.value,
        },
    )
}

/// Whether a date-time filter validates: its field exists and is DateTime.
pub open spec fn date_time_filter_ok(fields: Seq<FieldV>, f: DateTimeFilter) -> bool {
    match find_field(fields, f.field_name@) {
        Some(fld) => fld.data_type == DataType::DateTime,
        None => false,
    }
}

/// The compiled form of a date-time filter; the ISO-8601 literal is carried
/// as written.
pub open spec fn date_time_compiled(
    fields: Seq<FieldV>,
    f: DateTimeFilter,
    c: CompiledFilter,
) -> bool {
    &&& date_time_filter_ok(fields, f)
    &&& c matches CompiledFilter::DateTime { field_id, comparison, value } && field_id
        == find_field(fields, f.field_name@)->0.id && comparison == f.comparison && value@
        == f.value@
}

/// The error a failing date-time filter compiles to.
pub open spec fn date_time_filter_err(
    fields: Seq<FieldV>,
    f: DateTimeFilter,
    e: FilterError,
) -> bool {
    match find_field(fields, f.field_name@) {
        None => e matches FilterError::FieldNotFound { field_name } && field_name@
            == f.field_name@,
        Some(fld) => {
            &&& fld.data_type != DataType::DateTime
            &&& e matches FilterError::FieldTypeMismatch { field_name, actual } && field_name@
                == f.field_name@ && actual == fld.data_type
        },
    }
}

/// Validates and compiles one date-time filter.
pub fn compile_date_time_filter(fields: &Vec<Field>, filter: &DateTimeFilter) -> (r: Result<
    CompiledFilter,
    FilterError,
>)
    ensures
        r is Ok == date_time_filter_ok(fields_view(fields@), *filter),
        match r {
            Ok(c) => date_time_compiled(fields_view(fields@), *filter, c),
            Err(e) => date_time_filter_err(fields_view(fields@), *filter, e),
        },
{
    let mut allowed: Vec<DataType> = Vec::new();
    allowed.push(DataType::DateTime);
    proof {
        assert(allowed@[0] == DataType::DateTime);
        assert forall|t: DataType| allowed@.contains(t) implies t == DataType::DateTime by {
            let i = choose|i: int| 0 <= i < allowed@.len() && allowed@[i] == t;
        }
    }
    let field = match resolve_field(fields, filter.field_name.as_str(), &allowed) {
        Ok(f) => f,
        Err(e) => {
            return Err(e);
        },
    };
    Ok(
        CompiledFilter::DateTime {
            field_id: field.id,
            comparison: filter.comparison,
            value: filter.value.clone(),
        },
    )
}

/// Whether a list filter validates: its field exists, is TextList or
/// NumberList, and the comparison is supported for that list kind.
pub open spec fn list_filter_ok(fields: Seq<FieldV>, f: ListFilter) -> bool {
    match find_field(fields, f.field_name@) {
        Some(fld) => if fld.data_type == DataType::TextList {
            f.comparison == ListComparison::Contains || f.comparison == ListComparison::IsEmpty
                || f.comparison == ListComparison::IsNotEmpty
        } else if fld.data_type == DataType::NumberList {
            f.comparison == ListComparison::IsEmpty || f.comparison == ListComparison::IsNotEmpty
        } else {
            false
        },
        None => false,
    }
}

/// The compiled form of a list filter. A Contains comparison matches only
/// the first supplied value; with no supplied values the fragment asks for
/// row presence alone.
pub open spec fn list_compiled(fields: Seq<FieldV>, f: ListFilter, c: CompiledFilter) -> bool {
    &&& list_filter_ok(fields, f)
    &&& {
        let fld = find_field(fields, f.field_name@)->0;
        match c {
            CompiledFilter::TextList { field_id, op } => {
                &&& fld.data_type == DataType::TextList
                &&& field_id == fld.id
                &&& match (f.comparison, op) {
                    (ListComparison::Contains, TextListOp::FirstLike(p)) => f.values matches Some(
                        vs,
                    ) && vs@.len() > 0 && p@ == "%"@ + vs@[0]@ + "%"@,
                    (ListComparison::Contains, TextListOp::AnyRow) => f.values is None
                        || f.values->0@.len() == 0,
                    (ListComparison::IsEmpty, TextListOp::IsNull) => true,
                    (ListComparison::IsNotEmpty, TextListOp::IsNotNull) => true,
                    _ => false,
                }
            },
            CompiledFilter::NumberList { field_id, op } => {
                &&& fld.data_type == DataType::NumberList
                &&& field_id == fld.id
                &&& match (f.comparison, op) {
                    (ListComparison::IsEmpty, NumberListOp::IsNull) => true,
                    (ListComparison::IsNotEmpty, NumberListOp::IsNotNull) => true,
                    _ => false,
                }
            },
            _ => false,
        }
    }
}

/// The error a failing list filter compiles to.
pub open spec fn list_filter_err(fields: Seq<FieldV>, f: ListFilter, e: FilterError) -> bool {
    match find_field(fields, f.field_name@) {
        None => e matches FilterError::FieldNotFound { field_name } && field_name@
            == f.field_name@,
        Some(fld) => if !(fld.data_type == DataType::TextList || fld.data_type
            == DataType::NumberList) {
            e matches FilterError::FieldTypeMismatch { field_name, actual } && field_name@
                == f.field_name@ && actual == fld.data_type
        } else {
            &&& !list_filter_ok(fields, f)
            &&& e matches FilterError::UnsupportedComparison { field_name } && field_name@
                == f.field_name@
        },
    }
}

/// Validates and compiles one list filter.
pub fn compile_list_filter(fields: &Vec<Field>, filter: &ListFilter) -> (r: Result<
    CompiledFilter,
    FilterError,
>)
    ensures
        r is Ok == list_filter_ok(fields_view(fields@), *filter),
        match r {
            Ok(c) => list_compiled(fields_view(fields@), *filter, c),
            Err(e) => list_filter_err(fields_view(fields@), *filter, e),
        },
{
    let mut allowed: Vec<DataType> = Vec::new();
    allowed.push(DataType::TextList);
    allowed.push(DataType::NumberList);
    proof {
        assert(allowed@[0] == DataType::TextList && allowed@[1] == DataType::NumberList);
        assert forall|t: DataType| allowed@.contains(t) implies (t == DataType::TextList || t
            == DataType::NumberList) by {
            let i = choose|i: int| 0 <= i < allowed@.len() && allowed@[i] == t;
        }
    }
    let field = match resolve_field(fields, filter.field_name.as_str(), &allowed) {
        Ok(f) => f,
        Err(e) => {
            return Err(e);
        },
    };
    if field.data_type == DataType::TextList {
        match filter.comparison {
            ListComparison::Contains => {
                match &filter.values {
                    Some(vs) => {
                        if vs.len() > 0 {
                            Ok(
                                CompiledFilter::TextList {
                                    field_id: field.id,
                                    op: TextListOp::FirstLike(pattern_contains(vs[0].as_str())),
                                },
                            )
                        } else {
                            Ok(
                                CompiledFilter::TextList {
                                    field_id: field.id,
                                    op: TextListOp::AnyRow,
                                },
                            )
                        }
                    },
                    None => Ok(
                        CompiledFilter::TextList { field_id: field.id, op: TextListOp::AnyRow },
                    ),
                }
            },
            ListComparison::IsEmpty => Ok(
                CompiledFilter::TextList { field_id: field.id, op: TextListOp::IsNull },
            ),
            ListComparison::IsNotEmpty => Ok(
                CompiledFilter::TextList { field_id: field.id, op: TextListOp::IsNotNull },
            ),
            _ => Err(
                FilterError::UnsupportedComparison { field_name: filter.field_name.clone() },
            ),
        }
    } else {
        match filter.comparison {
            ListComparison::IsEmpty => Ok(
                CompiledFilter::NumberList { field_id: field.id, op: NumberListOp::IsNull },
            ),
            ListComparison::IsNotEmpty => Ok(
                CompiledFilter::NumberList { field_id: field.id, op: NumberListOp::IsNotNull },
            ),
            _ => Err(
                FilterError::UnsupportedComparison { field_name: filter.field_name.clone() },
            ),
        }
    }
}

/// Whether a relation filter validates: its field exists, is Relation, and
/// a ConnectedTo/NotConnectedTo target is present and parses as a UUID.
pub open spec fn relation_filter_ok(fields: Seq<FieldV>, f: RelationFilter) -> bool {
    match find_field(fields, f.field_name@) {
        Some(fld) => fld.data_type == DataType::Relation && match f.comparison {
            RelationComparison::ConnectedTo | RelationComparison::NotConnectedTo =>
                f.target_entry_id matches Some(t) && uuid_of(t@) is Some,
            RelationComparison::HasConnections | RelationComparison::HasNoConnections => true,
        },
        None => false,
    }
}

/// The compiled form of a relation filter: an edge-existence fragment.
pub open spec fn relation_compiled(fields: Seq<FieldV>, f: RelationFilter, c: CompiledFilter) -> bool {
    &&& relation_filter_ok(fields, f)
    &&& c matches CompiledFilter::Relation { field_id, op } && field_id == find_field(
        fields,
        f.field_name@,
    )->0.id && match (f.comparison, op) {
        (RelationComparison::ConnectedTo, RelationOp::ConnectedTo(u)) => Some(u) == uuid_of(
            f.target_entry_id->0@,
        ),
        (RelationComparison::NotConnectedTo, RelationOp::NotConnectedTo(u)) => Some(u) == uuid_of(
            f.target_entry_id->0@,
        ),
        (RelationComparison::HasConnections, RelationOp::HasConnections) => true,
        (RelationComparison::HasNoConnections, RelationOp::HasNoConnections) => true,
        _ => false,
    }
}

/// The error a failing relation filter compiles to.
pub open spec fn relation_filter_err(fields: Seq<FieldV>, f: RelationFilter, e: FilterError) -> bool {
    match find_field(fields, f.field_name@) {
        None => e matches FilterError::FieldNotFound { field_name } && field_name@
            == f.field_name@,
        Some(fld) => if fld.data_type != DataType::Relation {
            e matches FilterError::FieldTypeMismatch { field_name, actual } && field_name@
                == f.field_name@ && actual == fld.data_type
        } else {
            match f.target_entry_id {
                None => e matches FilterError::MissingRequiredOperand { field_name }
                    && field_name@ == f.field_name@,
                Some(t) => uuid_of(t@) is None && (e matches FilterError::InvalidOperand {
                    field_name,
                    value,
                } && field_name@ == f.field_name@ && value@ == t@),
            }
        },
    }
}

/// Validates and compiles one relation filter.
pub fn compile_relation_filter(fields: &Vec<Field>, filter: &RelationFilter) -> (r: Result<
    CompiledFilter,
    FilterError,
>)
    ensures
        r is Ok == relation_filter_ok(fields_view(fields@), *filter),
        match r {
            Ok(c) => relation_compiled(fields_view(fields@), *filter, c),
            Err(e) => relation_filter_err(fields_view(fields@), *filter, e),
        },
{
    let mut allowed: Vec<DataType> = Vec::new();
    allowed.push(DataType::Relation);
    proof {
        assert(allowed@[0] == DataType::Relation);
        assert forall|t: DataType| allowed@.contains(t) implies t == DataType::Relation by {
            let i = choose|i: int| 0 <= i < allowed@.len() && allowed@[i] == t;
        }
    }
    let field = match resolve_field(fields, filter.field_name.as_str(), &allowed) {
        Ok(f) => f,
        Err(e) => {
            return Err(e);
        },
    };
    match filter.comparison {
        RelationComparison::ConnectedTo => {
            match &filter.target_entry_id {
                Some(t) => match parse_entry_id(t.as_str()) {
                    Some(u) => Ok(
                        CompiledFilter::Relation {
                            field_id: field.id,
                            op: RelationOp::ConnectedTo(u),
                        },
                    ),
                    None => Err(
                        FilterError::InvalidOperand {
                            field_name: filter.field_name.clone(),
                            value: t.clone(),
                        },
                    ),
                },
                None => Err(
                    FilterError::MissingRequiredOperand {
                        field_name: filter.field_name.clone(),
                    },
                ),
            }
        },
        RelationComparison::NotConnectedTo => {
            match &filter.target_entry_id {
                Some(t) => match parse_entry_id(t.as_str()) {
                    Some(u) => Ok(
                        CompiledFilter::Relation {
                            field_id: field.id,
                            op: RelationOp::NotConnectedTo(u),
                        },
                    ),
                    None => Err(
                        FilterError::InvalidOperand {
                            field_name: filter.field_name.clone(),
                            value: t.clone(),
                        },
                    ),
                },
                None => Err(
                    FilterError::MissingRequiredOperand {
                        field_name: filter.field_name.clone(),
                    },
                ),
            }
        },
        RelationComparison::HasConnections => Ok(
            CompiledFilter::Relation { field_id: field.id, op: RelationOp::HasConnections },
        ),
        RelationComparison::HasNoConnections => Ok(
            CompiledFilter::Relation { field_id: field.id, op: RelationOp::HasNoConnections },
        ),
    }
}

/// Whether an object filter validates: its field exists, is Object, and the
/// comparison is one of the supported null checks.
pub open spec fn object_filter_ok(fields: Seq<FieldV>, f: ObjectFilter) -> bool {
    match find_field(fields, f.field_name@) {
        Some(fld) => fld.data_type == DataType::Object && (f.comparison == ObjectComparison::IsEmpty
            || f.comparison == ObjectComparison::IsNotEmpty),
        None => false,
    }
}

/// The compiled form of an object filter: a null check on the JSON payload.
pub open spec fn object_compiled(fields: Seq<FieldV>, f: ObjectFilter, c: CompiledFilter) -> bool {
    &&& object_filter_ok(fields, f)
    &&& c matches CompiledFilter::Object { field_id, op } && field_id == find_field(
        fields,
        f.field_name@,
    )->0.id && match (f.comparison, op) {
        (ObjectComparison::IsEmpty, ObjectOp::IsNull) => true,
        (ObjectComparison::IsNotEmpty, ObjectOp::IsNotNull) => true,
        _ => false,
    }
}

/// The error a failing object filter compiles to.
pub open spec fn object_filter_err(fields: Seq<FieldV>, f: ObjectFilter, e: FilterError) -> bool {
    match find_field(fields, f.field_name@) {
        None => e matches FilterError::FieldNotFound { field_name } && field_name@
            == f.field_name@,
        Some(fld) => if fld.data_type != DataType::Object {
            e matches FilterError::FieldTypeMismatch { field_name, actual } && field_name@
                == f.field_name@ && actual == fld.data_type
        } else {
            match f.comparison {
                ObjectComparison::HasProperty => if f.property_path is Some {
                    e matches FilterError::UnsupportedComparison { field_name } && field_name@
                        == f.field_name@
                } else {
                    e matches FilterError::MissingRequiredOperand { field_name } && field_name@
                        == f.field_name@
                },
                ObjectComparison::PropertyEquals | ObjectComparison::PropertyContains => e matches
                    FilterError::UnsupportedComparison { field_name } && field_name@
                    == f.field_name@,
                _ => false,
            }
        },
    }
}

/// Validates and compiles one object filter. Property-path comparisons are
/// not supported; only the null checks compile.
pub fn compile_object_filter(fields: &Vec<Field>, filter: &ObjectFilter) -> (r: Result<
    CompiledFilter,
    FilterError,
>)
    ensures
        r is Ok == object_filter_ok(fields_view(fields@), *filter),
        match r {
            Ok(c) => object_compiled(fields_view(fields@), *filter, c),
            Err(e) => object_filter_err(fields_view(fields@), *filter, e),
        },
{
    let mut allowed: Vec<DataType> = Vec::new();
    allowed.push(DataType::Object);
    proof {
        assert(allowed@[0] == DataType::Object);
        assert forall|t: DataType| allowed@.contains(t) implies t == DataType::Object by {
            let i = choose|i: int| 0 <= i < allowed@.len() && allowed@[i] == t;
        }
    }
    let field = match resolve_field(fields, filter.field_name.as_str(), &allowed) {
        Ok(f) => f,
        Err(e) => {
            return Err(e);
        },
    };
    match filter.comparison {
        ObjectComparison::HasProperty => {
            if filter.property_path.is_some() {
                Err(FilterError::UnsupportedComparison { field_name: filter.field_name.clone() })
            } else {
                Err(FilterError::MissingRequiredOperand { field_name: filter.field_name.clone() })
            }
        },
        ObjectComparison::PropertyEquals => Err(
            FilterError::UnsupportedComparison { field_name: filter.field_name.clone() },
        ),
        ObjectComparison::PropertyContains => Err(
            FilterError::UnsupportedComparison { field_name: filter.field_name.clone() },
        ),
        ObjectComparison::IsEmpty => Ok(
            CompiledFilter::Object { field_id: field.id, op: ObjectOp::IsNull },
        ),
        ObjectComparison::IsNotEmpty => Ok(
            CompiledFilter::Object { field_id: field.id, op: ObjectOp::IsNotNull },
        ),
    }
}

/// All text filters of the optional sequence validate.
pub open spec fn all_text_ok(fields: Seq<FieldV>, o: Option<Vec<TextFilter>>) -> bool {
    match o {
        Some(v) => forall|i: int| #![trigger v@.index(i)]
            0 <= i < v@.len() ==> text_filter_ok(fields, v@[i]),
        None => true,
    }
}

/// All number filters of the optional sequence validate.
pub open spec fn all_number_ok(fields: Seq<FieldV>, o: Option<Vec<NumberFilter>>) -> bool {
    match o {
        Some(v) => forall|i: int| #![trigger v@.index(i)]
            0 <= i < v@.len() ==> number_filter_ok(fields, v@[i]),
        None => true,
    }
}

/// All boolean filters of the optional sequence validate.
pub open spec fn all_boolean_ok(fields: Seq<FieldV>, o: Option<Vec<BooleanFilter>>) -> bool {
    match o {
        Some(v) => forall|i: int| #![trigger v@.index(i)]
            0 <= i < v@.len() ==> boolean_filter_ok(fields, v@[i]),
        None => true,
    }
}

/// All date-time filters of the optional sequence validate.
pub open spec fn all_date_time_ok(fields: Seq<FieldV>, o: Option<Vec<DateTimeFilter>>) -> bool {
    match o {
        Some(v) => forall|i: int| #![trigger v@.index(i)]
            0 <= i < v@.len() ==> date_time_filter_ok(fields, v@[i]),
        None => true,
    }
}

/// All list filters of the optional sequence validate.
pub open spec fn all_list_ok(fields: Seq<FieldV>, o: Option<Vec<ListFilter>>) -> bool {
    match o {
        Some(v) => forall|i: int| #![trigger v@.index(i)]
            0 <= i < v@.len() ==> list_filter_ok(fields, v@[i]),
        None => true,
    }
}

/// All relation filters of the optional sequence validate.
pub open spec fn all_relation_ok(fields: Seq<FieldV>, o: Option<Vec<RelationFilter>>) -> bool {
    match o {
        Some(v) => forall|i: int| #![trigger v@.index(i)]
            0 <= i < v@.len() ==> relation_filter_ok(fields, v@[i]),
        None => true,
    }
}

/// All object filters of the optional sequence validate.
pub open spec fn all_object_ok(fields: Seq<FieldV>, o: Option<Vec<ObjectFilter>>) -> bool {
    match o {
        Some(v) => forall|i: int| #![trigger v@.index(i)]
            0 <= i < v@.len() ==> object_filter_ok(fields, v@[i]),
        None => true,
    }
}

/// Every filter of every kind validates against the catalog.
pub open spec fn filters_ok(fields: Seq<FieldV>, filters: EntryFilters) -> bool {
    &&& all_text_ok(fields, filters.text_filters)
    &&& all_number_ok(fields, filters.number_filters)
    &&& all_boolean_ok(fields, filters.boolean_filters)
    &&& all_date_time_ok(fields, filters.date_time_filters)
    &&& all_list_ok(fields, filters.list_filters)
    &&& all_relation_ok(fields, filters.relation_filters)
    &&& all_object_ok(fields, filters.object_filters)
}

/// `e` is the error of the first failing filter of the sequence.
pub open spec fn first_text_failure(fields: Seq<FieldV>, v: Seq<TextFilter>, e: FilterError) -> bool {
    exists|i: int| #![trigger v.index(i)]
        0 <= i < v.len() && !text_filter_ok(fields, v[i]) && (forall|j: int|
            #![trigger v.index(j)]
            0 <= j < i ==> text_filter_ok(fields, v[j])) && text_filter_err(fields, v[i], e)
}

/// `e` is the error of the first failing filter of the sequence.
pub open spec fn first_number_failure(
    fields: Seq<FieldV>,
    v: Seq<NumberFilter>,
    e: FilterError,
) -> bool {
    exists|i: int| #![trigger v.index(i)]
        0 <= i < v.len() && !number_filter_ok(fields, v[i]) && (forall|j: int|
            #![trigger v.index(j)]
            0 <= j < i ==> number_filter_ok(fields, v[j])) && number_filter_err(fields, v[i], e)
}

/// `e` is the error of the first failing filter of the sequence.
pub open spec fn first_boolean_failure(
    fields: Seq<FieldV>,
    v: Seq<BooleanFilter>,
    e: FilterError,
) -> bool {
    exists|i: int| #![trigger v.index(i)]
        0 <= i < v.len() && !boolean_filter_ok(fields, v[i]) && (forall|j: int|
            #![trigger v.index(j)]
            0 <= j < i ==> boolean_filter_ok(fields, v[j])) && boolean_filter_err(fields, v[i], e)
}

/// `e` is the error of the first failing filter of the sequence.
pub open spec fn first_date_time_failure(
    fields: Seq<FieldV>,
    v: Seq<DateTimeFilter>,
    e: FilterError,
) -> bool {
    exists|i: int| #![trigger v.index(i)]
        0 <= i < v.len() && !date_time_filter_ok(fields, v[i]) && (forall|j: int|
            #![trigger v.index(j)]
            0 <= j < i ==> date_time_filter_ok(fields, v[j])) && date_time_filter_err(
            fields,
            v[i],
            e,
        )
}

/// `e` is the error of the first failing filter of the sequence.
pub open spec fn first_list_failure(fields: Seq<FieldV>, v: Seq<ListFilter>, e: FilterError) -> bool {
    exists|i: int| #![trigger v.index(i)]
        0 <= i < v.len() && !list_filter_ok(fields, v[i]) && (forall|j: int|
            #![trigger v.index(j)]
            0 <= j < i ==> list_filter_ok(fields, v[j])) && list_filter_err(fields, v[i], e)
}

/// `e` is the error of the first failing filter of the sequence.
pub open spec fn first_relation_failure(
    fields: Seq<FieldV>,
    v: Seq<RelationFilter>,
    e: FilterError,
) -> bool {
    exists|i: int| #![trigger v.index(i)]
        0 <= i < v.len() && !relation_filter_ok(fields, v[i]) && (forall|j: int|
            #![trigger v.index(j)]
            0 <= j < i ==> relation_filter_ok(fields, v[j])) && relation_filter_err(
            fields,
            v[i],
            e,
        )
}

/// `e` is the error of the first failing filter of the sequence.
pub open spec fn first_object_failure(
    fields: Seq<FieldV>,
    v: Seq<ObjectFilter>,
    e: FilterError,
) -> bool {
    exists|i: int| #![trigger v.index(i)]
        0 <= i < v.len() && !object_filter_ok(fields, v[i]) && (forall|j: int|
            #![trigger v.index(j)]
            0 <= j < i ==> object_filter_ok(fields, v[j])) && object_filter_err(fields, v[i], e)
}

/// `e` is the error of the first failing filter of the whole set, in the
/// order the kinds are compiled: text, number, boolean, date-time, list,
/// relation, object, and within a kind by position.
pub open spec fn filters_first_err(fields: Seq<FieldV>, filters: EntryFilters, e: FilterError) -> bool {
    if !all_text_ok(fields, filters.text_filters) {
        filters.text_filters matches Some(v) && first_text_failure(fields, v@, e)
    } else if !all_number_ok(fields, filters.number_filters) {
        filters.number_filters matches Some(v) && first_number_failure(fields, v@, e)
    } else if !all_boolean_ok(fields, filters.boolean_filters) {
        filters.boolean_filters matches Some(v) && first_boolean_failure(fields, v@, e)
    } else if !all_date_time_ok(fields, filters.date_time_filters) {
        filters.date_time_filters matches Some(v) && first_date_time_failure(fields, v@, e)
    } else if !all_list_ok(fields, filters.list_filters) {
        filters.list_filters matches Some(v) && first_list_failure(fields, v@, e)
    } else if !all_relation_ok(fields, filters.relation_filters) {
        filters.relation_filters matches Some(v) && first_relation_failure(fields, v@, e)
    } else if !all_object_ok(fields, filters.object_filters) {
        filters.object_filters matches Some(v) && first_object_failure(fields, v@, e)
    } else {
        false
    }
}

/// The number of filters an optional sequence contributes.
pub open spec fn opt_filters_len<T>(o: Option<Vec<T>>) -> int {
    match o {
        Some(v) => v@.len() as int,
        None => 0,
    }
}

/// `out` is the compiled form of the whole filter set: one fragment per
/// source filter, kind by kind in compilation order.
pub open spec fn compiled_entry_filters(
    fields: Seq<FieldV>,
    filters: EntryFilters,
    out: Seq<CompiledFilter>,
) -> bool {
    let nt = opt_filters_len(filters.text_filters);
    let nn = opt_filters_len(filters.number_filters);
    let nb = opt_filters_len(filters.boolean_filters);
    let nd = opt_filters_len(filters.date_time_filters);
    let nl = opt_filters_len(filters.list_filters);
    let nr = opt_filters_len(filters.relation_filters);
    let no = opt_filters_len(filters.object_filters);
    &&& out.len() == nt + nn + nb + nd + nl + nr + no
    &&& forall|i: int| #![trigger filters.text_filters->0@.index(i)]
        0 <= i < nt ==> text_compiled(fields, filters.text_filters->0@[i], out[i])
    &&& forall|i: int| #![trigger filters.number_filters->0@.index(i)]
        0 <= i < nn ==> number_compiled(fields, filters.number_filters->0@[i], out[nt + i])
    &&& forall|i: int| #![trigger filters.boolean_filters->0@.index(i)]
        0 <= i < nb ==> boolean_compiled(fields, filters.boolean_filters->0@[i], out[nt + nn + i])
    &&& forall|i: int| #![trigger filters.date_time_filters->0@.index(i)]
        0 <= i < nd ==> date_time_compiled(
            fields,
            filters.date_time_filters->0@[i],
            out[nt + nn + nb + i],
        )
    &&& forall|i: int| #![trigger filters.list_filters->0@.index(i)]
        0 <= i < nl ==> list_compiled(fields, filters.list_filters->0@[i], out[nt + nn + nb + nd + i])
    &&& forall|i: int| #![trigger filters.relation_filters->0@.index(i)]
        0 <= i < nr ==> relation_compiled(
            fields,
            filters.relation_filters->0@[i],
            out[nt + nn + nb + nd + nl + i],
        )
    &&& forall|i: int| #![trigger filters.object_filters->0@.index(i)]
        0 <= i < no ==> object_compiled(
            fields,
            filters.object_filters->0@[i],
            out[nt + nn + nb + nd + nl + nr + i],
        )
}

fn compile_text_filters(
    fields: &Vec<Field>,
    filters: &Vec<TextFilter>,
    out: &mut Vec<CompiledFilter>,
) -> (r: Result<(), FilterError>)
    ensures
        match r {
            Ok(_) => {
                &&& final(out)@.len() == old(out)@.len() + filters@.len()
                &&& final(out)@.subrange(0, old(out)@.len() as int) == old(out)@
                &&& forall|i: int| #![trigger filters@.index(i)]
                    0 <= i < filters@.len() ==> text_compiled(
                        fields_view(fields@),
                        filters@[i],
                        final(out)@[old(out)@.len() + i],
                    )
            },
            Err(e) => first_text_failure(fields_view(fields@), filters@, e),
        },
{
    let n = filters.len();
    let mut i: usize = 0;
    while i < n
        invariant
            n == filters@.len(),
            i <= n,
            out@.len() == old(out)@.len() + i,
            out@.subrange(0, old(out)@.len() as int) == old(out)@,
            forall|k: int| #![trigger filters@.index(k)]
                0 <= k < i ==> text_compiled(fields_view(fields@), filters@[k], out@[old(out)@.len() + k]),
        decreases n - i,
    {
        match compile_text_filter(fields, &filters[i]) {
            Ok(c) => {
                out.push(c);
                proof {
                    assert(out@.subrange(0, old(out)@.len() as int) =~= old(out)@);
                }
            },
            Err(e) => {
                return Err(e);
            },
        }
        i = i + 1;
    }
    Ok(())
}

fn compile_number_filters(
    fields: &Vec<Field>,
    filters: &Vec<NumberFilter>,
    out: &mut Vec<CompiledFilter>,
) -> (r: Result<(), FilterError>)
    ensures
        match r {
            Ok(_) => {
                &&& final(out)@.len() == old(out)@.len() + filters@.len()
                &&& final(out)@.subrange(0, old(out)@.len() as int) == old(out)@
                &&& forall|i: int| #![trigger filters@.index(i)]
                    0 <= i < filters@.len() ==> number_compiled(
                        fields_view(fields@),
                        filters@[i],
                        final(out)@[old(out)@.len() + i],
                    )
            },
            Err(e) => first_number_failure(fields_view(fields@), filters@, e),
        },
{
    let n = filters.len();
    let mut i: usize = 0;
    while i < n
        invariant
            n == filters@.len(),
            i <= n,
            out@.len() == old(out)@.len() + i,
            out@.subrange(0, old(out)@.len() as int) == old(out)@,
            forall|k: int| #![trigger filters@.index(k)]
                0 <= k < i ==> number_compiled(fields_view(fields@), filters@[k], out@[old(out)@.len() + k]),
        decreases n - i,
    {
        match compile_number_filter(fields, &filters[i]) {
            Ok(c) => {
                out.push(c);
                proof {
                    assert(out@.subrange(0, old(out)@.len() as int) =~= old(out)@);
                }
            },
            Err(e) => {
                return Err(e);
            },
        }
        i = i + 1;
    }
    Ok(())
}

fn compile_boolean_filters(
    fields: &Vec<Field>,
    filters: &Vec<BooleanFilter>,
    out: &mut Vec<CompiledFilter>,
) -> (r: Result<(), FilterError>)
    ensures
        match r {
            Ok(_) => {
                &&& final(out)@.len() == old(out)@.len() + filters@.len()
                &&& final(out)@.subrange(0, old(out)@.len() as int) == old(out)@
                &&& forall|i: int| #![trigger filters@.index(i)]
                    0 <= i < filters@.len() ==> boolean_compiled(
                        fields_view(fields@),
                        filters@[i],
                        final(out)@[old(out)@.len() + i],
                    )
            },
            Err(e) => first_boolean_failure(fields_view(fields@), filters@, e),
        },
{
    let n = filters.len();
    let mut i: usize = 0;
    while i < n
        invariant
            n == filters@.len(),
            i <= n,
            out@.len() == old(out)@.len() + i,
            out@.subrange(0, old(out)@.len() as int) == old(out)@,
            forall|k: int| #![trigger filters@.index(k)]
                0 <= k < i ==> boolean_compiled(fields_view(fields@), filters@[k], out@[old(out)@.len() + k]),
        decreases n - i,
    {
        match compile_boolean_filter(fields, &filters[i]) {
            Ok(c) => {
                out.push(c);
                proof {
                    assert(out@.subrange(0, old(out)@.len() as int) =~= old(out)@);
                }
            },
            Err(e) => {
                return Err(e);
            },
        }
        i = i + 1;
    }
    Ok(())
}

fn compile_date_time_filters(
    fields: &Vec<Field>,
    filters: &Vec<DateTimeFilter>,
    out: &mut Vec<CompiledFilter>,
) -> (r: Result<(), FilterError>)
    ensures
        match r {
            Ok(_) => {
                &&& final(out)@.len() == old(out)@.len() + filters@.len()
                &&& final(out)@.subrange(0, old(out)@.len() as int) == old(out)@
                &&& forall|i: int| #![trigger filters@.index(i)]
                    0 <= i < filters@.len() ==> date_time_compiled(
                        fields_view(fields@),
                        filters@[i],
                        final(out)@[old(out)@.len() + i],
                    )
            },
            Err(e) => first_date_time_failure(fields_view(fields@), filters@, e),
        },
{
    let n = filters.len();
    let mut i: usize = 0;
    while i < n
        invariant
            n == filters@.len(),
            i <= n,
            out@.len() == old(out)@.len() + i,
            out@.subrange(0, old(out)@.len() as int) == old(out)@,
            forall|k: int| #![trigger filters@.index(k)]
                0 <= k < i ==> date_time_compiled(fields_view(fields@), filters@[k], out@[old(out)@.len() + k]),
        decreases n - i,
    {
        match compile_date_time_filter(fields, &filters[i]) {
            Ok(c) => {
                out.push(c);
                proof {
                    assert(out@.subrange(0, old(out)@.len() as int) =~= old(out)@);
                }
            },
            Err(e) => {
                return Err(e);
            },
        }
        i = i + 1;
    }
    Ok(())
}

fn compile_list_filters(
    fields: &Vec<Field>,
    filters: &Vec<ListFilter>,
    out: &mut Vec<CompiledFilter>,
) -> (r: Result<(), FilterError>)
    ensures
        match r {
            Ok(_) => {
                &&& final(out)@.len() == old(out)@.len() + filters@.len()
                &&& final(out)@.subrange(0, old(out)@.len() as int) == old(out)@
                &&& forall|i: int| #![trigger filters@.index(i)]
                    0 <= i < filters@.len() ==> list_compiled(
                        fields_view(fields@),
                        filters@[i],
                        final(out)@[old(out)@.len() + i],
                    )
            },
            Err(e) => first_list_failure(fields_view(fields@), filters@, e),
        },
{
    let n = filters.len();
    let mut i: usize = 0;
    while i < n
        invariant
            n == filters@.len(),
            i <= n,
            out@.len() == old(out)@.len() + i,
            out@.subrange(0, old(out)@.len() as int) == old(out)@,
            forall|k: int| #![trigger filters@.index(k)]
                0 <= k < i ==> list_compiled(fields_view(fields@), filters@[k], out@[old(out)@.len() + k]),
        decreases n - i,
    {
        match compile_list_filter(fields, &filters[i]) {
            Ok(c) => {
                out.push(c);
                proof {
                    assert(out@.subrange(0, old(out)@.len() as int) =~= old(out)@);
                }
            },
            Err(e) => {
                return Err(e);
            },
        }
        i = i + 1;
    }
    Ok(())
}

fn compile_relation_filters(
    fields: &Vec<Field>,
    filters: &Vec<RelationFilter>,
    out: &mut Vec<CompiledFilter>,
) -> (r: Result<(), FilterError>)
    ensures
        match r {
            Ok(_) => {
                &&& final(out)@.len() == old(out)@.len() + filters@.len()
                &&& final(out)@.subrange(0, old(out)@.len() as int) == old(out)@
                &&& forall|i: int| #![trigger filters@.index(i)]
                    0 <= i < filters@.len() ==> relation_compiled(
                        fields_view(fields@),
                        filters@[i],
                        final(out)@[old(out)@.len() + i],
                    )
            },
            Err(e) => first_relation_failure(fields_view(fields@), filters@, e),
        },
{
    let n = filters.len();
    let mut i: usize = 0;
    while i < n
        invariant
            n == filters@.len(),
            i <= n,
            out@.len() == old(out)@.len() + i,
            out@.subrange(0, old(out)@.len() as int) == old(out)@,
            forall|k: int| #![trigger filters@.index(k)]
                0 <= k < i ==> relation_compiled(fields_view(fields@), filters@[k], out@[old(out)@.len() + k]),
        decreases n - i,
    {
        match compile_relation_filter(fields, &filters[i]) {
            Ok(c) => {
                out.push(c);
                proof {
                    assert(out@.subrange(0, old(out)@.len() as int) =~= old(out)@);
                }
            },
            Err(e) => {
                return Err(e);
            },
        }
        i = i + 1;
    }
    Ok(())
}

fn compile_object_filters(
    fields: &Vec<Field>,
    filters: &Vec<ObjectFilter>,
    out: &mut Vec<CompiledFilter>,
) -> (r: Result<(), FilterError>)
    ensures
        match r {
            Ok(_) => {
                &&& final(out)@.len() == old(out)@.len() + filters@.len()
                &&& final(out)@.subrange(0, old(out)@.len() as int) == old(out)@
                &&& forall|i: int| #![trigger filters@.index(i)]
                    0 <= i < filters@.len() ==> object_compiled(
                        fields_view(fields@),
                        filters@[i],
                        final(out)@[old(out)@.len() + i],
                    )
            },
            Err(e) => first_object_failure(fields_view(fields@), filters@, e),
        },
{
    let n = filters.len();
    let mut i: usize = 0;
    while i < n
        invariant
            n == filters@.len(),
            i <= n,
            out@.len() == old(out)@.len() + i,
            out@.subrange(0, old(out)@.len() as int) == old(out)@,
            forall|k: int| #![trigger filters@.index(k)]
                0 <= k < i ==> object_compiled(fields_view(fields@), filters@[k], out@[old(out)@.len() + k]),
        decreases n - i,
    {
        match compile_object_filter(fields, &filters[i]) {
            Ok(c) => {
                out.push(c);
                proof {
                    assert(out@.subrange(0, old(out)@.len() as int) =~= old(out)@);
                }
            },
            Err(e) => {
                return Err(e);
            },
        }
        i = i + 1;
    }
    Ok(())
}

/// Validates and compiles the whole filter set into the conjunction of one
/// fragment per filter. The first validation failure aborts compilation:
/// no partial predicate is ever produced.
#[verifier::rlimit(100)]
pub fn compile_filters(fields: &Vec<Field>, filters: &EntryFilters) -> (r: Result<
    Vec<CompiledFilter>,
    FilterError,
>)
    ensures
        r is Ok == filters_ok(fields_view(fields@), *filters),
        match r {
            Ok(out) => compiled_entry_filters(fields_view(fields@), *filters, out@),
            Err(e) => filters_first_err(fields_view(fields@), *filters, e),
        },
{
    let mut out: Vec<CompiledFilter> = Vec::new();
    if let Some(v) = &filters.text_filters {
        match compile_text_filters(fields, v, &mut out) {
            Ok(_) => {},
            Err(e) => {
                return Err(e);
            },
        }
    }
    if let Some(v) = &filters.number_filters {
        match compile_number_filters(fields, v, &mut out) {
            Ok(_) => {},
            Err(e) => {
                return Err(e);
            },
        }
    }
    if let Some(v) = &filters.boolean_filters {
        match compile_boolean_filters(fields, v, &mut out) {
            Ok(_) => {},
            Err(e) => {
                return Err(e);
            },
        }
    }
    if let Some(v) = &filters.date_time_filters {
        match compile_date_time_filters(fields, v, &mut out) {
            Ok(_) => {},
            Err(e) => {
                return Err(e);
            },
        }
    }
    if let Some(v) = &filters.list_filters {
        match compile_list_filters(fields, v, &mut out) {
            Ok(_) => {},
            Err(e) => {
                return Err(e);
            },
        }
    }
    if let Some(v) = &filters.relation_filters {
        match compile_relation_filters(fields, v, &mut out) {
            Ok(_) => {},
            Err(e) => {
                return Err(e);
            },
        }
    }
    if let Some(v) = &filters.object_filters {
        match compile_object_filters(fields, v, &mut out) {
            Ok(_) => {},
            Err(e) => {
                return Err(e);
            },
        }
    }
    Ok(out)
}

/// The order to use: ascending unless asked otherwise.
pub open spec fn effective_order(order_by: Option<EntryOrderBy>) -> EntryOrderBy {
    match order_by {
        Some(o) => o,
        None => EntryOrderBy::Asc,
    }
}

/// The result values of a filtered listing: those selected by some compiled
/// form of the filter set. All compiled forms of one filter set select the
/// same entries.
pub open spec fn query_result_views(
    store: Store,
    collection_id: u128,
    flds: Seq<FieldV>,
    f: EntryFilters,
    vs: Seq<EntryV>,
) -> bool {
    exists|cs: Seq<CompiledFilter>|
        #[trigger] compiled_entry_filters(flds, f, cs) && vs.to_multiset() == selected_views(
            store,
            collection_id,
            cs,
        ).to_multiset()
}

/// The first entry of the collection with the given name, if any.
pub open spec fn find_entry(entries: Seq<EntryV>, collection_id: u128, name: Seq<char>) -> Option<
    EntryV,
>
    decreases entries.len(),
{
    if entries.len() == 0 {
        None
    } else if entries[0].collection_id == collection_id && entries[0].name == name {
        Some(entries[0])
    } else {
        find_entry(entries.skip(1), collection_id, name)
    }
}

proof fn lemma_find_entry_step(entries: Seq<EntryV>, collection_id: u128, name: Seq<char>, i: int)
    requires
        0 <= i < entries.len(),
        forall|k: int|
            0 <= k < i ==> !(entries[k].collection_id == collection_id && entries[k].name == name),
    ensures
        entries[i].collection_id == collection_id && entries[i].name == name ==> find_entry(
            entries,
            collection_id,
            name,
        ) == Some(entries[i]),
    decreases i,
{
    if i == 0 {
    } else {
        lemma_find_entry_step(entries.skip(1), collection_id, name, i - 1);
        assert(entries.skip(1)[i - 1] == entries[i]);
    }
}

proof fn lemma_find_entry_none(entries: Seq<EntryV>, collection_id: u128, name: Seq<char>)
    requires
        forall|k: int|
            0 <= k < entries.len() ==> !(entries[k].collection_id == collection_id
                && entries[k].name == name),
    ensures
        find_entry(entries, collection_id, name) is None,
    decreases entries.len(),
{
    if entries.len() > 0 {
        lemma_find_entry_none(entries.skip(1), collection_id, name);
    }
}

impl Collection {
    pub fn id(&self) -> (r: u128)
        ensures
            r == self.id,
    {
        self.id
    }

    pub fn name(&self) -> (r: &str)
        ensures
            r@ == self.name@,
    {
        self.name.as_str()
    }

    pub fn created_at(&self) -> (r: i64)
        ensures
            r == self.created_at,
    {
        self.created_at
    }

    pub fn created_by(&self) -> (r: u128)
        ensures
            r == self.created_by,
    {
        self.created_by
    }

    /// The fields declared for this collection, in declaration order.
    pub fn fields(&self, store: &Store) -> (r: Vec<Field>)
        ensures
            fields_view(r@) == fields_of(fields_view(store.fields@), self.id),
    {
        load_fields(store, self.id)
    }

    /// Lists this collection's entries: compiles the filter set if one is
    /// given, keeps exactly the entries the compiled predicate selects, and
    /// orders them by creation time. The first validation failure aborts
    /// before anything is evaluated.
    pub fn entries(
        &self,
        store: &Store,
        filters: Option<EntryFilters>,
        order_by: Option<EntryOrderBy>,
    ) -> (r: Result<Vec<Entry>, FilterError>)
        ensures
            r is Ok == match filters {
                Some(f) => filters_ok(fields_of(fields_view(store.fields@), self.id), f),
                None => true,
            },
            match r {
                Ok(v) => {
                    &&& entries_ordered(entries_view(v@), effective_order(order_by))
                    &&& match filters {
                        Some(f) => query_result_views(
                            *store,
                            self.id,
                            fields_of(fields_view(store.fields@), self.id),
                            f,
                            entries_view(v@),
                        ),
                        None => entries_view(v@).to_multiset() == selected_views(
                            *store,
                            self.id,
                            Seq::<CompiledFilter>::empty(),
                        ).to_multiset(),
                    }
                },
                Err(e) => filters matches Some(f) && filters_first_err(
                    fields_of(fields_view(store.fields@), self.id),
                    f,
                    e,
                ),
            },
    {
        let order = match order_by {
            Some(o) => o,
            None => EntryOrderBy::Asc,
        };
        let flds = self.fields(store);
        match filters {
            Some(f) => {
                match compile_filters(&flds, &f) {
                    Ok(cs) => {
                        let v = run_query(store, self.id, &cs, order);
                        proof {
                            assert(compiled_entry_filters(
                                fields_of(fields_view(store.fields@), self.id),
                                f,
                                cs@,
                            ));
                            assert(query_result_views(
                                *store,
                                self.id,
                                fields_of(fields_view(store.fields@), self.id),
                                f,
                                entries_view(v@),
                            ));
                        }
                        Ok(v)
                    },
                    Err(e) => Err(e),
                }
            },
            None => {
                let cs: Vec<CompiledFilter> = Vec::new();
                let v = run_query(store, self.id, &cs, order);
                proof {
                    assert(cs@ =~= Seq::<CompiledFilter>::empty());
                }
                Ok(v)
            },
        }
    }

    /// Looks one entry up by exact name; names are expected unique within a
    /// collection, and the first match in storage order is returned.
    pub fn entry(&self, store: &Store, name: String) -> (r: Result<Entry, FilterError>)
        ensures
            match r {
                Ok(e) => find_entry(entries_view(store.entries@), self.id, name@) == Some(e@),
                Err(e) => e matches FilterError::EntryNotFound { name: n } && n@ == name@
                    && find_entry(entries_view(store.entries@), self.id, name@) is None,
            },
    {
        let n = store.entries.len();
        let mut i: usize = 0;
        while i < n
            invariant
                n == store.entries@.len(),
                i <= n,
                forall|k: int| #![trigger entries_view(store.entries@).index(k)]
                    0 <= k < i ==> !(entries_view(store.entries@)[k].collection_id == self.id
                        && entries_view(store.entries@)[k].name == name@),
            decreases n - i,
        {
            proof {
                assert(entries_view(store.entries@)[i as int] == store.entries@[i as int]@);
            }
            let e = &store.entries[i];
            if e.collection_id == self.id && crate::text::str_eq(e.name.as_str(), name.as_str()) {
                proof {
                    lemma_find_entry_step(
                        entries_view(store.entries@),
                        self.id,
                        name@,
                        i as int,
                    );
                }
                return Ok(e.clone());
            }
            i = i + 1;
        }
        proof {
            lemma_find_entry_none(entries_view(store.entries@), self.id, name@);
        }
        Err(FilterError::EntryNotFound { name })
    }
}

/// Whether any filter of any kind in the set references the field name.
pub open spec fn references_name(filters: EntryFilters, name: Seq<char>) -> bool {
    ||| filters.text_filters matches Some(v) && exists|i: int|
        0 <= i < v@.len() && (#[trigger] v@[i]).field_name@ == name
    ||| filters.number_filters matches Some(v) && exists|i: int|
        0 <= i < v@.len() && (#[trigger] v@[i]).field_name@ == name
    ||| filters.boolean_filters matches Some(v) && exists|i: int|
        0 <= i < v@.len() && (#[trigger] v@[i]).field_name@ == name
    ||| filters.date_time_filters matches Some(v) && exists|i: int|
        0 <= i < v@.len() && (#[trigger] v@[i]).field_name@ == name
    ||| filters.list_filters matches Some(v) && exists|i: int|
        0 <= i < v@.len() && (#[trigger] v@[i]).field_name@ == name
    ||| filters.relation_filters matches Some(v) && exists|i: int|
        0 <= i < v@.len() && (#[trigger] v@[i]).field_name@ == name
    ||| filters.object_filters matches Some(v) && exists|i: int|
        0 <= i < v@.len() && (#[trigger] v@[i]).field_name@ == name
}

/// A filter set referencing a field name absent from the catalog never
/// compiles, and the failing filter's own error is FieldNotFound carrying
/// that name: no predicate is ever produced for it.
pub proof fn lemma_absent_field_fails(fields: Seq<FieldV>, filters: EntryFilters, name: Seq<char>)
    requires
        find_field(fields, name) is None,
        references_name(filters, name),
    ensures
        !filters_ok(fields, filters),
{
}

/// A filter referencing an absent field is itself rejected, and the only
/// error its compilation can report is FieldNotFound with the field's name.
pub proof fn lemma_absent_field_error(fields: Seq<FieldV>, name: Seq<char>)
    requires
        find_field(fields, name) is None,
    ensures
        forall|f: TextFilter| f.field_name@ == name ==> !(#[trigger] text_filter_ok(fields, f)),
        forall|f: TextFilter, e: FilterError|
            f.field_name@ == name && #[trigger] text_filter_err(fields, f, e) ==> (e matches
                FilterError::FieldNotFound { field_name } && field_name@ == name),
        forall|f: NumberFilter| f.field_name@ == name ==> !(#[trigger] number_filter_ok(fields, f)),
        forall|f: NumberFilter, e: FilterError|
            f.field_name@ == name && #[trigger] number_filter_err(fields, f, e) ==> (e matches
                FilterError::FieldNotFound { field_name } && field_name@ == name),
        forall|f: BooleanFilter| f.field_name@ == name ==> !(#[trigger] boolean_filter_ok(
            fields,
            f,
        )),
        forall|f: BooleanFilter, e: FilterError|
            f.field_name@ == name && #[trigger] boolean_filter_err(fields, f, e) ==> (e matches
                FilterError::FieldNotFound { field_name } && field_name@ == name),
        forall|f: DateTimeFilter| f.field_name@ == name ==> !(#[trigger] date_time_filter_ok(
            fields,
            f,
        )),
        forall|f: DateTimeFilter, e: FilterError|
            f.field_name@ == name && #[trigger] date_time_filter_err(fields, f, e) ==> (e matches
                FilterError::FieldNotFound { field_name } && field_name@ == name),
        forall|f: ListFilter| f.field_name@ == name ==> !(#[trigger] list_filter_ok(fields, f)),
        forall|f: ListFilter, e: FilterError|
            f.field_name@ == name && #[trigger] list_filter_err(fields, f, e) ==> (e matches
                FilterError::FieldNotFound { field_name } && field_name@ == name),
        forall|f: RelationFilter| f.field_name@ == name ==> !(#[trigger] relation_filter_ok(
            fields,
            f,
        )),
        forall|f: RelationFilter, e: FilterError|
            f.field_name@ == name && #[trigger] relation_filter_err(fields, f, e) ==> (e matches
                FilterError::FieldNotFound { field_name } && field_name@ == name),
        forall|f: ObjectFilter| f.field_name@ == name ==> !(#[trigger] object_filter_ok(fields, f)),
        forall|f: ObjectFilter, e: FilterError|
            f.field_name@ == name && #[trigger] object_filter_err(fields, f, e) ==> (e matches
                FilterError::FieldNotFound { field_name } && field_name@ == name),
{
}

/// A filter whose field's declared type is outside its kind's allowed set is
/// itself rejected, and the only error its compilation can report is
/// FieldTypeMismatch carrying the field's name and declared type.
pub proof fn lemma_type_mismatch_error(fields: Seq<FieldV>, name: Seq<char>, fld: FieldV)
    requires
        find_field(fields, name) == Some(fld),
    ensures
        forall|f: TextFilter|
            f.field_name@ == name && !(fld.data_type == DataType::Text || fld.data_type
                == DataType::TypstText) ==> !(#[trigger] text_filter_ok(fields, f)),
        forall|f: TextFilter, e: FilterError|
            f.field_name@ == name && !(fld.data_type == DataType::Text || fld.data_type
                == DataType::TypstText) && #[trigger] text_filter_err(fields, f, e) ==> (e matches
                FilterError::FieldTypeMismatch { field_name, actual } && field_name@ == name
                && actual == fld.data_type),
        forall|f: NumberFilter|
            f.field_name@ == name && fld.data_type != DataType::Number ==> !(
            #[trigger] number_filter_ok(fields, f)),
        forall|f: NumberFilter, e: FilterError|
            f.field_name@ == name && fld.data_type != DataType::Number
                && #[trigger] number_filter_err(fields, f, e) ==> (e matches
                FilterError::FieldTypeMismatch { field_name, actual } && field_name@ == name
                && actual == fld.data_type),
        forall|f: BooleanFilter|
            f.field_name@ == name && fld.data_type != DataType::Boolean ==> !(
            #[trigger] boolean_filter_ok(fields, f)),
        forall|f: BooleanFilter, e: FilterError|
            f.field_name@ == name && fld.data_type != DataType::Boolean
                && #[trigger] boolean_filter_err(fields, f, e) ==> (e matches
                FilterError::FieldTypeMismatch { field_name, actual } && field_name@ == name
                && actual == fld.data_type),
        forall|f: DateTimeFilter|
            f.field_name@ == name && fld.data_type != DataType::DateTime ==> !(
            #[trigger] date_time_filter_ok(fields, f)),
        forall|f: DateTimeFilter, e: FilterError|
            f.field_name@ == name && fld.data_type != DataType::DateTime
                && #[trigger] date_time_filter_err(fields, f, e) ==> (e matches
                FilterError::FieldTypeMismatch { field_name, actual } && field_name@ == name
                && actual == fld.data_type),
        forall|f: ListFilter|
            f.field_name@ == name && !(fld.data_type == DataType::TextList || fld.data_type
                == DataType::NumberList) ==> !(#[trigger] list_filter_ok(fields, f)),
        forall|f: ListFilter, e: FilterError|
            f.field_name@ == name && !(fld.data_type == DataType::TextList || fld.data_type
                == DataType::NumberList) && #[trigger] list_filter_err(fields, f, e) ==> (e matches
                FilterError::FieldTypeMismatch { field_name, actual } && field_name@ == name
                && actual == fld.data_type),
        forall|f: RelationFilter|
            f.field_name@ == name && fld.data_type != DataType::Relation ==> !(
            #[trigger] relation_filter_ok(fields, f)),
        forall|f: RelationFilter, e: FilterError|
            f.field_name@ == name && fld.data_type != DataType::Relation
                && #[trigger] relation_filter_err(fields, f, e) ==> (e matches
                FilterError::FieldTypeMismatch { field_name, actual } && field_name@ == name
                && actual == fld.data_type),
        forall|f: ObjectFilter|
            f.field_name@ == name && fld.data_type != DataType::Object ==> !(
            #[trigger] object_filter_ok(fields, f)),
        forall|f: ObjectFilter, e: FilterError|
            f.field_name@ == name && fld.data_type != DataType::Object
                && #[trigger] object_filter_err(fields, f, e) ==> (e matches
                FilterError::FieldTypeMismatch { field_name, actual } && field_name@ == name
                && actual == fld.data_type),
{
}

} // verus!
