use flexstore::collection::{
    BooleanComparison, BooleanFilter, Collection, DataType, EntryFilters, Field, FilterError,
    ListComparison, ListFilter, NumberComparison, NumberFilter, ObjectComparison, ObjectFilter,
    RelationComparison, RelationFilter, TextComparison, TextFilter, compile_filters,
};
use flexstore::entries::Entry;
use flexstore::store::{BooleanRow, NumberRow, RelationRow, Store, TextListRow, TextRow};

fn empty_store() -> Store {
    Store {
        collections: Vec::new(),
        fields: Vec::new(),
        entries: Vec::new(),
        text_rows: Vec::new(),
        typst_text_rows: Vec::new(),
        boolean_rows: Vec::new(),
        number_rows: Vec::new(),
        date_time_rows: Vec::new(),
        text_list_rows: Vec::new(),
        number_list_rows: Vec::new(),
        relation_rows: Vec::new(),
        object_rows: Vec::new(),
    }
}

fn no_filters() -> EntryFilters {
    EntryFilters {
        text_filters: None,
        number_filters: None,
        boolean_filters: None,
        date_time_filters: None,
        list_filters: None,
        relation_filters: None,
        object_filters: None,
    }
}

fn field(id: u128, collection_id: u128, name: &str, data_type: DataType) -> Field {
    Field { id, collection_id, name: name.to_string(), data_type, created_at: 0 }
}

fn entry(id: u128, collection_id: u128, name: &str, created_at: i64) -> Entry {
    Entry { id, created_at, collection_id, created_by: 9, name: name.to_string() }
}

fn invoices() -> (Store, Collection) {
    // Collection "Invoices" with {amount: Number, paid: Boolean}.
    // Entry A has amount=100, paid=true; entry B has amount=50 and no paid
    // row.
    let col = Collection { id: 1, name: "Invoices".to_string(), created_at: 0, created_by: 9 };
    let mut store = empty_store();
    store.collections.push(Collection {
        id: 1,
        name: "Invoices".to_string(),
        created_at: 0,
        created_by: 9,
    });
    store.fields.push(field(10, 1, "amount", DataType::Number));
    store.fields.push(field(11, 1, "paid", DataType::Boolean));
    store.entries.push(entry(100, 1, "A", 1));
    store.entries.push(entry(101, 1, "B", 2));
    store.number_rows.push(NumberRow { entry_id: 100, field_id: 10, value: Some(100) });
    store.number_rows.push(NumberRow { entry_id: 101, field_id: 10, value: Some(50) });
    store.boolean_rows.push(BooleanRow { entry_id: 100, field_id: 11, value: Some(true) });
    (store, col)
}

fn names(entries: &[Entry]) -> Vec<String> {
    entries.iter().map(|e| e.name.clone()).collect()
}

#[test]
fn number_gt_keeps_only_matching_entries() {
    let (store, col) = invoices();
    let mut filters = no_filters();
    filters.number_filters = Some(vec![NumberFilter {
        field_name: "amount".to_string(),
        comparison: NumberComparison::Gt,
        value: 75,
    }]);
    let got = col.entries(&store, Some(filters), None).unwrap();
    assert_eq!(names(&got), vec!["A".to_string()]);
}

#[test]
fn boolean_neq_excludes_entries_without_a_row() {
    // B has no "paid" row, so even paid != true does not return it: the
    // row scope is an inner join.
    let (store, col) = invoices();
    let mut filters = no_filters();
    filters.boolean_filters = Some(vec![BooleanFilter {
        field_name: "paid".to_string(),
        comparison: BooleanComparison::Neq,
        value: true,
    }]);
    let got = col.entries(&store, Some(filters), None).unwrap();
    assert!(got.is_empty());
}

#[test]
fn absent_field_fails_with_field_not_found() {
    let (store, col) = invoices();
    let mut filters = no_filters();
    filters.number_filters = Some(vec![NumberFilter {
        field_name: "total".to_string(),
        comparison: NumberComparison::Eq,
        value: 1,
    }]);
    let err = col.entries(&store, Some(filters), None).unwrap_err();
    assert!(matches!(err, FilterError::FieldNotFound { field_name } if field_name == "total"));
}

#[test]
fn wrong_field_type_fails_with_type_mismatch() {
    // A number filter on the Boolean field "paid".
    let (store, col) = invoices();
    let mut filters = no_filters();
    filters.number_filters = Some(vec![NumberFilter {
        field_name: "paid".to_string(),
        comparison: NumberComparison::Eq,
        value: 1,
    }]);
    let err = col.entries(&store, Some(filters), None).unwrap_err();
    match err {
        FilterError::FieldTypeMismatch { field_name, actual } => {
            assert_eq!(field_name, "paid");
            assert_eq!(actual, DataType::Boolean);
        }
        other => panic!("expected FieldTypeMismatch, got {:?}", other),
    }
}

#[test]
fn relation_bad_uuid_fails_with_invalid_operand() {
    let mut store = empty_store();
    store.fields.push(field(20, 1, "linked", DataType::Relation));
    let fields = vec![field(20, 1, "linked", DataType::Relation)];
    let mut filters = no_filters();
    filters.relation_filters = Some(vec![RelationFilter {
        field_name: "linked".to_string(),
        comparison: RelationComparison::ConnectedTo,
        target_entry_id: Some("not-a-uuid".to_string()),
    }]);
    let err = compile_filters(&fields, &filters).unwrap_err();
    match err {
        FilterError::InvalidOperand { field_name, value } => {
            assert_eq!(field_name, "linked");
            assert_eq!(value, "not-a-uuid");
        }
        other => panic!("expected InvalidOperand, got {:?}", other),
    }
}

#[test]
fn relation_missing_target_fails_with_missing_operand() {
    let fields = vec![field(20, 1, "linked", DataType::Relation)];
    let mut filters = no_filters();
    filters.relation_filters = Some(vec![RelationFilter {
        field_name: "linked".to_string(),
        comparison: RelationComparison::NotConnectedTo,
        target_entry_id: None,
    }]);
    let err = compile_filters(&fields, &filters).unwrap_err();
    assert!(matches!(err, FilterError::MissingRequiredOperand { field_name } if field_name == "linked"));
}

#[test]
fn contains_all_fails_with_unsupported_comparison() {
    let fields = vec![field(30, 1, "tags", DataType::TextList)];
    let mut filters = no_filters();
    filters.list_filters = Some(vec![ListFilter {
        field_name: "tags".to_string(),
        comparison: ListComparison::ContainsAll,
        values: Some(vec!["a".to_string()]),
    }]);
    let err = compile_filters(&fields, &filters).unwrap_err();
    assert!(matches!(err, FilterError::UnsupportedComparison { field_name } if field_name == "tags"));
}

#[test]
fn number_list_contains_is_unsupported() {
    let fields = vec![field(31, 1, "scores", DataType::NumberList)];
    let mut filters = no_filters();
    filters.list_filters = Some(vec![ListFilter {
        field_name: "scores".to_string(),
        comparison: ListComparison::Contains,
        values: Some(vec!["1".to_string()]),
    }]);
    let err = compile_filters(&fields, &filters).unwrap_err();
    assert!(matches!(err, FilterError::UnsupportedComparison { .. }));
}

#[test]
fn object_property_filters_are_unsupported_or_missing() {
    let fields = vec![field(32, 1, "meta", DataType::Object)];
    let mut filters = no_filters();
    filters.object_filters = Some(vec![ObjectFilter {
        field_name: "meta".to_string(),
        comparison: ObjectComparison::PropertyEquals,
        property_path: Some("a.b".to_string()),
        property_value: Some("x".to_string()),
    }]);
    let err = compile_filters(&fields, &filters).unwrap_err();
    assert!(matches!(err, FilterError::UnsupportedComparison { .. }));

    let mut filters = no_filters();
    filters.object_filters = Some(vec![ObjectFilter {
        field_name: "meta".to_string(),
        comparison: ObjectComparison::HasProperty,
        property_path: None,
        property_value: None,
    }]);
    let err = compile_filters(&fields, &filters).unwrap_err();
    assert!(matches!(err, FilterError::MissingRequiredOperand { .. }));
}

#[test]
fn first_validation_failure_aborts_whole_compilation() {
    // The text filter is fine; the boolean filter names an absent field;
    // the relation filter would also fail. The first failure in kind order
    // wins.
    let fields = vec![
        field(1, 1, "title", DataType::Text),
        field(2, 1, "paid", DataType::Boolean),
    ];
    let mut filters = no_filters();
    filters.text_filters = Some(vec![TextFilter {
        field_name: "title".to_string(),
        comparison: TextComparison::Eq,
        value: "x".to_string(),
    }]);
    filters.boolean_filters = Some(vec![BooleanFilter {
        field_name: "nope".to_string(),
        comparison: BooleanComparison::Eq,
        value: true,
    }]);
    filters.relation_filters = Some(vec![RelationFilter {
        field_name: "also-nope".to_string(),
        comparison: RelationComparison::HasConnections,
        target_entry_id: None,
    }]);
    let err = compile_filters(&fields, &filters).unwrap_err();
    assert!(matches!(err, FilterError::FieldNotFound { field_name } if field_name == "nope"));
}

#[test]
fn text_list_contains_uses_first_value_and_first_element() {
    // Filter values ["b", "z"]: only "b" is used, and it is matched against
    // the first element of each stored list.
    let col = Collection { id: 1, name: "C".to_string(), created_at: 0, created_by: 9 };
    let mut store = empty_store();
    store.fields.push(field(40, 1, "tags", DataType::TextList));
    store.entries.push(entry(1, 1, "first-has-b", 1));
    store.entries.push(entry(2, 1, "second-has-b", 2));
    store.entries.push(entry(3, 1, "no-b", 3));
    store.text_list_rows.push(TextListRow {
        entry_id: 1,
        field_id: 40,
        value: Some(vec!["abc".to_string(), "zzz".to_string()]),
    });
    store.text_list_rows.push(TextListRow {
        entry_id: 2,
        field_id: 40,
        value: Some(vec!["xxx".to_string(), "b".to_string()]),
    });
    store.text_list_rows.push(TextListRow {
        entry_id: 3,
        field_id: 40,
        value: Some(vec!["xyz".to_string()]),
    });
    let mut filters = no_filters();
    filters.list_filters = Some(vec![ListFilter {
        field_name: "tags".to_string(),
        comparison: ListComparison::Contains,
        values: Some(vec!["b".to_string(), "z".to_string()]),
    }]);
    let got = col.entries(&store, Some(filters), None).unwrap();
    // Only the entry whose list's FIRST element contains "b" matches; "z"
    // is not required to match anything.
    assert_eq!(names(&got), vec!["first-has-b".to_string()]);
}

#[test]
fn text_pattern_wildcards_are_not_escaped() {
    // A Contains operand with a "%" keeps its wildcard meaning.
    let col = Collection { id: 1, name: "C".to_string(), created_at: 0, created_by: 9 };
    let mut store = empty_store();
    store.fields.push(field(50, 1, "title", DataType::Text));
    store.entries.push(entry(1, 1, "gap", 1));
    store.entries.push(entry(2, 1, "plain", 2));
    store.text_rows.push(TextRow { entry_id: 1, field_id: 50, value: Some("aXc".to_string()) });
    store.text_rows.push(TextRow { entry_id: 2, field_id: 50, value: Some("ab".to_string()) });
    let mut filters = no_filters();
    filters.text_filters = Some(vec![TextFilter {
        field_name: "title".to_string(),
        comparison: TextComparison::Contains,
        value: "a%c".to_string(),
    }]);
    let got = col.entries(&store, Some(filters), None).unwrap();
    assert_eq!(names(&got), vec!["gap".to_string()]);
}

#[test]
fn relation_filters_follow_join_scope() {
    // a -> b edge on field 60; c has no edges.
    let col = Collection { id: 1, name: "C".to_string(), created_at: 0, created_by: 9 };
    let mut store = empty_store();
    store.fields.push(field(60, 1, "linked", DataType::Relation));
    store.entries.push(entry(0xa, 1, "a", 1));
    store.entries.push(entry(0xb, 1, "b", 2));
    store.entries.push(entry(0xc, 1, "c", 3));
    store.relation_rows.push(RelationRow { from_entry_id: 0xa, field_id: 60, to_entry_id: 0xb });

    // ConnectedTo b: only a.
    let mut filters = no_filters();
    filters.relation_filters = Some(vec![RelationFilter {
        field_name: "linked".to_string(),
        comparison: RelationComparison::ConnectedTo,
        target_entry_id: Some("0000000b-0000-0000-0000-000000000000".to_string()),
    }]);
    // The uuid above is not id 0xb in this engine's encoding; use the
    // canonical hyphenated form of the 128-bit value 0xb instead.
    let err_or = col.entries(&store, Some(filters), None).unwrap();
    assert!(err_or.is_empty());

    let mut filters = no_filters();
    filters.relation_filters = Some(vec![RelationFilter {
        field_name: "linked".to_string(),
        comparison: RelationComparison::ConnectedTo,
        target_entry_id: Some("00000000-0000-0000-0000-00000000000b".to_string()),
    }]);
    let got = col.entries(&store, Some(filters), None).unwrap();
    assert_eq!(names(&got), vec!["a".to_string()]);

    // NotConnectedTo b: entries with some edge on the field but none to b.
    // c has no edge row at all, so it is excluded too (join scope).
    let mut filters = no_filters();
    filters.relation_filters = Some(vec![RelationFilter {
        field_name: "linked".to_string(),
        comparison: RelationComparison::NotConnectedTo,
        target_entry_id: Some("00000000-0000-0000-0000-00000000000b".to_string()),
    }]);
    let got = col.entries(&store, Some(filters), None).unwrap();
    assert!(got.is_empty());

    // HasConnections: only a.
    let mut filters = no_filters();
    filters.relation_filters = Some(vec![RelationFilter {
        field_name: "linked".to_string(),
        comparison: RelationComparison::HasConnections,
        target_entry_id: None,
    }]);
    let got = col.entries(&store, Some(filters), None).unwrap();
    assert_eq!(names(&got), vec!["a".to_string()]);

    // HasNoConnections: nothing can satisfy both the row scope and the
    // comparison, so the result is empty even though c has no edges.
    let mut filters = no_filters();
    filters.relation_filters = Some(vec![RelationFilter {
        field_name: "linked".to_string(),
        comparison: RelationComparison::HasNoConnections,
        target_entry_id: None,
    }]);
    let got = col.entries(&store, Some(filters), None).unwrap();
    assert!(got.is_empty());
}

#[test]
fn null_payload_fails_every_comparison() {
    // A present-but-null text value fails Eq and Neq alike.
    let col = Collection { id: 1, name: "C".to_string(), created_at: 0, created_by: 9 };
    let mut store = empty_store();
    store.fields.push(field(70, 1, "title", DataType::Text));
    store.entries.push(entry(1, 1, "nullish", 1));
    store.text_rows.push(TextRow { entry_id: 1, field_id: 70, value: None });

    for comparison in [TextComparison::Eq, TextComparison::Neq] {
        let mut filters = no_filters();
        filters.text_filters = Some(vec![TextFilter {
            field_name: "title".to_string(),
            comparison,
            value: "x".to_string(),
        }]);
        let got = col.entries(&store, Some(filters), None).unwrap();
        assert!(got.is_empty());
    }
}

#[test]
fn error_messages_name_the_offender() {
    let e = FilterError::FieldNotFound { field_name: "total".to_string() };
    assert_eq!(e.message(), "Field 'total' does not exist in collection");
    let e = FilterError::FieldTypeMismatch {
        field_name: "paid".to_string(),
        actual: DataType::Boolean,
    };
    assert_eq!(
        e.message(),
        "Field 'paid' has type Boolean, which the filter does not allow"
    );
    let e = FilterError::InvalidOperand {
        field_name: "linked".to_string(),
        value: "not-a-uuid".to_string(),
    };
    assert_eq!(
        e.message(),
        "Invalid UUID format: 'not-a-uuid' for field 'linked'"
    );
    let e = FilterError::EntryNotFound { name: "ghost".to_string() };
    assert_eq!(e.message(), "Entry not found: 'ghost'");
}

#[test]
fn list_contains_without_values_asks_for_row_presence_only() {
    let col = Collection { id: 1, name: "C".to_string(), created_at: 0, created_by: 9 };
    let mut store = empty_store();
    store.fields.push(field(40, 1, "tags", DataType::TextList));
    store.entries.push(entry(1, 1, "has-row", 1));
    store.entries.push(entry(2, 1, "no-row", 2));
    store.text_list_rows.push(TextListRow { entry_id: 1, field_id: 40, value: None });

    let mut filters = no_filters();
    filters.list_filters = Some(vec![ListFilter {
        field_name: "tags".to_string(),
        comparison: ListComparison::Contains,
        values: None,
    }]);
    let got = col.entries(&store, Some(filters), None).unwrap();
    assert_eq!(names(&got), vec!["has-row".to_string()]);
}

#[test]
fn list_is_empty_matches_null_payload_rows() {
    let col = Collection { id: 1, name: "C".to_string(), created_at: 0, created_by: 9 };
    let mut store = empty_store();
    store.fields.push(field(40, 1, "tags", DataType::TextList));
    store.entries.push(entry(1, 1, "null-list", 1));
    store.entries.push(entry(2, 1, "empty-list", 2));
    store.entries.push(entry(3, 1, "no-row", 3));
    store.text_list_rows.push(TextListRow { entry_id: 1, field_id: 40, value: None });
    store.text_list_rows.push(TextListRow { entry_id: 2, field_id: 40, value: Some(Vec::new()) });

    // IsEmpty means a null payload, not a present-but-empty list.
    let mut filters = no_filters();
    filters.list_filters = Some(vec![ListFilter {
        field_name: "tags".to_string(),
        comparison: ListComparison::IsEmpty,
        values: None,
    }]);
    let got = col.entries(&store, Some(filters), None).unwrap();
    assert_eq!(names(&got), vec!["null-list".to_string()]);

    let mut filters = no_filters();
    filters.list_filters = Some(vec![ListFilter {
        field_name: "tags".to_string(),
        comparison: ListComparison::IsNotEmpty,
        values: None,
    }]);
    let got = col.entries(&store, Some(filters), None).unwrap();
    assert_eq!(names(&got), vec!["empty-list".to_string()]);
}

#[test]
fn conjunction_requires_every_filter_to_hold() {
    let (store, col) = invoices();
    let mut filters = no_filters();
    filters.number_filters = Some(vec![NumberFilter {
        field_name: "amount".to_string(),
        comparison: NumberComparison::Gt,
        value: 10,
    }]);
    filters.boolean_filters = Some(vec![BooleanFilter {
        field_name: "paid".to_string(),
        comparison: BooleanComparison::Eq,
        value: true,
    }]);
    // Both A and B pass the number filter; only A has a paid=true row.
    let got = col.entries(&store, Some(filters), None).unwrap();
    assert_eq!(names(&got), vec!["A".to_string()]);
}

#[test]
fn connected_to_target_agrees_with_the_uuid_crate() {
    // The target id the compiler resolves must be the same 128-bit value
    // the uuid crate parses from the literal.
    let literal = "550e8400-e29b-41d4-a716-446655440000";
    let target: u128 = uuid::Uuid::parse_str(literal).unwrap().as_u128();

    let col = Collection { id: 1, name: "C".to_string(), created_at: 0, created_by: 9 };
    let mut store = empty_store();
    store.fields.push(field(60, 1, "linked", DataType::Relation));
    store.entries.push(entry(1, 1, "points-at-target", 1));
    store.entries.push(entry(2, 1, "points-elsewhere", 2));
    store.relation_rows.push(RelationRow { from_entry_id: 1, field_id: 60, to_entry_id: target });
    store.relation_rows.push(RelationRow { from_entry_id: 2, field_id: 60, to_entry_id: 7 });

    let mut filters = no_filters();
    filters.relation_filters = Some(vec![RelationFilter {
        field_name: "linked".to_string(),
        comparison: RelationComparison::ConnectedTo,
        target_entry_id: Some(literal.to_string()),
    }]);
    let got = col.entries(&store, Some(filters), None).unwrap();
    assert_eq!(names(&got), vec!["points-at-target".to_string()]);
}
