use flexstore::collection::{
    Collection, DataType, DateTimeComparison, DateTimeFilter, EntryFilters, EntryOrderBy, Field,
    FilterError, TextComparison, TextFilter,
};
use flexstore::entries::{Entry, ValueType};
use flexstore::store::{
    BooleanRow, DateTimeRow, NumberListRow, NumberRow, ObjectRow, RelationRow, Store, TextListRow,
    TextRow, TypstTextRow,
};

fn empty_store() -> Store {
    Store {
        collections: Vec::new(),
        fields: Vec::new(),
        entries: Vec::new(),
        text_rows: Vec::new(),
        typst_text_rows: Vec::new(),
        boolean_rows: Vec::new(),
        number_rows: Vec::new(),
        date_time_rows: Vec::new(),
        text_list_rows: Vec::new(),
        number_list_rows: Vec::new(),
        relation_rows: Vec::new(),
        object_rows: Vec::new(),
    }
}

fn no_filters() -> EntryFilters {
    EntryFilters {
        text_filters: None,
        number_filters: None,
        boolean_filters: None,
        date_time_filters: None,
        list_filters: None,
        relation_filters: None,
        object_filters: None,
    }
}

fn field(id: u128, collection_id: u128, name: &str, data_type: DataType) -> Field {
    Field { id, collection_id, name: name.to_string(), data_type, created_at: 0 }
}

fn entry(id: u128, collection_id: u128, name: &str, created_at: i64) -> Entry {
    Entry { id, created_at, collection_id, created_by: 9, name: name.to_string() }
}

fn names(entries: &[Entry]) -> Vec<String> {
    entries.iter().map(|e| e.name.clone()).collect()
}

#[test]
fn no_filters_lists_whole_collection_in_creation_order() {
    let col = Collection { id: 1, name: "C".to_string(), created_at: 0, created_by: 9 };
    let mut store = empty_store();
    store.entries.push(entry(1, 1, "late", 30));
    store.entries.push(entry(2, 2, "other-collection", 5));
    store.entries.push(entry(3, 1, "early", 10));
    store.entries.push(entry(4, 1, "middle", 20));

    let asc = col.entries(&store, None, Some(EntryOrderBy::Asc)).unwrap();
    assert_eq!(
        names(&asc),
        vec!["early".to_string(), "middle".to_string(), "late".to_string()]
    );

    let desc = col.entries(&store, None, Some(EntryOrderBy::Desc)).unwrap();
    assert_eq!(
        names(&desc),
        vec!["late".to_string(), "middle".to_string(), "early".to_string()]
    );

    // The default direction is ascending.
    let default = col.entries(&store, None, None).unwrap();
    assert_eq!(names(&default), names(&asc));
}

#[test]
fn date_time_comparisons_follow_the_literal_text() {
    let col = Collection { id: 1, name: "C".to_string(), created_at: 0, created_by: 9 };
    let mut store = empty_store();
    store.fields.push(field(5, 1, "due", DataType::DateTime));
    store.entries.push(entry(1, 1, "january", 1));
    store.entries.push(entry(2, 1, "june", 2));
    store.date_time_rows.push(DateTimeRow {
        entry_id: 1,
        field_id: 5,
        value: Some("2024-01-15T00:00:00Z".to_string()),
    });
    store.date_time_rows.push(DateTimeRow {
        entry_id: 2,
        field_id: 5,
        value: Some("2024-06-15T00:00:00Z".to_string()),
    });

    let cases: Vec<(DateTimeComparison, Vec<&str>)> = vec![
        (DateTimeComparison::Eq, vec!["january"]),
        (DateTimeComparison::Neq, vec!["june"]),
        (DateTimeComparison::Gt, vec!["june"]),
        (DateTimeComparison::Gte, vec!["january", "june"]),
        (DateTimeComparison::Lt, vec![]),
        (DateTimeComparison::Lte, vec!["january"]),
    ];
    for (comparison, expected) in cases {
        let mut filters = no_filters();
        filters.date_time_filters = Some(vec![DateTimeFilter {
            field_name: "due".to_string(),
            comparison,
            value: "2024-01-15T00:00:00Z".to_string(),
        }]);
        let got = col.entries(&store, Some(filters), None).unwrap();
        let got_names = names(&got);
        let expected: Vec<String> = expected.into_iter().map(|s| s.to_string()).collect();
        assert_eq!(got_names, expected, "comparison {:?}", comparison);
    }
}

#[test]
fn text_anchored_patterns() {
    let col = Collection { id: 1, name: "C".to_string(), created_at: 0, created_by: 9 };
    let mut store = empty_store();
    store.fields.push(field(6, 1, "title", DataType::Text));
    store.entries.push(entry(1, 1, "alpha", 1));
    store.entries.push(entry(2, 1, "beta", 2));
    store.text_rows.push(TextRow { entry_id: 1, field_id: 6, value: Some("hello world".to_string()) });
    store.text_rows.push(TextRow { entry_id: 2, field_id: 6, value: Some("world hello".to_string()) });

    let run = |comparison: TextComparison, value: &str| -> Vec<String> {
        let mut filters = no_filters();
        filters.text_filters = Some(vec![TextFilter {
            field_name: "title".to_string(),
            comparison,
            value: value.to_string(),
        }]);
        names(&col.entries(&store, Some(filters), None).unwrap())
    };

    assert_eq!(run(TextComparison::StartsWith, "hello"), vec!["alpha".to_string()]);
    assert_eq!(run(TextComparison::EndsWith, "hello"), vec!["beta".to_string()]);
    assert_eq!(
        run(TextComparison::Contains, "o w"),
        vec!["alpha".to_string()]
    );
    assert_eq!(run(TextComparison::Eq, "hello world"), vec!["alpha".to_string()]);
    assert_eq!(run(TextComparison::Neq, "hello world"), vec!["beta".to_string()]);
}

#[test]
fn text_filter_on_typst_field_looks_in_the_text_table() {
    // Text and TypstText share the text value table; a TypstText field's
    // rows live in their own table, so a text filter on it matches nothing.
    let col = Collection { id: 1, name: "C".to_string(), created_at: 0, created_by: 9 };
    let mut store = empty_store();
    store.fields.push(field(7, 1, "body", DataType::TypstText));
    store.entries.push(entry(1, 1, "doc", 1));
    store.typst_text_rows.push(TypstTextRow {
        entry_id: 1,
        field_id: 7,
        raw: "= Title".to_string(),
        rendered: "<h1>Title</h1>".to_string(),
    });
    let mut filters = no_filters();
    filters.text_filters = Some(vec![TextFilter {
        field_name: "body".to_string(),
        comparison: TextComparison::Contains,
        value: "Title".to_string(),
    }]);
    let got = col.entries(&store, Some(filters), None).unwrap();
    assert!(got.is_empty());
}

#[test]
fn entry_lookup_by_name() {
    let col = Collection { id: 1, name: "C".to_string(), created_at: 0, created_by: 9 };
    let mut store = empty_store();
    store.entries.push(entry(1, 2, "shadow", 1));
    store.entries.push(entry(2, 1, "shadow", 2));
    let found = col.entry(&store, "shadow".to_string()).unwrap();
    assert_eq!(found.id, 2);

    let missing = col.entry(&store, "ghost".to_string()).unwrap_err();
    assert!(matches!(missing, FilterError::EntryNotFound { name } if name == "ghost"));
}

#[test]
fn materialization_is_sparse() {
    // Three declared fields, one stored row: exactly one pair comes back,
    // and the field without a row is absent rather than null-valued.
    let mut store = empty_store();
    store.fields.push(field(10, 1, "amount", DataType::Number));
    store.fields.push(field(11, 1, "paid", DataType::Boolean));
    store.fields.push(field(12, 1, "note", DataType::Text));
    let e = entry(100, 1, "A", 1);
    store.entries.push(entry(100, 1, "A", 1));
    store.number_rows.push(NumberRow { entry_id: 100, field_id: 10, value: Some(42) });

    let values = e.values(&store);
    assert_eq!(values.len(), 1);
    assert_eq!(values[0].field.name, "amount");
    match &values[0].value {
        ValueType::Number(nv) => assert_eq!(nv.value, Some(42)),
        other => panic!("expected a number value, got {:?}", other),
    }
}

#[test]
fn materialization_covers_all_kinds_in_catalog_order() {
    let mut store = empty_store();
    store.fields.push(field(1, 1, "t", DataType::Text));
    store.fields.push(field(2, 1, "b", DataType::Boolean));
    store.fields.push(field(3, 1, "r", DataType::Relation));
    store.fields.push(field(4, 1, "o", DataType::Object));
    let e = entry(100, 1, "A", 1);
    store.entries.push(entry(100, 1, "A", 1));
    store.text_rows.push(TextRow { entry_id: 100, field_id: 1, value: Some("hi".to_string()) });
    store.boolean_rows.push(BooleanRow { entry_id: 100, field_id: 2, value: None });
    store.relation_rows.push(RelationRow { from_entry_id: 100, field_id: 3, to_entry_id: 7 });
    store.object_rows.push(ObjectRow {
        entry_id: 100,
        field_id: 4,
        value: Some("{\"a\":1}".to_string()),
    });

    let values = e.values(&store);
    assert_eq!(values.len(), 4);
    assert_eq!(values[0].field.name, "t");
    assert!(matches!(&values[0].value, ValueType::Text(tv) if tv.value.as_deref() == Some("hi")));
    // A present-but-null payload still materializes, as a null value.
    assert!(matches!(&values[1].value, ValueType::Boolean(bv) if bv.value.is_none()));
    match &values[2].value {
        ValueType::Relation(er) => {
            assert_eq!(er.from_entry_id, 100);
            assert_eq!(er.to_entry_id, 7);
            let target = er.to_entry(&store);
            assert!(target.is_none());
        }
        other => panic!("expected a relation value, got {:?}", other),
    }
    assert!(matches!(&values[3].value, ValueType::Object(o) if o.value == "{\"a\":1}"));
}

#[test]
fn relation_value_resolves_entries_lazily() {
    let mut store = empty_store();
    store.fields.push(field(3, 1, "r", DataType::Relation));
    store.entries.push(entry(100, 1, "A", 1));
    store.entries.push(entry(200, 1, "B", 2));
    store.relation_rows.push(RelationRow { from_entry_id: 100, field_id: 3, to_entry_id: 200 });
    let e = entry(100, 1, "A", 1);
    let values = e.values(&store);
    match &values[0].value {
        ValueType::Relation(er) => {
            assert_eq!(er.from_entry(&store).unwrap().name, "A");
            assert_eq!(er.to_entry(&store).unwrap().name, "B");
        }
        other => panic!("expected a relation value, got {:?}", other),
    }
}

#[test]
fn materialization_covers_list_and_time_kinds() {
    let mut store = empty_store();
    store.fields.push(field(1, 1, "tags", DataType::TextList));
    store.fields.push(field(2, 1, "scores", DataType::NumberList));
    store.fields.push(field(3, 1, "due", DataType::DateTime));
    store.fields.push(field(4, 1, "body", DataType::TypstText));
    let e = entry(100, 1, "A", 1);
    store.entries.push(entry(100, 1, "A", 1));
    store.text_list_rows.push(TextListRow {
        entry_id: 100,
        field_id: 1,
        value: Some(vec!["x".to_string(), "y".to_string()]),
    });
    // A null list payload materializes as an empty list.
    store.number_list_rows.push(NumberListRow { entry_id: 100, field_id: 2, value: None });
    store.date_time_rows.push(DateTimeRow {
        entry_id: 100,
        field_id: 3,
        value: Some("2024-06-15T00:00:00Z".to_string()),
    });
    store.typst_text_rows.push(TypstTextRow {
        entry_id: 100,
        field_id: 4,
        raw: "= T".to_string(),
        rendered: "<h1>T</h1>".to_string(),
    });

    let values = e.values(&store);
    assert_eq!(values.len(), 4);
    assert!(
        matches!(&values[0].value, ValueType::TextList(lv) if lv.value == vec!["x".to_string(), "y".to_string()])
    );
    assert!(matches!(&values[1].value, ValueType::NumberList(lv) if lv.value.is_empty()));
    assert!(
        matches!(&values[2].value, ValueType::DateTime(dv) if dv.value.as_deref() == Some("2024-06-15T00:00:00Z"))
    );
    match &values[3].value {
        ValueType::TypstText(t) => {
            assert_eq!(t.raw, "= T");
            assert_eq!(t.rendered, "<h1>T</h1>");
        }
        other => panic!("expected a typst text value, got {:?}", other),
    }
}
