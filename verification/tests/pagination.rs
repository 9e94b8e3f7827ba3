use flexstore::collection::Collection;
use flexstore::query::Query;
use flexstore::store::Store;

fn empty_store() -> Store {
    Store {
        collections: Vec::new(),
        fields: Vec::new(),
        entries: Vec::new(),
        text_rows: Vec::new(),
        typst_text_rows: Vec::new(),
        boolean_rows: Vec::new(),
        number_rows: Vec::new(),
        date_time_rows: Vec::new(),
        text_list_rows: Vec::new(),
        number_list_rows: Vec::new(),
        relation_rows: Vec::new(),
        object_rows: Vec::new(),
    }
}

fn store_with_collections(n: u128) -> Store {
    let mut store = empty_store();
    let mut i: u128 = 0;
    while i < n {
        store.collections.push(Collection {
            id: i,
            name: format!("col {}", i),
            created_at: i as i64,
            created_by: 9,
        });
        i += 1;
    }
    store
}

#[test]
fn page_size_is_clamped_to_one_hundred() {
    let store = store_with_collections(150);
    let page = Query::collections(&store, None, Some(1), Some(500), None, None);
    assert_eq!(page.size, 100);
    assert_eq!(page.items.len(), 100);
    assert_eq!(page.num_items, 150);
    assert_eq!(page.num_pages, 2);
    assert_eq!(page.index, 1);
}

#[test]
fn page_zero_is_clamped_to_one() {
    let store = store_with_collections(5);
    let page = Query::collections(&store, None, Some(0), Some(2), None, None);
    assert_eq!(page.index, 1);
    assert_eq!(page.items.len(), 2);
    assert_eq!(page.items[0].id, 0);
    assert_eq!(page.items[1].id, 1);
}

#[test]
fn num_pages_is_the_rounded_up_quotient() {
    let store = store_with_collections(7);
    let page = Query::collections(&store, None, None, Some(3), None, None);
    assert_eq!(page.num_items, 7);
    assert_eq!(page.num_pages, 3);
    assert_eq!(page.size, 3);

    let empty = Query::collections(&empty_store(), None, None, Some(3), None, None);
    assert_eq!(empty.num_items, 0);
    assert_eq!(empty.num_pages, 0);
    assert_eq!(empty.items.len(), 0);
}

#[test]
fn defaults_are_page_one_of_ten() {
    let store = store_with_collections(25);
    let page = Query::collections(&store, None, None, None, None, None);
    assert_eq!(page.index, 1);
    assert_eq!(page.size, 10);
    assert_eq!(page.items.len(), 10);
    assert_eq!(page.num_pages, 3);
}

#[test]
fn second_page_holds_the_next_slice() {
    let store = store_with_collections(25);
    let page = Query::collections(&store, None, Some(3), Some(10), None, None);
    assert_eq!(page.items.len(), 5);
    assert_eq!(page.items[0].id, 20);
}

#[test]
fn page_past_the_end_is_empty() {
    let store = store_with_collections(5);
    let page = Query::collections(&store, None, Some(9), Some(10), None, None);
    assert_eq!(page.items.len(), 0);
    assert_eq!(page.num_items, 5);
}

#[test]
fn creation_bounds_are_inclusive() {
    let store = store_with_collections(10);
    let page = Query::collections(&store, None, None, None, Some(3), Some(6));
    let ids: Vec<u128> = page.items.iter().map(|c| c.id).collect();
    assert_eq!(ids, vec![3, 4, 5, 6]);
    assert_eq!(page.num_items, 4);
}

#[test]
fn name_query_matches_whole_words_not_substrings() {
    let mut store = empty_store();
    for (id, name) in [
        (1u128, "Invoices 2024"),
        (2u128, "invoices"),
        (3u128, "MyInvoices"),
        (4u128, "Voice Memos"),
    ] {
        store.collections.push(Collection {
            id,
            name: name.to_string(),
            created_at: id as i64,
            created_by: 9,
        });
    }
    let page = Query::collections(
        &store,
        Some("Invoices".to_string()),
        None,
        None,
        None,
        None,
    );
    let ids: Vec<u128> = page.items.iter().map(|c| c.id).collect();
    // Word-level, case-insensitive: "Invoices 2024" and "invoices" match;
    // the substring hits "MyInvoices" and "Voice Memos" do not.
    assert_eq!(ids, vec![1, 2]);
}

#[test]
fn collection_lookup_by_name() {
    let store = store_with_collections(3);
    let found = Query::collection(&store, "col 1".to_string()).unwrap();
    assert_eq!(found.id, 1);
    assert!(Query::collection(&store, "absent".to_string()).is_none());
}

#[test]
fn add_adds() {
    assert_eq!(Query::add(2, 3), 5);
    assert_eq!(Query::add(-2, 2), 0);
}
