use mosaic::registry::{
    order_listing, ArtifactKind, FacetState, FacetSummary, InMemoryStore, ListFilter, StoreError, StoredFacet,
};

fn summary(id: &str, state: FacetState, created_at: i64) -> FacetSummary {
    FacetSummary {
        id: id.to_string(),
        name: format!("name-{id}"),
        author: "author-1".to_string(),
        kind: ArtifactKind::Wasm,
        state,
        created_at,
    }
}

#[test]
fn order_listing_filters_and_breaks_ties_by_id() {
    let items = vec![
        summary("a", FacetState::Published, 10),
        summary("b", FacetState::Certified, 30),
        summary("c", FacetState::Published, 20),
        summary("d", FacetState::Published, 20),
        summary("e", FacetState::Rejected, 40),
    ];
    let published = order_listing(items.clone(), &ListFilter { state: Some(FacetState::Published) });
    let ids: Vec<&str> = published.iter().map(|s| s.id.as_str()).collect();
    assert_eq!(ids, ["c", "d", "a"]);

    let all = order_listing(items, &ListFilter::default());
    let ids: Vec<&str> = all.iter().map(|s| s.id.as_str()).collect();
    assert_eq!(ids, ["e", "b", "c", "d", "a"]);
}

#[test]
fn listing_order_does_not_depend_on_input_order() {
    let a = vec![
        summary("x2", FacetState::Published, 5),
        summary("x1", FacetState::Published, 5),
        summary("y", FacetState::Published, 6),
    ];
    let b = vec![a[2].clone(), a[0].clone(), a[1].clone()];
    let f = ListFilter::default();
    let ia: Vec<String> = order_listing(a, &f).into_iter().map(|s| s.id).collect();
    let ib: Vec<String> = order_listing(b, &f).into_iter().map(|s| s.id).collect();
    assert_eq!(ia, ib);
    assert_eq!(ia, ["y", "x1", "x2"]);
}

#[test]
fn state_slugs_round_trip() {
    for s in [FacetState::Certified, FacetState::Published, FacetState::Rejected] {
        assert_eq!(FacetState::parse(s.as_str()), Some(s));
    }
    assert_eq!(FacetState::parse("draft"), None);
    assert_eq!(
        StoreError::Backend("disk full".to_string()).to_display_string(),
        "registry backend error: disk full"
    );
}

#[test]
fn listing_does_not_depend_on_the_order_entries_are_held_in() {
    let items = vec![
        summary("b", FacetState::Published, 20),
        summary("a", FacetState::Published, 20),
        summary("z", FacetState::Published, 5),
        summary("m", FacetState::Published, 99),
    ];
    let mut reversed = items.clone();
    reversed.reverse();
    let ids = |v: Vec<FacetSummary>| v.into_iter().map(|s| s.id).collect::<Vec<_>>();
    let one = ids(order_listing(items, &ListFilter::default()));
    let two = ids(order_listing(reversed, &ListFilter::default()));
    assert_eq!(one, two);
    assert_eq!(one, ["m", "a", "b", "z"]);
}

fn new_facet(id: &str, name: &str, state: FacetState, created_at: i64) -> StoredFacet<ArtifactKind> {
    StoredFacet {
        summary: FacetSummary {
            id: id.to_string(),
            name: name.to_string(),
            author: "author-1".to_string(),
            kind: ArtifactKind::Wasm,
            state,
            created_at,
        },
        artifact: ArtifactKind::Wasm,
        bytes: vec![1, 2, 3, 4],
    }
}

#[test]
fn insert_then_get_round_trips() {
    let mut store = InMemoryStore::new();
    store.insert(new_facet("id1", "Ramp", FacetState::Certified, 100));
    let got = store.get("id1").unwrap();
    assert_eq!(got.summary.name, "Ramp");
    assert_eq!(got.summary.state, FacetState::Certified);
    assert_eq!(store.get_bytes("id1").unwrap(), vec![1, 2, 3, 4]);
    assert!(store.get("missing").is_none());
}

#[test]
fn list_filters_by_state_newest_first() {
    let mut store = InMemoryStore::new();
    store.insert(new_facet("a", "A", FacetState::Published, 100));
    store.insert(new_facet("b", "B", FacetState::Certified, 200));
    store.insert(new_facet("c", "C", FacetState::Published, 300));

    let published = store.list(&ListFilter { state: Some(FacetState::Published) });
    assert_eq!(published.iter().map(|f| f.id.as_str()).collect::<Vec<_>>(), vec!["c", "a"]);

    let all = store.list(&ListFilter::default());
    assert_eq!(all.len(), 3);
    assert_eq!(all[0].id, "c");
}

#[test]
fn set_state_transitions_and_reports_absence() {
    let mut store = InMemoryStore::new();
    store.insert(new_facet("id1", "Ramp", FacetState::Certified, 100));
    assert!(store.set_state("id1", FacetState::Published));
    assert_eq!(store.get("id1").unwrap().summary.state, FacetState::Published);
    assert!(!store.set_state("missing", FacetState::Rejected));
}

#[test]
fn storing_under_a_held_id_replaces_the_entry() {
    let mut store = InMemoryStore::new();
    store.insert(new_facet("id1", "Ramp", FacetState::Certified, 100));
    store.insert(new_facet("id2", "Other", FacetState::Certified, 150));
    let mut again = new_facet("id1", "Ramp v2", FacetState::Published, 200);
    again.bytes = vec![9, 9];
    store.insert(again);
    assert_eq!(store.get("id1").unwrap().summary.name, "Ramp v2");
    assert_eq!(store.get_bytes("id1").unwrap(), vec![9, 9]);
    assert_eq!(store.get("id2").unwrap().summary.name, "Other");
    let all = store.list(&ListFilter::default());
    assert_eq!(all.iter().map(|f| f.id.as_str()).collect::<Vec<_>>(), vec!["id1", "id2"]);
}

#[test]
fn an_empty_store_lists_nothing() {
    let store: InMemoryStore<ArtifactKind> = InMemoryStore::new();
    assert!(store.list(&ListFilter::default()).is_empty());
    assert!(store.get_bytes("x").is_none());
}
