use table_store::models::NewBridgeTable;
use table_store::table_store::db_table_store::DbTableStore;
use table_store::table_store::in_memory_table_store::InMemoryTableStore;
use table_store::tables::{
    create_bridge_table, delete_bridge_table_by_id, get_bridge_table_by_id,
    list_all_bridge_tables, update_bridge_table_by_id,
};

fn new_record(name: &str, owner: &str, public: bool) -> NewBridgeTable {
    NewBridgeTable {
        name: name.to_owned(),
        owner: owner.to_owned(),
        public,
    }
}

#[test]
fn crud_scenario_over_the_db_store() {
    let mut store = DbTableStore::new();

    let (code, body) = create_bridge_table(&mut store, new_record("t1", "o1", true));
    assert_eq!(code, 201);
    let created = body.expect("created record is returned");
    assert_eq!(created.name, "t1");
    assert_eq!(created.owner, "o1");
    assert!(created.public);

    let (code, body) = get_bridge_table_by_id(&store, created.id);
    assert_eq!(code, 200);
    assert_eq!(body, Some(created.clone()));

    let (code, body) = update_bridge_table_by_id(&mut store, created.id, new_record("t2", "o1", false));
    assert_eq!(code, 200);
    let updated = body.expect("updated record is returned");
    assert_eq!(updated.id, created.id);
    assert_eq!(updated.name, "t2");
    assert_eq!(updated.owner, "o1");
    assert!(!updated.public);

    let (code, body) = delete_bridge_table_by_id(&mut store, created.id);
    assert_eq!(code, 200);
    assert_eq!(body, Some(updated));

    let (code, body) = get_bridge_table_by_id(&store, created.id);
    assert_eq!(code, 404);
    assert_eq!(body, None);
}

#[test]
fn crud_scenario_over_the_in_memory_store() {
    let mut store = InMemoryTableStore::new();

    let (code, body) = create_bridge_table(&mut store, new_record("t1", "o1", true));
    assert_eq!(code, 201);
    let created = body.expect("created record is returned");
    assert_eq!(created.name, "t1");
    assert_eq!(created.owner, "o1");
    assert!(created.public);

    let (code, body) = get_bridge_table_by_id(&store, created.id);
    assert_eq!(code, 200);
    assert_eq!(body, Some(created.clone()));

    let (code, body) = delete_bridge_table_by_id(&mut store, created.id);
    assert_eq!(code, 200);
    assert_eq!(body, Some(created.clone()));

    let (code, body) = get_bridge_table_by_id(&store, created.id);
    assert_eq!(code, 404);
    assert_eq!(body, None);
}

#[test]
fn listing_endpoint_answers_200_with_the_listing() {
    let mut store = DbTableStore::new();
    let (code, body) = list_all_bridge_tables(&store);
    assert_eq!(code, 200);
    assert_eq!(body.unwrap(), Vec::new());

    let (_, created) = create_bridge_table(&mut store, new_record("t1", "o1", true));
    create_bridge_table(&mut store, new_record("t2", "o2", false));
    let (code, body) = list_all_bridge_tables(&store);
    assert_eq!(code, 200);
    assert_eq!(body.unwrap(), vec![created.unwrap()]);
}

#[test]
fn missing_identifier_endpoints_answer_404() {
    let mut store = InMemoryTableStore::new();
    let (code, body) = get_bridge_table_by_id(&store, 7);
    assert_eq!((code, body), (404, None));
    let (code, body) = update_bridge_table_by_id(&mut store, 7, new_record("x", "y", true));
    assert_eq!((code, body), (404, None));
    let (code, body) = delete_bridge_table_by_id(&mut store, 7);
    assert_eq!((code, body), (404, None));
}
