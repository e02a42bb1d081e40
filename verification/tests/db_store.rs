use table_store::models::NewBridgeTable;
use table_store::table_store::db_table_store::DbTableStore;
use table_store::table_store::TableStore;

fn new_record(name: &str, owner: &str, public: bool) -> NewBridgeTable {
    NewBridgeTable {
        name: name.to_owned(),
        owner: owner.to_owned(),
        public,
    }
}

#[test]
fn identifiers_auto_increment_from_one() {
    let mut store = DbTableStore::new();
    let a = store
        .insert_bridge_table(new_record("a", "o", true))
        .unwrap();
    let b = store
        .insert_bridge_table(new_record("b", "o", true))
        .unwrap();
    let c = store
        .insert_bridge_table(new_record("c", "o", true))
        .unwrap();
    assert_eq!(a.id, 1);
    assert_eq!(b.id, 2);
    assert_eq!(c.id, 3);
}

#[test]
fn insert_read_back_returns_the_inserted_row() {
    let mut store = DbTableStore::new();
    store
        .insert_bridge_table(new_record("first", "o", false))
        .unwrap();
    let t = store
        .insert_bridge_table(new_record("second", "o", true))
        .unwrap();
    assert_eq!(t.name, "second");
    assert_eq!(t.owner, "o");
    assert!(t.public);
    let got = store.get_bridge_table_by_id(t.id).unwrap();
    assert_eq!(got, Some(t));
}

#[test]
fn listing_is_public_rows_only() {
    let mut store = DbTableStore::new();
    let a = store
        .insert_bridge_table(new_record("a", "o", true))
        .unwrap();
    store
        .insert_bridge_table(new_record("b", "o", false))
        .unwrap();
    let c = store
        .insert_bridge_table(new_record("c", "o", true))
        .unwrap();
    let listed = store.get_bridge_tables().unwrap();
    assert_eq!(listed, vec![a, c]);
}

#[test]
fn listing_caps_at_five_rows() {
    let mut store = DbTableStore::new();
    let mut public_rows = Vec::new();
    for i in 0..7 {
        let t = store
            .insert_bridge_table(new_record(&format!("t{}", i), "o", i != 3))
            .unwrap();
        if i != 3 {
            public_rows.push(t);
        }
    }
    assert_eq!(public_rows.len(), 6);
    let listed = store.get_bridge_tables().unwrap();
    assert_eq!(listed.len(), 5);
    assert_eq!(listed, public_rows[..5].to_vec());
    assert!(listed.iter().all(|t| t.public));
}

#[test]
fn update_preserves_identity_and_update_of_a_miss_is_none() {
    let mut store = DbTableStore::new();
    let t = store
        .insert_bridge_table(new_record("t1", "o1", true))
        .unwrap();
    let updated = store
        .update_bridge_table_by_id(t.id, new_record("t2", "o2", false))
        .unwrap()
        .expect("the row exists");
    assert_eq!(updated.id, t.id);
    assert_eq!(updated.name, "t2");
    assert_eq!(updated.owner, "o2");
    assert!(!updated.public);
    assert_eq!(
        store
            .update_bridge_table_by_id(999, new_record("x", "y", true))
            .unwrap(),
        None
    );
}

#[test]
fn delete_is_terminal_in_the_db_store() {
    let mut store = DbTableStore::new();
    let t = store
        .insert_bridge_table(new_record("t1", "o1", true))
        .unwrap();
    let deleted = store.delete_bridge_table_by_id(t.id).unwrap();
    assert_eq!(deleted, Some(t.clone()));
    assert_eq!(store.get_bridge_table_by_id(t.id).unwrap(), None);
    assert_eq!(store.delete_bridge_table_by_id(t.id).unwrap(), None);
}

#[test]
fn deleted_identifier_is_not_reused_after_more_inserts() {
    let mut store = DbTableStore::new();
    let a = store
        .insert_bridge_table(new_record("a", "o", true))
        .unwrap();
    store.delete_bridge_table_by_id(a.id).unwrap();
    let b = store
        .insert_bridge_table(new_record("b", "o", true))
        .unwrap();
    assert_ne!(a.id, b.id);
    assert_eq!(store.get_bridge_table_by_id(a.id).unwrap(), None);
}
