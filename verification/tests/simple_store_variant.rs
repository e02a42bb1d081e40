use table_store::models::NewTable;
use table_store::simple_store::TableStore;

fn new_table(name: &str, owner: &str, public: bool) -> NewTable {
    NewTable {
        name: name.to_owned(),
        owner: owner.to_owned(),
        public,
    }
}

#[test]
fn simple_store_insert_and_get_round_trip() {
    let mut store = TableStore::new();
    let t = store.insert_table(new_table("t1", "o1", true)).unwrap();
    assert_eq!(t.name, "t1");
    assert_eq!(t.owner, "o1");
    assert!(t.public);
    assert_eq!(store.get_table_by_id(t.id), Some(t));
}

#[test]
fn simple_store_lists_in_insertion_order() {
    let mut store = TableStore::new();
    let a = store.insert_table(new_table("a", "o", true)).unwrap();
    let b = store.insert_table(new_table("b", "o", false)).unwrap();
    assert_eq!(store.get_tables(), vec![a, b]);
}

#[test]
fn simple_store_update_keeps_the_identifier() {
    let mut store = TableStore::new();
    let t = store.insert_table(new_table("t1", "o1", true)).unwrap();
    let updated = store
        .update_table_by_id(t.id, new_table("t2", "o2", false))
        .expect("the table exists");
    assert_eq!(updated.id, t.id);
    assert_eq!(updated.name, "t2");
    assert_eq!(updated.owner, "o2");
    assert!(!updated.public);
}

#[test]
fn simple_store_delete_is_terminal_and_miss_is_none() {
    let mut store = TableStore::new();
    let t = store.insert_table(new_table("t1", "o1", true)).unwrap();
    assert_eq!(store.delete_table_by_id(t.id), Some(t.clone()));
    assert_eq!(store.get_table_by_id(t.id), None);
    assert_eq!(store.update_table_by_id(t.id, new_table("x", "y", true)), None);
    assert_eq!(store.delete_table_by_id(t.id), None);
    assert_eq!(store.get_table_by_id(42), None);
}
