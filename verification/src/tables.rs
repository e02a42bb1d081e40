//! The computing half of the HTTP endpoints: each function drives one store
//! operation and maps its outcome to the status code the endpoint answers
//! with, plus the value serialized into the body.
//!
//! Success with a value maps to 200 (201 for creation), success with an
//! empty result to 404, and a backend fault to 500. Request parsing and
//! response writing live outside the library.

use vstd::prelude::*;

use crate::models::{BridgeTable, NewBridgeTable};
use crate::table_store::{find_by_id, has_id, index_of_id, TableStore};

verus! {

/// Inserts a record: 201 with the persisted form, or 500 on a backend
/// fault.
pub fn create_bridge_table<S: TableStore>(db: &mut S, new_bridge_table: NewBridgeTable) -> (r: (
    u16,
    Option<BridgeTable>,
))
    requires
        old(db).inv(),
    ensures
        final(db).inv(),
        match r.1 {
            Some(t) => {
                &&& r.0 == 201
                &&& t.name == new_bridge_table.name
                &&& t.owner == new_bridge_table.owner
                &&& t.public == new_bridge_table.public
                &&& !has_id(old(db).tables(), t.id)
                &&& final(db).tables() == old(db).tables().push(t)
            },
            None => {
                &&& r.0 == 500
                &&& final(db).tables() == old(db).tables()
            },
        },
        old(db).can_insert() ==> r.0 == 201,
{
    match db.insert_bridge_table(new_bridge_table) {
        Ok(t) => (201, Some(t)),
        Err(_) => (500, None),
    }
}

/// Lists the store's listing: always 200 with the listed records.
pub fn list_all_bridge_tables<S: TableStore>(db: &S) -> (r: (u16, Option<Vec<BridgeTable>>))
    requires
        db.inv(),
    ensures
        r.0 == 200,
        r.1 matches Some(v) && v@ == db.listing(),
{
    match db.get_bridge_tables() {
        Ok(v) => (200, Some(v)),
        Err(_) => (500, None),
    }
}

/// Looks a record up: 200 with the record, or 404 when the identifier is
/// unknown.
pub fn get_bridge_table_by_id<S: TableStore>(db: &S, id: u32) -> (r: (u16, Option<BridgeTable>))
    requires
        db.inv(),
    ensures
        match find_by_id(db.tables(), id) {
            Some(t) => r == (200u16, Some(t)),
            None => r == (404u16, None::<BridgeTable>),
        },
{
    match db.get_bridge_table_by_id(id) {
        Ok(Some(t)) => (200, Some(t)),
        Ok(None) => (404, None),
        Err(_) => (500, None),
    }
}

/// Updates a record in place: 200 with the new state, or 404 when the
/// identifier is unknown.
pub fn update_bridge_table_by_id<S: TableStore>(
    db: &mut S,
    id: u32,
    updated_bridge_table: NewBridgeTable,
) -> (r: (u16, Option<BridgeTable>))
    requires
        old(db).inv(),
    ensures
        final(db).inv(),
        match r.1 {
            Some(t) => {
                &&& r.0 == 200
                &&& has_id(old(db).tables(), id)
                &&& t.id == id
                &&& t.name == updated_bridge_table.name
                &&& t.owner == updated_bridge_table.owner
                &&& t.public == updated_bridge_table.public
                &&& final(db).tables() == old(db).tables().update(
                    index_of_id(old(db).tables(), id),
                    t,
                )
            },
            None => {
                &&& r.0 == 404
                &&& !has_id(old(db).tables(), id)
                &&& final(db).tables() == old(db).tables()
            },
        },
{
    match db.update_bridge_table_by_id(id, updated_bridge_table) {
        Ok(Some(t)) => (200, Some(t)),
        Ok(None) => (404, None),
        Err(_) => (500, None),
    }
}

/// Deletes a record: 200 with its prior state, or 404 when the identifier
/// is unknown. Afterwards the identifier is gone.
pub fn delete_bridge_table_by_id<S: TableStore>(db: &mut S, id: u32) -> (r: (
    u16,
    Option<BridgeTable>,
))
    requires
        old(db).inv(),
    ensures
        final(db).inv(),
        match r.1 {
            Some(t) => {
                &&& r.0 == 200
                &&& has_id(old(db).tables(), id)
                &&& t == old(db).tables()[index_of_id(old(db).tables(), id)]
                &&& final(db).tables() == old(db).tables().remove(
                    index_of_id(old(db).tables(), id),
                )
                &&& !has_id(final(db).tables(), id)
            },
            None => {
                &&& r.0 == 404
                &&& !has_id(old(db).tables(), id)
                &&& final(db).tables() == old(db).tables()
            },
        },
{
    match db.delete_bridge_table_by_id(id) {
        Ok(Some(t)) => (200, Some(t)),
        Ok(None) => (404, None),
        Err(_) => (500, None),
    }
}

} // verus!
