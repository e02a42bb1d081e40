//! A minimal, self-contained store variant over [`Table`]: the same
//! in-memory semantics as the trait-based backend, without the backend
//! split. Kept as the simplest reference rendering of the store contract.

use vstd::prelude::*;

use crate::models::{NewTable, Table};
use crate::table_store::{
    find_by_id, fresh_id, has_id, index_of_id, lemma_delete_is_terminal,
    lemma_push_fresh_preserves_unique_ids, lemma_update_same_id_preserves_unique_ids,
    position_of_id, random_u32, unique_ids, TableStoreError,
};

verus! {

/// A store over an owned, ordered collection of tables.
pub struct TableStore {
    tables: Vec<Table>,
}

impl View for TableStore {
    type V = Seq<Table>;

    closed spec fn view(&self) -> Seq<Table> {
        self.tables@
    }
}

impl TableStore {
    /// No two stored tables share an identifier.
    pub open spec fn inv(&self) -> bool {
        unique_ids(self@)
    }

    /// An empty store.
    pub fn new() -> (r: Self)
        ensures
            r.inv(),
            r@ == Seq::<Table>::empty(),
    {
        TableStore { tables: Vec::new() }
    }

    /// Assigns a fresh identifier, stores the table, and returns the
    /// persisted form. Never reuses a live identifier; fails only when the
    /// identifier space could be exhausted.
    pub fn insert_table(&mut self, new_table: NewTable) -> (r: Result<Table, TableStoreError>)
        requires
            old(self).inv(),
        ensures
            final(self).inv(),
            match r {
                Ok(t) => {
                    &&& t.name == new_table.name
                    &&& t.owner == new_table.owner
                    &&& t.public == new_table.public
                    &&& !has_id(old(self)@, t.id)
                    &&& final(self)@ == old(self)@.push(t)
                },
                Err(_) => final(self)@ == old(self)@,
            },
            old(self)@.len() <= u32::MAX ==> r is Ok,
    {
        if self.tables.len() > u32::MAX as usize {
            return Err(TableStoreError::StorageFault);
        }
        let id = fresh_id(&self.tables, random_u32());
        let table = Table {
            id,
            name: new_table.name,
            owner: new_table.owner,
            public: new_table.public,
        };
        let result = table.clone();
        proof {
            lemma_push_fresh_preserves_unique_ids(self.tables@, table);
        }
        self.tables.push(table);
        Ok(result)
    }

    /// Copies of all stored tables, in insertion order.
    pub fn get_tables(&self) -> (r: Vec<Table>)
        ensures
            r@ == self@,
    {
        let n = self.tables.len();
        let mut out: Vec<Table> = Vec::new();
        let mut i: usize = 0;
        while i < n
            invariant
                n == self.tables@.len(),
                i <= n,
                out@ == self.tables@.take(i as int),
            decreases n - i,
        {
            out.push(self.tables[i].clone());
            proof {
                assert(self.tables@.take(i + 1) =~= self.tables@.take(i as int).push(
                    self.tables@[i as int],
                ));
            }
            i = i + 1;
        }
        proof {
            assert(self.tables@.take(n as int) =~= self.tables@);
        }
        out
    }

    /// The table holding `id`, if any; a missing identifier is a normal
    /// `None`.
    pub fn get_table_by_id(&self, id: u32) -> (r: Option<Table>)
        ensures
            r == find_by_id(self@, id),
    {
        match position_of_id(&self.tables, id) {
            Some(i) => Some(self.tables[i].clone()),
            None => None,
        }
    }

    /// Replaces every field but the identifier of the table holding `id`,
    /// returning the new state; `None` when `id` is unknown.
    pub fn update_table_by_id(&mut self, id: u32, table: NewTable) -> (r: Option<Table>)
        requires
            old(self).inv(),
        ensures
            final(self).inv(),
            match r {
                Some(t) => {
                    &&& has_id(old(self)@, id)
                    &&& t.id == id
                    &&& t.name == table.name
                    &&& t.owner == table.owner
                    &&& t.public == table.public
                    &&& final(self)@ == old(self)@.update(index_of_id(old(self)@, id), t)
                },
                None => {
                    &&& !has_id(old(self)@, id)
                    &&& final(self)@ == old(self)@
                },
            },
    {
        match position_of_id(&self.tables, id) {
            Some(i) => {
                let new_table = Table {
                    id,
                    name: table.name,
                    owner: table.owner,
                    public: table.public,
                };
                let result = new_table.clone();
                proof {
                    lemma_update_same_id_preserves_unique_ids(self.tables@, id, new_table);
                }
                let ghost s0 = self.tables@;
                self.tables.remove(i);
                self.tables.insert(i, new_table);
                proof {
                    assert(self.tables@ =~= s0.update(i as int, new_table));
                }
                Some(result)
            },
            None => None,
        }
    }

    /// Removes the table holding `id` and returns its prior state; `None`
    /// when `id` is unknown. Afterwards no table holds `id`.
    pub fn delete_table_by_id(&mut self, id: u32) -> (r: Option<Table>)
        requires
            old(self).inv(),
        ensures
            final(self).inv(),
            match r {
                Some(t) => {
                    &&& has_id(old(self)@, id)
                    &&& t == old(self)@[index_of_id(old(self)@, id)]
                    &&& final(self)@ == old(self)@.remove(index_of_id(old(self)@, id))
                    &&& !has_id(final(self)@, id)
                },
                None => {
                    &&& !has_id(old(self)@, id)
                    &&& final(self)@ == old(self)@
                },
            },
    {
        match position_of_id(&self.tables, id) {
            Some(i) => {
                proof {
                    lemma_delete_is_terminal(self.tables@, id);
                }
                let removed = self.tables.remove(i);
                Some(removed)
            },
            None => None,
        }
    }
}

} // verus!
