//! The in-memory backend: an owned, ordered collection of records, the
//! reference implementation and test double.
//!
//! Identifiers are drawn at random; a draw that collides with a live
//! identifier falls back to the smallest free identifier, so an insertion
//! never reuses one. The collection is held in insertion order and listed
//! whole.

use vstd::prelude::*;

use crate::models::{BridgeTable, NewBridgeTable};
use crate::table_store::{
    fresh_id, lemma_delete_is_terminal, lemma_push_fresh_preserves_unique_ids,
    lemma_update_same_id_preserves_unique_ids, position_of_id, random_u32, unique_ids,
    TableStore, TableStoreError,
};

verus! {

/// An in-memory store over an owned, ordered collection of records.
pub struct InMemoryTableStore {
    tables: Vec<BridgeTable>,
}

impl InMemoryTableStore {
    /// An empty store.
    pub fn new() -> (r: Self)
        ensures
            r.inv(),
            r.tables() == Seq::<BridgeTable>::empty(),
    {
        InMemoryTableStore { tables: Vec::new() }
    }
}

impl TableStore for InMemoryTableStore {
    closed spec fn tables(&self) -> Seq<BridgeTable> {
        self.tables@
    }

    /// This backend lists every record it holds.
    open spec fn listing(&self) -> Seq<BridgeTable> {
        self.tables()
    }

    open spec fn inv(&self) -> bool {
        unique_ids(self.tables())
    }

    /// Insertion succeeds while a free identifier is certain to exist.
    open spec fn can_insert(&self) -> bool {
        self.tables().len() <= u32::MAX
    }

    proof fn inv_implies_unique_ids(&self) {
    }

    fn insert_bridge_table(&mut self, new_bridge_table: NewBridgeTable) -> (r: Result<
        BridgeTable,
        TableStoreError,
    >) {
        if self.tables.len() > u32::MAX as usize {
            return Err(TableStoreError::StorageFault);
        }
        let id = fresh_id(&self.tables, random_u32());
        let table = BridgeTable {
            id,
            name: new_bridge_table.name,
            owner: new_bridge_table.owner,
            public: new_bridge_table.public,
        };
        let result = table.clone();
        proof {
            lemma_push_fresh_preserves_unique_ids(self.tables@, table);
        }
        self.tables.push(table);
        Ok(result)
    }

    fn get_bridge_tables(&self) -> (r: Result<Vec<BridgeTable>, TableStoreError>) {
        let n = self.tables.len();
        let mut out: Vec<BridgeTable> = Vec::new();
        let mut i: usize = 0;
        while i < n
            invariant
                n == self.tables@.len(),
                i <= n,
                out@ == self.tables@.take(i as int),
            decreases n - i,
        {
            out.push(self.tables[i].clone());
            proof {
                assert(self.tables@.take(i + 1) =~= self.tables@.take(i as int).push(
                    self.tables@[i as int],
                ));
            }
            i = i + 1;
        }
        proof {
            assert(self.tables@.take(n as int) =~= self.tables@);
        }
        Ok(out)
    }

    fn get_bridge_table_by_id(&self, id: u32) -> (r: Result<
        Option<BridgeTable>,
        TableStoreError,
    >) {
        match position_of_id(&self.tables, id) {
            Some(i) => Ok(Some(self.tables[i].clone())),
            None => Ok(None),
        }
    }

    fn update_bridge_table_by_id(&mut self, id: u32, new_bridge_table: NewBridgeTable) -> (r:
        Result<Option<BridgeTable>, TableStoreError>) {
        match position_of_id(&self.tables, id) {
            Some(i) => {
                let table = BridgeTable {
                    id,
                    name: new_bridge_table.name,
                    owner: new_bridge_table.owner,
                    public: new_bridge_table.public,
                };
                let result = table.clone();
                proof {
                    lemma_update_same_id_preserves_unique_ids(self.tables@, id, table);
                }
                let ghost s0 = self.tables@;
                self.tables.remove(i);
                self.tables.insert(i, table);
                proof {
                    assert(self.tables@ =~= s0.update(i as int, table));
                }
                Ok(Some(result))
            },
            None => Ok(None),
        }
    }

    fn delete_bridge_table_by_id(&mut self, id: u32) -> (r: Result<
        Option<BridgeTable>,
        TableStoreError,
    >) {
        match position_of_id(&self.tables, id) {
            Some(i) => {
                proof {
                    lemma_delete_is_terminal(self.tables@, id);
                }
                let removed = self.tables.remove(i);
                Ok(Some(removed))
            },
            None => Ok(None),
        }
    }
}

} // verus!
