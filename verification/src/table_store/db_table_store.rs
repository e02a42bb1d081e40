//! The persistent backend's verified core: the relational table semantics
//! the store relies on, modelled over owned rows.
//!
//! The backend assigns identifiers from an auto-increment key, so rows carry
//! strictly ascending identifiers. Each write follows the transaction shape
//! of the backend: insert then re-read the most recently inserted row (the
//! one with the largest identifier), update then re-read by identifier, read
//! then delete. Listing reports only rows flagged public, capped at
//! [`MAX_LISTED_TABLES`] rows to bound response size.

use vstd::prelude::*;

use crate::models::{BridgeTable, NewBridgeTable, TableRecord};
use crate::table_store::{
    has_id, lemma_delete_is_terminal, lemma_index_of_id_props, lemma_update_then_get,
    position_of_id, unique_ids, TableStore, TableStoreError,
};

verus! {

/// The largest number of rows a listing reports.
pub const MAX_LISTED_TABLES: usize = 5;

/// Identifiers strictly ascend along the rows (the auto-increment order).
pub open spec fn ids_ascending(s: Seq<BridgeTable>) -> bool {
    forall|i: int, j: int| 0 <= i < j < s.len() ==> s[i].id < s[j].id
}

/// Every identifier in `s` lies below `bound`.
pub open spec fn ids_below(s: Seq<BridgeTable>, bound: u32) -> bool {
    forall|i: int| 0 <= i < s.len() ==> s[i].id < bound
}

/// The rows flagged public, in row order.
pub open spec fn public_rows(s: Seq<BridgeTable>) -> Seq<BridgeTable>
    decreases s.len(),
{
    if s.len() == 0 {
        Seq::empty()
    } else {
        let rest = public_rows(s.drop_last());
        if s.last().public {
            rest.push(s.last())
        } else {
            rest
        }
    }
}

/// The first `MAX_LISTED_TABLES` rows of `s`, or all of them if fewer.
pub open spec fn capped(s: Seq<BridgeTable>) -> Seq<BridgeTable> {
    if s.len() <= MAX_LISTED_TABLES {
        s
    } else {
        s.take(MAX_LISTED_TABLES as int)
    }
}

/// What the persistent backend lists: public rows only, capped.
pub open spec fn public_listing(s: Seq<BridgeTable>) -> Seq<BridgeTable> {
    capped(public_rows(s))
}

/// List cap: a listing never exceeds `MAX_LISTED_TABLES` rows, and once the
/// store holds that many public rows the listing reports exactly that many.
pub proof fn lemma_public_listing_cap(s: Seq<BridgeTable>)
    ensures
        public_listing(s).len() <= MAX_LISTED_TABLES,
        public_rows(s).len() >= MAX_LISTED_TABLES ==> public_listing(s).len()
            == MAX_LISTED_TABLES,
{
}

/// Appending a row extends the public rows by it exactly when it is public.
proof fn lemma_public_rows_push(s: Seq<BridgeTable>, t: BridgeTable)
    ensures
        public_rows(s.push(t)) == if t.public {
            public_rows(s).push(t)
        } else {
            public_rows(s)
        },
{
    assert(s.push(t).drop_last() =~= s);
    assert(s.push(t).last() == t);
}

/// Strictly ascending identifiers are in particular unique.
proof fn lemma_ascending_implies_unique(s: Seq<BridgeTable>)
    requires
        ids_ascending(s),
    ensures
        unique_ids(s),
{
}

/// A model of the relational backend: rows under an auto-increment primary
/// key.
pub struct DbTableStore {
    rows: Vec<BridgeTable>,
    next_id: u32,
}

impl DbTableStore {
    /// Rows ascend and stay below the next key to be assigned.
    pub closed spec fn rows_wf(&self) -> bool {
        &&& ids_ascending(self.rows@)
        &&& ids_below(self.rows@, self.next_id)
    }

    /// An empty store whose auto-increment key starts at 1.
    pub fn new() -> (r: Self)
        ensures
            r.inv(),
            r.tables() == Seq::<BridgeTable>::empty(),
            r.can_insert(),
    {
        DbTableStore { rows: Vec::new(), next_id: 1 }
    }

    /// The most recently inserted row: the one with the largest identifier,
    /// as the backend's descending-order read returns it.
    fn max_id_row(rows: &Vec<BridgeTable>) -> (r: Option<BridgeTable>)
        ensures
            match r {
                Some(t) => {
                    &&& exists|k: int| 0 <= k < rows@.len() && t == rows@[k]
                    &&& forall|j: int| 0 <= j < rows@.len() ==> rows@[j].id <= t.id
                },
                None => rows@.len() == 0,
            },
    {
        let n = rows.len();
        if n == 0 {
            return None;
        }
        let mut best: usize = 0;
        let mut i: usize = 1;
        while i < n
            invariant
                n == rows@.len(),
                best < i <= n,
                forall|j: int| 0 <= j < i ==> rows@[j].id <= rows@[best as int].id,
            decreases n - i,
        {
            if rows[i].record_id() > rows[best].record_id() {
                best = i;
            }
            i = i + 1;
        }
        Some(rows[best].clone())
    }
}

impl TableStore for DbTableStore {
    closed spec fn tables(&self) -> Seq<BridgeTable> {
        self.rows@
    }

    /// This backend lists only public rows, capped.
    open spec fn listing(&self) -> Seq<BridgeTable> {
        public_listing(self.tables())
    }

    open spec fn inv(&self) -> bool {
        self.rows_wf()
    }

    /// Insertion succeeds while the auto-increment key space is not
    /// exhausted.
    closed spec fn can_insert(&self) -> bool {
        self.next_id < u32::MAX
    }

    proof fn inv_implies_unique_ids(&self) {
        lemma_ascending_implies_unique(self.rows@);
    }

    fn insert_bridge_table(&mut self, new_bridge_table: NewBridgeTable) -> (r: Result<
        BridgeTable,
        TableStoreError,
    >) {
        if self.next_id == u32::MAX {
            return Err(TableStoreError::StorageFault);
        }
        let id = self.next_id;
        self.next_id = id + 1;
        let row = BridgeTable {
            id,
            name: new_bridge_table.name,
            owner: new_bridge_table.owner,
            public: new_bridge_table.public,
        };
        let ghost s0 = self.rows@;
        self.rows.push(row);
        let read_back = Self::max_id_row(&self.rows);
        match read_back {
            Some(t) => {
                proof {
                    let s1 = self.rows@;
                    let k = choose|k: int| 0 <= k < s1.len() && t == s1[k];
                    assert(s1[s1.len() - 1] == row);
                    assert(s1[k].id <= t.id && row.id <= t.id);
                    if k < s1.len() - 1 {
                        assert(s1[k].id < row.id);
                    }
                    assert(t == row);
                }
                Ok(t)
            },
            None => {
                proof {
                    assert(self.rows@.len() > 0);
                }
                Err(TableStoreError::StorageFault)
            },
        }
    }

    fn get_bridge_tables(&self) -> (r: Result<Vec<BridgeTable>, TableStoreError>) {
        let n = self.rows.len();
        let mut out: Vec<BridgeTable> = Vec::new();
        let mut i: usize = 0;
        while i < n
            invariant
                n == self.rows@.len(),
                i <= n,
                out@ == public_listing(self.rows@.take(i as int)),
                out@.len() < MAX_LISTED_TABLES ==> out@ == public_rows(self.rows@.take(i as int)),
            decreases n - i,
        {
            let ghost pre = self.rows@.take(i as int);
            let ghost f = public_rows(pre);
            proof {
                assert(self.rows@.take(i + 1) =~= pre.push(self.rows@[i as int]));
                lemma_public_rows_push(pre, self.rows@[i as int]);
            }
            if self.rows[i].public && out.len() < MAX_LISTED_TABLES {
                out.push(self.rows[i].clone());
                proof {
                    assert(f.len() < MAX_LISTED_TABLES);
                }
            } else {
                proof {
                    if self.rows@[i as int].public {
                        assert(f.len() >= MAX_LISTED_TABLES);
                        assert(f.push(self.rows@[i as int]).take(MAX_LISTED_TABLES as int) =~= capped(
                            f,
                        ));
                        if f.len() > MAX_LISTED_TABLES {
                            assert(f.take(MAX_LISTED_TABLES as int) =~= capped(f));
                        }
                    }
                }
            }
            i = i + 1;
        }
        proof {
            assert(self.rows@.take(n as int) =~= self.rows@);
        }
        Ok(out)
    }

    fn get_bridge_table_by_id(&self, id: u32) -> (r: Result<
        Option<BridgeTable>,
        TableStoreError,
    >) {
        match position_of_id(&self.rows, id) {
            Some(i) => Ok(Some(self.rows[i].clone())),
            None => Ok(None),
        }
    }

    fn update_bridge_table_by_id(&mut self, id: u32, new_bridge_table: NewBridgeTable) -> (r:
        Result<Option<BridgeTable>, TableStoreError>) {
        match position_of_id(&self.rows, id) {
            Some(i) => {
                let row = BridgeTable {
                    id,
                    name: new_bridge_table.name,
                    owner: new_bridge_table.owner,
                    public: new_bridge_table.public,
                };
                let ghost s0 = self.rows@;
                proof {
                    lemma_index_of_id_props(s0, id);
                    lemma_ascending_implies_unique(s0);
                    lemma_update_then_get(s0, id, row);
                    let s1 = s0.update(i as int, row);
                    assert forall|p: int, q: int| 0 <= p < q < s1.len() implies s1[p].id
                        < s1[q].id by {
                        assert(s0[p].id < s0[q].id);
                    }
                }
                self.rows.remove(i);
                self.rows.insert(i, row);
                proof {
                    assert(self.rows@ =~= s0.update(i as int, row));
                }
                // re-read the row inside the same transaction, as the
                // backend does, and return the read-back state
                match position_of_id(&self.rows, id) {
                    Some(j) => Ok(Some(self.rows[j].clone())),
                    None => {
                        proof {
                            assert(has_id(self.rows@, id));
                        }
                        Err(TableStoreError::StorageFault)
                    },
                }
            },
            None => Ok(None),
        }
    }

    fn delete_bridge_table_by_id(&mut self, id: u32) -> (r: Result<
        Option<BridgeTable>,
        TableStoreError,
    >) {
        match position_of_id(&self.rows, id) {
            Some(i) => {
                // read the prior state first, then delete, as the backend's
                // transaction does
                let prior = self.rows[i].clone();
                proof {
                    let s0 = self.rows@;
                    lemma_ascending_implies_unique(s0);
                    lemma_delete_is_terminal(s0, id);
                    let s1 = s0.remove(i as int);
                    assert forall|p: int, q: int| 0 <= p < q < s1.len() implies s1[p].id
                        < s1[q].id by {
                        let p0: int = if p < i { p } else { p + 1 };
                        let q0: int = if q < i { q } else { q + 1 };
                        assert(s1[p] == s0[p0] && s1[q] == s0[q0]);
                    }
                    assert forall|p: int| 0 <= p < s1.len() implies s1[p].id < self.next_id by {
                        let p0: int = if p < i { p } else { p + 1 };
                        assert(s1[p] == s0[p0]);
                    }
                }
                self.rows.remove(i);
                Ok(Some(prior))
            },
            None => Ok(None),
        }
    }
}

} // verus!
