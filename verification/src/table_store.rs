//! The store abstraction: a capability trait with five operations over table
//! records, its error type, and the mathematical model shared by every
//! backend.
//!
//! A store's contents are modelled as a `Seq` of records; each operation's
//! contract pins down the new contents and the returned value exactly. A
//! missing identifier is always a normal empty result, never an error: only
//! genuine backend faults travel on the error channel.

use vstd::prelude::*;
use vstd::set_lib::lemma_int_range;
use vstd::set_lib::lemma_len_subset;
use vstd::set_lib::set_int_range;

use crate::models::TableRecord;

pub mod db_table_store;
pub mod in_memory_table_store;

verus! {

broadcast use vstd::seq_lib::seq_to_set_is_finite;

/// A backend-level fault. A missing record is never reported this way.
#[derive(Debug, PartialEq, Eq)]
#[non_exhaustive]
pub enum TableStoreError {
    /// The backend failed (connection loss, constraint violation, or an
    /// exhausted identifier space).
    StorageFault,
}

/// Whether some record in `s` carries the identifier `id`.
pub open spec fn has_id<T: TableRecord>(s: Seq<T>, id: u32) -> bool {
    exists|i: int| 0 <= i < s.len() && s[i].spec_id() == id
}

/// The index of the first record in `s` whose identifier is `id`
/// (meaningful only when `has_id(s, id)`).
pub open spec fn index_of_id<T: TableRecord>(s: Seq<T>, id: u32) -> int
    decreases s.len(),
{
    if s.len() == 0 {
        0
    } else if s[0].spec_id() == id {
        0
    } else {
        1 + index_of_id(s.drop_first(), id)
    }
}

/// The first record in `s` whose identifier is `id`, if any.
pub open spec fn find_by_id<T: TableRecord>(s: Seq<T>, id: u32) -> Option<T> {
    if has_id(s, id) {
        Some(s[index_of_id(s, id)])
    } else {
        None
    }
}

/// No two records in `s` share an identifier.
pub open spec fn unique_ids<T: TableRecord>(s: Seq<T>) -> bool {
    forall|i: int, j: int|
        0 <= i < j < s.len() ==> s[i].spec_id() != s[j].spec_id()
}

/// When `id` occurs in `s`, `index_of_id` lands on its first occurrence.
pub proof fn lemma_index_of_id_props<T: TableRecord>(s: Seq<T>, id: u32)
    requires
        has_id(s, id),
    ensures
        0 <= index_of_id(s, id) < s.len(),
        s[index_of_id(s, id)].spec_id() == id,
        forall|j: int| 0 <= j < index_of_id(s, id) ==> s[j].spec_id() != id,
    decreases s.len(),
{
    if s[0].spec_id() == id {
    } else {
        let w = choose|w: int| 0 <= w < s.len() && s[w].spec_id() == id;
        assert(s.drop_first()[w - 1] == s[w]);
        assert(has_id(s.drop_first(), id));
        lemma_index_of_id_props(s.drop_first(), id);
        let k = index_of_id(s.drop_first(), id);
        assert(s[1 + k] == s.drop_first()[k]);
        assert forall|j: int| 0 <= j < 1 + k implies s[j].spec_id() != id by {
            if j > 0 {
                assert(s.drop_first()[j - 1] == s[j]);
            }
        }
    }
}

/// Conversely, the first index holding `id` is what `index_of_id` returns.
pub proof fn lemma_index_of_id_at<T: TableRecord>(s: Seq<T>, id: u32, i: int)
    requires
        0 <= i < s.len(),
        s[i].spec_id() == id,
        forall|j: int| 0 <= j < i ==> s[j].spec_id() != id,
    ensures
        has_id(s, id),
        index_of_id(s, id) == i,
    decreases s.len(),
{
    assert(has_id(s, id));
    if s[0].spec_id() == id {
    } else {
        assert(s.drop_first()[i - 1] == s[i]);
        assert forall|j: int| 0 <= j < i - 1 implies s.drop_first()[j].spec_id() != id by {
            assert(s.drop_first()[j] == s[j + 1]);
        }
        lemma_index_of_id_at(s.drop_first(), id, i - 1);
    }
}

/// Appending a record with a fresh identifier keeps identifiers unique.
pub proof fn lemma_push_fresh_preserves_unique_ids<T: TableRecord>(s: Seq<T>, t: T)
    requires
        unique_ids(s),
        !has_id(s, t.spec_id()),
    ensures
        unique_ids(s.push(t)),
{
    let s2 = s.push(t);
    assert forall|i: int, j: int| 0 <= i < j < s2.len() implies s2[i].spec_id()
        != s2[j].spec_id() by {
        if j < s.len() {
            assert(s2[i] == s[i] && s2[j] == s[j]);
        } else {
            assert(s2[i] == s[i] && s2[j] == t);
        }
    }
}

/// Replacing the record at `id`'s position by one that carries the same
/// identifier keeps identifiers unique.
pub proof fn lemma_update_same_id_preserves_unique_ids<T: TableRecord>(s: Seq<T>, id: u32, t: T)
    requires
        unique_ids(s),
        has_id(s, id),
        t.spec_id() == id,
    ensures
        unique_ids(s.update(index_of_id(s, id), t)),
{
    lemma_index_of_id_props(s, id);
    let x = index_of_id(s, id);
    let s2 = s.update(x, t);
    assert forall|i: int, j: int| 0 <= i < j < s2.len() implies s2[i].spec_id()
        != s2[j].spec_id() by {
        if i != x && j != x {
            assert(s2[i] == s[i] && s2[j] == s[j]);
        }
    }
}

/// Removing a record keeps identifiers unique.
pub proof fn lemma_remove_preserves_unique_ids<T: TableRecord>(s: Seq<T>, x: int)
    requires
        unique_ids(s),
        0 <= x < s.len(),
    ensures
        unique_ids(s.remove(x)),
{
    let s2 = s.remove(x);
    assert forall|i: int, j: int| 0 <= i < j < s2.len() implies s2[i].spec_id()
        != s2[j].spec_id() by {
        let i0: int = if i < x { i } else { i + 1 };
        let j0: int = if j < x { j } else { j + 1 };
        assert(s2[i] == s[i0] && s2[j] == s[j0]);
    }
}

/// Round trip: a record inserted under a fresh identifier is exactly what a
/// later lookup of that identifier finds.
pub proof fn lemma_insert_then_get<T: TableRecord>(s: Seq<T>, t: T)
    requires
        !has_id(s, t.spec_id()),
    ensures
        find_by_id(s.push(t), t.spec_id()) == Some(t),
{
    let s2 = s.push(t);
    assert forall|j: int| 0 <= j < s.len() implies s2[j].spec_id() != t.spec_id() by {
        assert(s2[j] == s[j]);
    }
    lemma_index_of_id_at(s2, t.spec_id(), s.len() as int);
}

/// A record written over the position of identifier `id` is exactly what a
/// later lookup of `id` finds.
pub proof fn lemma_update_then_get<T: TableRecord>(s: Seq<T>, id: u32, t: T)
    requires
        unique_ids(s),
        has_id(s, id),
        t.spec_id() == id,
    ensures
        find_by_id(s.update(index_of_id(s, id), t), id) == Some(t),
{
    lemma_index_of_id_props(s, id);
    let x = index_of_id(s, id);
    let s2 = s.update(x, t);
    assert forall|j: int| 0 <= j < x implies s2[j].spec_id() != id by {
        assert(s2[j] == s[j]);
    }
    lemma_index_of_id_at(s2, id, x);
}

/// Deletion is terminal: once the record holding `id` is removed from a
/// store with unique identifiers, no record with `id` remains.
pub proof fn lemma_delete_is_terminal<T: TableRecord>(s: Seq<T>, id: u32)
    requires
        unique_ids(s),
        has_id(s, id),
    ensures
        !has_id(s.remove(index_of_id(s, id)), id),
        unique_ids(s.remove(index_of_id(s, id))),
{
    lemma_index_of_id_props(s, id);
    let x = index_of_id(s, id);
    lemma_remove_preserves_unique_ids(s, x);
    let s2 = s.remove(x);
    assert forall|i: int| 0 <= i < s2.len() implies s2[i].spec_id() != id by {
        let i0: int = if i < x { i } else { i + 1 };
        assert(s2[i] == s[i0]);
    }
}

/// In a store of at most `u32::MAX` records, some identifier no larger than
/// the record count is still free (there are more candidates than records).
pub proof fn lemma_small_id_free<T: TableRecord>(s: Seq<T>)
    requires
        s.len() <= u32::MAX,
    ensures
        exists|id: u32| id <= s.len() && !has_id(s, id),
{
    let ids = s.map_values(|t: T| t.spec_id() as int);
    let used = ids.to_set();
    let n = s.len() as int;
    if forall|id: u32| id <= s.len() ==> has_id(s, id) {
        assert forall|k: int| 0 <= k <= n implies used.contains(k) by {
            let ku = k as u32;
            assert(ku <= s.len());
            assert(has_id(s, ku));
            let i = choose|i: int| 0 <= i < s.len() && s[i].spec_id() == ku;
            assert(ids[i] == k);
            assert(ids.contains(k));
        }
        let c = set_int_range(0, n + 1);
        lemma_int_range(0, n + 1);
        assert(c.subset_of(used));
        ids.lemma_cardinality_of_set();
        lemma_len_subset(c, used);
        assert(false);
    } else {
        let id = choose|id: u32| !(id <= s.len() ==> has_id(s, id));
        assert(id <= s.len() && !has_id(s, id));
    }
}

/// The index of the first record in `tables` whose identifier is `id`, found
/// by a linear scan from the front.
pub(crate) fn position_of_id<T: TableRecord>(tables: &Vec<T>, id: u32) -> (r: Option<usize>)
    ensures
        match r {
            Some(i) => {
                &&& has_id(tables@, id)
                &&& i == index_of_id(tables@, id)
                &&& i < tables@.len()
            },
            None => !has_id(tables@, id),
        },
{
    let n = tables.len();
    let mut i: usize = 0;
    while i < n
        invariant
            n == tables@.len(),
            i <= n,
            forall|j: int| 0 <= j < i ==> tables@[j].spec_id() != id,
        decreases n - i,
    {
        if tables[i].record_id() == id {
            proof {
                lemma_index_of_id_at(tables@, id, i as int);
            }
            return Some(i);
        }
        i = i + 1;
    }
    None
}

/// Whether some record in `tables` carries the identifier `id`.
pub(crate) fn contains_id<T: TableRecord>(tables: &Vec<T>, id: u32) -> (r: bool)
    ensures
        r == has_id(tables@, id),
{
    position_of_id(tables, id).is_some()
}

/// An identifier not carried by any record of `tables`: the candidate when it
/// is free, else the smallest free identifier (one exists: there are at most
/// `u32::MAX` records but `u32::MAX + 1` identifiers).
pub(crate) fn fresh_id<T: TableRecord>(tables: &Vec<T>, candidate: u32) -> (r: u32)
    requires
        tables@.len() <= u32::MAX,
    ensures
        !has_id(tables@, r),
{
    if !contains_id(tables, candidate) {
        return candidate;
    }
    let n: u32 = tables.len() as u32;
    let mut c: u64 = 0;
    while c <= n as u64
        invariant
            tables@.len() == n,
            c <= n as u64 + 1,
            forall|k: u64| 0 <= k < c ==> has_id(tables@, #[trigger] (k as u32)),
        decreases n as u64 + 1 - c,
    {
        if !contains_id(tables, c as u32) {
            return c as u32;
        }
        c = c + 1;
    }
    proof {
        lemma_small_id_free(tables@);
        let id = choose|id: u32| id <= tables@.len() && !has_id(tables@, id);
        assert((id as u64) as u32 == id);
        assert(has_id(tables@, (id as u64) as u32));
        assert(false);
    }
    0
}

/// Relies on rand::random: draws an arbitrary `u32`. Nothing is promised of
/// the value; callers that need a fresh identifier check it themselves.
#[verifier::external_body]
pub(crate) fn random_u32() -> u32 {
    rand::random()
}

/// The capability contract every storage backend meets: insert, list, get,
/// update, delete, uniform across implementations.
///
/// `tables` is the backend's contents; `listing` is what `get_bridge_tables`
/// reports, which a backend may restrict (the relational variant lists only
/// public rows, capped); `inv` is the backend's well-formedness, which every
/// operation preserves; `can_insert` names the states in which insertion is
/// guaranteed to succeed.
pub trait TableStore: Sized {
    /// The records the store currently holds, in storage order.
    spec fn tables(&self) -> Seq<crate::models::BridgeTable>;

    /// The records a listing reports.
    spec fn listing(&self) -> Seq<crate::models::BridgeTable>;

    /// The store's internal well-formedness.
    spec fn inv(&self) -> bool;

    /// States in which an insertion cannot fail.
    spec fn can_insert(&self) -> bool;

    /// A well-formed store never holds two records with one identifier.
    proof fn inv_implies_unique_ids(&self)
        requires
            self.inv(),
        ensures
            unique_ids(self.tables()),
    ;

    /// Assigns a fresh identifier, stores the record, and returns the
    /// persisted form. Never reuses a live identifier.
    fn insert_bridge_table(&mut self, new_bridge_table: crate::models::NewBridgeTable) -> (r:
        Result<crate::models::BridgeTable, TableStoreError>)
        requires
            old(self).inv(),
        ensures
            final(self).inv(),
            match r {
                Ok(t) => {
                    &&& t.name == new_bridge_table.name
                    &&& t.owner == new_bridge_table.owner
                    &&& t.public == new_bridge_table.public
                    &&& !has_id(old(self).tables(), t.id)
                    &&& final(self).tables() == old(self).tables().push(t)
                },
                Err(_) => final(self).tables() == old(self).tables(),
            },
            old(self).can_insert() ==> r is Ok,
    ;

    /// Reports the store's listing. Infallible in both backends.
    fn get_bridge_tables(&self) -> (r: Result<
        Vec<crate::models::BridgeTable>,
        TableStoreError,
    >)
        requires
            self.inv(),
        ensures
            match r {
                Ok(v) => v@ == self.listing(),
                Err(_) => false,
            },
    ;

    /// Looks a record up by identifier. A missing identifier is a normal
    /// `None`, never an error.
    fn get_bridge_table_by_id(&self, id: u32) -> (r: Result<
        Option<crate::models::BridgeTable>,
        TableStoreError,
    >)
        requires
            self.inv(),
        ensures
            r == Ok::<Option<crate::models::BridgeTable>, TableStoreError>(
                find_by_id(self.tables(), id),
            ),
    ;

    /// Replaces every field but the identifier of the record holding `id`,
    /// returning the new state; `None` when `id` is unknown, never an error.
    fn update_bridge_table_by_id(
        &mut self,
        id: u32,
        new_bridge_table: crate::models::NewBridgeTable,
    ) -> (r: Result<Option<crate::models::BridgeTable>, TableStoreError>)
        requires
            old(self).inv(),
        ensures
            final(self).inv(),
            match r {
                Ok(opt) => match opt {
                    Some(t) => {
                        &&& has_id(old(self).tables(), id)
                        &&& t.id == id
                        &&& t.name == new_bridge_table.name
                        &&& t.owner == new_bridge_table.owner
                        &&& t.public == new_bridge_table.public
                        &&& final(self).tables() == old(self).tables().update(
                            index_of_id(old(self).tables(), id),
                            t,
                        )
                    },
                    None => {
                        &&& !has_id(old(self).tables(), id)
                        &&& final(self).tables() == old(self).tables()
                    },
                },
                Err(_) => false,
            },
    ;

    /// Removes the record holding `id` and returns its prior state; `None`
    /// when `id` is unknown, never an error. Terminal: afterwards no record
    /// holds `id`.
    fn delete_bridge_table_by_id(&mut self, id: u32) -> (r: Result<
        Option<crate::models::BridgeTable>,
        TableStoreError,
    >)
        requires
            old(self).inv(),
        ensures
            final(self).inv(),
            match r {
                Ok(opt) => match opt {
                    Some(t) => {
                        &&& has_id(old(self).tables(), id)
                        &&& t == old(self).tables()[index_of_id(old(self).tables(), id)]
                        &&& final(self).tables() == old(self).tables().remove(
                            index_of_id(old(self).tables(), id),
                        )
                        &&& !has_id(final(self).tables(), id)
                    },
                    None => {
                        &&& !has_id(old(self).tables(), id)
                        &&& final(self).tables() == old(self).tables()
                    },
                },
                Err(_) => false,
            },
    ;
}

} // verus!
