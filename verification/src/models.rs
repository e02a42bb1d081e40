//! The entity model: the persisted record shape and its client-supplied
//! input form. Pure data; identifiers are assigned by a store, never by the
//! caller.

use vstd::prelude::*;

verus! {

/// A table record in its persisted form, with its server-assigned identifier.
#[derive(Debug, PartialEq, Eq)]
pub struct BridgeTable {
    pub id: u32,
    pub name: String,
    pub owner: String,
    pub public: bool,
}

/// The input form of a table record: no identifier; a store assigns one,
/// exactly once, at insertion.
#[derive(Debug, PartialEq, Eq)]
pub struct NewBridgeTable {
    pub name: String,
    pub owner: String,
    pub public: bool,
}

/// A record shape kept for the minimal store variant; identical to
/// [`BridgeTable`].
#[derive(Debug, PartialEq, Eq)]
pub struct Table {
    pub id: u32,
    pub name: String,
    pub owner: String,
    pub public: bool,
}

/// The input form matching [`Table`].
#[derive(Debug, PartialEq, Eq)]
pub struct NewTable {
    pub name: String,
    pub owner: String,
    pub public: bool,
}

/// A record that carries a numeric identifier. Lets the store logic and its
/// lemmas be stated once, over any of the record shapes above.
pub trait TableRecord: Sized {
    /// The record's identifier, for use in specifications.
    spec fn spec_id(&self) -> u32;

    /// The record's identifier.
    fn record_id(&self) -> (r: u32)
        ensures
            r == self.spec_id(),
    ;
}

impl TableRecord for BridgeTable {
    open spec fn spec_id(&self) -> u32 {
        self.id
    }

    fn record_id(&self) -> (r: u32) {
        self.id
    }
}

impl TableRecord for Table {
    open spec fn spec_id(&self) -> u32 {
        self.id
    }

    fn record_id(&self) -> (r: u32) {
        self.id
    }
}

impl Clone for BridgeTable {
    fn clone(&self) -> (res: Self)
        ensures
            res == *self,
    {
        BridgeTable {
            id: self.id,
            name: self.name.clone(),
            owner: self.owner.clone(),
            public: self.public,
        }
    }
}

impl Clone for NewBridgeTable {
    fn clone(&self) -> (res: Self)
        ensures
            res == *self,
    {
        NewBridgeTable {
            name: self.name.clone(),
            owner: self.owner.clone(),
            public: self.public,
        }
    }
}

impl Clone for Table {
    fn clone(&self) -> (res: Self)
        ensures
            res == *self,
    {
        Table {
            id: self.id,
            name: self.name.clone(),
            owner: self.owner.clone(),
            public: self.public,
        }
    }
}

impl Clone for NewTable {
    fn clone(&self) -> (res: Self)
        ensures
            res == *self,
    {
        NewTable {
            name: self.name.clone(),
            owner: self.owner.clone(),
            public: self.public,
        }
    }
}

} // verus!
