//! A small resource-management library: CRUD over a single record type
//! ("table"), behind a swappable storage abstraction.
//!
//! The heart of the crate is the [`table_store::TableStore`] capability trait
//! with two verified backends: an in-memory store that draws random
//! identifiers and checks them for collisions, and a model of a relational
//! backend with an auto-increment key, a public-only listing capped at five
//! rows, and read-back-after-write semantics. The [`tables`] module maps
//! store outcomes to HTTP status codes; [`simple_store`] is a minimal,
//! self-contained variant of the in-memory store.
//!
//! One identifier policy holds throughout: identifiers are numeric (`u32`),
//! assigned exactly once at insertion, unique across all live records of a
//! store instance, and immutable thereafter.

pub mod models;
pub mod simple_store;
pub mod table_store;
pub mod tables;
