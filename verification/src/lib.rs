//! Verified core of a polymorphic catalog storage engine.
//!
//! A single logical table holds heterogeneous product records (items,
//! variations, modifications, delivery specs and control templates)
//! discriminated by a type tag.  The library provides the catalog object
//! model, the row codec, the query filter, the bulk-reference resolver and
//! the atomic unit-adjustment command, all with machine-checked contracts.
#![verifier::loop_isolation(false)]

pub mod bulk;
pub mod codec;
pub mod files;
pub mod models;
pub mod query;
pub mod service;
pub mod store;
pub mod text;
