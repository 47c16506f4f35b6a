//! Service-level request and error types of the catalog engine.

use vstd::prelude::*;

verus! {

/// The error taxonomy of the engine.
///
/// `StorageError` marks a transport or transaction failure (retryable);
/// `MappingError` a tag/payload mismatch (data corruption); the remaining
/// variants are business errors.
#[derive(Debug, PartialEq, Eq)]
pub enum CatalogError {
    StorageError,
    CatalogEntryNotFound(String),
    CatalogBadRequest,
    MappingError,
    BulkReferenceNotExist(String),
}

/// Payload of the unit-adjustment command; `units` may be negative.
#[derive(Debug, PartialEq, Eq)]
pub struct IncreaseItemVariationUnitsPayload<Id> {
    pub id: Id,
    pub units: i32,
}

/// A named, field-level atomic mutation.
#[derive(Debug, PartialEq, Eq)]
pub enum CatalogCmd<Id> {
    IncreaseItemVariationUnits(IncreaseItemVariationUnitsPayload<Id>),
}

/// The optional filter fields of a `list` request; absent fields
/// contribute no predicate.
#[derive(Debug, PartialEq, Eq)]
pub struct ListCatalogQueryOptions {
    pub name: Option<String>,
    pub tags: Option<Vec<String>>,
    pub max_price: Option<u64>,
    pub min_price: Option<u64>,
}

/// The column a `list` request may order by.
#[derive(Clone, Copy, Debug, PartialEq, Eq)]
pub enum CatalogColumnOrder {
    CreatedAt,
    Price,
}

impl Default for ListCatalogQueryOptions {
    /// The default filter has no fields set.
    fn default() -> (r: Self)
        ensures
            r.name is None,
            r.tags is None,
            r.max_price is None,
            r.min_price is None,
    {
        ListCatalogQueryOptions { name: None, tags: None, max_price: None, min_price: None }
    }
}

impl ListCatalogQueryOptions {
    /// A filter with no fields set: every row of the owner matches.
    pub fn unfiltered() -> (r: Self)
        ensures
            r.name is None,
            r.tags is None,
            r.max_price is None,
            r.min_price is None,
    {
        ListCatalogQueryOptions { name: None, tags: None, max_price: None, min_price: None }
    }
}

} // verus!
