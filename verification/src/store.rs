//! The catalog store: a single logical table of typed rows with
//! owner-scoped create, read, update, list and command execution.
//!
//! Identifiers and timestamps are assigned by the store: identifiers from a
//! counter (immutable thereafter), creation and version stamps from a
//! logical clock, so creation order and row order coincide.

use vstd::prelude::*;

use crate::codec::row_wf;
use crate::codec::spec_decode;
use crate::codec::spec_encode;
use crate::codec::spec_type_of;
use crate::codec::CatalogObjectRow;
use crate::codec::CatalogObjectRowView;
use crate::codec::CatalogType;
use crate::models::CatalogObject;
use crate::models::CatalogObjectDocument;
use crate::models::CatalogObjectDocumentView;
use crate::models::CatalogObjectView;
use crate::models::ItemVariationView;
use crate::models::Price;
use crate::query::row_matches;
use crate::query::matches_row;
use crate::query::spec_price_amount;
use crate::query::ListCatalogQueryOptionsView;
use crate::query::Order;
use crate::query::Query;
use crate::service::CatalogCmd;
use crate::service::CatalogColumnOrder;
use crate::service::ListCatalogQueryOptions;
use crate::service::CatalogError;
use crate::service::IncreaseItemVariationUnitsPayload;
use crate::text::dec_digits;
use crate::text::string_eq;
use crate::text::u32_to_string;

verus! {

broadcast use vstd::prelude::Seq::lemma_filter_push;

/// Spec-level mirror of the store: the row table, the next free
/// identifier and the logical clock.
#[verifier::ext_equal]
pub ghost struct CatalogView {
    pub rows: Seq<CatalogObjectRowView>,
    pub next_id: u32,
    pub clock: u64,
}

/// The catalog store.
pub struct Catalog {
    rows: Vec<CatalogObjectRow>,
    next_id: u32,
    clock: u64,
}

impl View for Catalog {
    type V = CatalogView;

    closed spec fn view(&self) -> CatalogView {
        CatalogView { rows: self.rows.deep_view(), next_id: self.next_id, clock: self.clock }
    }
}

/// The store invariant: every row is well formed, identifiers are unique
/// and below the next free one, and creation stamps grow strictly with
/// row order and stay below the clock.
pub open spec fn catalog_wf(cv: CatalogView) -> bool {
    &&& 0 < cv.next_id
    &&& forall|i: int| 0 <= i < cv.rows.len() ==> row_wf(#[trigger] cv.rows[i])
    &&& forall|i: int, j: int|
        0 <= i < j < cv.rows.len() ==> cv.rows[i].id != cv.rows[j].id
    &&& forall|i: int| 0 <= i < cv.rows.len() ==> (#[trigger] cv.rows[i]).id < cv.next_id
    &&& forall|i: int| 0 <= i < cv.rows.len() ==> (#[trigger] cv.rows[i]).created_at < cv.clock
    &&& forall|i: int, j: int|
        0 <= i < j < cv.rows.len() ==> cv.rows[i].created_at < cv.rows[j].created_at
}

/// The parent reference carried by an object; absent only for `Item`.
pub open spec fn parent_id_of(obj: CatalogObjectView<u32>) -> Option<u32> {
    match obj {
        CatalogObjectView::Item(_) => None,
        CatalogObjectView::Variation(v) => Some(v.item_id),
        CatalogObjectView::Modification(m) => Some(m.item_id),
        CatalogObjectView::Delivery(d) => Some(d.item_id),
        CatalogObjectView::Control(c) => Some(c.item_id),
    }
}

/// An `Item` row with this identifier exists under the owner's scope.
pub open spec fn spec_has_item(rows: Seq<CatalogObjectRowView>, account: Seq<char>, id: u32) -> bool {
    exists|i: int|
        0 <= i < rows.len() && (#[trigger] rows[i]).id == id && rows[i].account == account
            && rows[i].type_entry == CatalogType::Item
}

/// The object either is an `Item` or declares a parent that resolves to
/// an existing `Item` owned by the same caller.
pub open spec fn parent_ok(
    rows: Seq<CatalogObjectRowView>,
    account: Seq<char>,
    obj: CatalogObjectView<u32>,
) -> bool {
    match parent_id_of(obj) {
        None => true,
        Some(pid) => spec_has_item(rows, account, pid),
    }
}

/// A row with this identifier exists under the owner's scope, of any kind.
pub open spec fn spec_row_exists(
    rows: Seq<CatalogObjectRowView>,
    account: Seq<char>,
    id: u32,
) -> bool {
    exists|i: int|
        0 <= i < rows.len() && (#[trigger] rows[i]).id == id && rows[i].account == account
}

/// The document a stored row is returned as.
pub open spec fn spec_doc_of_row(rv: CatalogObjectRowView) -> CatalogObjectDocumentView<u32>
    recommends
        spec_decode(rv) is Some,
{
    CatalogObjectDocumentView {
        id: rv.id,
        account: rv.account,
        version: rv.version,
        created_at: rv.created_at,
        catalog_object: spec_decode(rv)->Some_0,
    }
}

impl Catalog {
    /// The store invariant, as seen by callers.
    pub open spec fn wf(&self) -> bool {
        catalog_wf(self@)
    }

    /// An empty store: no rows, identifiers start at one, the clock at
    /// zero.
    pub fn new() -> (s: Self)
        ensures
            s.wf(),
            s@.rows.len() == 0,
            s@.next_id == 1,
            s@.clock == 0,
    {
        let s = Catalog { rows: Vec::new(), next_id: 1, clock: 0 };
        proof {
            assert(s@.rows =~= Seq::<CatalogObjectRowView>::empty());
        }
        s
    }

    /// Scans for an `Item` row with the given identifier under the
    /// owner's scope.
    fn has_item(&self, account: &String, id: u32) -> (r: bool)
        ensures
            r == spec_has_item(self@.rows, account@, id),
    {
        let mut i: usize = 0;
        while i < self.rows.len()
            invariant
                0 <= i <= self.rows.len(),
                forall|k: int|
                    0 <= k < i ==> !((#[trigger] self@.rows[k]).id == id && self@.rows[k].account
                        == account@ && self@.rows[k].type_entry == CatalogType::Item),
            decreases self.rows.len() - i,
        {
            let row = &self.rows[i];
            if row.id == id && row.type_entry == CatalogType::Item && string_eq(
                &row.account,
                account,
            ) {
                assert(self@.rows[i as int].id == id);
                return true;
            }
            i = i + 1;
        }
        false
    }

    /// Whether a row with this identifier exists under the owner's scope.
    pub fn entry_exists(&self, account: &String, id: &u32) -> (r: Result<bool, CatalogError>)
        ensures
            r == Ok::<bool, CatalogError>(spec_row_exists(self@.rows, account@, *id)),
    {
        let mut i: usize = 0;
        while i < self.rows.len()
            invariant
                0 <= i <= self.rows.len(),
                forall|k: int|
                    0 <= k < i ==> !((#[trigger] self@.rows[k]).id == *id && self@.rows[k].account
                        == account@),
            decreases self.rows.len() - i,
        {
            let row = &self.rows[i];
            if row.id == *id && string_eq(&row.account, account) {
                assert(self@.rows[i as int].id == *id);
                return Ok(true);
            }
            i = i + 1;
        }
        Ok(false)
    }

    /// Whether the store can accept `additional` more records: creation
    /// needs a fresh identifier and a fresh clock tick for each.
    /// Callers test this before creating.
    pub fn can_store(&self, additional: usize) -> (r: bool)
        ensures
            r == ({
                &&& (self@.next_id as int + additional as int) < (u32::MAX as int)
                &&& (self@.clock as int + additional as int) < (u64::MAX as int)
            }),
    {
        let extra = additional as u128;
        (self.next_id as u128 + extra < u32::MAX as u128) && (self.clock as u128 + extra
            < u64::MAX as u128)
    }

    /// Creates one record.
    ///
    /// An `Item` is always accepted; any other kind is accepted exactly
    /// when its declared parent resolves to an existing `Item` owned by
    /// the caller, and rejected with `CatalogBadRequest` otherwise, never
    /// silently orphaned.  On success the store assigns the identifier
    /// and both stamps, appends the encoded row, and returns the
    /// document.
    pub fn create(&mut self, account: &String, catalog_entry: &CatalogObject<u32>) -> (r: Result<
        CatalogObjectDocument<u32, String>,
        CatalogError,
    >)
        requires
            old(self).wf(),
            old(self)@.next_id < u32::MAX,
            old(self)@.clock < u64::MAX,
        ensures
            final(self).wf(),
            ({
                let cv = old(self)@;
                let obj = catalog_entry@;
                if parent_ok(cv.rows, account@, obj) {
                    &&& r matches Ok(doc) && doc@ == (CatalogObjectDocumentView {
                        id: cv.next_id,
                        account: account@,
                        version: cv.clock,
                        created_at: cv.clock,
                        catalog_object: obj,
                    })
                    &&& final(self)@.rows == cv.rows.push(
                        spec_encode(cv.next_id, account@, cv.clock, cv.clock, obj),
                    )
                    &&& final(self)@.next_id == cv.next_id + 1
                    &&& final(self)@.clock == cv.clock + 1
                } else {
                    &&& r == Err::<CatalogObjectDocument<u32, String>, CatalogError>(
                        CatalogError::CatalogBadRequest,
                    )
                    &&& final(self)@ == cv
                }
            }),
    {
        let parent = match catalog_entry {
            CatalogObject::Item(_) => None,
            CatalogObject::Variation(v) => Some(v.item_id),
            CatalogObject::Modification(m) => Some(m.item_id),
            CatalogObject::Delivery(d) => Some(d.item_id),
            CatalogObject::Control(c) => Some(c.item_id),
        };
        if let Some(pid) = parent {
            if !self.has_item(account, pid) {
                return Err(CatalogError::CatalogBadRequest);
            }
        }
        let id = self.next_id;
        let now = self.clock;
        let row = CatalogObjectRow::encode(id, account.clone(), now, now, catalog_entry.clone());
        self.rows.push(row);
        self.next_id = self.next_id + 1;
        self.clock = self.clock + 1;
        let doc = CatalogObjectDocument {
            id,
            account: account.clone(),
            version: now,
            created_at: now,
            catalog_object: catalog_entry.clone(),
        };
        proof {
            assert(self@.rows =~= old(self)@.rows.push(
                spec_encode(id, account@, now, now, catalog_entry@),
            ));
        }
        Ok(doc)
    }

    /// Reads the record with this identifier under the owner's scope.
    ///
    /// A missing identifier is reported as `CatalogEntryNotFound` carrying
    /// the identifier in decimal, never as a storage error.
    pub fn read(&self, account: &String, id: &u32) -> (r: Result<
        CatalogObjectDocument<u32, String>,
        CatalogError,
    >)
        requires
            self.wf(),
        ensures
            match r {
                Ok(doc) => exists|i: int|
                    0 <= i < self@.rows.len() && (#[trigger] self@.rows[i]).id == *id
                        && self@.rows[i].account == account@ && doc@ == spec_doc_of_row(
                        self@.rows[i],
                    ),
                Err(e) => {
                    &&& !spec_row_exists(self@.rows, account@, *id)
                    &&& e matches CatalogError::CatalogEntryNotFound(s) && s@ == dec_digits(
                        *id as nat,
                    )
                },
            },
    {
        let mut i: usize = 0;
        while i < self.rows.len()
            invariant
                0 <= i <= self.rows.len(),
                forall|k: int|
                    0 <= k < i ==> !((#[trigger] self@.rows[k]).id == *id && self@.rows[k].account
                        == account@),
            decreases self.rows.len() - i,
        {
            let row = &self.rows[i];
            if row.id == *id && string_eq(&row.account, account) {
                match row.to_catalog_entry_document() {
                    Ok(doc) => {
                        assert(self@.rows[i as int].id == *id);
                        return Ok(doc);
                    },
                    Err(e) => {
                        proof {
                            assert(row_wf(self@.rows[i as int]));
                            assert(false);
                        }
                        return Err(e);
                    },
                }
            }
            i = i + 1;
        }
        Err(CatalogError::CatalogEntryNotFound(u32_to_string(*id)))
    }

    /// Replaces the payload of the record with this identifier under the
    /// owner's scope (whole-payload replace).
    ///
    /// The replacement must be of the record's stored kind; a missing or
    /// differently-tagged target is `CatalogEntryNotFound`, a dangling
    /// parent reference `CatalogBadRequest`.  The version stamp advances,
    /// the creation stamp is kept.
    pub fn update(
        &mut self,
        account: &String,
        id: &u32,
        catalog_entry: &CatalogObject<u32>,
    ) -> (r: Result<CatalogObjectDocument<u32, String>, CatalogError>)
        requires
            old(self).wf(),
            old(self)@.clock < u64::MAX,
        ensures
            final(self).wf(),
            ({
                let cv = old(self)@;
                let obj = catalog_entry@;
                let tag = spec_type_of(obj);
                if !parent_ok(cv.rows, account@, obj) {
                    &&& r == Err::<CatalogObjectDocument<u32, String>, CatalogError>(
                        CatalogError::CatalogBadRequest,
                    )
                    &&& final(self)@ == cv
                } else if exists|i: int| is_update_target(cv.rows, account@, *id, tag, i) {
                    &&& r matches Ok(doc) && exists|i: int|
                        {
                            &&& is_update_target(cv.rows, account@, *id, tag, i)
                            &&& final(self)@.rows == cv.rows.update(
                                i,
                                spec_encode(
                                    *id,
                                    account@,
                                    cv.clock,
                                    (#[trigger] cv.rows[i]).created_at,
                                    obj,
                                ),
                            )
                            &&& doc@ == (CatalogObjectDocumentView {
                                id: *id,
                                account: account@,
                                version: cv.clock,
                                created_at: cv.rows[i].created_at,
                                catalog_object: obj,
                            })
                        }
                    &&& final(self)@.next_id == cv.next_id
                    &&& final(self)@.clock == cv.clock + 1
                } else {
                    &&& r matches Err(e) && e matches CatalogError::CatalogEntryNotFound(s) && s@
                        == dec_digits(*id as nat)
                    &&& final(self)@ == cv
                }
            }),
    {
        let parent = match catalog_entry {
            CatalogObject::Item(_) => None,
            CatalogObject::Variation(v) => Some(v.item_id),
            CatalogObject::Modification(m) => Some(m.item_id),
            CatalogObject::Delivery(d) => Some(d.item_id),
            CatalogObject::Control(c) => Some(c.item_id),
        };
        if let Some(pid) = parent {
            if !self.has_item(account, pid) {
                return Err(CatalogError::CatalogBadRequest);
            }
        }
        let tag = crate::codec::type_of(catalog_entry);
        let mut i: usize = 0;
        while i < self.rows.len()
            invariant
                self@ == old(self)@,
                0 <= i <= self.rows.len(),
                forall|k: int| 0 <= k < i ==> !is_update_target(self@.rows, account@, *id, tag, k),
            decreases self.rows.len() - i,
        {
            let hit = {
                let row = &self.rows[i];
                row.id == *id && row.type_entry == tag && string_eq(&row.account, account)
            };
            if hit {
                let now = self.clock;
                let created = self.rows[i].created_at;
                let new_row = CatalogObjectRow::encode(
                    *id,
                    account.clone(),
                    now,
                    created,
                    catalog_entry.clone(),
                );
                let _ = self.rows.remove(i);
                self.rows.insert(i, new_row);
                self.clock = now + 1;
                proof {
                    assert(is_update_target(old(self)@.rows, account@, *id, tag, i as int));
                    assert(self@.rows =~= old(self)@.rows.update(
                        i as int,
                        spec_encode(*id, account@, now, created, catalog_entry@),
                    ));
                }
                return Ok(
                    CatalogObjectDocument {
                        id: *id,
                        account: account.clone(),
                        version: now,
                        created_at: created,
                        catalog_object: catalog_entry.clone(),
                    },
                );
            }
            i = i + 1;
        }
        Err(CatalogError::CatalogEntryNotFound(u32_to_string(*id)))
    }

    /// Executes one named command as a single conditional read-modify-write.
    ///
    /// `IncreaseItemVariationUnits` adds the (possibly negative) delta to
    /// the available units of the variation row scoped to `(id, owner)`;
    /// the delta is not clamped at zero.  A missing target leaves the
    /// store unchanged; either way the command reports success.
    pub fn cmd(&mut self, account: &String, command: CatalogCmd<u32>) -> (r: Result<
        (),
        CatalogError,
    >)
        requires
            old(self).wf(),
        ensures
            final(self).wf(),
            r == Ok::<(), CatalogError>(()),
            match command {
                CatalogCmd::IncreaseItemVariationUnits(p) => final(self)@.rows
                    == spec_apply_increase(old(self)@.rows, account@, p.id, p.units),
            },
            final(self)@.next_id == old(self)@.next_id,
            final(self)@.clock == old(self)@.clock,
    {
        match command {
            CatalogCmd::IncreaseItemVariationUnits(payload) => {
                self.increase_item_variation_units(account, &payload);
                Ok(())
            },
        }
    }

    /// The conditional update behind `IncreaseItemVariationUnits`.
    fn increase_item_variation_units(
        &mut self,
        account: &String,
        options: &IncreaseItemVariationUnitsPayload<u32>,
    )
        requires
            old(self).wf(),
        ensures
            final(self).wf(),
            final(self)@.rows == spec_apply_increase(
                old(self)@.rows,
                account@,
                options.id,
                options.units,
            ),
            final(self)@.next_id == old(self)@.next_id,
            final(self)@.clock == old(self)@.clock,
    {
        let mut i: usize = 0;
        while i < self.rows.len()
            invariant
                self@ == old(self)@,
                0 <= i <= self.rows.len(),
                forall|k: int|
                    0 <= k < i ==> !is_unit_target(self@.rows, account@, options.id, k),
            decreases self.rows.len() - i,
        {
            let hit = {
                let row = &self.rows[i];
                row.id == options.id && row.item_variation_data.is_some() && string_eq(
                    &row.account,
                    account,
                )
            };
            if hit {
                let mut row = self.rows.remove(i);
                let variation = match row.item_variation_data {
                    Some(mut v) => {
                        v.available_units = v.available_units.wrapping_add(options.units);
                        Some(v)
                    },
                    None => None,
                };
                row.item_variation_data = variation;
                self.rows.insert(i, row);
                proof {
                    let rows0 = old(self)@.rows;
                    assert(is_unit_target(rows0, account@, options.id, i as int));
                    let j = choose|j: int| is_unit_target(rows0, account@, options.id, j);
                    assert(rows0[j].id == rows0[i as int].id);
                    assert(j == i as int);
                    assert(self@.rows =~= spec_apply_increase(
                        rows0,
                        account@,
                        options.id,
                        options.units,
                    ));
                }
                return ;
            }
            i = i + 1;
        }
    }

    /// Lists the caller's records that match every populated filter
    /// field, ordered as requested and capped by the limit.
    ///
    /// An empty result is not an error.  Without `order_by` the rows come
    /// in stored (creation) order; with it they are sorted by the
    /// requested column, ties in unspecified order.
    pub fn list(
        &self,
        account: &String,
        query: &Query<ListCatalogQueryOptions, CatalogColumnOrder>,
    ) -> (r: Result<Vec<CatalogObjectDocument<u32, String>>, CatalogError>)
        requires
            self.wf(),
        ensures
            ({
                let base = spec_matching_rows(self@.rows, account@, query.options@).map_values(
                    |rv: CatalogObjectRowView| spec_doc_of_row(rv),
                );
                let lim = spec_limit(query.limit, base.len() as int);
                &&& r matches Ok(docs)
                &&& docs.deep_view().len() == lim
                &&& forall|i: int|
                    0 <= i < lim ==> base.contains(#[trigger] docs.deep_view()[i])
                &&& (query.order_by is None ==> docs.deep_view() == base.take(lim))
                &&& (query.order_by matches Some(ob) ==> sorted_by_key(
                    ob.field,
                    ob.direction,
                    docs.deep_view(),
                ) && docs.deep_view().to_multiset().subset_of(base.to_multiset()) && (
                query.limit is None ==> docs.deep_view().to_multiset() == base.to_multiset())
                    && (exists|whole: Seq<CatalogObjectDocumentView<u32>>|
                    {
                        &&& #[trigger] sorted_by_key(ob.field, ob.direction, whole)
                        &&& whole.to_multiset() == base.to_multiset()
                        &&& docs.deep_view() == whole.take(lim)
                    }))
            }),
    {
        let ghost accv = account@;
        let ghost opts = query.options@;
        let ghost base_rows = spec_matching_rows(self@.rows, accv, opts);
        let ghost base = base_rows.map_values(|rv: CatalogObjectRowView| spec_doc_of_row(rv));
        let mut docs: Vec<CatalogObjectDocument<u32, String>> = Vec::new();
        let mut i: usize = 0;
        while i < self.rows.len()
            invariant
                0 <= i <= self.rows.len(),
                docs.deep_view() == spec_matching_rows(self@.rows.take(i as int), accv, opts)
                    .map_values(|rv: CatalogObjectRowView| spec_doc_of_row(rv)),
            decreases self.rows.len() - i,
        {
            let ghost prefix = self@.rows.take(i as int);
            let row = &self.rows[i];
            if matches_row(row, account, &query.options) {
                match row.to_catalog_entry_document() {
                    Ok(d) => {
                        let ghost pre_docs = docs.deep_view();
                        proof {
                            assert(d.deep_view() =~= spec_doc_of_row(self@.rows[i as int]));
                        }
                        docs.push(d);
                        proof {
                            assert(docs.deep_view() =~= pre_docs.push(d.deep_view()));
                        }
                    },
                    Err(_) => {
                        proof {
                            assert(row_wf(self@.rows[i as int]));
                            assert(false);
                        }
                    },
                }
            }
            proof {
                assert(self@.rows.take(i + 1) =~= prefix.push(self@.rows[i as int]));
                assert(spec_matching_rows(prefix.push(self@.rows[i as int]), accv, opts)
                    .map_values(|rv: CatalogObjectRowView| spec_doc_of_row(rv)) =~= docs.deep_view());
            }
            i = i + 1;
        }
        proof {
            assert(self@.rows.take(self@.rows.len() as int) =~= self@.rows);
        }
        let mut docs = docs;
        if let Some(ob) = query.order_by {
            match ob.field {
                CatalogColumnOrder::CreatedAt => {
                    proof {
                        lemma_matching_rows_created_at_sorted(self@.rows, accv, opts);
                    }
                    if matches!(ob.direction, Order::Desc) {
                        docs = reverse_docs(docs);
                        proof {
                            base.lemma_reverse_to_multiset();
                        }
                    }
                },
                CatalogColumnOrder::Price => {
                    docs = sort_docs_by_key(CatalogColumnOrder::Price, docs);
                    if matches!(ob.direction, Order::Desc) {
                        let ghost sorted = docs.deep_view();
                        docs = reverse_docs(docs);
                        proof {
                            sorted.lemma_reverse_to_multiset();
                        }
                    }
                },
            }
        }
        let ghost full = docs.deep_view();
        if let Some(l) = query.limit {
            let l = l as usize;
            if l < docs.len() {
                docs.truncate(l);
            }
        }
        proof {
            broadcast use vstd::seq_lib::group_to_multiset_ensures;
            broadcast use vstd::multiset::group_multiset_axioms;

            assert(full.len() == base.len());
            if let Some(ob) = query.order_by {
                assert(full.to_multiset() == base.to_multiset());
                let l = docs.deep_view().len() as int;
                assert(full =~= full.take(l) + full.skip(l));
                vstd::seq_lib::lemma_multiset_commutative(full.take(l), full.skip(l));
                assert(full.take(l).to_multiset().subset_of(full.to_multiset()));
                assert(sorted_by_key(ob.field, ob.direction, full));
            }
            assert(docs.deep_view() =~= full.take(docs.deep_view().len() as int));
            assert(docs.deep_view().len() == spec_limit(query.limit, base.len() as int));
            assert forall|k: int| 0 <= k < docs.deep_view().len() implies base.contains(
                #[trigger] docs.deep_view()[k],
            ) by {
                assert(docs.deep_view()[k] == full[k]);
                if query.order_by is None {
                    assert(full == base);
                    assert(base.contains(base[k]));
                } else {
                    assert(full.contains(full[k]));
                    assert(full.to_multiset() == base.to_multiset());
                    assert(base.to_multiset().count(full[k]) > 0);
                }
            }
        }
        Ok(docs)
    }
}

/// The number of documents a list request returns: the matching count,
/// capped by the limit when one is set.
pub open spec fn spec_limit(limit: Option<u16>, available: int) -> int {
    match limit {
        Some(l) => if l as int <= available {
            l as int
        } else {
            available
        },
        None => available,
    }
}

/// The matching rows of a well-formed table keep their strictly
/// increasing creation stamps.
proof fn lemma_matching_rows_created_at_sorted(
    rows: Seq<CatalogObjectRowView>,
    account: Seq<char>,
    opts: ListCatalogQueryOptionsView,
)
    requires
        forall|i: int, j: int|
            0 <= i < j < rows.len() ==> rows[i].created_at < rows[j].created_at,
    ensures
        ({
            let f = spec_matching_rows(rows, account, opts);
            forall|i: int, j: int| 0 <= i < j < f.len() ==> f[i].created_at < f[j].created_at
        }),
    decreases rows.len(),
{
    let pred = |rv: CatalogObjectRowView| row_matches(rv, account, opts);
    let f = rows.filter(pred);
    if rows.len() == 0 {
        assert(f =~= Seq::<CatalogObjectRowView>::empty()) by {
            reveal(Seq::filter);
        }
    } else {
        let prefix = rows.drop_last();
        let last = rows.last();
        lemma_matching_rows_created_at_sorted(prefix, account, opts);
        let fp = prefix.filter(pred);
        assert(f == if pred(last) {
            fp.push(last)
        } else {
            fp
        }) by {
            reveal(Seq::filter);
        }
        assert forall|k: int| 0 <= k < fp.len() implies fp[k].created_at < last.created_at by {
            assert(fp.contains(fp[k]));
            prefix.lemma_filter_contains_rev(pred, fp[k]);
            let idx = choose|idx: int| 0 <= idx < prefix.len() && prefix[idx] == fp[k];
            assert(rows[idx] == fp[k]);
            assert(rows[idx].created_at < rows[rows.len() - 1].created_at);
        }
    }
}

/// The key a list request orders documents by, on the executable side.
fn doc_key(field: CatalogColumnOrder, d: &CatalogObjectDocument<u32, String>) -> (k: u64)
    ensures
        k == spec_doc_key(field, d.deep_view()),
{
    match field {
        CatalogColumnOrder::CreatedAt => d.created_at,
        CatalogColumnOrder::Price => match &d.catalog_object {
            CatalogObject::Variation(v) => match &v.price {
                Price::Fixed { amount, .. } => *amount,
            },
            _ => 0,
        },
    }
}

/// Reverses a document vector.
fn reverse_docs(v: Vec<CatalogObjectDocument<u32, String>>) -> (r: Vec<
    CatalogObjectDocument<u32, String>,
>)
    ensures
        r.deep_view() == v.deep_view().reverse(),
{
    let ghost v0 = v.deep_view();
    let mut v = v;
    let mut r: Vec<CatalogObjectDocument<u32, String>> = Vec::new();
    while v.len() > 0
        invariant
            r.deep_view().len() + v.deep_view().len() == v0.len(),
            v.deep_view() == v0.take(v.deep_view().len() as int),
            forall|k: int|
                0 <= k < r.deep_view().len() ==> r.deep_view()[k] == v0[v0.len() - 1 - k],
        decreases v.len(),
    {
        let ghost pre = v.deep_view();
        let ghost pre_r = r.deep_view();
        let d = match v.pop() {
            Some(d) => d,
            None => {
                proof {
                    assert(false);
                }
                continue ;
            },
        };
        proof {
            assert(v.deep_view() =~= pre.drop_last());
            assert(d.deep_view() == pre.last());
            assert(v.deep_view() =~= v0.take(v.deep_view().len() as int));
        }
        r.push(d);
        proof {
            assert(r.deep_view() =~= pre_r.push(d.deep_view()));
        }
    }
    proof {
        assert(r.deep_view() =~= v0.reverse());
    }
    r
}

/// Sorts documents ascending by the given key column, by repeated
/// extraction of a minimal element; ties keep an unspecified order.
fn sort_docs_by_key(field: CatalogColumnOrder, v: Vec<CatalogObjectDocument<u32, String>>) -> (r:
    Vec<CatalogObjectDocument<u32, String>>)
    ensures
        sorted_by_key(field, Order::Asc, r.deep_view()),
        r.deep_view().to_multiset() == v.deep_view().to_multiset(),
        r.deep_view().len() == v.deep_view().len(),
{
    broadcast use vstd::seq_lib::group_to_multiset_ensures;

    let ghost v0 = v.deep_view();
    let mut input = v;
    let mut out: Vec<CatalogObjectDocument<u32, String>> = Vec::new();
    while input.len() > 0
        invariant
            out.deep_view().len() + input.deep_view().len() == v0.len(),
            out.deep_view().to_multiset().add(input.deep_view().to_multiset())
                == v0.to_multiset(),
            sorted_by_key(field, Order::Asc, out.deep_view()),
            forall|a: int, b: int|
                #![trigger out.deep_view()[a], input.deep_view()[b]]
                0 <= a < out.deep_view().len() && 0 <= b < input.deep_view().len()
                    ==> spec_doc_key(field, out.deep_view()[a]) <= spec_doc_key(
                    field,
                    input.deep_view()[b],
                ),
        decreases input.len(),
    {
        let mut m: usize = 0;
        let mut j: usize = 1;
        while j < input.len()
            invariant
                0 <= m < j <= input.len(),
                forall|k: int|
                    0 <= k < j ==> spec_doc_key(field, input.deep_view()[m as int])
                        <= spec_doc_key(field, #[trigger] input.deep_view()[k]),
            decreases input.len() - j,
        {
            if doc_key(field, &input[j]) < doc_key(field, &input[m]) {
                m = j;
            }
            j = j + 1;
        }
        let ghost pre = input.deep_view();
        let ghost pre_out = out.deep_view();
        let d = input.remove(m);
        proof {
            assert(d.deep_view() == pre[m as int]);
            assert(input.deep_view() =~= pre.remove(m as int));
            assert(pre.remove(m as int).to_multiset() =~= pre.to_multiset().remove(
                pre[m as int],
            ));
            assert forall|b: int| 0 <= b < input.deep_view().len() implies spec_doc_key(
                field,
                d.deep_view(),
            ) <= spec_doc_key(field, #[trigger] input.deep_view()[b]) by {
                if b < m {
                    assert(input.deep_view()[b] == pre[b]);
                } else {
                    assert(input.deep_view()[b] == pre[b + 1]);
                }
            }
        }
        out.push(d);
        proof {
            assert(out.deep_view() =~= pre_out.push(d.deep_view()));
            assert(out.deep_view().to_multiset() =~= pre_out.to_multiset().insert(
                d.deep_view(),
            ));
            assert(out.deep_view().to_multiset().add(input.deep_view().to_multiset())
                =~= v0.to_multiset());
        }
    }
    proof {
        assert(out.deep_view().to_multiset() =~= v0.to_multiset());
    }
    out
}

/// The rows of the table that a list request selects, in stored order.
pub open spec fn spec_matching_rows(
    rows: Seq<CatalogObjectRowView>,
    account: Seq<char>,
    opts: ListCatalogQueryOptionsView,
) -> Seq<CatalogObjectRowView> {
    rows.filter(|rv: CatalogObjectRowView| row_matches(rv, account, opts))
}

/// A list request with no filter fields set selects every row owned by
/// the caller, and nothing else: the selection equals the table filtered
/// by owner alone.
pub proof fn lemma_unfiltered_list_selects_owner_rows(
    rows: Seq<CatalogObjectRowView>,
    account: Seq<char>,
    opts: ListCatalogQueryOptionsView,
)
    requires
        opts.name is None,
        opts.tags is None,
        opts.min_price is None,
        opts.max_price is None,
    ensures
        spec_matching_rows(rows, account, opts) == rows.filter(
            |rv: CatalogObjectRowView| rv.account == account,
        ),
    decreases rows.len(),
{
    reveal(Seq::filter);
    if rows.len() > 0 {
        lemma_unfiltered_list_selects_owner_rows(rows.drop_last(), account, opts);
    }
}

/// A list request with a lower price bound never selects a variation
/// priced below the bound, and never selects a row without a price
/// (such as an item-only row).
pub proof fn lemma_min_price_screens_rows(
    rows: Seq<CatalogObjectRowView>,
    account: Seq<char>,
    opts: ListCatalogQueryOptionsView,
    bound: u64,
    i: int,
)
    requires
        opts.min_price == Some(bound),
        0 <= i < spec_matching_rows(rows, account, opts).len(),
    ensures
        spec_matching_rows(rows, account, opts)[i].item_variation_data matches Some(v)
            && spec_price_amount(v.price) >= bound,
{
    let pred = |rv: CatalogObjectRowView| row_matches(rv, account, opts);
    rows.lemma_filter_pred(pred, i);
}

/// On a well-formed table, a list request with a lower price bound
/// returns only variation documents priced at or above the bound: never
/// a variation priced below it, and never an item-only document.
pub proof fn lemma_min_price_screens_documents(
    rows: Seq<CatalogObjectRowView>,
    account: Seq<char>,
    opts: ListCatalogQueryOptionsView,
    bound: u64,
    i: int,
)
    requires
        forall|k: int| 0 <= k < rows.len() ==> row_wf(#[trigger] rows[k]),
        opts.min_price == Some(bound),
        0 <= i < spec_matching_rows(rows, account, opts).len(),
    ensures
        ({
            let docs = spec_matching_rows(rows, account, opts).map_values(
                |rv: CatalogObjectRowView| spec_doc_of_row(rv),
            );
            docs[i].catalog_object matches CatalogObjectView::Variation(v) && spec_price_amount(
                v.price,
            ) >= bound
        }),
{
    let pred = |rv: CatalogObjectRowView| row_matches(rv, account, opts);
    let f = rows.filter(pred);
    rows.lemma_filter_pred(pred, i);
    assert(f.contains(f[i]));
    rows.lemma_filter_contains_rev(pred, f[i]);
    let k = choose|k: int| 0 <= k < rows.len() && rows[k] == f[i];
    assert(row_wf(rows[k]));
}

/// The key a list request orders documents by; a document without a
/// price sorts as zero under the price column.
pub open spec fn spec_doc_key(field: CatalogColumnOrder, d: CatalogObjectDocumentView<u32>) -> u64 {
    match field {
        CatalogColumnOrder::CreatedAt => d.created_at,
        CatalogColumnOrder::Price => match d.catalog_object {
            CatalogObjectView::Variation(v) => spec_price_amount(v.price),
            _ => 0,
        },
    }
}

/// Key order under a sort direction.
pub open spec fn key_le(direction: Order, a: u64, b: u64) -> bool {
    match direction {
        Order::Asc => a <= b,
        Order::Desc => b <= a,
    }
}

/// The documents are ordered by the requested column and direction.
pub open spec fn sorted_by_key(
    field: CatalogColumnOrder,
    direction: Order,
    docs: Seq<CatalogObjectDocumentView<u32>>,
) -> bool {
    forall|i: int, j: int|
        0 <= i < j < docs.len() ==> key_le(
            direction,
            spec_doc_key(field, #[trigger] docs[i]),
            spec_doc_key(field, #[trigger] docs[j]),
        )
}

/// A row that `update` may replace: same identifier, same owner, same kind.
pub open spec fn is_update_target(
    rows: Seq<CatalogObjectRowView>,
    account: Seq<char>,
    id: u32,
    tag: CatalogType,
    i: int,
) -> bool {
    &&& 0 <= i < rows.len()
    &&& (#[trigger] rows[i]).id == id
    &&& rows[i].account == account
    &&& rows[i].type_entry == tag
}

/// A row that the unit-adjustment command targets: same identifier, same
/// owner, carrying a variation payload.
pub open spec fn is_unit_target(
    rows: Seq<CatalogObjectRowView>,
    account: Seq<char>,
    id: u32,
    i: int,
) -> bool {
    &&& 0 <= i < rows.len()
    &&& (#[trigger] rows[i]).id == id
    &&& rows[i].account == account
    &&& rows[i].item_variation_data is Some
}

/// The row after the delta is applied to its available units, with
/// two's-complement wrap-around.
pub open spec fn spec_bump_units(rv: CatalogObjectRowView, units: i32) -> CatalogObjectRowView {
    let v = rv.item_variation_data->Some_0;
    CatalogObjectRowView {
        item_variation_data: Some(
            ItemVariationView {
                available_units: vstd::wrapping::i32_specs::wrapping_add(
                    v.available_units,
                    units,
                ),
                ..v
            },
        ),
        ..rv
    }
}

/// The table after `IncreaseItemVariationUnits(id, units)` under the
/// owner's scope: the targeted variation row with its units adjusted, or
/// the table unchanged when no row is targeted.
pub open spec fn spec_apply_increase(
    rows: Seq<CatalogObjectRowView>,
    account: Seq<char>,
    id: u32,
    units: i32,
) -> Seq<CatalogObjectRowView> {
    if exists|i: int| is_unit_target(rows, account, id, i) {
        let i = choose|i: int| is_unit_target(rows, account, id, i);
        rows.update(i, spec_bump_units(rows[i], units))
    } else {
        rows
    }
}

/// Identifiers are pairwise distinct.
pub open spec fn ids_unique(rows: Seq<CatalogObjectRowView>) -> bool {
    forall|i: int, j: int| 0 <= i < j < rows.len() ==> rows[i].id != rows[j].id
}

/// Adjusting by a delta and then by its negation restores the table:
/// `IncreaseItemVariationUnits(id, d)` followed by
/// `IncreaseItemVariationUnits(id, -d)` returns the available units to
/// their original value.
pub proof fn lemma_units_round_trip(
    rows: Seq<CatalogObjectRowView>,
    account: Seq<char>,
    id: u32,
    units: i32,
)
    requires
        ids_unique(rows),
        units != i32::MIN,
    ensures
        spec_apply_increase(
            spec_apply_increase(rows, account, id, units),
            account,
            id,
            (-(units as int)) as i32,
        ) == rows,
{
    let neg = (-(units as int)) as i32;
    if exists|i: int| is_unit_target(rows, account, id, i) {
        let i = choose|i: int| is_unit_target(rows, account, id, i);
        let rows1 = rows.update(i, spec_bump_units(rows[i], units));
        assert(is_unit_target(rows1, account, id, i));
        let j = choose|j: int| is_unit_target(rows1, account, id, j);
        assert(rows1[j].id == rows1[i].id);
        assert(j == i);
        assert(spec_bump_units(spec_bump_units(rows[i], units), neg) =~= rows[i]);
        assert(spec_apply_increase(spec_apply_increase(rows, account, id, units), account, id, neg)
            =~= rows);
    } else {
        assert(spec_apply_increase(rows, account, id, units) == rows);
    }
}

/// Two successive adjustments accumulate: applying `d1` and then `d2`
/// adjusts the units by the (wrap-around) sum of the deltas.
pub proof fn lemma_units_accumulate(
    rows: Seq<CatalogObjectRowView>,
    account: Seq<char>,
    id: u32,
    d1: i32,
    d2: i32,
)
    requires
        ids_unique(rows),
    ensures
        spec_apply_increase(spec_apply_increase(rows, account, id, d1), account, id, d2)
            == spec_apply_increase(
            rows,
            account,
            id,
            vstd::wrapping::i32_specs::wrapping_add(d1, d2),
        ),
{
    let sum = vstd::wrapping::i32_specs::wrapping_add(d1, d2);
    if exists|i: int| is_unit_target(rows, account, id, i) {
        let i = choose|i: int| is_unit_target(rows, account, id, i);
        let rows1 = rows.update(i, spec_bump_units(rows[i], d1));
        assert(is_unit_target(rows1, account, id, i));
        let j = choose|j: int| is_unit_target(rows1, account, id, j);
        assert(rows1[j].id == rows1[i].id);
        assert(j == i);
        assert(spec_bump_units(spec_bump_units(rows[i], d1), d2) =~= spec_bump_units(
            rows[i],
            sum,
        ));
        assert(spec_apply_increase(spec_apply_increase(rows, account, id, d1), account, id, d2)
            =~= spec_apply_increase(rows, account, id, sum));
    } else {
        assert(spec_apply_increase(rows, account, id, d1) == rows);
    }
}

} // verus!
