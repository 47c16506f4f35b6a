//! The query compiler: turns a structured, partially-populated filter into
//! a predicate over persisted rows plus an ordering and a result cap.
//!
//! Each populated filter field contributes one predicate and the predicates
//! are combined conjunctively; absent fields contribute nothing.  The
//! caller's owner scope is always required.

use vstd::prelude::*;

use crate::codec::CatalogObjectRow;
use crate::codec::CatalogObjectRowView;
use crate::models::PriceView;
use crate::service::ListCatalogQueryOptions;
use crate::text::contains_seq;
use crate::text::str_contains;
use crate::text::string_eq;
use crate::text::vec_contains_string;

verus! {

/// Sort direction.
#[derive(Clone, Copy, Debug, PartialEq, Eq)]
pub enum Order {
    Asc,
    Desc,
}

/// A sort column together with its direction.
#[derive(Clone, Copy, Debug, PartialEq, Eq)]
pub struct OrderBy<F> {
    pub field: F,
    pub direction: Order,
}

/// A full list request: optional filter fields, optional ordering and an
/// optional result cap.
#[derive(Debug, PartialEq)]
pub struct Query<Opts, OrdF> {
    pub limit: Option<u16>,
    pub order_by: Option<OrderBy<OrdF>>,
    pub options: Opts,
}

/// The sortable column of a catalog list request, as exposed to callers.
#[derive(Clone, Copy, Debug, PartialEq, Eq)]
pub enum OrderField {
    CreatedAt,
    Price,
}

/// Wire-facing duplicate of the catalog filter fields.
#[derive(Debug, PartialEq, Eq)]
pub struct QueryOptions {
    pub name: Option<String>,
    pub tags: Option<Vec<String>>,
    pub max_price: Option<u64>,
    pub min_price: Option<u64>,
}

impl Default for QueryOptions {
    /// The default filter has no fields set.
    fn default() -> (r: Self)
        ensures
            r.name is None,
            r.tags is None,
            r.max_price is None,
            r.min_price is None,
    {
        QueryOptions { name: None, tags: None, max_price: None, min_price: None }
    }
}

/// Spec-level mirror of the filter fields.
#[verifier::ext_equal]
pub ghost struct ListCatalogQueryOptionsView {
    pub name: Option<Seq<char>>,
    pub tags: Option<Seq<Seq<char>>>,
    pub max_price: Option<u64>,
    pub min_price: Option<u64>,
}

impl View for ListCatalogQueryOptions {
    type V = ListCatalogQueryOptionsView;

    open spec fn view(&self) -> ListCatalogQueryOptionsView {
        ListCatalogQueryOptionsView {
            name: self.name.deep_view(),
            tags: self.tags.deep_view(),
            max_price: self.max_price,
            min_price: self.min_price,
        }
    }
}

/// The integral amount of a price.
pub open spec fn spec_price_amount(p: PriceView) -> u64 {
    match p {
        PriceView::Fixed { amount, .. } => amount,
    }
}

/// The name predicate: a case-sensitive substring match against the name
/// of an item or a variation payload; rows of other kinds never match.
pub open spec fn name_filter_matches(row: CatalogObjectRowView, needle: Seq<char>) -> bool {
    ||| (row.item_data matches Some(it) && contains_seq(it.name, needle))
    ||| (row.item_variation_data matches Some(v) && contains_seq(v.name, needle))
}

/// The tags predicate: the item's tags are a superset of the supplied
/// tags (containment, not exact equality).
pub open spec fn tags_filter_matches(row: CatalogObjectRowView, tags: Seq<Seq<char>>) -> bool {
    row.item_data matches Some(it) && forall|i: int|
        0 <= i < tags.len() ==> it.tags.contains(#[trigger] tags[i])
}

/// The lower price bound: rows without a price field never match.
pub open spec fn min_price_filter_matches(row: CatalogObjectRowView, bound: u64) -> bool {
    row.item_variation_data matches Some(v) && spec_price_amount(v.price) >= bound
}

/// The upper price bound: rows without a price field never match.
pub open spec fn max_price_filter_matches(row: CatalogObjectRowView, bound: u64) -> bool {
    row.item_variation_data matches Some(v) && spec_price_amount(v.price) <= bound
}

/// The full row predicate of a list request: the owner scope and every
/// populated filter field, conjunctively.
pub open spec fn row_matches(
    row: CatalogObjectRowView,
    account: Seq<char>,
    opts: ListCatalogQueryOptionsView,
) -> bool {
    &&& row.account == account
    &&& (opts.name matches Some(n) ==> name_filter_matches(row, n))
    &&& (opts.tags matches Some(ts) ==> tags_filter_matches(row, ts))
    &&& (opts.min_price matches Some(p) ==> min_price_filter_matches(row, p))
    &&& (opts.max_price matches Some(p) ==> max_price_filter_matches(row, p))
}

/// Evaluates the compiled predicate on one row.
pub fn matches_row(row: &CatalogObjectRow, account: &String, opts: &ListCatalogQueryOptions) -> (r:
    bool)
    ensures
        r == row_matches(row@, account@, opts@),
{
    if !string_eq(&row.account, account) {
        return false;
    }
    if let Some(n) = &opts.name {
        let item_hit = match &row.item_data {
            Some(it) => str_contains(it.name.as_str(), n.as_str()),
            None => false,
        };
        let variation_hit = match &row.item_variation_data {
            Some(v) => str_contains(v.name.as_str(), n.as_str()),
            None => false,
        };
        if !item_hit && !variation_hit {
            return false;
        }
    }
    if let Some(ts) = &opts.tags {
        match &row.item_data {
            Some(it) => {
                let mut i: usize = 0;
                while i < ts.len()
                    invariant
                        0 <= i <= ts.len(),
                        row@.item_data matches Some(itv) && itv.tags == it.tags.deep_view(),
                        forall|k: int|
                            0 <= k < i ==> it.tags.deep_view().contains(
                                #[trigger] ts.deep_view()[k],
                            ),
                    decreases ts.len() - i,
                {
                    if !vec_contains_string(&it.tags, &ts[i]) {
                        proof {
                            assert(ts.deep_view()[i as int] == ts@[i as int]@);
                        }
                        return false;
                    }
                    i = i + 1;
                }
            },
            None => {
                return false;
            },
        }
    }
    if let Some(p) = opts.min_price {
        match &row.item_variation_data {
            Some(v) => {
                let amount = match &v.price {
                    crate::models::Price::Fixed { amount, .. } => *amount,
                };
                if amount < p {
                    return false;
                }
            },
            None => {
                return false;
            },
        }
    }
    if let Some(p) = opts.max_price {
        match &row.item_variation_data {
            Some(v) => {
                let amount = match &v.price {
                    crate::models::Price::Fixed { amount, .. } => *amount,
                };
                if amount > p {
                    return false;
                }
            },
            None => {
                return false;
            },
        }
    }
    true
}

/// With no filter fields set, the predicate accepts exactly the rows of
/// the owner, whatever their kind.
pub proof fn lemma_unfiltered_matches_owner(
    row: CatalogObjectRowView,
    account: Seq<char>,
    opts: ListCatalogQueryOptionsView,
)
    requires
        opts.name is None,
        opts.tags is None,
        opts.min_price is None,
        opts.max_price is None,
    ensures
        row_matches(row, account, opts) <==> row.account == account,
{
}

/// With a lower price bound set, only rows carrying a variation payload
/// whose amount reaches the bound are accepted: never a variation priced
/// below the bound, and never an item-only row.
pub proof fn lemma_min_price_bound(
    row: CatalogObjectRowView,
    account: Seq<char>,
    opts: ListCatalogQueryOptionsView,
    bound: u64,
)
    requires
        opts.min_price == Some(bound),
        row_matches(row, account, opts),
    ensures
        row.item_variation_data matches Some(v) && spec_price_amount(v.price) >= bound,
        !(row.item_variation_data is None),
{
}

} // verus!
