//! The bulk reference resolver: rewrites caller-supplied aliases to
//! durable identifiers.
//!
//! A batch element may supply an explicit alias; one that does not is
//! implicitly aliased by its position.  Parent references and matrix
//! combination targets are aliases of other batch elements; resolution
//! replaces each by the identifier assigned when that element was
//! persisted.

use vstd::prelude::*;

use crate::codec::spec_encode;
use crate::store::parent_ok;
use crate::store::spec_has_item;
use crate::models::CatalogObject;
use crate::models::CatalogObjectBulkDocument;
use crate::models::CatalogObjectBulkDocumentView;
use crate::models::CatalogObjectDocument;
use crate::models::CatalogObjectView;
use crate::models::Combination;
use crate::models::CombinationView;
use crate::models::Control;
use crate::models::ControlView;
use crate::models::ItemControl;
use crate::models::ItemControlView;
use crate::models::ItemDelivery;
use crate::models::ItemDeliveryView;
use crate::models::ItemModification;
use crate::models::ItemModificationView;
use crate::models::ItemVariation;
use crate::models::ItemVariationView;
use crate::models::MatrixControl;
use crate::models::MatrixControlView;
use crate::service::CatalogError;
use crate::text::dec_digits;
use crate::text::string_eq;
use crate::text::u32_to_string;

verus! {

/// One assignment of a durable identifier to an alias.
#[derive(Debug, PartialEq, Eq)]
pub struct AliasBinding {
    pub alias: String,
    pub id: u32,
}

/// Spec-level mirror of an alias binding.
#[verifier::ext_equal]
pub ghost struct AliasBindingView {
    pub alias: Seq<char>,
    pub id: u32,
}

impl View for AliasBinding {
    type V = AliasBindingView;

    open spec fn view(&self) -> AliasBindingView {
        AliasBindingView { alias: self.alias@, id: self.id }
    }
}

impl DeepView for AliasBinding {
    type V = AliasBindingView;

    open spec fn deep_view(&self) -> AliasBindingView {
        self.view()
    }
}

/// The identifier bound to `key`, by first match.
pub open spec fn spec_lookup(m: Seq<AliasBindingView>, key: Seq<char>) -> Option<u32>
    decreases m.len(),
{
    if m.len() == 0 {
        None
    } else if m.first().alias == key {
        Some(m.first().id)
    } else {
        spec_lookup(m.drop_first(), key)
    }
}

proof fn lemma_lookup_at(m: Seq<AliasBindingView>, key: Seq<char>, i: int)
    requires
        0 <= i < m.len(),
        m[i].alias == key,
        forall|k: int| 0 <= k < i ==> (#[trigger] m[k]).alias != key,
    ensures
        spec_lookup(m, key) == Some(m[i].id),
    decreases i,
{
    if i == 0 {
    } else {
        lemma_lookup_at(m.drop_first(), key, i - 1);
    }
}

proof fn lemma_lookup_none(m: Seq<AliasBindingView>, key: Seq<char>)
    requires
        forall|k: int| 0 <= k < m.len() ==> (#[trigger] m[k]).alias != key,
    ensures
        spec_lookup(m, key) is None,
    decreases m.len(),
{
    if m.len() > 0 {
        lemma_lookup_none(m.drop_first(), key);
    }
}

/// Looks an alias up in the bindings accumulated so far.
fn lookup(m: &Vec<AliasBinding>, key: &String) -> (r: Option<u32>)
    ensures
        r == spec_lookup(m.deep_view(), key@),
{
    let mut i: usize = 0;
    while i < m.len()
        invariant
            0 <= i <= m.len(),
            forall|k: int| 0 <= k < i ==> (#[trigger] m.deep_view()[k]).alias != key@,
        decreases m.len() - i,
    {
        if string_eq(&m[i].alias, key) {
            proof {
                lemma_lookup_at(m.deep_view(), key@, i as int);
            }
            return Some(m[i].id);
        }
        i = i + 1;
    }
    proof {
        lemma_lookup_none(m.deep_view(), key@);
    }
    None
}

/// The positional alias of the batch element at `index`.
pub open spec fn spec_index_alias(index: u32) -> Seq<char> {
    "#"@ + dec_digits(index as nat) + "-index"@
}

/// Renders the positional alias of the batch element at `index`.
pub fn make_id_by_index(index: u32) -> (r: String)
    ensures
        r@ == spec_index_alias(index),
{
    let mut s = "#".to_owned();
    let digits = u32_to_string(index);
    s.append(digits.as_str());
    s.append("-index");
    s
}

/// The aliases an object references: its parent and, for a matrix
/// control, every combination target.
pub open spec fn spec_refs(obj: CatalogObjectView<Seq<char>>) -> Seq<Seq<char>> {
    match obj {
        CatalogObjectView::Item(_) => Seq::empty(),
        CatalogObjectView::Variation(v) => seq![v.item_id],
        CatalogObjectView::Modification(m) => seq![m.item_id],
        CatalogObjectView::Delivery(d) => seq![d.item_id],
        CatalogObjectView::Control(c) => seq![c.item_id] + (match c.control {
            ControlView::Matrix(m) => m.combinations.map_values(
                |cb: CombinationView<Seq<char>>| cb.target,
            ),
            ControlView::Form(_) => Seq::empty(),
        }),
    }
}

/// Every alias the object references is bound.
pub open spec fn all_refs_resolve(
    m: Seq<AliasBindingView>,
    obj: CatalogObjectView<Seq<char>>,
) -> bool {
    forall|i: int| 0 <= i < spec_refs(obj).len() ==> spec_lookup(m, #[trigger] spec_refs(obj)[i]) is Some
}

/// The combination cells with their targets rewritten to identifiers.
pub open spec fn spec_rewrite_combos(
    m: Seq<AliasBindingView>,
    cbs: Seq<CombinationView<Seq<char>>>,
) -> Seq<CombinationView<u32>> {
    cbs.map_values(
        |cb: CombinationView<Seq<char>>|
            CombinationView { key: cb.key, target: spec_lookup(m, cb.target)->Some_0 },
    )
}

/// The object with every alias replaced by its bound identifier.
pub open spec fn spec_rewrite(
    m: Seq<AliasBindingView>,
    obj: CatalogObjectView<Seq<char>>,
) -> CatalogObjectView<u32>
    recommends
        all_refs_resolve(m, obj),
{
    match obj {
        CatalogObjectView::Item(it) => CatalogObjectView::Item(it),
        CatalogObjectView::Variation(v) => CatalogObjectView::Variation(
            ItemVariationView {
                item_id: spec_lookup(m, v.item_id)->Some_0,
                name: v.name,
                processing_time: v.processing_time,
                sku: v.sku,
                images: v.images,
                upc: v.upc,
                enabled: v.enabled,
                measurement_units: v.measurement_units,
                available_units: v.available_units,
                price: v.price,
                extra_attributes: v.extra_attributes,
            },
        ),
        CatalogObjectView::Modification(md) => CatalogObjectView::Modification(
            ItemModificationView {
                item_id: spec_lookup(m, md.item_id)->Some_0,
                name: md.name,
                processing_time: md.processing_time,
                warranty_time: md.warranty_time,
                images: md.images,
                price: md.price,
                enabled: md.enabled,
            },
        ),
        CatalogObjectView::Delivery(d) => CatalogObjectView::Delivery(
            ItemDeliveryView { item_id: spec_lookup(m, d.item_id)->Some_0, delivery: d.delivery },
        ),
        CatalogObjectView::Control(c) => CatalogObjectView::Control(
            ItemControlView {
                item_id: spec_lookup(m, c.item_id)->Some_0,
                control: match c.control {
                    ControlView::Matrix(mx) => ControlView::Matrix(
                        MatrixControlView {
                            combinations: spec_rewrite_combos(m, mx.combinations),
                            key_template: mx.key_template,
                            props: mx.props,
                        },
                    ),
                    ControlView::Form(fields) => ControlView::Form(fields),
                },
            },
        ),
    }
}

/// Rewrites the aliases inside `catalog` to the identifiers bound in
/// `id_map`.
///
/// Succeeds exactly when every referenced alias is bound; an unbound
/// alias fails the whole object with `BulkReferenceNotExist` naming it.
pub fn resolve(id_map: &Vec<AliasBinding>, catalog: &CatalogObject<String>) -> (r: Result<
    CatalogObject<u32>,
    CatalogError,
>)
    ensures
        match r {
            Ok(obj) => all_refs_resolve(id_map.deep_view(), catalog@) && obj@ == spec_rewrite(
                id_map.deep_view(),
                catalog@,
            ),
            Err(e) => {
                &&& !all_refs_resolve(id_map.deep_view(), catalog@)
                &&& e matches CatalogError::BulkReferenceNotExist(a) && spec_refs(
                    catalog@,
                ).contains(a@) && spec_lookup(id_map.deep_view(), a@) is None
            },
        },
{
    match catalog {
        CatalogObject::Item(it) => {
            let r = CatalogObject::Item(it.clone());
            proof {
                assert(spec_refs(catalog@) =~= Seq::<Seq<char>>::empty());
            }
            Ok(r)
        },
        CatalogObject::Variation(v) => match lookup(id_map, &v.item_id) {
            None => {
                proof {
                    assert(spec_refs(catalog@)[0] == v.item_id@);
                }
                Err(CatalogError::BulkReferenceNotExist(v.item_id.clone()))
            },
            Some(id) => {
                let r = CatalogObject::Variation(
                    ItemVariation {
                        item_id: id,
                        name: v.name.clone(),
                        processing_time: v.processing_time,
                        sku: v.sku.clone(),
                        images: crate::models::clone_images(&v.images),
                        upc: crate::models::clone_opt_string(&v.upc),
                        enabled: v.enabled,
                        measurement_units: v.measurement_units,
                        available_units: v.available_units,
                        price: v.price.clone(),
                        extra_attributes: crate::models::clone_opt_attrs(&v.extra_attributes),
                    },
                );
                proof {
                    assert(forall|i: int|
                        0 <= i < spec_refs(catalog@).len() ==> #[trigger] spec_refs(catalog@)[i]
                            == v.item_id@);
                    assert(r@ =~= spec_rewrite(id_map.deep_view(), catalog@));
                }
                Ok(r)
            },
        },
        CatalogObject::Modification(md) => match lookup(id_map, &md.item_id) {
            None => {
                proof {
                    assert(spec_refs(catalog@)[0] == md.item_id@);
                }
                Err(CatalogError::BulkReferenceNotExist(md.item_id.clone()))
            },
            Some(id) => {
                let r = CatalogObject::Modification(
                    ItemModification {
                        item_id: id,
                        name: md.name.clone(),
                        processing_time: md.processing_time,
                        warranty_time: md.warranty_time,
                        images: crate::models::clone_images(&md.images),
                        price: md.price.clone(),
                        enabled: md.enabled,
                    },
                );
                proof {
                    assert(forall|i: int|
                        0 <= i < spec_refs(catalog@).len() ==> #[trigger] spec_refs(catalog@)[i]
                            == md.item_id@);
                    assert(r@ =~= spec_rewrite(id_map.deep_view(), catalog@));
                }
                Ok(r)
            },
        },
        CatalogObject::Delivery(d) => match lookup(id_map, &d.item_id) {
            None => {
                proof {
                    assert(spec_refs(catalog@)[0] == d.item_id@);
                }
                Err(CatalogError::BulkReferenceNotExist(d.item_id.clone()))
            },
            Some(id) => {
                let r = CatalogObject::Delivery(
                    ItemDelivery { item_id: id, delivery: d.delivery },
                );
                proof {
                    assert(forall|i: int|
                        0 <= i < spec_refs(catalog@).len() ==> #[trigger] spec_refs(catalog@)[i]
                            == d.item_id@);
                    assert(r@ =~= spec_rewrite(id_map.deep_view(), catalog@));
                }
                Ok(r)
            },
        },
        CatalogObject::Control(c) => {
            let item_id = match lookup(id_map, &c.item_id) {
                None => {
                    proof {
                        assert(spec_refs(catalog@)[0] == c.item_id@);
                    }
                    return Err(CatalogError::BulkReferenceNotExist(c.item_id.clone()));
                },
                Some(id) => id,
            };
            let control = match &c.control {
                Control::Form(fields) => Control::Form(crate::models::clone_form_items(fields)),
                Control::Matrix(mx) => {
                    let ghost targets = mx.combinations.deep_view().map_values(
                        |cb: CombinationView<Seq<char>>| cb.target,
                    );
                    let mut combos: Vec<Combination<u32>> = Vec::new();
                    let mut i: usize = 0;
                    while i < mx.combinations.len()
                        invariant
                            0 <= i <= mx.combinations.len(),
                            forall|k: int|
                                0 <= k < i ==> spec_lookup(
                                    id_map.deep_view(),
                                    #[trigger] mx.combinations.deep_view()[k].target,
                                ) is Some,
                            combos.deep_view() =~= spec_rewrite_combos(
                                id_map.deep_view(),
                                mx.combinations.deep_view().take(i as int),
                            ),
                        decreases mx.combinations.len() - i,
                    {
                        let cb = &mx.combinations[i];
                        match lookup(id_map, &cb.target) {
                            None => {
                                proof {
                                    assert(spec_refs(catalog@)[1 + i] == cb.target@);
                                }
                                return Err(
                                    CatalogError::BulkReferenceNotExist(cb.target.clone()),
                                );
                            },
                            Some(id) => {
                                let ghost pre = combos.deep_view();
                                combos.push(
                                    Combination { key: cb.key.clone(), target: id },
                                );
                                proof {
                                    assert(combos.deep_view() =~= pre.push(
                                        CombinationView { key: cb.key@, target: id },
                                    ));
                                    assert(combos.deep_view() =~= spec_rewrite_combos(
                                        id_map.deep_view(),
                                        mx.combinations.deep_view().take(i + 1),
                                    ));
                                }
                            },
                        }
                        i = i + 1;
                    }
                    proof {
                        assert(mx.combinations.deep_view().take(
                            mx.combinations.deep_view().len() as int,
                        ) =~= mx.combinations.deep_view());
                    }
                    Control::Matrix(
                        MatrixControl {
                            combinations: combos,
                            key_template: mx.key_template.clone(),
                            props: crate::models::clone_props(&mx.props),
                        },
                    )
                },
            };
            let r = CatalogObject::Control(ItemControl { item_id, control });
            proof {
                let refs = spec_refs(catalog@);
                assert forall|i: int|
                    0 <= i < refs.len() implies spec_lookup(
                    id_map.deep_view(),
                    #[trigger] refs[i],
                ) is Some by {
                    if i == 0 {
                        assert(refs[0] == c.item_id@);
                    } else {
                        match c.control {
                            Control::Matrix(ref mx) => {
                                assert(refs[i] == mx.combinations.deep_view()[i - 1].target);
                            },
                            Control::Form(_) => {
                                assert(false);
                            },
                        }
                    }
                }
                assert(r@ =~= spec_rewrite(id_map.deep_view(), catalog@));
            }
            Ok(r)
        },
    }
}

/// An `Item` row keeps existing when the table grows.
proof fn lemma_has_item_push(
    rows: Seq<crate::codec::CatalogObjectRowView>,
    account: Seq<char>,
    pid: u32,
    row: crate::codec::CatalogObjectRowView,
)
    requires
        spec_has_item(rows, account, pid),
    ensures
        spec_has_item(rows.push(row), account, pid),
{
    let i = choose|i: int|
        0 <= i < rows.len() && (#[trigger] rows[i]).id == pid && rows[i].account == account
            && rows[i].type_entry == crate::codec::CatalogType::Item;
    assert(rows.push(row)[i] == rows[i]);
}

/// Finds one alias the object references that is not yet bound.
fn find_unresolved(m: &Vec<AliasBinding>, obj: &CatalogObject<String>) -> (r: Option<String>)
    ensures
        match r {
            Some(a) => spec_refs(obj@).contains(a@) && spec_lookup(m.deep_view(), a@) is None,
            None => all_refs_resolve(m.deep_view(), obj@),
        },
{
    match obj {
        CatalogObject::Item(_) => {
            proof {
                assert(spec_refs(obj@) =~= Seq::<Seq<char>>::empty());
            }
            None
        },
        CatalogObject::Variation(v) => match lookup(m, &v.item_id) {
            Some(_) => {
                proof {
                    assert(forall|i: int|
                        0 <= i < spec_refs(obj@).len() ==> #[trigger] spec_refs(obj@)[i]
                            == v.item_id@);
                }
                None
            },
            None => {
                proof {
                    assert(spec_refs(obj@)[0] == v.item_id@);
                }
                Some(v.item_id.clone())
            },
        },
        CatalogObject::Modification(md) => match lookup(m, &md.item_id) {
            Some(_) => {
                proof {
                    assert(forall|i: int|
                        0 <= i < spec_refs(obj@).len() ==> #[trigger] spec_refs(obj@)[i]
                            == md.item_id@);
                }
                None
            },
            None => {
                proof {
                    assert(spec_refs(obj@)[0] == md.item_id@);
                }
                Some(md.item_id.clone())
            },
        },
        CatalogObject::Delivery(d) => match lookup(m, &d.item_id) {
            Some(_) => {
                proof {
                    assert(forall|i: int|
                        0 <= i < spec_refs(obj@).len() ==> #[trigger] spec_refs(obj@)[i]
                            == d.item_id@);
                }
                None
            },
            None => {
                proof {
                    assert(spec_refs(obj@)[0] == d.item_id@);
                }
                Some(d.item_id.clone())
            },
        },
        CatalogObject::Control(c) => {
            if lookup(m, &c.item_id).is_none() {
                proof {
                    assert(spec_refs(obj@)[0] == c.item_id@);
                }
                return Some(c.item_id.clone());
            }
            match &c.control {
                Control::Form(_) => {
                    proof {
                        assert(forall|i: int|
                            0 <= i < spec_refs(obj@).len() ==> #[trigger] spec_refs(obj@)[i]
                                == c.item_id@);
                    }
                    None
                },
                Control::Matrix(mx) => {
                    let mut i: usize = 0;
                    while i < mx.combinations.len()
                        invariant
                            0 <= i <= mx.combinations.len(),
                            forall|k: int|
                                0 <= k < i ==> spec_lookup(
                                    m.deep_view(),
                                    #[trigger] mx.combinations.deep_view()[k].target,
                                ) is Some,
                        decreases mx.combinations.len() - i,
                    {
                        let cb = &mx.combinations[i];
                        if lookup(m, &cb.target).is_none() {
                            proof {
                                assert(spec_refs(obj@)[1 + i] == cb.target@);
                            }
                            return Some(cb.target.clone());
                        }
                        i = i + 1;
                    }
                    proof {
                        let refs = spec_refs(obj@);
                        assert forall|k: int|
                            0 <= k < refs.len() implies spec_lookup(
                            m.deep_view(),
                            #[trigger] refs[k],
                        ) is Some by {
                            if k == 0 {
                                assert(refs[0] == c.item_id@);
                            } else {
                                assert(refs[k] == mx.combinations.deep_view()[k - 1].target);
                            }
                        }
                    }
                    None
                },
            }
        },
    }
}


/// The alias of the parent reference, when the object carries one;
/// absent only for `Item`.
pub open spec fn spec_parent_alias(obj: CatalogObjectView<Seq<char>>) -> Option<Seq<char>> {
    match obj {
        CatalogObjectView::Item(_) => None,
        CatalogObjectView::Variation(v) => Some(v.item_id),
        CatalogObjectView::Modification(m) => Some(m.item_id),
        CatalogObjectView::Delivery(d) => Some(d.item_id),
        CatalogObjectView::Control(c) => Some(c.item_id),
    }
}

/// The position of the last batch element carrying `alias`; under
/// shadowing, its payload is the one that survives.
pub open spec fn spec_last_index(
    batch: Seq<CatalogObjectBulkDocumentView<Seq<char>>>,
    alias: Seq<char>,
) -> int
    decreases batch.len(),
{
    if batch.len() == 0 {
        -1
    } else if spec_alias_at(batch, batch.len() - 1) == alias {
        batch.len() - 1
    } else {
        spec_last_index(batch.drop_last(), alias)
    }
}

/// The payload stored under `alias`: the object of the last batch
/// element carrying it.
pub open spec fn spec_obj_of(
    batch: Seq<CatalogObjectBulkDocumentView<Seq<char>>>,
    alias: Seq<char>,
) -> CatalogObjectView<Seq<char>> {
    batch[spec_last_index(batch, alias)].catalog_object
}

/// `a` is referenced by some element of the batch.
pub open spec fn spec_referenced(
    batch: Seq<CatalogObjectBulkDocumentView<Seq<char>>>,
    a: Seq<char>,
) -> bool {
    exists|i: int|
        0 <= i < batch.len() && spec_refs((#[trigger] batch[i]).catalog_object).contains(a)
}

/// The bindings accumulated after the first `k` creations of a
/// processing order whose identifiers start at `first_id`.
pub open spec fn spec_order_bindings(ord: Seq<Seq<char>>, first_id: u32, k: int) -> Seq<
    AliasBindingView,
>
    recommends
        0 <= k <= ord.len(),
{
    Seq::new(k as nat, |j: int| AliasBindingView { alias: ord[j], id: (first_id + j) as u32 })
}

/// One step of a processing order can be created: everything the alias's
/// surviving payload references was created before it, and its parent
/// names an `Item` element.
pub open spec fn spec_step_ok(
    batch: Seq<CatalogObjectBulkDocumentView<Seq<char>>>,
    ord: Seq<Seq<char>>,
    k: int,
) -> bool {
    let obj = spec_obj_of(batch, ord[k]);
    &&& forall|r: Seq<char>| spec_refs(obj).contains(r) ==> ord.take(k).contains(r)
    &&& (spec_parent_alias(obj) matches Some(pa) ==> spec_obj_of(batch, pa) is Item)
}

/// A dependency-respecting creation order for the batch: every distinct
/// alias exactly once, each after everything its payload references.
pub open spec fn spec_valid_order(
    batch: Seq<CatalogObjectBulkDocumentView<Seq<char>>>,
    ord: Seq<Seq<char>>,
) -> bool {
    &&& ord.no_duplicates()
    &&& ord.to_set() == spec_alias_seq(batch).to_set()
    &&& forall|k: int| 0 <= k < ord.len() ==> spec_step_ok(batch, ord, k)
}

/// The batch admits some dependency-respecting creation order whose
/// parent references name `Item` elements; bulk creation succeeds on
/// exactly these batches.
pub open spec fn spec_batch_valid(batch: Seq<CatalogObjectBulkDocumentView<Seq<char>>>) -> bool {
    exists|ord: Seq<Seq<char>>| spec_valid_order(batch, ord)
}

/// One step of a completed bulk run: the k-th document carries the k-th
/// alias's surviving payload with every reference rewritten to the
/// identifier assigned to the referenced alias earlier in the run.
pub open spec fn spec_run_step(
    batch: Seq<CatalogObjectBulkDocumentView<Seq<char>>>,
    ord: Seq<Seq<char>>,
    first_id: u32,
    docs: Seq<crate::models::CatalogObjectDocumentView<u32>>,
    k: int,
) -> bool {
    let m = spec_order_bindings(ord, first_id, k);
    let obj = spec_obj_of(batch, ord[k]);
    &&& all_refs_resolve(m, obj)
    &&& docs[k].catalog_object == spec_rewrite(m, obj)
    &&& (spec_parent_alias(obj) matches Some(pa) ==> spec_obj_of(batch, pa) is Item)
}

/// A completed bulk run: `ord` is the processing order over exactly the
/// distinct aliases, and every step holds.
pub open spec fn spec_bulk_run(
    batch: Seq<CatalogObjectBulkDocumentView<Seq<char>>>,
    ord: Seq<Seq<char>>,
    first_id: u32,
    docs: Seq<crate::models::CatalogObjectDocumentView<u32>>,
) -> bool {
    &&& ord.len() == docs.len()
    &&& ord.no_duplicates()
    &&& ord.to_set() == spec_alias_seq(batch).to_set()
    &&& forall|k: int| 0 <= k < ord.len() ==> spec_run_step(batch, ord, first_id, docs, k)
}

/// A prefix of a bulk run: the documents created before a batch was
/// aborted, each step holding, over distinct defined aliases.
pub open spec fn spec_partial_run(
    batch: Seq<CatalogObjectBulkDocumentView<Seq<char>>>,
    ord: Seq<Seq<char>>,
    first_id: u32,
    docs: Seq<crate::models::CatalogObjectDocumentView<u32>>,
) -> bool {
    &&& ord.len() == docs.len()
    &&& ord.no_duplicates()
    &&& forall|j: int| 0 <= j < ord.len() ==> spec_alias_seq(batch).contains(#[trigger] ord[j])
    &&& forall|k: int| 0 <= k < ord.len() ==> spec_run_step(batch, ord, first_id, docs, k)
}

proof fn lemma_lookup_some_index(m: Seq<AliasBindingView>, key: Seq<char>)
    requires
        spec_lookup(m, key) is Some,
    ensures
        exists|j: int|
            0 <= j < m.len() && (#[trigger] m[j]).alias == key && m[j].id == spec_lookup(
                m,
                key,
            )->Some_0,
    decreases m.len(),
{
    if m.len() > 0 && m.first().alias != key {
        lemma_lookup_some_index(m.drop_first(), key);
        let j = choose|j: int|
            0 <= j < m.drop_first().len() && (#[trigger] m.drop_first()[j]).alias == key
                && m.drop_first()[j].id == spec_lookup(m.drop_first(), key)->Some_0;
        assert(m[j + 1] == m.drop_first()[j]);
    }
}

proof fn lemma_contains_lookup_some(m: Seq<AliasBindingView>, key: Seq<char>)
    requires
        exists|j: int| 0 <= j < m.len() && (#[trigger] m[j]).alias == key,
    ensures
        spec_lookup(m, key) is Some,
    decreases m.len(),
{
    if m.len() > 0 && m.first().alias != key {
        let j = choose|j: int| 0 <= j < m.len() && (#[trigger] m[j]).alias == key;
        assert(m.drop_first()[j - 1] == m[j]);
        lemma_contains_lookup_some(m.drop_first(), key);
    }
}

/// A completed run witnesses a dependency-respecting order.
pub proof fn lemma_run_is_valid(
    batch: Seq<CatalogObjectBulkDocumentView<Seq<char>>>,
    ord: Seq<Seq<char>>,
    first_id: u32,
    docs: Seq<crate::models::CatalogObjectDocumentView<u32>>,
)
    requires
        spec_bulk_run(batch, ord, first_id, docs),
    ensures
        spec_valid_order(batch, ord),
        spec_batch_valid(batch),
{
    assert forall|k: int| 0 <= k < ord.len() implies spec_step_ok(batch, ord, k) by {
        assert(spec_run_step(batch, ord, first_id, docs, k));
        let m = spec_order_bindings(ord, first_id, k);
        let obj = spec_obj_of(batch, ord[k]);
        assert forall|r: Seq<char>| spec_refs(obj).contains(r) implies ord.take(k).contains(
            r,
        ) by {
            let ri = choose|ri: int| 0 <= ri < spec_refs(obj).len() && spec_refs(obj)[ri] == r;
            assert(spec_lookup(m, spec_refs(obj)[ri]) is Some);
            lemma_lookup_some_index(m, r);
            let j = choose|j: int| 0 <= j < m.len() && (#[trigger] m[j]).alias == r;
            assert(ord.take(k)[j] == ord[j]);
        }
    }
    assert(spec_valid_order(batch, ord));
}

proof fn lemma_first_position_in(ord: Seq<Seq<char>>, pend: Seq<Seq<char>>, start: int) -> (k: int)
    requires
        0 <= start < ord.len(),
        exists|j: int| start <= j < ord.len() && pend.contains(#[trigger] ord[j]),
        forall|j: int| 0 <= j < start ==> !pend.contains(#[trigger] ord[j]),
    ensures
        0 <= k < ord.len(),
        pend.contains(ord[k]),
        forall|j: int| 0 <= j < k ==> !pend.contains(#[trigger] ord[j]),
    decreases ord.len() - start,
{
    if pend.contains(ord[start]) {
        start
    } else {
        let w = choose|j: int| start <= j < ord.len() && pend.contains(#[trigger] ord[j]);
        assert(w != start);
        lemma_first_position_in(ord, pend, start + 1)
    }
}

/// One batch element awaiting creation: its alias and its position.
struct BulkSlot {
    alias: String,
    index: usize,
}

#[verifier::ext_equal]
ghost struct BulkSlotView {
    alias: Seq<char>,
    index: usize,
}

impl View for BulkSlot {
    type V = BulkSlotView;

    closed spec fn view(&self) -> BulkSlotView {
        BulkSlotView { alias: self.alias@, index: self.index }
    }
}

impl DeepView for BulkSlot {
    type V = BulkSlotView;

    closed spec fn deep_view(&self) -> BulkSlotView {
        self.view()
    }
}

/// The alias of the batch element at `i`: its explicit alias, or its
/// positional one.
pub open spec fn spec_alias_at(
    batch: Seq<CatalogObjectBulkDocumentView<Seq<char>>>,
    i: int,
) -> Seq<char> {
    match batch[i].id {
        Some(a) => a,
        None => spec_index_alias(i as u32),
    }
}

/// The aliases of a batch, by position.
pub open spec fn spec_alias_seq(
    batch: Seq<CatalogObjectBulkDocumentView<Seq<char>>>,
) -> Seq<Seq<char>> {
    Seq::new(batch.len(), |i: int| spec_alias_at(batch, i))
}

spec fn slot_aliases(slots: Seq<BulkSlotView>) -> Seq<Seq<char>> {
    slots.map_values(|s: BulkSlotView| s.alias)
}

/// The aliases of a binding list, in binding order.
spec fn binding_aliases(m: Seq<AliasBindingView>) -> Seq<Seq<char>> {
    m.map_values(|b: AliasBindingView| b.alias)
}

/// Bindings whose identifiers are consecutive from `first_id` are the
/// order bindings of their own alias list.
proof fn lemma_bindings_shape(m: Seq<AliasBindingView>, first_id: u32, k: int)
    requires
        0 <= k <= m.len(),
        forall|j: int| 0 <= j < m.len() ==> (#[trigger] m[j]).id as int == first_id + j,
    ensures
        m.take(k) == spec_order_bindings(binding_aliases(m), first_id, k),
{
    assert forall|j: int| 0 <= j < k implies m.take(k)[j] == spec_order_bindings(
        binding_aliases(m),
        first_id,
        k,
    )[j] by {
        assert(m.take(k)[j] == m[j]);
        assert(binding_aliases(m)[j] == m[j].alias);
        assert(m[j] =~= AliasBindingView { alias: m[j].alias, id: (first_id + j) as u32 });
    }
    assert(m.take(k) =~= spec_order_bindings(binding_aliases(m), first_id, k));
}

/// Rewriting never changes the record kind.
proof fn lemma_rewrite_variant(m: Seq<AliasBindingView>, obj: CatalogObjectView<Seq<char>>)
    ensures
        (spec_rewrite(m, obj) is Item) <==> (obj is Item),
{
}

/// In a table of old rows (identifiers below `first_id`) extended by the
/// run's encoded documents, the identifier assigned at step `jj` names an
/// `Item` row exactly when that step's document is an `Item`.
proof fn lemma_parent_item_type(
    rows0: Seq<crate::codec::CatalogObjectRowView>,
    rows: Seq<crate::codec::CatalogObjectRowView>,
    docs: Seq<crate::models::CatalogObjectDocumentView<u32>>,
    account: Seq<char>,
    first: u32,
    jj: int,
    pid: u32,
)
    requires
        rows == rows0 + Seq::new(
            docs.len() as nat,
            |k: int|
                spec_encode(
                    docs[k].id,
                    account,
                    docs[k].version,
                    docs[k].created_at,
                    docs[k].catalog_object,
                ),
        ),
        forall|j: int| 0 <= j < rows0.len() ==> (#[trigger] rows0[j]).id < first,
        forall|j: int| 0 <= j < docs.len() ==> (#[trigger] docs[j]).id as int == first + j,
        0 <= jj < docs.len(),
        pid == docs[jj].id,
    ensures
        spec_has_item(rows, account, pid) <==> docs[jj].catalog_object is Item,
{
    let w0 = rows0.len() as int;
    if docs[jj].catalog_object is Item {
        assert(rows[w0 + jj] == spec_encode(
            docs[jj].id,
            account,
            docs[jj].version,
            docs[jj].created_at,
            docs[jj].catalog_object,
        ));
        assert(rows[w0 + jj].id == pid && rows[w0 + jj].account == account && rows[w0
            + jj].type_entry == crate::codec::CatalogType::Item);
        assert(spec_has_item(rows, account, pid));
    }
    if spec_has_item(rows, account, pid) {
        let w = choose|w: int|
            0 <= w < rows.len() && (#[trigger] rows[w]).id == pid && rows[w].account == account
                && rows[w].type_entry == crate::codec::CatalogType::Item;
        if w < w0 {
            assert(rows[w] == rows0[w]);
            assert(rows0[w].id < first);
            assert(pid as int == first + jj);
            assert(false);
        } else {
            let j2 = w - w0;
            assert(rows[w] == spec_encode(
                docs[j2].id,
                account,
                docs[j2].version,
                docs[j2].created_at,
                docs[j2].catalog_object,
            ));
            assert(docs[j2].id as int == first + j2);
            assert(j2 == jj);
            assert(crate::codec::spec_type_of(docs[jj].catalog_object)
                == crate::codec::CatalogType::Item);
        }
    }
}

impl crate::store::Catalog {
    /// Creates a batch of alias-referencing records.
    ///
    /// Each distinct alias (a repeated alias silently shadows the earlier
    /// one) yields one record; records are created in an order that
    /// respects the alias references, each through the single-record
    /// create path, and the returned documents follow that processing
    /// order.  The batch succeeds exactly when it admits such an order
    /// (`spec_batch_valid`): an alias that cannot be resolved fails it
    /// with `BulkReferenceNotExist` naming a referenced alias, a parent
    /// naming a non-`Item` element with `CatalogBadRequest`; any failure
    /// aborts the remainder, and records already committed are not
    /// rolled back.
    #[verifier::rlimit(100)]
    pub fn bulk_create(
        &mut self,
        account: &String,
        catalog: &Vec<CatalogObjectBulkDocument<String>>,
    ) -> (r: Result<Vec<CatalogObjectDocument<u32, String>>, CatalogError>)
        requires
            old(self).wf(),
            old(self)@.next_id as int + catalog.deep_view().len() < u32::MAX,
            old(self)@.clock as int + catalog.deep_view().len() < u64::MAX,
        ensures
            final(self).wf(),
            old(self)@.rows.len() <= final(self)@.rows.len(),
            forall|i: int|
                0 <= i < old(self)@.rows.len() ==> final(self)@.rows[i] == old(self)@.rows[i],
            spec_batch_valid(catalog.deep_view()) ==> r is Ok,
            match r {
                Ok(docs) => {
                    let batch = catalog.deep_view();
                    let n = docs.deep_view().len() as int;
                    &&& n == spec_alias_seq(batch).to_set().len()
                    &&& final(self)@.rows == old(self)@.rows + Seq::new(
                        n as nat,
                        |k: int|
                            spec_encode(
                                docs.deep_view()[k].id,
                                account@,
                                docs.deep_view()[k].version,
                                docs.deep_view()[k].created_at,
                                docs.deep_view()[k].catalog_object,
                            ),
                    )
                    &&& final(self)@.next_id as int == old(self)@.next_id + n
                    &&& final(self)@.clock as int == old(self)@.clock + n
                    &&& forall|k: int|
                        0 <= k < n ==> {
                            &&& (#[trigger] docs.deep_view()[k]).id as int == old(
                                self,
                            )@.next_id + k
                            &&& docs.deep_view()[k].version as int == old(self)@.clock + k
                            &&& docs.deep_view()[k].created_at as int == old(self)@.clock + k
                            &&& docs.deep_view()[k].account == account@
                        }
                    &&& forall|k: int|
                        0 <= k < n ==> parent_ok(
                            final(self)@.rows,
                            account@,
                            (#[trigger] docs.deep_view()[k]).catalog_object,
                        )
                    &&& exists|ord: Seq<Seq<char>>|
                        #[trigger] spec_bulk_run(batch, ord, old(self)@.next_id, docs.deep_view())
                    &&& spec_batch_valid(batch)
                },
                Err(e) => {
                    &&& ((e matches CatalogError::BulkReferenceNotExist(_)) || e
                        == CatalogError::CatalogBadRequest)
                    &&& (e matches CatalogError::BulkReferenceNotExist(a) ==> spec_referenced(
                        catalog.deep_view(),
                        a@,
                    ))
                    &&& (e == CatalogError::CatalogBadRequest ==> exists|i: int|
                        {
                            &&& 0 <= i < catalog.deep_view().len()
                            &&& (#[trigger] spec_parent_alias(
                                catalog.deep_view()[i].catalog_object,
                            )) matches Some(pa)
                            &&& spec_alias_seq(catalog.deep_view()).contains(pa)
                            &&& !(spec_obj_of(catalog.deep_view(), pa) is Item)
                        })
                    &&& exists|ord: Seq<Seq<char>>, docsv: Seq<
                        crate::models::CatalogObjectDocumentView<u32>,
                    >|
                        {
                            &&& #[trigger] spec_partial_run(
                                catalog.deep_view(),
                                ord,
                                old(self)@.next_id,
                                docsv,
                            )
                            &&& final(self)@.rows == old(self)@.rows + Seq::new(
                                docsv.len(),
                                |k: int|
                                    spec_encode(
                                        docsv[k].id,
                                        account@,
                                        docsv[k].version,
                                        docsv[k].created_at,
                                        docsv[k].catalog_object,
                                    ),
                            )
                            &&& final(self)@.next_id as int == old(self)@.next_id + docsv.len()
                        }
                },
            },
    {
        broadcast use vstd::seq_lib::lemma_seq_contains_after_push;
        broadcast use vstd::set::group_set_axioms;

        let ghost batchv = catalog.deep_view();
        let ghost first = old(self)@.next_id;
        let ghost clock0 = old(self)@.clock;
        // Assign every element its alias; a repeated alias keeps one slot,
        // re-pointed at the later element.
        let mut entries: Vec<BulkSlot> = Vec::new();
        let mut i: usize = 0;
        while i < catalog.len()
            invariant
                0 <= i <= catalog.len(),
                forall|a: int, b: int|
                    0 <= a < b < entries.deep_view().len() ==> (#[trigger] entries.deep_view()[
                        a
                    ]).alias != (#[trigger] entries.deep_view()[b]).alias,
                entries.deep_view().len() <= i,
                forall|a: int|
                    0 <= a < entries.deep_view().len() ==> (#[trigger] entries.deep_view()[
                        a
                    ]).index < i,
                forall|a: int|
                    0 <= a < entries.deep_view().len() ==> (#[trigger] entries.deep_view()[
                        a
                    ]).index as int == spec_last_index(
                        batchv.take(i as int),
                        entries.deep_view()[a].alias,
                    ),
                forall|x: Seq<char>|
                    #[trigger] slot_aliases(entries.deep_view()).contains(x) ==> spec_alias_seq(
                        batchv,
                    ).take(i as int).contains(x),
                forall|p: int|
                    0 <= p < i ==> slot_aliases(entries.deep_view()).contains(
                        #[trigger] spec_alias_at(batchv, p),
                    ),
            decreases catalog.len() - i,
        {
            let ghost pre = entries.deep_view();
            let alias: String = match &catalog[i].id {
                Some(a) => a.clone(),
                None => make_id_by_index(i as u32),
            };
            proof {
                assert(alias@ == spec_alias_at(batchv, i as int));
                assert(spec_alias_seq(batchv).take(i + 1) =~= spec_alias_seq(batchv).take(
                    i as int,
                ).push(alias@));
                assert(batchv.take(i + 1).drop_last() =~= batchv.take(i as int));
                assert(spec_alias_at(batchv.take(i + 1), i as int) == spec_alias_at(
                    batchv,
                    i as int,
                ));
            }
            let mut j: usize = 0;
            let mut found: bool = false;
            while !found && j < entries.len()
                invariant
                    0 <= j <= entries.len(),
                    entries.deep_view() == pre,
                    !found ==> forall|k: int|
                        0 <= k < j ==> (#[trigger] pre[k]).alias != alias@,
                    found ==> j < pre.len() && pre[j as int].alias == alias@,
                decreases pre.len() - j + (if found {
                    0int
                } else {
                    1int
                }),
            {
                if string_eq(&entries[j].alias, &alias) {
                    found = true;
                } else {
                    j = j + 1;
                }
            }
            if found {
                let mut slot = entries.remove(j);
                slot.index = i;
                entries.insert(j, slot);
                proof {
                    assert(entries.deep_view() =~= pre.update(
                        j as int,
                        BulkSlotView { alias: alias@, index: i },
                    ));
                    assert(slot_aliases(entries.deep_view()) =~= slot_aliases(pre));
                    assert(slot_aliases(pre)[j as int] == alias@);
                    assert(slot_aliases(pre).contains(alias@));
                    assert forall|a: int|
                        0 <= a < entries.deep_view().len() implies (#[trigger] entries.deep_view()[
                        a
                    ]).index as int == spec_last_index(
                        batchv.take(i + 1),
                        entries.deep_view()[a].alias,
                    ) by {
                        if a == j {
                            assert(spec_last_index(batchv.take(i + 1), alias@) == i as int);
                        } else {
                            assert(entries.deep_view()[a] == pre[a]);
                            assert(pre[a].alias != alias@);
                            assert(spec_last_index(batchv.take(i + 1), pre[a].alias)
                                == spec_last_index(batchv.take(i as int), pre[a].alias));
                        }
                    }
                    let lhs = slot_aliases(entries.deep_view());
                    let prior = spec_alias_seq(batchv).take(i as int);
                    let rhs = spec_alias_seq(batchv).take(i + 1);
                    assert forall|x: Seq<char>| #[trigger] lhs.contains(x) implies rhs.contains(
                        x,
                    ) by {
                        assert(prior.contains(x));
                        assert(prior.push(alias@).contains(x));
                    }
                    assert forall|p: int| 0 <= p < i + 1 implies lhs.contains(
                        #[trigger] spec_alias_at(batchv, p),
                    ) by {
                        if p < i {
                            assert(slot_aliases(pre).contains(spec_alias_at(batchv, p)));
                        } else {
                            assert(spec_alias_at(batchv, p) == alias@);
                        }
                    }
                }
            } else {
                entries.push(BulkSlot { alias, index: i });
                proof {
                    assert(entries.deep_view() =~= pre.push(
                        BulkSlotView { alias: spec_alias_at(batchv, i as int), index: i },
                    ));
                    assert(slot_aliases(entries.deep_view()) =~= slot_aliases(pre).push(
                        spec_alias_at(batchv, i as int),
                    ));
                    assert forall|a: int|
                        0 <= a < entries.deep_view().len() implies (#[trigger] entries.deep_view()[
                        a
                    ]).index as int == spec_last_index(
                        batchv.take(i + 1),
                        entries.deep_view()[a].alias,
                    ) by {
                        if a < pre.len() {
                            assert(entries.deep_view()[a] == pre[a]);
                            assert(pre[a].alias != spec_alias_at(batchv, i as int));
                            assert(spec_last_index(batchv.take(i + 1), pre[a].alias)
                                == spec_last_index(batchv.take(i as int), pre[a].alias));
                        } else {
                            assert(entries.deep_view()[a].alias == spec_alias_at(batchv, i as int));
                            assert(spec_last_index(
                                batchv.take(i + 1),
                                spec_alias_at(batchv, i as int),
                            ) == i as int);
                        }
                    }
                    let lhs = slot_aliases(entries.deep_view());
                    let prior = spec_alias_seq(batchv).take(i as int);
                    let rhs = spec_alias_seq(batchv).take(i + 1);
                    assert forall|x: Seq<char>| #[trigger] lhs.contains(x) implies rhs.contains(
                        x,
                    ) by {
                        assert(slot_aliases(pre).push(alias@).contains(x));
                        if x == alias@ {
                            assert(rhs[i as int] == alias@);
                        } else {
                            assert(slot_aliases(pre).contains(x));
                            assert(prior.contains(x));
                            assert(prior.push(alias@).contains(x));
                        }
                    }
                    assert forall|p: int| 0 <= p < i + 1 implies lhs.contains(
                        #[trigger] spec_alias_at(batchv, p),
                    ) by {
                        if p < i {
                            assert(slot_aliases(pre).contains(spec_alias_at(batchv, p)));
                            assert(slot_aliases(pre).push(alias@).contains(
                                spec_alias_at(batchv, p),
                            ));
                        } else {
                            assert(lhs[lhs.len() - 1] == alias@);
                        }
                    }
                }
            }
            i = i + 1;
        }
        proof {
            assert(batchv.take(batchv.len() as int) =~= batchv);
            assert(spec_alias_seq(batchv).take(batchv.len() as int) =~= spec_alias_seq(batchv));
            let aliases = slot_aliases(entries.deep_view());
            let all = spec_alias_seq(batchv);
            assert forall|x: Seq<char>| aliases.to_set().contains(x) <==> all.to_set().contains(
                x,
            ) by {
                if aliases.contains(x) {
                    assert(all.take(batchv.len() as int).contains(x));
                }
                if all.contains(x) {
                    let p = choose|p: int| 0 <= p < all.len() && all[p] == x;
                    assert(spec_alias_at(batchv, p) == x);
                    assert(aliases.contains(spec_alias_at(batchv, p)));
                }
            }
            assert(aliases.to_set() =~= all.to_set());
            aliases.unique_seq_to_set();
        }
        proof {
            assert forall|k: int| 0 <= k < entries.deep_view().len() implies {
                &&& 0 <= (#[trigger] entries.deep_view()[k]).index < batchv.len()
                &&& entries.deep_view()[k].index as int == spec_last_index(
                    batchv,
                    entries.deep_view()[k].alias,
                )
                &&& spec_alias_seq(batchv).contains(entries.deep_view()[k].alias)
            } by {
                assert(slot_aliases(entries.deep_view())[k] == entries.deep_view()[k].alias);
                assert(slot_aliases(entries.deep_view()).contains(entries.deep_view()[k].alias));
                assert(spec_alias_seq(batchv).take(batchv.len() as int).contains(
                    entries.deep_view()[k].alias,
                ));
                assert(entries.deep_view()[k].index as int == spec_last_index(
                    batchv.take(batchv.len() as int),
                    entries.deep_view()[k].alias,
                ));
            }
        }
        let ghost slot_count = entries.deep_view().len() as int;
        // Create in dependency order: repeatedly pick a slot whose
        // references are all bound, resolve it and persist it.
        let mut pending = entries;
        let mut bindings: Vec<AliasBinding> = Vec::new();
        let mut docs: Vec<CatalogObjectDocument<u32, String>> = Vec::new();
        proof {
            assert(self@.rows =~= old(self)@.rows + Seq::new(
                0,
                |k: int|
                    spec_encode(
                        docs.deep_view()[k].id,
                        account@,
                        docs.deep_view()[k].version,
                        docs.deep_view()[k].created_at,
                        docs.deep_view()[k].catalog_object,
                    ),
            ));
        }
        while pending.len() > 0
            invariant
                self.wf(),
                docs.deep_view().len() + pending.deep_view().len() == slot_count,
                slot_count <= batchv.len(),
                self@.next_id as int == first + docs.deep_view().len(),
                self@.clock as int == clock0 + docs.deep_view().len(),
                first == old(self)@.next_id,
                clock0 == old(self)@.clock,
                first as int + batchv.len() < u32::MAX,
                clock0 as int + batchv.len() < u64::MAX,
                forall|k: int|
                    0 <= k < old(self)@.rows.len() ==> (#[trigger] old(self)@.rows[k]).id < first,
                self@.rows == old(self)@.rows + Seq::new(
                    docs.deep_view().len() as nat,
                    |k: int|
                        spec_encode(
                            docs.deep_view()[k].id,
                            account@,
                            docs.deep_view()[k].version,
                            docs.deep_view()[k].created_at,
                            docs.deep_view()[k].catalog_object,
                        ),
                ),
                bindings.deep_view().len() == docs.deep_view().len(),
                forall|j: int|
                    0 <= j < bindings.deep_view().len() ==> (#[trigger] bindings.deep_view()[
                        j
                    ]).id as int == first + j,
                binding_aliases(bindings.deep_view()).no_duplicates(),
                forall|j: int|
                    0 <= j < bindings.deep_view().len() ==> spec_alias_seq(batchv).contains(
                        (#[trigger] bindings.deep_view()[j]).alias,
                    ),
                forall|k: int|
                    0 <= k < pending.deep_view().len() ==> {
                        &&& 0 <= (#[trigger] pending.deep_view()[k]).index < batchv.len()
                        &&& pending.deep_view()[k].index as int == spec_last_index(
                            batchv,
                            pending.deep_view()[k].alias,
                        )
                        &&& spec_alias_seq(batchv).contains(pending.deep_view()[k].alias)
                        &&& !binding_aliases(bindings.deep_view()).contains(
                            pending.deep_view()[k].alias,
                        )
                    },
                forall|a: int, b: int|
                    0 <= a < b < pending.deep_view().len() ==> (#[trigger] pending.deep_view()[
                        a
                    ]).alias != (#[trigger] pending.deep_view()[b]).alias,
                forall|x: Seq<char>|
                    spec_alias_seq(batchv).contains(x) ==> binding_aliases(
                        bindings.deep_view(),
                    ).contains(x) || slot_aliases(pending.deep_view()).contains(x),
                forall|k: int|
                    0 <= k < docs.deep_view().len() ==> (#[trigger] docs.deep_view()[k]).account
                        == account@,
                forall|k: int|
                    0 <= k < docs.deep_view().len() ==> {
                        &&& (#[trigger] docs.deep_view()[k]).id as int == first + k
                        &&& docs.deep_view()[k].version as int == clock0 + k
                        &&& docs.deep_view()[k].created_at as int == clock0 + k
                    },
                forall|k: int|
                    0 <= k < docs.deep_view().len() ==> spec_run_step(
                        batchv,
                        binding_aliases(bindings.deep_view()),
                        first,
                        docs.deep_view(),
                        k,
                    ),
                forall|k: int|
                    0 <= k < docs.deep_view().len() ==> parent_ok(
                        self@.rows,
                        account@,
                        (#[trigger] docs.deep_view()[k]).catalog_object,
                    ),
            decreases pending.len(),
        {
            let ghost ordv = binding_aliases(bindings.deep_view());
            let mut kfound: Option<usize> = None;
            let mut k: usize = 0;
            while kfound.is_none() && k < pending.len()
                invariant
                    0 <= k <= pending.len(),
                    match kfound {
                        Some(kk) => kk < pending.len() && all_refs_resolve(
                            bindings.deep_view(),
                            batchv[pending.deep_view()[kk as int].index as int].catalog_object,
                        ),
                        None => forall|kk: int|
                            0 <= kk < k ==> !all_refs_resolve(
                                bindings.deep_view(),
                                batchv[(#[trigger] pending.deep_view()[kk]).index as int].catalog_object,
                            ),
                    },
                decreases pending.len() - k + (if kfound is None {
                    1int
                } else {
                    0int
                }),
            {
                let idx = pending[k].index;
                proof {
                    assert(idx == pending.deep_view()[k as int].index);
                    assert(catalog.deep_view().len() == catalog@.len());
                }
                if find_unresolved(&bindings, &catalog[idx].catalog_object).is_none() {
                    kfound = Some(k);
                } else {
                    k = k + 1;
                }
            }
            match kfound {
                None => {
                    // No slot is ready.  Were any dependency-respecting
                    // order possible, its earliest still-pending alias
                    // would be ready: everything it references comes
                    // earlier in that order, so is no longer pending and
                    // hence already bound.  So the batch is unresolvable
                    // (a missing alias, or a cycle).
                    proof {
                        if spec_batch_valid(batchv) {
                            let ordw = choose|ordw: Seq<Seq<char>>|
                                spec_valid_order(batchv, ordw);
                            let pendal = slot_aliases(pending.deep_view());
                            assert(pendal[0] == pending.deep_view()[0].alias);
                            assert(spec_alias_seq(batchv).contains(pendal[0]));
                            assert(ordw.to_set().contains(pendal[0]));
                            assert(ordw.contains(pendal[0]));
                            let h = choose|h: int| 0 <= h < ordw.len() && ordw[h] == pendal[0];
                            assert(pendal.contains(ordw[h]));
                            let kmin = lemma_first_position_in(ordw, pendal, 0);
                            let a = ordw[kmin];
                            let kk2 = choose|kk2: int|
                                0 <= kk2 < pendal.len() && pendal[kk2] == a;
                            let obj = spec_obj_of(batchv, a);
                            assert(spec_step_ok(batchv, ordw, kmin));
                            assert forall|ri: int|
                                0 <= ri < spec_refs(obj).len() implies spec_lookup(
                                bindings.deep_view(),
                                #[trigger] spec_refs(obj)[ri],
                            ) is Some by {
                                let rr = spec_refs(obj)[ri];
                                assert(spec_refs(obj).contains(rr));
                                assert(ordw.take(kmin).contains(rr));
                                let jr = choose|jr: int|
                                    0 <= jr < kmin && ordw.take(kmin)[jr] == rr;
                                assert(ordw[jr] == rr);
                                assert(!pendal.contains(rr));
                                assert(ordw.to_set().contains(rr));
                                assert(spec_alias_seq(batchv).contains(rr));
                                assert(binding_aliases(bindings.deep_view()).contains(rr));
                                let jb = choose|jb: int|
                                    0 <= jb < binding_aliases(bindings.deep_view()).len()
                                        && binding_aliases(bindings.deep_view())[jb] == rr;
                                assert(bindings.deep_view()[jb].alias == rr);
                                lemma_contains_lookup_some(bindings.deep_view(), rr);
                            }
                            assert(all_refs_resolve(bindings.deep_view(), obj));
                            assert(pending.deep_view()[kk2].alias == a);
                            assert(pending.deep_view()[kk2].index as int == spec_last_index(
                                batchv,
                                a,
                            ));
                            assert(batchv[pending.deep_view()[kk2].index as int].catalog_object
                                == obj);
                            assert(false);
                        }
                    }
                    let idx = pending[0].index;
                    proof {
                        assert(idx == pending.deep_view()[0].index);
                        assert(catalog.deep_view().len() == catalog@.len());
                    }
                    match find_unresolved(&bindings, &catalog[idx].catalog_object) {
                        Some(a) => {
                            proof {
                                assert(spec_refs(batchv[idx as int].catalog_object).contains(a@));
                                assert(spec_referenced(batchv, a@));
                                assert(spec_partial_run(
                                    batchv,
                                    binding_aliases(bindings.deep_view()),
                                    first,
                                    docs.deep_view(),
                                ));
                            }
                            return Err(CatalogError::BulkReferenceNotExist(a));
                        },
                        None => {
                            proof {
                                assert(!all_refs_resolve(
                                    bindings.deep_view(),
                                    batchv[pending.deep_view()[0].index as int].catalog_object,
                                ));
                                assert(false);
                            }
                            return Err(CatalogError::CatalogBadRequest);
                        },
                    }
                },
                Some(kk) => {
                    let ghost pre_pending = pending.deep_view();
                    let ghost pre_docs = docs.deep_view();
                    let ghost pre_bindings = bindings.deep_view();
                    let slot = pending.remove(kk);
                    proof {
                        assert(pending.deep_view() =~= pre_pending.remove(kk as int));
                    }
                    let idx = slot.index;
                    proof {
                        assert(slot@.index == pre_pending[kk as int].index);
                        assert(slot@.alias == pre_pending[kk as int].alias);
                        assert(catalog.deep_view().len() == catalog@.len());
                        assert(batchv[idx as int].catalog_object == spec_obj_of(
                            batchv,
                            slot@.alias,
                        ));
                    }
                    let resolved = match resolve(&bindings, &catalog[idx].catalog_object) {
                        Ok(o) => o,
                        Err(_) => {
                            proof {
                                assert(false);
                            }
                            return Err(CatalogError::CatalogBadRequest);
                        },
                    };
                    let ghost pre_rows = self@.rows;
                    let ghost obj = spec_obj_of(batchv, slot@.alias);
                    let doc = match self.create(account, &resolved) {
                        Ok(d) => d,
                        Err(e) => {
                            // The parent alias is bound to an earlier
                            // document of this run that is not an `Item`,
                            // so no dependency-respecting order exists.
                            proof {
                                assert(!parent_ok(pre_rows, account@, resolved@));
                                let pa = spec_parent_alias(obj)->Some_0;
                                assert(spec_parent_alias(obj) is Some);
                                assert(spec_refs(obj)[0] == pa);
                                assert(spec_refs(obj).contains(pa));
                                assert(spec_lookup(pre_bindings, pa) is Some);
                                let pid = spec_lookup(pre_bindings, pa)->Some_0;
                                assert(crate::store::parent_id_of(resolved@) == Some(pid));
                                lemma_lookup_some_index(pre_bindings, pa);
                                let jj = choose|jj: int|
                                    0 <= jj < pre_bindings.len() && (#[trigger] pre_bindings[
                                        jj
                                    ]).alias == pa && pre_bindings[jj].id == pid;
                                assert(pid == pre_docs[jj].id);
                                lemma_parent_item_type(
                                    old(self)@.rows,
                                    pre_rows,
                                    pre_docs,
                                    account@,
                                    first,
                                    jj,
                                    pid,
                                );
                                assert(!(pre_docs[jj].catalog_object is Item));
                                assert(spec_run_step(batchv, ordv, first, pre_docs, jj));
                                assert(ordv[jj] == pa);
                                lemma_rewrite_variant(
                                    spec_order_bindings(ordv, first, jj),
                                    spec_obj_of(batchv, pa),
                                );
                                assert(!(spec_obj_of(batchv, pa) is Item));
                                if spec_batch_valid(batchv) {
                                    let ordw = choose|ordw: Seq<Seq<char>>|
                                        spec_valid_order(batchv, ordw);
                                    assert(spec_alias_seq(batchv).contains(slot@.alias));
                                    assert(ordw.to_set().contains(slot@.alias));
                                    assert(ordw.contains(slot@.alias));
                                    let kpos = choose|kpos: int|
                                        0 <= kpos < ordw.len() && ordw[kpos] == slot@.alias;
                                    assert(spec_step_ok(batchv, ordw, kpos));
                                    assert(spec_obj_of(batchv, ordw[kpos]) == obj);
                                    assert(false);
                                }
                                assert(spec_partial_run(batchv, ordv, first, pre_docs));
                                let pa2 = spec_parent_alias(obj)->Some_0;
                                assert(spec_parent_alias(batchv[idx as int].catalog_object)
                                    == Some(pa2));
                                assert(spec_alias_seq(batchv).contains(pa2));
                                assert(!(spec_obj_of(batchv, pa2) is Item));
                            }
                            return Err(e);
                        },
                    };
                    bindings.push(AliasBinding { alias: slot.alias, id: doc.id });
                    let ghost pre_docs2 = docs.deep_view();
                    docs.push(doc);
                    proof {
                        let enc_new = spec_encode(
                            doc@.id,
                            account@,
                            doc@.version,
                            doc@.created_at,
                            doc@.catalog_object,
                        );
                        assert(self@.rows == pre_rows.push(enc_new));
                        assert(docs.deep_view() =~= pre_docs2.push(doc.deep_view()));
                        assert(bindings.deep_view() =~= pre_bindings.push(
                            AliasBindingView { alias: slot@.alias, id: doc.id },
                        ));
                        let ordn = binding_aliases(bindings.deep_view());
                        assert(ordn =~= ordv.push(slot@.alias));
                        let n = pre_docs.len() as int;
                        // The table keeps its run shape.
                        assert(self@.rows =~= old(self)@.rows + Seq::new(
                            docs.deep_view().len() as nat,
                            |k: int|
                                spec_encode(
                                    docs.deep_view()[k].id,
                                    account@,
                                    docs.deep_view()[k].version,
                                    docs.deep_view()[k].created_at,
                                    docs.deep_view()[k].catalog_object,
                                ),
                        ));
                        // The new alias was still pending, so it is fresh
                        // among the bindings.
                        assert(!ordv.contains(slot@.alias));
                        assert forall|a: int, b: int|
                            0 <= a < b < ordn.len() implies ordn[a] != ordn[b] by {
                            if b < ordn.len() - 1 {
                                assert(ordn[a] == ordv[a] && ordn[b] == ordv[b]);
                            } else {
                                assert(ordn[b] == slot@.alias);
                                assert(ordn[a] == ordv[a]);
                                assert(ordv.contains(ordv[a]));
                            }
                        }
                        // Coverage after moving the alias from pending to
                        // the bindings.
                        assert forall|x: Seq<char>|
                            spec_alias_seq(batchv).contains(x) implies ordn.contains(x)
                            || slot_aliases(pending.deep_view()).contains(x) by {
                            if ordv.contains(x) {
                                let jx = choose|jx: int|
                                    0 <= jx < ordv.len() && ordv[jx] == x;
                                assert(ordn[jx] == x);
                            } else if slot_aliases(pre_pending).contains(x) {
                                let kx = choose|kx: int|
                                    0 <= kx < pre_pending.len() && slot_aliases(pre_pending)[kx]
                                        == x;
                                if kx == kk as int {
                                    assert(ordn[ordn.len() - 1] == slot@.alias);
                                    assert(ordn.contains(x));
                                } else if kx < kk as int {
                                    assert(slot_aliases(pending.deep_view())[kx] == x);
                                    assert(slot_aliases(pending.deep_view()).contains(x));
                                } else {
                                    assert(slot_aliases(pending.deep_view())[kx - 1] == x);
                                    assert(slot_aliases(pending.deep_view()).contains(x));
                                }
                            }
                        }
                        // Every earlier run step is untouched; the new
                        // step is exactly this resolution and creation.
                        assert(pre_bindings.take(n) =~= pre_bindings);
                        lemma_bindings_shape(pre_bindings, first, n);
                        assert(spec_order_bindings(ordv, first, n) == pre_bindings);
                        assert(all_refs_resolve(pre_bindings, obj));
                        assert(resolved@ == spec_rewrite(pre_bindings, obj));
                        assert(doc@.catalog_object == resolved@);
                        assert forall|k2: int|
                            0 <= k2 < docs.deep_view().len() implies spec_run_step(
                            batchv,
                            ordn,
                            first,
                            docs.deep_view(),
                            k2,
                        ) by {
                            assert(spec_order_bindings(ordn, first, k2) =~= spec_order_bindings(
                                ordv,
                                first,
                                k2,
                            ));
                            if k2 < n {
                                assert(spec_run_step(batchv, ordv, first, pre_docs, k2));
                                assert(ordn[k2] == ordv[k2]);
                                assert(docs.deep_view()[k2] == pre_docs[k2]);
                            } else {
                                assert(ordn[k2] == slot@.alias);
                                assert(docs.deep_view()[k2] == doc.deep_view());
                                assert(spec_order_bindings(ordn, first, k2) =~= pre_bindings);
                                match spec_parent_alias(obj) {
                                    None => {},
                                    Some(pa) => {
                                        assert(spec_refs(obj)[0] == pa);
                                        assert(spec_refs(obj).contains(pa));
                                        assert(spec_lookup(pre_bindings, pa) is Some);
                                        let pid = spec_lookup(pre_bindings, pa)->Some_0;
                                        assert(crate::store::parent_id_of(resolved@) == Some(
                                            pid,
                                        ));
                                        assert(parent_ok(pre_rows, account@, resolved@));
                                        assert(spec_has_item(pre_rows, account@, pid));
                                        lemma_lookup_some_index(pre_bindings, pa);
                                        let jj = choose|jj: int|
                                            0 <= jj < pre_bindings.len() && (
                                            #[trigger] pre_bindings[jj]).alias == pa
                                                && pre_bindings[jj].id == pid;
                                        assert(pid == pre_docs[jj].id);
                                        lemma_parent_item_type(
                                            old(self)@.rows,
                                            pre_rows,
                                            pre_docs,
                                            account@,
                                            first,
                                            jj,
                                            pid,
                                        );
                                        assert(pre_docs[jj].catalog_object is Item);
                                        assert(spec_run_step(batchv, ordv, first, pre_docs, jj));
                                        assert(ordv[jj] == pa);
                                        lemma_rewrite_variant(
                                            spec_order_bindings(ordv, first, jj),
                                            spec_obj_of(batchv, pa),
                                        );
                                        assert(spec_obj_of(batchv, pa) is Item);
                                    },
                                }
                            }
                        }
                        // Orphan freedom carries over the appended row.
                        assert forall|k2: int|
                            0 <= k2 < docs.deep_view().len() implies parent_ok(
                            self@.rows,
                            account@,
                            (#[trigger] docs.deep_view()[k2]).catalog_object,
                        ) by {
                            if k2 < pre_docs.len() {
                                assert(docs.deep_view()[k2] == pre_docs[k2]);
                                assert(parent_ok(pre_rows, account@, pre_docs[k2].catalog_object));
                            } else {
                                assert(docs.deep_view()[k2] == doc.deep_view());
                                assert(parent_ok(pre_rows, account@, doc@.catalog_object));
                            }
                            let obj2 = docs.deep_view()[k2].catalog_object;
                            match crate::store::parent_id_of(obj2) {
                                None => {},
                                Some(pid2) => {
                                    assert(spec_has_item(pre_rows, account@, pid2));
                                    lemma_has_item_push(pre_rows, account@, pid2, enc_new);
                                },
                            }
                        }
                    }
                },
            }
        }
        proof {
            assert(docs.deep_view().len() == slot_count);
            let ordv = binding_aliases(bindings.deep_view());
            let all = spec_alias_seq(batchv);
            assert forall|x: Seq<char>| ordv.to_set().contains(x) <==> all.to_set().contains(
                x,
            ) by {
                if ordv.contains(x) {
                    let jx = choose|jx: int| 0 <= jx < ordv.len() && ordv[jx] == x;
                    assert(bindings.deep_view()[jx].alias == x);
                    assert(all.contains(x));
                }
                if all.contains(x) {
                    assert(ordv.contains(x) || slot_aliases(pending.deep_view()).contains(x));
                }
            }
            assert(ordv.to_set() =~= all.to_set());
            ordv.unique_seq_to_set();
            assert(spec_bulk_run(batchv, ordv, first, docs.deep_view()));
            lemma_run_is_valid(batchv, ordv, first, docs.deep_view());
        }
        Ok(docs)
    }
}

} // verus!
