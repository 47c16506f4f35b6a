//! The row codec: maps a typed catalog object to and from the persisted
//! row shape `{id, account, version, type tag, one payload slot, created_at}`.
//!
//! Exactly one payload slot is populated per row, selected by the type tag;
//! decoding dispatches on the tag alone and reports a `MappingError` when
//! the populated slot does not match it.

use vstd::prelude::*;

use crate::models::CatalogObject;
use crate::models::CatalogObjectDocument;
use crate::models::CatalogObjectDocumentView;
use crate::models::CatalogObjectView;
use crate::models::Item;
use crate::models::ItemControl;
use crate::models::ItemControlView;
use crate::models::ItemDelivery;
use crate::models::ItemDeliveryView;
use crate::models::ItemModification;
use crate::models::ItemModificationView;
use crate::models::ItemVariation;
use crate::models::ItemVariationView;
use crate::models::ItemView;
use crate::service::CatalogError;
use crate::text::str_eq;

verus! {

/// The type tag that selects a row's populated payload slot.
#[derive(Clone, Copy, Debug, PartialEq, Eq, Structural)]
pub enum CatalogType {
    Item,
    Variation,
    Modification,
    Delivery,
    Control,
}

/// The wire name of a type tag.
pub open spec fn spec_tag_name(t: CatalogType) -> Seq<char> {
    match t {
        CatalogType::Item => "Item"@,
        CatalogType::Variation => "Variation"@,
        CatalogType::Modification => "Modification"@,
        CatalogType::Delivery => "Delivery"@,
        CatalogType::Control => "Control"@,
    }
}

/// The tag whose wire name is `s`, if any.
pub open spec fn spec_parse_tag(s: Seq<char>) -> Option<CatalogType> {
    if s == "Item"@ {
        Some(CatalogType::Item)
    } else if s == "Variation"@ {
        Some(CatalogType::Variation)
    } else if s == "Modification"@ {
        Some(CatalogType::Modification)
    } else if s == "Delivery"@ {
        Some(CatalogType::Delivery)
    } else if s == "Control"@ {
        Some(CatalogType::Control)
    } else {
        None
    }
}

impl CatalogType {
    /// Renders the tag as its wire name.
    pub fn name(self) -> (r: &'static str)
        ensures
            r@ == spec_tag_name(self),
    {
        match self {
            CatalogType::Item => "Item",
            CatalogType::Variation => "Variation",
            CatalogType::Modification => "Modification",
            CatalogType::Delivery => "Delivery",
            CatalogType::Control => "Control",
        }
    }

    /// Parses a wire name; an unrecognized tag yields `None`.
    pub fn parse(s: &str) -> (r: Option<CatalogType>)
        ensures
            r == spec_parse_tag(s@),
    {
        if str_eq(s, "Item") {
            Some(CatalogType::Item)
        } else if str_eq(s, "Variation") {
            Some(CatalogType::Variation)
        } else if str_eq(s, "Modification") {
            Some(CatalogType::Modification)
        } else if str_eq(s, "Delivery") {
            Some(CatalogType::Delivery)
        } else if str_eq(s, "Control") {
            Some(CatalogType::Control)
        } else {
            None
        }
    }
}

/// The logical columns of the persisted catalog table.
#[derive(Clone, Copy, Debug, PartialEq, Eq)]
pub enum CatalogSchema {
    Table,
    Id,
    Account,
    TypeEntry,
    Version,
    ItemData,
    ItemVariationData,
    ItemModificationData,
    ItemDeliveryData,
    ItemControlData,
    CreatedAt,
}

/// The column (or table) name of the persisted layout.
pub open spec fn spec_column_name(c: CatalogSchema) -> Seq<char> {
    match c {
        CatalogSchema::Table => "catalogs"@,
        CatalogSchema::Id => "id"@,
        CatalogSchema::Account => "account"@,
        CatalogSchema::TypeEntry => "type_entry"@,
        CatalogSchema::Version => "version"@,
        CatalogSchema::ItemData => "item_data"@,
        CatalogSchema::ItemVariationData => "item_variation_data"@,
        CatalogSchema::ItemModificationData => "item_modification_data"@,
        CatalogSchema::ItemDeliveryData => "item_delivery_data"@,
        CatalogSchema::ItemControlData => "item_control_data"@,
        CatalogSchema::CreatedAt => "created_at"@,
    }
}

impl CatalogSchema {
    /// The column (or table) name used by the storage collaborator.
    pub fn column_name(self) -> (r: &'static str)
        ensures
            r@ == spec_column_name(self),
    {
        match self {
            CatalogSchema::Table => "catalogs",
            CatalogSchema::Id => "id",
            CatalogSchema::Account => "account",
            CatalogSchema::TypeEntry => "type_entry",
            CatalogSchema::Version => "version",
            CatalogSchema::ItemData => "item_data",
            CatalogSchema::ItemVariationData => "item_variation_data",
            CatalogSchema::ItemModificationData => "item_modification_data",
            CatalogSchema::ItemDeliveryData => "item_delivery_data",
            CatalogSchema::ItemControlData => "item_control_data",
            CatalogSchema::CreatedAt => "created_at",
        }
    }
}

/// The persisted representation of one catalog record.
#[derive(Debug, PartialEq)]
pub struct CatalogObjectRow {
    pub id: u32,
    pub account: String,
    pub version: u64,
    pub type_entry: CatalogType,
    pub item_data: Option<Item>,
    pub item_variation_data: Option<ItemVariation<u32>>,
    pub item_modification_data: Option<ItemModification<u32>>,
    pub item_delivery_data: Option<ItemDelivery<u32>>,
    pub item_control_data: Option<ItemControl<u32>>,
    pub created_at: u64,
}

/// Spec-level mirror of a persisted row.
#[verifier::ext_equal]
pub ghost struct CatalogObjectRowView {
    pub id: u32,
    pub account: Seq<char>,
    pub version: u64,
    pub type_entry: CatalogType,
    pub item_data: Option<ItemView>,
    pub item_variation_data: Option<ItemVariationView<u32>>,
    pub item_modification_data: Option<ItemModificationView<u32>>,
    pub item_delivery_data: Option<ItemDeliveryView<u32>>,
    pub item_control_data: Option<ItemControlView<u32>>,
    pub created_at: u64,
}

impl View for CatalogObjectRow {
    type V = CatalogObjectRowView;

    open spec fn view(&self) -> CatalogObjectRowView {
        CatalogObjectRowView {
            id: self.id,
            account: self.account@,
            version: self.version,
            type_entry: self.type_entry,
            item_data: self.item_data.deep_view(),
            item_variation_data: self.item_variation_data.deep_view(),
            item_modification_data: self.item_modification_data.deep_view(),
            item_delivery_data: self.item_delivery_data.deep_view(),
            item_control_data: self.item_control_data.deep_view(),
            created_at: self.created_at,
        }
    }
}

impl DeepView for CatalogObjectRow {
    type V = CatalogObjectRowView;

    open spec fn deep_view(&self) -> CatalogObjectRowView {
        self.view()
    }
}

/// The tag under which an object is persisted.
pub open spec fn spec_type_of(obj: CatalogObjectView<u32>) -> CatalogType {
    match obj {
        CatalogObjectView::Item(_) => CatalogType::Item,
        CatalogObjectView::Variation(_) => CatalogType::Variation,
        CatalogObjectView::Modification(_) => CatalogType::Modification,
        CatalogObjectView::Delivery(_) => CatalogType::Delivery,
        CatalogObjectView::Control(_) => CatalogType::Control,
    }
}

/// The row that encoding `obj` under the given metadata produces.
pub open spec fn spec_encode(
    id: u32,
    account: Seq<char>,
    version: u64,
    created_at: u64,
    obj: CatalogObjectView<u32>,
) -> CatalogObjectRowView {
    CatalogObjectRowView {
        id,
        account,
        version,
        type_entry: spec_type_of(obj),
        item_data: if obj is Item {
            Some(obj->Item_0)
        } else {
            None
        },
        item_variation_data: if obj is Variation {
            Some(obj->Variation_0)
        } else {
            None
        },
        item_modification_data: if obj is Modification {
            Some(obj->Modification_0)
        } else {
            None
        },
        item_delivery_data: if obj is Delivery {
            Some(obj->Delivery_0)
        } else {
            None
        },
        item_control_data: if obj is Control {
            Some(obj->Control_0)
        } else {
            None
        },
        created_at,
    }
}

/// The object a row decodes to, or `None` when the slot selected by the
/// type tag is unpopulated.
pub open spec fn spec_decode(row: CatalogObjectRowView) -> Option<CatalogObjectView<u32>> {
    match row.type_entry {
        CatalogType::Item => match row.item_data {
            Some(it) => Some(CatalogObjectView::Item(it)),
            None => None,
        },
        CatalogType::Variation => match row.item_variation_data {
            Some(v) => Some(CatalogObjectView::Variation(v)),
            None => None,
        },
        CatalogType::Modification => match row.item_modification_data {
            Some(m) => Some(CatalogObjectView::Modification(m)),
            None => None,
        },
        CatalogType::Delivery => match row.item_delivery_data {
            Some(d) => Some(CatalogObjectView::Delivery(d)),
            None => None,
        },
        CatalogType::Control => match row.item_control_data {
            Some(c) => Some(CatalogObjectView::Control(c)),
            None => None,
        },
    }
}

/// A row is well formed when exactly the slot selected by its tag is
/// populated; the codec establishes this and the store preserves it.
pub open spec fn row_wf(row: CatalogObjectRowView) -> bool {
    &&& (row.item_data is Some <==> row.type_entry == CatalogType::Item)
    &&& (row.item_variation_data is Some <==> row.type_entry == CatalogType::Variation)
    &&& (row.item_modification_data is Some <==> row.type_entry == CatalogType::Modification)
    &&& (row.item_delivery_data is Some <==> row.type_entry == CatalogType::Delivery)
    &&& (row.item_control_data is Some <==> row.type_entry == CatalogType::Control)
}

/// Encoding then decoding returns the object unchanged, for every valid
/// object and any metadata (round trip).
pub proof fn lemma_codec_round_trip(
    id: u32,
    account: Seq<char>,
    version: u64,
    created_at: u64,
    obj: CatalogObjectView<u32>,
)
    ensures
        spec_decode(spec_encode(id, account, version, created_at, obj)) == Some(obj),
        row_wf(spec_encode(id, account, version, created_at, obj)),
{
}

/// A well-formed row always decodes; decoding fails exactly on corrupt
/// rows.
pub proof fn lemma_wf_row_decodes(row: CatalogObjectRowView)
    ensures
        row_wf(row) ==> spec_decode(row) is Some,
{
}

/// The tag under which an object is persisted.
pub fn type_of(obj: &CatalogObject<u32>) -> (t: CatalogType)
    ensures
        t == spec_type_of(obj@),
{
    match obj {
        CatalogObject::Item(_) => CatalogType::Item,
        CatalogObject::Variation(_) => CatalogType::Variation,
        CatalogObject::Modification(_) => CatalogType::Modification,
        CatalogObject::Delivery(_) => CatalogType::Delivery,
        CatalogObject::Control(_) => CatalogType::Control,
    }
}

impl CatalogObjectRow {
    /// Encodes `obj` as the row persisted under the given metadata.
    pub fn encode(
        id: u32,
        account: String,
        version: u64,
        created_at: u64,
        obj: CatalogObject<u32>,
    ) -> (row: Self)
        ensures
            row@ == spec_encode(id, account@, version, created_at, obj@),
            row_wf(row@),
    {
        let type_entry = match &obj {
            CatalogObject::Item(_) => CatalogType::Item,
            CatalogObject::Variation(_) => CatalogType::Variation,
            CatalogObject::Modification(_) => CatalogType::Modification,
            CatalogObject::Delivery(_) => CatalogType::Delivery,
            CatalogObject::Control(_) => CatalogType::Control,
        };
        let (item_data, item_variation_data, item_modification_data, item_delivery_data,
            item_control_data) = match obj {
            CatalogObject::Item(it) => (Some(it), None, None, None, None),
            CatalogObject::Variation(v) => (None, Some(v), None, None, None),
            CatalogObject::Modification(m) => (None, None, Some(m), None, None),
            CatalogObject::Delivery(d) => (None, None, None, Some(d), None),
            CatalogObject::Control(c) => (None, None, None, None, Some(c)),
        };
        let row = CatalogObjectRow {
            id,
            account,
            version,
            type_entry,
            item_data,
            item_variation_data,
            item_modification_data,
            item_delivery_data,
            item_control_data,
            created_at,
        };
        proof {
            assert(row@ =~= spec_encode(id, row.account@, version, created_at, obj@));
        }
        row
    }

    /// Decodes the row back to a typed catalog object; a row whose
    /// populated slot does not match its tag is corrupt, never a panic.
    pub fn to_catalog_entry(&self) -> (r: Result<CatalogObject<u32>, CatalogError>)
        ensures
            match r {
                Ok(obj) => spec_decode(self@) == Some(obj@),
                Err(e) => spec_decode(self@) is None && e == CatalogError::MappingError,
            },
    {
        match self.type_entry {
            CatalogType::Item => match &self.item_data {
                Some(it) => Ok(CatalogObject::Item(it.clone())),
                None => Err(CatalogError::MappingError),
            },
            CatalogType::Variation => match &self.item_variation_data {
                Some(v) => Ok(CatalogObject::Variation(v.clone())),
                None => Err(CatalogError::MappingError),
            },
            CatalogType::Modification => match &self.item_modification_data {
                Some(m) => Ok(CatalogObject::Modification(m.clone())),
                None => Err(CatalogError::MappingError),
            },
            CatalogType::Delivery => match &self.item_delivery_data {
                Some(d) => Ok(CatalogObject::Delivery(d.clone())),
                None => Err(CatalogError::MappingError),
            },
            CatalogType::Control => match &self.item_control_data {
                Some(c) => Ok(CatalogObject::Control(c.clone())),
                None => Err(CatalogError::MappingError),
            },
        }
    }

    /// Decodes the row and attaches its storage metadata.
    pub fn to_catalog_entry_document(&self) -> (r: Result<
        CatalogObjectDocument<u32, String>,
        CatalogError,
    >)
        ensures
            match r {
                Ok(doc) => {
                    &&& spec_decode(self@) == Some(doc.catalog_object@)
                    &&& doc@ == (CatalogObjectDocumentView {
                        id: self@.id,
                        account: self@.account,
                        version: self@.version,
                        created_at: self@.created_at,
                        catalog_object: doc.catalog_object@,
                    })
                },
                Err(e) => spec_decode(self@) is None && e == CatalogError::MappingError,
            },
    {
        let entry = self.to_catalog_entry()?;
        Ok(
            CatalogObjectDocument {
                id: self.id,
                account: self.account.clone(),
                version: self.version,
                created_at: self.created_at,
                catalog_object: entry,
            },
        )
    }
}

} // verus!
