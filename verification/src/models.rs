//! The catalog object model: a tagged union over items, variations,
//! modifications, delivery specs and control templates, together with the
//! spec-level views that contracts are stated over.
//!
//! Monetary amounts are integral (the smallest unit of the asset, scaled by
//! `asset_scale`); timestamps are logical ticks assigned by the store.

use vstd::prelude::*;

verus! {

/// Measurement unit of a variation.
#[derive(Clone, Copy, Debug, PartialEq, Eq)]
pub enum ItemMeasurmentUnits {
    Time,
    Area,
    Custom,
    Generic,
    Units,
    Length,
    Volume,
    Weight,
}

/// Business category of an item.
#[derive(Clone, Copy, Debug, PartialEq, Eq)]
pub enum ItemCategory {
    Shop,
    Restaurant,
    Liquor,
    Beuty,
    FashionAndAccesories,
    Technology,
    Home,
    FarmacyAndHelth,
    VehiclesAndAccesories,
    Sports,
    Pets,
    ArtAndCrafts,
    ToolsAndGarden,
    BabysAndKids,
    Entertainment,
    ToysAndGames,
    BusinessesAndSupplies,
    SexShop,
    PaperWork,
}

/// A price: an integral amount of the named asset at the given scale.
#[derive(Debug, PartialEq)]
pub enum Price {
    Fixed { amount: u64, asset_name: String, asset_scale: i8 },
}

/// A duration in seconds.
#[derive(Clone, Copy, Debug, PartialEq, Eq)]
pub enum Time {
    Fixed { seconds: u32 },
}

/// A reference to a stored image.
#[derive(Debug, PartialEq)]
pub struct Image {
    pub url: String,
}

impl Default for Image {
    /// The default image: an empty location.
    fn default() -> (r: Self)
        ensures
            r.url@ == Seq::<char>::empty(),
    {
        Image { url: String::new() }
    }
}

/// One key/value attribute pair.
#[derive(Debug, PartialEq)]
pub struct KeyValue {
    pub key: String,
    pub value: String,
}

/// The root record of a catalog hierarchy.
#[derive(Debug, PartialEq)]
pub struct Item {
    pub category: ItemCategory,
    pub tags: Vec<String>,
    pub name: String,
    pub images: Vec<Image>,
    pub description: String,
    pub enabled: bool,
    pub warranty_time: Option<Time>,
}

/// A sellable variation of an item.
#[derive(Debug, PartialEq)]
pub struct ItemVariation<Id> {
    pub item_id: Id,
    pub name: String,
    pub processing_time: Option<Time>,
    pub sku: String,
    pub images: Vec<Image>,
    pub upc: Option<String>,
    pub enabled: bool,
    pub measurement_units: ItemMeasurmentUnits,
    pub available_units: i32,
    pub price: Price,
    /// Free-form attributes, kept as an ordered list of pairs; key
    /// uniqueness is the caller's responsibility.
    pub extra_attributes: Option<Vec<KeyValue>>,
}

/// An optional modification of an item.
#[derive(Debug, PartialEq)]
pub struct ItemModification<Id> {
    pub item_id: Id,
    pub name: String,
    pub processing_time: Option<Time>,
    pub warranty_time: Option<Time>,
    pub images: Vec<Image>,
    pub price: Price,
    pub enabled: bool,
}

/// Physical delivery dimensions of an item.
#[derive(Clone, Copy, Debug, PartialEq, Eq)]
pub enum Delivery {
    Shipping { width_mm: i32, length_mm: i32, height_mm: i32, weight_grams: i32 },
}

/// The delivery spec attached to an item.
#[derive(Debug, PartialEq)]
pub struct ItemDelivery<Id> {
    pub item_id: Id,
    pub delivery: Delivery,
}

/// One named property of a matrix control with its options.
#[derive(Debug, PartialEq)]
pub struct MatrixProp {
    pub name: String,
    pub options: Vec<String>,
}

/// One combination cell: a combination key mapped to a sibling record.
#[derive(Debug, PartialEq)]
pub struct Combination<Id> {
    pub key: String,
    pub target: Id,
}

/// A combinatorial control: property options and combination cells.
///
/// The cells form a combination-key to identifier map kept as an ordered
/// list; as with batch aliases, key uniqueness is the caller's
/// responsibility and is not enforced here.
#[derive(Debug, PartialEq)]
pub struct MatrixControl<Id> {
    pub combinations: Vec<Combination<Id>>,
    pub key_template: String,
    pub props: Vec<MatrixProp>,
}

/// One typed field of a form control.
#[derive(Debug, PartialEq)]
pub enum FormItem {
    Text(Vec<KeyValue>),
    Email(Vec<KeyValue>),
    Password(Vec<KeyValue>),
}

/// The control sub-union: a matrix or an ordered form.
#[derive(Debug, PartialEq)]
pub enum Control<Id> {
    Matrix(MatrixControl<Id>),
    Form(Vec<FormItem>),
}

/// A control template attached to an item.
#[derive(Debug, PartialEq)]
pub struct ItemControl<Id> {
    pub item_id: Id,
    pub control: Control<Id>,
}

/// The tagged union over the five catalog record kinds.
#[derive(Debug, PartialEq)]
pub enum CatalogObject<Id> {
    Item(Item),
    Variation(ItemVariation<Id>),
    Modification(ItemModification<Id>),
    Delivery(ItemDelivery<Id>),
    Control(ItemControl<Id>),
}

/// A catalog object enriched with its storage metadata; the unit returned
/// to callers.
#[derive(Debug, PartialEq)]
pub struct CatalogObjectDocument<Id, Account> {
    pub id: Id,
    pub account: Account,
    pub version: u64,
    pub created_at: u64,
    pub catalog_object: CatalogObject<Id>,
}

/// Input unit for bulk creation: parent references inside `catalog_object`
/// are aliases rather than durable identifiers.
#[derive(Debug, PartialEq)]
pub struct CatalogObjectBulkDocument<Id> {
    pub id: Option<Id>,
    pub catalog_object: CatalogObject<Id>,
}

impl<Id> CatalogObject<Id> {
    /// The item payload, when this object is an `Item`.
    pub fn item(&self) -> (r: Option<&Item>)
        ensures
            match *self {
                CatalogObject::Item(_) => r matches Some(it) && *it == self->Item_0,
                _ => r is None,
            },
    {
        match self {
            CatalogObject::Item(it) => Some(it),
            _ => None,
        }
    }
}

// ---------------------------------------------------------------------------
// Spec-level views.  Contracts are stated over these mathematical mirrors
// of the executable types.
// ---------------------------------------------------------------------------

#[verifier::ext_equal]
pub ghost enum PriceView {
    Fixed { amount: u64, asset_name: Seq<char>, asset_scale: i8 },
}

#[verifier::ext_equal]
pub ghost struct ImageView {
    pub url: Seq<char>,
}

#[verifier::ext_equal]
pub ghost struct KeyValueView {
    pub key: Seq<char>,
    pub value: Seq<char>,
}

#[verifier::ext_equal]
pub ghost struct ItemView {
    pub category: ItemCategory,
    pub tags: Seq<Seq<char>>,
    pub name: Seq<char>,
    pub images: Seq<ImageView>,
    pub description: Seq<char>,
    pub enabled: bool,
    pub warranty_time: Option<Time>,
}

#[verifier::ext_equal]
pub ghost struct ItemVariationView<IdV> {
    pub item_id: IdV,
    pub name: Seq<char>,
    pub processing_time: Option<Time>,
    pub sku: Seq<char>,
    pub images: Seq<ImageView>,
    pub upc: Option<Seq<char>>,
    pub enabled: bool,
    pub measurement_units: ItemMeasurmentUnits,
    pub available_units: i32,
    pub price: PriceView,
    pub extra_attributes: Option<Seq<KeyValueView>>,
}

#[verifier::ext_equal]
pub ghost struct ItemModificationView<IdV> {
    pub item_id: IdV,
    pub name: Seq<char>,
    pub processing_time: Option<Time>,
    pub warranty_time: Option<Time>,
    pub images: Seq<ImageView>,
    pub price: PriceView,
    pub enabled: bool,
}

#[verifier::ext_equal]
pub ghost struct ItemDeliveryView<IdV> {
    pub item_id: IdV,
    pub delivery: Delivery,
}

#[verifier::ext_equal]
pub ghost struct MatrixPropView {
    pub name: Seq<char>,
    pub options: Seq<Seq<char>>,
}

#[verifier::ext_equal]
pub ghost struct CombinationView<IdV> {
    pub key: Seq<char>,
    pub target: IdV,
}

#[verifier::ext_equal]
pub ghost struct MatrixControlView<IdV> {
    pub combinations: Seq<CombinationView<IdV>>,
    pub key_template: Seq<char>,
    pub props: Seq<MatrixPropView>,
}

#[verifier::ext_equal]
pub ghost enum FormItemView {
    Text(Seq<KeyValueView>),
    Email(Seq<KeyValueView>),
    Password(Seq<KeyValueView>),
}

#[verifier::ext_equal]
pub ghost enum ControlView<IdV> {
    Matrix(MatrixControlView<IdV>),
    Form(Seq<FormItemView>),
}

#[verifier::ext_equal]
pub ghost struct ItemControlView<IdV> {
    pub item_id: IdV,
    pub control: ControlView<IdV>,
}

#[verifier::ext_equal]
pub ghost enum CatalogObjectView<IdV> {
    Item(ItemView),
    Variation(ItemVariationView<IdV>),
    Modification(ItemModificationView<IdV>),
    Delivery(ItemDeliveryView<IdV>),
    Control(ItemControlView<IdV>),
}

#[verifier::ext_equal]
pub ghost struct CatalogObjectDocumentView<IdV> {
    pub id: IdV,
    pub account: Seq<char>,
    pub version: u64,
    pub created_at: u64,
    pub catalog_object: CatalogObjectView<IdV>,
}

#[verifier::ext_equal]
pub ghost struct CatalogObjectBulkDocumentView<IdV> {
    pub id: Option<IdV>,
    pub catalog_object: CatalogObjectView<IdV>,
}

impl View for Price {
    type V = PriceView;

    open spec fn view(&self) -> PriceView {
        match *self {
            Price::Fixed { amount, ref asset_name, asset_scale } => PriceView::Fixed {
                amount,
                asset_name: asset_name@,
                asset_scale,
            },
        }
    }
}

impl DeepView for Price {
    type V = PriceView;

    open spec fn deep_view(&self) -> PriceView {
        self.view()
    }
}

impl View for Image {
    type V = ImageView;

    open spec fn view(&self) -> ImageView {
        ImageView { url: self.url@ }
    }
}

impl DeepView for Image {
    type V = ImageView;

    open spec fn deep_view(&self) -> ImageView {
        self.view()
    }
}

impl View for KeyValue {
    type V = KeyValueView;

    open spec fn view(&self) -> KeyValueView {
        KeyValueView { key: self.key@, value: self.value@ }
    }
}

impl DeepView for KeyValue {
    type V = KeyValueView;

    open spec fn deep_view(&self) -> KeyValueView {
        self.view()
    }
}

impl View for Item {
    type V = ItemView;

    open spec fn view(&self) -> ItemView {
        ItemView {
            category: self.category,
            tags: self.tags.deep_view(),
            name: self.name@,
            images: self.images.deep_view(),
            description: self.description@,
            enabled: self.enabled,
            warranty_time: self.warranty_time,
        }
    }
}

impl DeepView for Item {
    type V = ItemView;

    open spec fn deep_view(&self) -> ItemView {
        self.view()
    }
}

impl<Id: DeepView> View for ItemVariation<Id> {
    type V = ItemVariationView<Id::V>;

    open spec fn view(&self) -> ItemVariationView<Id::V> {
        ItemVariationView {
            item_id: self.item_id.deep_view(),
            name: self.name@,
            processing_time: self.processing_time,
            sku: self.sku@,
            images: self.images.deep_view(),
            upc: self.upc.deep_view(),
            enabled: self.enabled,
            measurement_units: self.measurement_units,
            available_units: self.available_units,
            price: self.price@,
            extra_attributes: self.extra_attributes.deep_view(),
        }
    }
}

impl<Id: DeepView> DeepView for ItemVariation<Id> {
    type V = ItemVariationView<Id::V>;

    open spec fn deep_view(&self) -> ItemVariationView<Id::V> {
        self.view()
    }
}

impl<Id: DeepView> View for ItemModification<Id> {
    type V = ItemModificationView<Id::V>;

    open spec fn view(&self) -> ItemModificationView<Id::V> {
        ItemModificationView {
            item_id: self.item_id.deep_view(),
            name: self.name@,
            processing_time: self.processing_time,
            warranty_time: self.warranty_time,
            images: self.images.deep_view(),
            price: self.price@,
            enabled: self.enabled,
        }
    }
}

impl<Id: DeepView> DeepView for ItemModification<Id> {
    type V = ItemModificationView<Id::V>;

    open spec fn deep_view(&self) -> ItemModificationView<Id::V> {
        self.view()
    }
}

impl<Id: DeepView> View for ItemDelivery<Id> {
    type V = ItemDeliveryView<Id::V>;

    open spec fn view(&self) -> ItemDeliveryView<Id::V> {
        ItemDeliveryView { item_id: self.item_id.deep_view(), delivery: self.delivery }
    }
}

impl<Id: DeepView> DeepView for ItemDelivery<Id> {
    type V = ItemDeliveryView<Id::V>;

    open spec fn deep_view(&self) -> ItemDeliveryView<Id::V> {
        self.view()
    }
}

impl View for MatrixProp {
    type V = MatrixPropView;

    open spec fn view(&self) -> MatrixPropView {
        MatrixPropView { name: self.name@, options: self.options.deep_view() }
    }
}

impl DeepView for MatrixProp {
    type V = MatrixPropView;

    open spec fn deep_view(&self) -> MatrixPropView {
        self.view()
    }
}

impl<Id: DeepView> View for Combination<Id> {
    type V = CombinationView<Id::V>;

    open spec fn view(&self) -> CombinationView<Id::V> {
        CombinationView { key: self.key@, target: self.target.deep_view() }
    }
}

impl<Id: DeepView> DeepView for Combination<Id> {
    type V = CombinationView<Id::V>;

    open spec fn deep_view(&self) -> CombinationView<Id::V> {
        self.view()
    }
}

impl<Id: DeepView> View for MatrixControl<Id> {
    type V = MatrixControlView<Id::V>;

    open spec fn view(&self) -> MatrixControlView<Id::V> {
        MatrixControlView {
            combinations: self.combinations.deep_view(),
            key_template: self.key_template@,
            props: self.props.deep_view(),
        }
    }
}

impl<Id: DeepView> DeepView for MatrixControl<Id> {
    type V = MatrixControlView<Id::V>;

    open spec fn deep_view(&self) -> MatrixControlView<Id::V> {
        self.view()
    }
}

impl View for FormItem {
    type V = FormItemView;

    open spec fn view(&self) -> FormItemView {
        match *self {
            FormItem::Text(ref attrs) => FormItemView::Text(attrs.deep_view()),
            FormItem::Email(ref attrs) => FormItemView::Email(attrs.deep_view()),
            FormItem::Password(ref attrs) => FormItemView::Password(attrs.deep_view()),
        }
    }
}

impl DeepView for FormItem {
    type V = FormItemView;

    open spec fn deep_view(&self) -> FormItemView {
        self.view()
    }
}

impl<Id: DeepView> View for Control<Id> {
    type V = ControlView<Id::V>;

    open spec fn view(&self) -> ControlView<Id::V> {
        match *self {
            Control::Matrix(ref m) => ControlView::Matrix(m@),
            Control::Form(ref fields) => ControlView::Form(fields.deep_view()),
        }
    }
}

impl<Id: DeepView> DeepView for Control<Id> {
    type V = ControlView<Id::V>;

    open spec fn deep_view(&self) -> ControlView<Id::V> {
        self.view()
    }
}

impl<Id: DeepView> View for ItemControl<Id> {
    type V = ItemControlView<Id::V>;

    open spec fn view(&self) -> ItemControlView<Id::V> {
        ItemControlView { item_id: self.item_id.deep_view(), control: self.control@ }
    }
}

impl<Id: DeepView> DeepView for ItemControl<Id> {
    type V = ItemControlView<Id::V>;

    open spec fn deep_view(&self) -> ItemControlView<Id::V> {
        self.view()
    }
}

impl<Id: DeepView> View for CatalogObject<Id> {
    type V = CatalogObjectView<Id::V>;

    open spec fn view(&self) -> CatalogObjectView<Id::V> {
        match *self {
            CatalogObject::Item(ref it) => CatalogObjectView::Item(it@),
            CatalogObject::Variation(ref v) => CatalogObjectView::Variation(v@),
            CatalogObject::Modification(ref m) => CatalogObjectView::Modification(m@),
            CatalogObject::Delivery(ref d) => CatalogObjectView::Delivery(d@),
            CatalogObject::Control(ref c) => CatalogObjectView::Control(c@),
        }
    }
}

impl<Id: DeepView> DeepView for CatalogObject<Id> {
    type V = CatalogObjectView<Id::V>;

    open spec fn deep_view(&self) -> CatalogObjectView<Id::V> {
        self.view()
    }
}

impl<Id: DeepView> View for CatalogObjectDocument<Id, String> {
    type V = CatalogObjectDocumentView<Id::V>;

    open spec fn view(&self) -> CatalogObjectDocumentView<Id::V> {
        CatalogObjectDocumentView {
            id: self.id.deep_view(),
            account: self.account@,
            version: self.version,
            created_at: self.created_at,
            catalog_object: self.catalog_object@,
        }
    }
}

impl<Id: DeepView> DeepView for CatalogObjectDocument<Id, String> {
    type V = CatalogObjectDocumentView<Id::V>;

    open spec fn deep_view(&self) -> CatalogObjectDocumentView<Id::V> {
        self.view()
    }
}

impl<Id: DeepView> View for CatalogObjectBulkDocument<Id> {
    type V = CatalogObjectBulkDocumentView<Id::V>;

    open spec fn view(&self) -> CatalogObjectBulkDocumentView<Id::V> {
        CatalogObjectBulkDocumentView {
            id: self.id.deep_view(),
            catalog_object: self.catalog_object@,
        }
    }
}

impl<Id: DeepView> DeepView for CatalogObjectBulkDocument<Id> {
    type V = CatalogObjectBulkDocumentView<Id::V>;

    open spec fn deep_view(&self) -> CatalogObjectBulkDocumentView<Id::V> {
        self.view()
    }
}

// ---------------------------------------------------------------------------
// Cloning.  Each impl promises that the copy has the same view as the
// original, which is what the store's contracts are stated over.
// ---------------------------------------------------------------------------

pub(crate) fn clone_strings(v: &Vec<String>) -> (r: Vec<String>)
    ensures
        r.deep_view() == v.deep_view(),
{
    let r = v.clone();
    proof {
        assert forall|i: int| 0 <= i < v.len() implies r.deep_view()[i] == v.deep_view()[i] by {
            assert(cloned::<String>(v[i], r[i]));
        }
        assert(r.deep_view() =~= v.deep_view());
    }
    r
}

pub(crate) fn clone_opt_string(v: &Option<String>) -> (r: Option<String>)
    ensures
        r.deep_view() == v.deep_view(),
{
    match v {
        Option::Some(s) => Option::Some(s.clone()),
        Option::None => Option::None,
    }
}

pub(crate) fn clone_images(v: &Vec<Image>) -> (r: Vec<Image>)
    ensures
        r.deep_view() == v.deep_view(),
{
    let r = v.clone();
    proof {
        assert forall|i: int| 0 <= i < v.len() implies r.deep_view()[i] == v.deep_view()[i] by {
            assert(cloned::<Image>(v[i], r[i]));
        }
        assert(r.deep_view() =~= v.deep_view());
    }
    r
}

pub(crate) fn clone_attrs(v: &Vec<KeyValue>) -> (r: Vec<KeyValue>)
    ensures
        r.deep_view() == v.deep_view(),
{
    let r = v.clone();
    proof {
        assert forall|i: int| 0 <= i < v.len() implies r.deep_view()[i] == v.deep_view()[i] by {
            assert(cloned::<KeyValue>(v[i], r[i]));
        }
        assert(r.deep_view() =~= v.deep_view());
    }
    r
}

pub(crate) fn clone_opt_attrs(v: &Option<Vec<KeyValue>>) -> (r: Option<Vec<KeyValue>>)
    ensures
        r.deep_view() == v.deep_view(),
{
    match v {
        Option::Some(xs) => Option::Some(clone_attrs(xs)),
        Option::None => Option::None,
    }
}

pub(crate) fn clone_props(v: &Vec<MatrixProp>) -> (r: Vec<MatrixProp>)
    ensures
        r.deep_view() == v.deep_view(),
{
    let r = v.clone();
    proof {
        assert forall|i: int| 0 <= i < v.len() implies r.deep_view()[i] == v.deep_view()[i] by {
            assert(cloned::<MatrixProp>(v[i], r[i]));
        }
        assert(r.deep_view() =~= v.deep_view());
    }
    r
}

pub(crate) fn clone_form_items(v: &Vec<FormItem>) -> (r: Vec<FormItem>)
    ensures
        r.deep_view() == v.deep_view(),
{
    let r = v.clone();
    proof {
        assert forall|i: int| 0 <= i < v.len() implies r.deep_view()[i] == v.deep_view()[i] by {
            assert(cloned::<FormItem>(v[i], r[i]));
        }
        assert(r.deep_view() =~= v.deep_view());
    }
    r
}

pub(crate) fn clone_combinations(v: &Vec<Combination<u32>>) -> (r: Vec<Combination<u32>>)
    ensures
        r.deep_view() == v.deep_view(),
{
    let r = v.clone();
    proof {
        assert forall|i: int| 0 <= i < v.len() implies r.deep_view()[i] == v.deep_view()[i] by {
            assert(cloned::<Combination<u32>>(v[i], r[i]));
        }
        assert(r.deep_view() =~= v.deep_view());
    }
    r
}

impl Clone for Image {
    fn clone(&self) -> (res: Self)
        ensures
            res@ == self@,
    {
        Image { url: self.url.clone() }
    }
}

impl Clone for KeyValue {
    fn clone(&self) -> (res: Self)
        ensures
            res@ == self@,
    {
        KeyValue { key: self.key.clone(), value: self.value.clone() }
    }
}

impl Clone for Price {
    fn clone(&self) -> (res: Self)
        ensures
            res@ == self@,
    {
        match self {
            Price::Fixed { amount, asset_name, asset_scale } => Price::Fixed {
                amount: *amount,
                asset_name: asset_name.clone(),
                asset_scale: *asset_scale,
            },
        }
    }
}

impl Clone for Item {
    fn clone(&self) -> (res: Self)
        ensures
            res@ == self@,
    {
        let res = Item {
            category: self.category,
            tags: clone_strings(&self.tags),
            name: self.name.clone(),
            images: clone_images(&self.images),
            description: self.description.clone(),
            enabled: self.enabled,
            warranty_time: self.warranty_time,
        };
        proof {
            assert(res@ =~= self@);
        }
        res
    }
}

impl Clone for MatrixProp {
    fn clone(&self) -> (res: Self)
        ensures
            res@ == self@,
    {
        let res = MatrixProp { name: self.name.clone(), options: clone_strings(&self.options) };
        proof {
            assert(res@ =~= self@);
        }
        res
    }
}

impl Clone for FormItem {
    fn clone(&self) -> (res: Self)
        ensures
            res@ == self@,
    {
        match self {
            FormItem::Text(attrs) => FormItem::Text(clone_attrs(attrs)),
            FormItem::Email(attrs) => FormItem::Email(clone_attrs(attrs)),
            FormItem::Password(attrs) => FormItem::Password(clone_attrs(attrs)),
        }
    }
}

impl Clone for Combination<u32> {
    fn clone(&self) -> (res: Self)
        ensures
            res@ == self@,
    {
        Combination { key: self.key.clone(), target: self.target }
    }
}

impl Clone for MatrixControl<u32> {
    fn clone(&self) -> (res: Self)
        ensures
            res@ == self@,
    {
        let res = MatrixControl {
            combinations: clone_combinations(&self.combinations),
            key_template: self.key_template.clone(),
            props: clone_props(&self.props),
        };
        proof {
            assert(res@ =~= self@);
        }
        res
    }
}

impl Clone for Control<u32> {
    fn clone(&self) -> (res: Self)
        ensures
            res@ == self@,
    {
        match self {
            Control::Matrix(m) => Control::Matrix(m.clone()),
            Control::Form(fields) => Control::Form(clone_form_items(fields)),
        }
    }
}

impl Clone for ItemControl<u32> {
    fn clone(&self) -> (res: Self)
        ensures
            res@ == self@,
    {
        ItemControl { item_id: self.item_id, control: self.control.clone() }
    }
}

impl Clone for ItemVariation<u32> {
    fn clone(&self) -> (res: Self)
        ensures
            res@ == self@,
    {
        let res = ItemVariation {
            item_id: self.item_id,
            name: self.name.clone(),
            processing_time: self.processing_time,
            sku: self.sku.clone(),
            images: clone_images(&self.images),
            upc: clone_opt_string(&self.upc),
            enabled: self.enabled,
            measurement_units: self.measurement_units,
            available_units: self.available_units,
            price: self.price.clone(),
            extra_attributes: clone_opt_attrs(&self.extra_attributes),
        };
        proof {
            assert(res@ =~= self@);
        }
        res
    }
}

impl Clone for ItemModification<u32> {
    fn clone(&self) -> (res: Self)
        ensures
            res@ == self@,
    {
        let res = ItemModification {
            item_id: self.item_id,
            name: self.name.clone(),
            processing_time: self.processing_time,
            warranty_time: self.warranty_time,
            images: clone_images(&self.images),
            price: self.price.clone(),
            enabled: self.enabled,
        };
        proof {
            assert(res@ =~= self@);
        }
        res
    }
}

impl Clone for ItemDelivery<u32> {
    fn clone(&self) -> (res: Self)
        ensures
            res@ == self@,
    {
        ItemDelivery { item_id: self.item_id, delivery: self.delivery }
    }
}

impl Clone for CatalogObject<u32> {
    fn clone(&self) -> (res: Self)
        ensures
            res@ == self@,
    {
        match self {
            CatalogObject::Item(it) => CatalogObject::Item(it.clone()),
            CatalogObject::Variation(v) => CatalogObject::Variation(v.clone()),
            CatalogObject::Modification(m) => CatalogObject::Modification(m.clone()),
            CatalogObject::Delivery(d) => CatalogObject::Delivery(d.clone()),
            CatalogObject::Control(c) => CatalogObject::Control(c.clone()),
        }
    }
}

} // verus!
