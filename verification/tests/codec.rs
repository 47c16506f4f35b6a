use merchant::bulk::make_id_by_index;
use merchant::codec::{CatalogObjectRow, CatalogType};
use merchant::models::{
    CatalogObject, Delivery, Image, Item, ItemCategory, ItemDelivery, ItemMeasurmentUnits,
    ItemVariation, KeyValue, Price, Time,
};
use merchant::service::CatalogError;
use merchant::text::u32_to_string;

fn sample_item() -> Item {
    Item {
        category: ItemCategory::Technology,
        tags: vec!["gadget".to_string()],
        name: "sample".to_string(),
        images: vec![Image {
            url: "https://example.test/a.png".to_string(),
        }],
        description: "a sample item".to_string(),
        enabled: true,
        warranty_time: Some(Time::Fixed { seconds: 3600 }),
    }
}

fn sample_variation() -> ItemVariation<u32> {
    ItemVariation {
        item_id: 7,
        name: "sample variation".to_string(),
        processing_time: None,
        sku: "sku-9".to_string(),
        images: vec![],
        upc: Some("0012345".to_string()),
        enabled: true,
        measurement_units: ItemMeasurmentUnits::Units,
        available_units: 3,
        price: Price::Fixed {
            amount: 1250,
            asset_name: "USD".to_string(),
            asset_scale: 2,
        },
        extra_attributes: Some(vec![KeyValue {
            key: "color".to_string(),
            value: "red".to_string(),
        }]),
    }
}

#[test]
fn encode_then_decode_returns_the_item() {
    let object = CatalogObject::Item(sample_item());
    let row = CatalogObjectRow::encode(4, "account".to_string(), 1, 1, object);
    assert_eq!(row.type_entry, CatalogType::Item);
    assert!(row.item_data.is_some());
    assert!(row.item_variation_data.is_none());
    let decoded = row.to_catalog_entry().expect("a fresh row must decode");
    assert_eq!(decoded, CatalogObject::Item(sample_item()));
}

#[test]
fn encode_then_decode_returns_the_variation() {
    let object = CatalogObject::Variation(sample_variation());
    let row = CatalogObjectRow::encode(9, "account".to_string(), 2, 2, object);
    assert_eq!(row.type_entry, CatalogType::Variation);
    let decoded = row.to_catalog_entry().expect("a fresh row must decode");
    assert_eq!(decoded, CatalogObject::Variation(sample_variation()));
}

#[test]
fn encode_then_decode_returns_the_delivery() {
    let object = CatalogObject::Delivery(ItemDelivery {
        item_id: 5,
        delivery: Delivery::Shipping {
            width_mm: 1,
            length_mm: 1,
            height_mm: 1,
            weight_grams: 200,
        },
    });
    let row = CatalogObjectRow::encode(11, "account".to_string(), 3, 3, object);
    assert_eq!(row.type_entry, CatalogType::Delivery);
    let decoded = row.to_catalog_entry().expect("a fresh row must decode");
    match decoded {
        CatalogObject::Delivery(d) => assert_eq!(
            d.delivery,
            Delivery::Shipping {
                width_mm: 1,
                length_mm: 1,
                height_mm: 1,
                weight_grams: 200,
            }
        ),
        _ => panic!("the decoded object should be a delivery"),
    }
}

#[test]
fn corrupt_row_is_a_mapping_error() {
    let object = CatalogObject::Item(sample_item());
    let mut row = CatalogObjectRow::encode(4, "account".to_string(), 1, 1, object);
    row.type_entry = CatalogType::Variation;
    let err = row.to_catalog_entry().unwrap_err();
    assert_eq!(err, CatalogError::MappingError);
    let err = row.to_catalog_entry_document().unwrap_err();
    assert_eq!(err, CatalogError::MappingError);
}

#[test]
fn document_carries_row_metadata() {
    let object = CatalogObject::Item(sample_item());
    let row = CatalogObjectRow::encode(21, "owner".to_string(), 8, 6, object);
    let doc = row.to_catalog_entry_document().unwrap();
    assert_eq!(doc.id, 21);
    assert_eq!(doc.account, "owner".to_string());
    assert_eq!(doc.version, 8);
    assert_eq!(doc.created_at, 6);
    assert_eq!(doc.catalog_object, CatalogObject::Item(sample_item()));
}

#[test]
fn tag_names_parse_back() {
    for tag in [
        CatalogType::Item,
        CatalogType::Variation,
        CatalogType::Modification,
        CatalogType::Delivery,
        CatalogType::Control,
    ] {
        assert_eq!(CatalogType::parse(tag.name()), Some(tag));
    }
    assert_eq!(CatalogType::parse("item"), None);
    assert_eq!(CatalogType::parse(""), None);
    assert_eq!(CatalogType::name(CatalogType::Item), "Item");
}

#[test]
fn decimal_rendering_matches_std() {
    for n in [0u32, 7, 10, 99, 100, 12345, u32::MAX] {
        assert_eq!(u32_to_string(n), n.to_string());
    }
}

#[test]
fn positional_alias_shape() {
    assert_eq!(make_id_by_index(0), "#0-index");
    assert_eq!(make_id_by_index(7), "#7-index");
    assert_eq!(make_id_by_index(42), "#42-index");
}
