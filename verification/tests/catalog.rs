use merchant::models::{
    CatalogObject, CatalogObjectBulkDocument, CatalogObjectDocument, Combination, Control, Item,
    ItemCategory, ItemControl, ItemMeasurmentUnits, ItemModification, ItemVariation, MatrixControl,
    MatrixProp, Price,
};
use merchant::query::{Order, OrderBy, Query};
use merchant::service::{
    CatalogCmd, CatalogColumnOrder, CatalogError, IncreaseItemVariationUnitsPayload,
    ListCatalogQueryOptions,
};
use merchant::store::Catalog;

const CATALOG_ACCOUNT: &str = "account";

fn account() -> String {
    CATALOG_ACCOUNT.to_string()
}

fn fake_item_named(name: &str) -> Item {
    Item {
        category: ItemCategory::Shop,
        tags: vec![
            "first-tag".to_string(),
            "second-tag".to_string(),
            "third-tag".to_string(),
        ],
        enabled: true,
        images: vec![],
        name: name.to_string(),
        description: "world".to_string(),
        warranty_time: None,
    }
}

fn fake_item() -> Item {
    fake_item_named("hello")
}

fn fake_item_variation_named<T>(item_id: T, name: &str) -> ItemVariation<T> {
    ItemVariation {
        extra_attributes: None,
        processing_time: None,
        item_id,
        images: vec![],
        enabled: true,
        measurement_units: ItemMeasurmentUnits::Area,
        name: name.to_string(),
        price: Price::Fixed {
            amount: 350,
            asset_name: "USD".to_string(),
            asset_scale: 2,
        },
        sku: "fancy-sku".to_string(),
        available_units: 10,
        upc: None,
    }
}

fn fake_item_variation<T>(item_id: T) -> ItemVariation<T> {
    fake_item_variation_named(item_id, "a variation")
}

fn fake_item_modification<T>(item_id: T) -> ItemModification<T> {
    ItemModification {
        processing_time: None,
        warranty_time: None,
        item_id,
        images: vec![],
        enabled: true,
        name: "a modification".to_string(),
        price: Price::Fixed {
            amount: 450,
            asset_name: "USD".to_string(),
            asset_scale: 2,
        },
    }
}

fn fake_item_control<T>(item_id: T) -> ItemControl<T> {
    ItemControl {
        control: Control::Matrix(MatrixControl {
            combinations: vec![],
            key_template: ":color-:size".to_string(),
            props: vec![
                MatrixProp {
                    name: "color".to_string(),
                    options: vec![
                        "Blue".to_string(),
                        "Red".to_string(),
                        "Yellow".to_string(),
                    ],
                },
                MatrixProp {
                    name: "size".to_string(),
                    options: vec![
                        "S".to_string(),
                        "M".to_string(),
                        "X".to_string(),
                        "L".to_string(),
                    ],
                },
            ],
        }),
        item_id,
    }
}

fn check_item_document(doc: &CatalogObjectDocument<u32, String>, item_object: &Item) {
    assert_eq!(doc.account, account());
    match &doc.catalog_object {
        CatalogObject::Item(item) => {
            assert_eq!(item.tags, item_object.tags);
            assert_eq!(item.name, item_object.name);
            assert_eq!(item.description, item_object.description);
            assert!(item.category == item_object.category, "category are distinct");
        }
        _ => panic!("catalog_object should be an item"),
    }
}

fn check_variation_document<Y>(
    doc: &CatalogObjectDocument<u32, String>,
    variation: &ItemVariation<Y>,
) {
    assert_eq!(doc.account, account());
    match &doc.catalog_object {
        CatalogObject::Variation(v) => {
            assert_eq!(v.images, variation.images);
            assert_eq!(v.measurement_units, variation.measurement_units);
            assert_eq!(v.name, variation.name);
            assert_eq!(v.price, variation.price);
            assert_eq!(v.sku, variation.sku);
            assert_eq!(v.available_units, variation.available_units);
            assert_eq!(v.upc, variation.upc);
        }
        _ => panic!("catalog_object should be a variation"),
    }
}

fn check_modification_document<Y>(
    doc: &CatalogObjectDocument<u32, String>,
    modification: &ItemModification<Y>,
) {
    assert_eq!(doc.account, account());
    match &doc.catalog_object {
        CatalogObject::Modification(m) => {
            assert_eq!(m.images, modification.images);
            assert_eq!(m.name, modification.name);
            assert_eq!(m.price, modification.price);
        }
        _ => panic!("catalog_object should be a modification"),
    }
}

fn check_control_document<Y>(
    doc: &CatalogObjectDocument<u32, String>,
    control_b: &ItemControl<Y>,
) {
    assert_eq!(doc.account, account());
    match &doc.catalog_object {
        CatalogObject::Control(item_control_a) => match (&item_control_a.control, &control_b.control)
        {
            (Control::Matrix(matrix_a), Control::Matrix(matrix_b)) => {
                for cell in matrix_a.combinations.iter() {
                    assert!(
                        matrix_b.combinations.iter().any(|c| c.key == cell.key),
                        "combinations_b dont have the requested key"
                    );
                }
                assert_eq!(matrix_a.key_template, matrix_b.key_template);
                for prop in matrix_b.props.iter() {
                    assert!(
                        matrix_a.props.iter().any(|x| x.name == prop.name),
                        "the control should carry the same props"
                    );
                }
            }
            _ => panic!("not supported other controls than Matrix"),
        },
        _ => panic!("catalog_object should be a control"),
    }
}

fn make_item(catalog: &mut Catalog, item: Item) -> CatalogObjectDocument<u32, String> {
    catalog
        .create(&account(), &CatalogObject::Item(item))
        .expect("item creation should succeed")
}

fn make_variation(
    catalog: &mut Catalog,
    variation: ItemVariation<u32>,
) -> Result<CatalogObjectDocument<u32, String>, CatalogError> {
    catalog.create(&account(), &CatalogObject::Variation(variation))
}

fn unfiltered() -> ListCatalogQueryOptions {
    ListCatalogQueryOptions {
        name: None,
        tags: None,
        max_price: None,
        min_price: None,
    }
}

fn query_with(options: ListCatalogQueryOptions) -> Query<ListCatalogQueryOptions, CatalogColumnOrder>
{
    Query {
        limit: None,
        order_by: None,
        options,
    }
}

#[test]
fn create_item() {
    let mut catalog = Catalog::new();
    let item = fake_item();
    let doc = make_item(&mut catalog, item.clone());
    check_item_document(&doc, &item);
}

#[test]
fn update_item() {
    let mut catalog = Catalog::new();
    let item_old = fake_item_named("old name");
    let item_new = fake_item_named("new name");
    let item_doc = make_item(&mut catalog, item_old.clone());
    check_item_document(&item_doc, &item_old);
    let updated = catalog
        .update(
            &account(),
            &item_doc.id,
            &CatalogObject::Item(item_new.clone()),
        )
        .expect("update should succeed");
    check_item_document(&updated, &item_new);
    match &updated.catalog_object {
        CatalogObject::Item(item_created) => {
            assert_ne!(item_created.name, item_old.name);
            assert_eq!(item_created.name, item_new.name);
        }
        _ => panic!("catalog_object should be an item"),
    }
}

#[test]
fn read_item() {
    let mut catalog = Catalog::new();
    let item = fake_item();
    let item_doc = make_item(&mut catalog, item.clone());
    check_item_document(&item_doc, &item);
    let read_doc = catalog
        .read(&account(), &item_doc.id)
        .expect("read should succeed");
    check_item_document(&read_doc, &item);
    assert_eq!(read_doc, item_doc);
}

#[test]
fn check_if_exists() {
    let mut catalog = Catalog::new();
    let doc = make_item(&mut catalog, fake_item());
    assert!(
        catalog.entry_exists(&account(), &doc.id).unwrap(),
        "it should exists"
    );
    assert!(
        !catalog.entry_exists(&account(), &u32::default()).unwrap(),
        "it should not exists"
    );
}

#[test]
fn read_item_fails_if_id_doesnt_exists() {
    let mut catalog = Catalog::new();
    let _ = make_item(&mut catalog, fake_item());
    let id = u32::default();
    let err = catalog.read(&account(), &id).unwrap_err();
    assert_eq!(err, CatalogError::CatalogEntryNotFound(id.to_string()));
}

#[test]
fn create_item_variation() {
    let mut catalog = Catalog::new();
    let item_doc = make_item(&mut catalog, fake_item());
    let variation = fake_item_variation(item_doc.id);
    let variation_doc =
        make_variation(&mut catalog, variation.clone()).expect("variation should be created");
    check_variation_document(&variation_doc, &variation);
    match &variation_doc.catalog_object {
        CatalogObject::Variation(v) => assert_eq!(v.item_id, item_doc.id),
        _ => panic!("catalog_object should be a variation"),
    }
}

#[test]
fn create_item_variation_fails_if_not_exists_item_id() {
    let mut catalog = Catalog::new();
    let variation = fake_item_variation(u32::default());
    let result = make_variation(&mut catalog, variation);
    assert_eq!(result.unwrap_err(), CatalogError::CatalogBadRequest);
}

#[test]
fn update_variation() {
    let mut catalog = Catalog::new();
    let item_doc = make_item(&mut catalog, fake_item());
    let variation = fake_item_variation_named(item_doc.id, "variation before");
    let variation_new = fake_item_variation_named(item_doc.id, "variation after");
    let variation_doc = make_variation(&mut catalog, variation.clone()).unwrap();
    check_variation_document(&variation_doc, &variation);
    let updated = catalog
        .update(
            &account(),
            &variation_doc.id,
            &CatalogObject::Variation(variation_new.clone()),
        )
        .expect("variation update should succeed");
    check_variation_document(&updated, &variation_new);
    match &updated.catalog_object {
        CatalogObject::Variation(v) => {
            assert_ne!(v.name, variation.name);
            assert_eq!(v.name, variation_new.name);
        }
        _ => panic!("catalog_object should be a variation"),
    }
}

#[test]
fn update_variation_fails_if_not_exists_item_id() {
    let mut catalog = Catalog::new();
    let item_doc = make_item(&mut catalog, fake_item());
    let variation = fake_item_variation(item_doc.id);
    let variation_new = fake_item_variation(u32::default());
    let variation_doc = make_variation(&mut catalog, variation.clone()).unwrap();
    check_variation_document(&variation_doc, &variation);
    let result = catalog.update(
        &account(),
        &variation_doc.id,
        &CatalogObject::Variation(variation_new),
    );
    assert_eq!(result.unwrap_err(), CatalogError::CatalogBadRequest);
}

#[test]
fn read_item_variation() {
    let mut catalog = Catalog::new();
    let item_doc = make_item(&mut catalog, fake_item());
    let variation = fake_item_variation(item_doc.id);
    let variation_doc = make_variation(&mut catalog, variation.clone()).unwrap();
    check_variation_document(&variation_doc, &variation);
    let read_doc = catalog
        .read(&account(), &variation_doc.id)
        .expect("read should succeed");
    check_variation_document(&read_doc, &variation);
}

#[test]
fn list_item_by_name() {
    let mut catalog = Catalog::new();
    let item = fake_item();
    let doc = make_item(&mut catalog, item.clone());
    check_item_document(&doc, &item);

    let query_name_not_exists = query_with(ListCatalogQueryOptions {
        max_price: None,
        min_price: None,
        name: Some("None".to_string()),
        tags: None,
    });
    let query_name_exists = query_with(ListCatalogQueryOptions {
        max_price: None,
        min_price: None,
        name: Some(item.name.clone()),
        tags: None,
    });

    let items_empty = catalog.list(&account(), &query_name_not_exists).unwrap();
    assert_eq!(items_empty.len(), 0);
    let items_found = catalog.list(&account(), &query_name_exists).unwrap();
    assert_eq!(items_found.len(), 1);
    check_item_document(&items_found[0], &item);
}

#[test]
fn list_item_by_name_substring() {
    let mut catalog = Catalog::new();
    let _ = make_item(&mut catalog, fake_item_named("deluxe widget box"));
    let query = query_with(ListCatalogQueryOptions {
        max_price: None,
        min_price: None,
        name: Some("widget".to_string()),
        tags: None,
    });
    let found = catalog.list(&account(), &query).unwrap();
    assert_eq!(found.len(), 1);
    let query_case = query_with(ListCatalogQueryOptions {
        max_price: None,
        min_price: None,
        name: Some("Widget".to_string()),
        tags: None,
    });
    let found_case = catalog.list(&account(), &query_case).unwrap();
    assert_eq!(found_case.len(), 0, "the match is case-sensitive");
}

#[test]
fn list_item_by_min_and_max_amount() {
    let mut catalog = Catalog::new();
    let item_doc = make_item(&mut catalog, fake_item());
    let mut variation = fake_item_variation_named(item_doc.id, "cheap variation");
    variation.price = Price::Fixed {
        amount: 2000,
        asset_name: "USD".to_string(),
        asset_scale: 2,
    };
    let variation_document = make_variation(&mut catalog, variation.clone()).unwrap();
    check_variation_document(&variation_document, &variation);

    let mut variation_two = fake_item_variation_named(item_doc.id, "pricey variation");
    variation_two.price = Price::Fixed {
        amount: 5000,
        asset_name: "USD".to_string(),
        asset_scale: 2,
    };
    let variation_document_two = make_variation(&mut catalog, variation_two.clone()).unwrap();
    check_variation_document(&variation_document_two, &variation_two);

    let min_just_appear_variation_two_query = query_with(ListCatalogQueryOptions {
        max_price: None,
        min_price: Some(5000),
        name: None,
        tags: None,
    });
    let min_appear_variation_two_and_one = Query {
        limit: None,
        order_by: Some(OrderBy {
            field: CatalogColumnOrder::CreatedAt,
            direction: Order::Asc,
        }),
        options: ListCatalogQueryOptions {
            max_price: None,
            min_price: Some(2000),
            name: None,
            tags: None,
        },
    };

    let items_found_variation_two = catalog
        .list(&account(), &min_just_appear_variation_two_query)
        .unwrap();
    assert_eq!(items_found_variation_two.len(), 1);
    check_variation_document(&items_found_variation_two[0], &variation_two);

    let items_found_variation_one_and_two = catalog
        .list(&account(), &min_appear_variation_two_and_one)
        .unwrap();
    assert_eq!(items_found_variation_one_and_two.len(), 2);
    check_variation_document(&items_found_variation_one_and_two[0], &variation);
    check_variation_document(&items_found_variation_one_and_two[1], &variation_two);

    let max_just_appear_variation_one_query = query_with(ListCatalogQueryOptions {
        max_price: Some(2000),
        min_price: None,
        name: None,
        tags: None,
    });
    let max_appear_variation_two_and_one = Query {
        limit: None,
        order_by: Some(OrderBy {
            field: CatalogColumnOrder::CreatedAt,
            direction: Order::Asc,
        }),
        options: ListCatalogQueryOptions {
            max_price: Some(5000),
            min_price: None,
            name: None,
            tags: None,
        },
    };

    let items_found_variation_one = catalog
        .list(&account(), &max_just_appear_variation_one_query)
        .unwrap();
    assert_eq!(items_found_variation_one.len(), 1);
    check_variation_document(&items_found_variation_one[0], &variation);

    let items_found_both = catalog
        .list(&account(), &max_appear_variation_two_and_one)
        .unwrap();
    assert_eq!(items_found_both.len(), 2);
    check_variation_document(&items_found_both[0], &variation);
    check_variation_document(&items_found_both[1], &variation_two);
}

#[test]
fn list_item_by_tags() {
    let mut catalog = Catalog::new();
    let item = fake_item();
    let doc = make_item(&mut catalog, item.clone());
    check_item_document(&doc, &item);

    let query_not_exists_tags = query_with(ListCatalogQueryOptions {
        max_price: None,
        min_price: None,
        name: None,
        tags: Some(vec!["not-existing".to_string()]),
    });
    let query_tags_exists = query_with(ListCatalogQueryOptions {
        max_price: None,
        min_price: None,
        name: None,
        tags: Some(item.tags.clone()),
    });

    let items_empty = catalog.list(&account(), &query_not_exists_tags).unwrap();
    assert_eq!(items_empty.len(), 0);
    let items_found = catalog.list(&account(), &query_tags_exists).unwrap();
    assert_eq!(items_found.len(), 1);
    check_item_document(&items_found[0], &item);
}

#[test]
fn increase_item_in_variations() {
    let mut catalog = Catalog::new();
    let doc = make_item(&mut catalog, fake_item());
    let variation = fake_item_variation(doc.id);
    let variation_document = make_variation(&mut catalog, variation.clone()).unwrap();
    check_variation_document(&variation_document, &variation);

    let command = CatalogCmd::IncreaseItemVariationUnits(IncreaseItemVariationUnitsPayload {
        id: variation_document.id,
        units: 10,
    });
    catalog.cmd(&account(), command).unwrap();

    let read_doc = catalog.read(&account(), &variation_document.id).unwrap();
    match &read_doc.catalog_object {
        CatalogObject::Variation(v) => {
            assert_eq!(v.available_units, variation.available_units + 10)
        }
        _ => panic!("catalog_object should be a variation"),
    }

    let command = CatalogCmd::IncreaseItemVariationUnits(IncreaseItemVariationUnitsPayload {
        id: variation_document.id,
        units: -10,
    });
    catalog.cmd(&account(), command).unwrap();

    let read_doc = catalog.read(&account(), &variation_document.id).unwrap();
    match &read_doc.catalog_object {
        CatalogObject::Variation(v) => {
            assert_eq!(v.available_units, variation.available_units)
        }
        _ => panic!("catalog_object should be a variation"),
    }
}

#[test]
fn create_bulk() {
    let mut catalog = Catalog::new();
    let id_ref = String::from("#item-a");
    let item_a = fake_item();
    let variation_a_for_a = fake_item_variation(id_ref.clone());
    let modification_a_for_a = fake_item_modification(id_ref.clone());
    let mut control_a_for_a = fake_item_control(id_ref.clone());

    if let Control::Matrix(ref mut matrix) = control_a_for_a.control {
        let key = matrix.key_template.clone().replace(":color", "Red");
        let key = key.replace(":size", "L");
        matrix.combinations.push(Combination {
            key,
            target: id_ref.clone(),
        });
    }

    let items: Vec<CatalogObjectBulkDocument<String>> = vec![
        CatalogObjectBulkDocument {
            id: Some(id_ref.clone()),
            catalog_object: CatalogObject::Item(item_a.clone()),
        },
        CatalogObjectBulkDocument {
            id: None,
            catalog_object: CatalogObject::Variation(fake_item_variation(id_ref.clone())),
        },
        CatalogObjectBulkDocument {
            id: None,
            catalog_object: CatalogObject::Modification(fake_item_modification(id_ref.clone())),
        },
        CatalogObjectBulkDocument {
            id: None,
            catalog_object: CatalogObject::Control(control_a_for_a_clone(&control_a_for_a)),
        },
    ];

    let items_docs = catalog.bulk_create(&account(), &items).unwrap();
    assert_eq!(items_docs.len(), 4);

    // the documents come in processing order: identifiers are assigned
    // consecutively, and the item precedes everything that references it
    for (k, doc) in items_docs.iter().enumerate() {
        assert_eq!(doc.id, 1 + k as u32);
    }
    assert!(matches!(items_docs[0].catalog_object, CatalogObject::Item(_)));

    for item_doc in items_docs.iter() {
        match &item_doc.catalog_object {
            CatalogObject::Item(_) => check_item_document(item_doc, &item_a),
            CatalogObject::Modification(_) => {
                check_modification_document(item_doc, &modification_a_for_a)
            }
            CatalogObject::Variation(_) => check_variation_document(item_doc, &variation_a_for_a),
            CatalogObject::Control(_) => check_control_document(item_doc, &control_a_for_a),
            _ => panic!("never should flow through here"),
        }
    }
}

fn control_a_for_a_clone(control: &ItemControl<String>) -> ItemControl<String> {
    let control_inner = match &control.control {
        Control::Matrix(m) => Control::Matrix(MatrixControl {
            combinations: m
                .combinations
                .iter()
                .map(|c| Combination {
                    key: c.key.clone(),
                    target: c.target.clone(),
                })
                .collect(),
            key_template: m.key_template.clone(),
            props: m
                .props
                .iter()
                .map(|p| MatrixProp {
                    name: p.name.clone(),
                    options: p.options.clone(),
                })
                .collect(),
        }),
        Control::Form(_) => panic!("fixture control should be a matrix"),
    };
    ItemControl {
        item_id: control.item_id.clone(),
        control: control_inner,
    }
}

#[test]
fn bulk_variation_points_at_assigned_item_id() {
    let mut catalog = Catalog::new();
    let alias = String::from("#item-a");
    let items: Vec<CatalogObjectBulkDocument<String>> = vec![
        CatalogObjectBulkDocument {
            id: Some(alias.clone()),
            catalog_object: CatalogObject::Item(fake_item()),
        },
        CatalogObjectBulkDocument {
            id: None,
            catalog_object: CatalogObject::Variation(fake_item_variation(alias.clone())),
        },
    ];
    let docs = catalog.bulk_create(&account(), &items).unwrap();
    assert_eq!(docs.len(), 2);
    let item_id = docs
        .iter()
        .find_map(|d| match &d.catalog_object {
            CatalogObject::Item(_) => Some(d.id),
            _ => None,
        })
        .expect("the item should have been created");
    let variation_parent = docs
        .iter()
        .find_map(|d| match &d.catalog_object {
            CatalogObject::Variation(v) => Some(v.item_id),
            _ => None,
        })
        .expect("the variation should have been created");
    assert_eq!(variation_parent, item_id);
}

#[test]
fn bulk_missing_alias_fails() {
    let mut catalog = Catalog::new();
    let items: Vec<CatalogObjectBulkDocument<String>> = vec![CatalogObjectBulkDocument {
        id: None,
        catalog_object: CatalogObject::Variation(fake_item_variation("missing".to_string())),
    }];
    let err = catalog.bulk_create(&account(), &items).unwrap_err();
    assert_eq!(
        err,
        CatalogError::BulkReferenceNotExist("missing".to_string())
    );
    let left = catalog.list(&account(), &query_with(unfiltered())).unwrap();
    assert_eq!(left.len(), 0, "a failed batch with nothing ready creates nothing");
}

#[test]
fn list_without_filters_returns_owner_rows_only() {
    let mut catalog = Catalog::new();
    let other = "someone-else".to_string();
    let mine_one = make_item(&mut catalog, fake_item_named("mine one"));
    let theirs = catalog
        .create(&other, &CatalogObject::Item(fake_item_named("theirs")))
        .unwrap();
    let mine_two = make_item(&mut catalog, fake_item_named("mine two"));

    let docs = catalog.list(&account(), &query_with(unfiltered())).unwrap();
    assert_eq!(docs.len(), 2);
    assert_eq!(docs[0].id, mine_one.id);
    assert_eq!(docs[1].id, mine_two.id);
    assert!(docs.iter().all(|d| d.account == account()));
    assert!(docs.iter().all(|d| d.id != theirs.id));
}


#[test]
fn list_with_limit_caps_results() {
    let mut catalog = Catalog::new();
    let _ = make_item(&mut catalog, fake_item_named("one"));
    let _ = make_item(&mut catalog, fake_item_named("two"));
    let _ = make_item(&mut catalog, fake_item_named("three"));
    let query = Query {
        limit: Some(2),
        order_by: None,
        options: unfiltered(),
    };
    let docs = catalog.list(&account(), &query).unwrap();
    assert_eq!(docs.len(), 2);
}

#[test]
fn list_orders_by_price() {
    let mut catalog = Catalog::new();
    let item_doc = make_item(&mut catalog, fake_item());
    let mut dear = fake_item_variation_named(item_doc.id, "dear");
    dear.price = Price::Fixed {
        amount: 900,
        asset_name: "USD".to_string(),
        asset_scale: 2,
    };
    let mut cheap = fake_item_variation_named(item_doc.id, "cheap");
    cheap.price = Price::Fixed {
        amount: 100,
        asset_name: "USD".to_string(),
        asset_scale: 2,
    };
    let _ = make_variation(&mut catalog, dear).unwrap();
    let _ = make_variation(&mut catalog, cheap).unwrap();

    let ascending = Query {
        limit: None,
        order_by: Some(OrderBy {
            field: CatalogColumnOrder::Price,
            direction: Order::Asc,
        }),
        options: ListCatalogQueryOptions {
            name: None,
            tags: None,
            max_price: None,
            min_price: Some(1),
        },
    };
    let docs = catalog.list(&account(), &ascending).unwrap();
    let amounts: Vec<u64> = docs
        .iter()
        .map(|d| match &d.catalog_object {
            CatalogObject::Variation(v) => match v.price {
                Price::Fixed { amount, .. } => amount,
            },
            _ => panic!("only variations carry a price"),
        })
        .collect();
    assert_eq!(amounts, vec![100, 900]);

    let descending = Query {
        limit: None,
        order_by: Some(OrderBy {
            field: CatalogColumnOrder::Price,
            direction: Order::Desc,
        }),
        options: ListCatalogQueryOptions {
            name: None,
            tags: None,
            max_price: None,
            min_price: Some(1),
        },
    };
    let docs = catalog.list(&account(), &descending).unwrap();
    let amounts: Vec<u64> = docs
        .iter()
        .map(|d| match &d.catalog_object {
            CatalogObject::Variation(v) => match v.price {
                Price::Fixed { amount, .. } => amount,
            },
            _ => panic!("only variations carry a price"),
        })
        .collect();
    assert_eq!(amounts, vec![900, 100]);
}

#[test]
fn increase_on_missing_id_changes_nothing() {
    let mut catalog = Catalog::new();
    let doc = make_item(&mut catalog, fake_item());
    let variation_doc = make_variation(&mut catalog, fake_item_variation(doc.id)).unwrap();
    let command = CatalogCmd::IncreaseItemVariationUnits(IncreaseItemVariationUnitsPayload {
        id: 9999,
        units: 7,
    });
    catalog.cmd(&account(), command).unwrap();
    let read_doc = catalog.read(&account(), &variation_doc.id).unwrap();
    match &read_doc.catalog_object {
        CatalogObject::Variation(v) => assert_eq!(v.available_units, 10),
        _ => panic!("catalog_object should be a variation"),
    }
}

#[test]
fn sequential_increments_accumulate() {
    let mut catalog = Catalog::new();
    let doc = make_item(&mut catalog, fake_item());
    let variation_doc = make_variation(&mut catalog, fake_item_variation(doc.id)).unwrap();
    for _ in 0..3 {
        let command = CatalogCmd::IncreaseItemVariationUnits(IncreaseItemVariationUnitsPayload {
            id: variation_doc.id,
            units: 1,
        });
        catalog.cmd(&account(), command).unwrap();
    }
    let read_doc = catalog.read(&account(), &variation_doc.id).unwrap();
    match &read_doc.catalog_object {
        CatalogObject::Variation(v) => assert_eq!(v.available_units, 13),
        _ => panic!("catalog_object should be a variation"),
    }
}

#[test]
fn update_with_wrong_kind_is_not_found() {
    let mut catalog = Catalog::new();
    let item_doc = make_item(&mut catalog, fake_item());
    let err = catalog
        .update(
            &account(),
            &item_doc.id,
            &CatalogObject::Variation(fake_item_variation(item_doc.id)),
        )
        .unwrap_err();
    assert_eq!(
        err,
        CatalogError::CatalogEntryNotFound(item_doc.id.to_string())
    );
}

#[test]
fn bulk_repeated_alias_shadows_the_earlier_one() {
    let mut catalog = Catalog::new();
    let alias = String::from("twice");
    let items: Vec<CatalogObjectBulkDocument<String>> = vec![
        CatalogObjectBulkDocument {
            id: Some(alias.clone()),
            catalog_object: CatalogObject::Item(fake_item_named("earlier")),
        },
        CatalogObjectBulkDocument {
            id: Some(alias.clone()),
            catalog_object: CatalogObject::Item(fake_item_named("later")),
        },
    ];
    let docs = catalog.bulk_create(&account(), &items).unwrap();
    assert_eq!(docs.len(), 1);
    match &docs[0].catalog_object {
        CatalogObject::Item(item) => assert_eq!(item.name, "later"),
        _ => panic!("the surviving record should be an item"),
    }
}

#[test]
fn bulk_self_reference_fails() {
    let mut catalog = Catalog::new();
    let alias = String::from("v");
    let items: Vec<CatalogObjectBulkDocument<String>> = vec![CatalogObjectBulkDocument {
        id: Some(alias.clone()),
        catalog_object: CatalogObject::Variation(fake_item_variation(alias.clone())),
    }];
    let err = catalog.bulk_create(&account(), &items).unwrap_err();
    assert_eq!(err, CatalogError::BulkReferenceNotExist("v".to_string()));
}

#[test]
fn increase_wraps_on_overflow() {
    let mut catalog = Catalog::new();
    let doc = make_item(&mut catalog, fake_item());
    let variation_doc = make_variation(&mut catalog, fake_item_variation(doc.id)).unwrap();
    let command = CatalogCmd::IncreaseItemVariationUnits(IncreaseItemVariationUnitsPayload {
        id: variation_doc.id,
        units: i32::MAX,
    });
    catalog.cmd(&account(), command).unwrap();
    let read_doc = catalog.read(&account(), &variation_doc.id).unwrap();
    match &read_doc.catalog_object {
        CatalogObject::Variation(v) => {
            assert_eq!(v.available_units, 10i32.wrapping_add(i32::MAX))
        }
        _ => panic!("catalog_object should be a variation"),
    }
}
