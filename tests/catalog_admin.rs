use goseli::catalog::Catalog;
use goseli::categories::{CategoryStore, CreateCategoryRequest, UpdateCategoryRequest};
use goseli::error::ApiError;
use goseli::models::ProductStatus;
use goseli::products::{CreateProductRequest, ProductListParams, UpdateProductRequest};

fn create(name: &str, price: i32) -> CreateProductRequest {
    CreateProductRequest {
        name: name.to_string(),
        description: None,
        price,
        sku: None,
        category_id: None,
        stock_quantity: None,
        status: None,
        is_featured: None,
    }
}

fn no_change() -> UpdateProductRequest {
    UpdateProductRequest {
        name: None,
        description: None,
        price: None,
        sku: None,
        category_id: None,
        stock_quantity: None,
        status: None,
        is_featured: None,
    }
}

fn all() -> ProductListParams {
    ProductListParams { page: None, per_page: None, status: None, category_id: None, sort: None, q: None }
}

#[test]
fn create_product_defaults_and_slug() {
    let mut c = Catalog::new();
    let p = c.create_product(1, 9, create("Blue Coffee Mug!", 1500), 100).unwrap();
    assert_eq!(p.slug, "blue-coffee-mug");
    assert_eq!(p.status, ProductStatus::Draft);
    assert_eq!(p.stock_quantity, 0);
    assert!(!p.is_featured);
    assert_eq!(p.created_at, 100);
    assert!(matches!(c.create_product(1, 9, create("Other", 1), 100), Err(ApiError::Conflict(_))));
    assert!(matches!(c.create_product(2, 9, create("", 1), 100), Err(ApiError::Validation(_))));
    assert!(matches!(c.create_product(2, 9, create("Neg", -1), 100), Err(ApiError::Validation(_))));
    assert_eq!(c.get_product_by_slug(9, "blue-coffee-mug").unwrap().id, 1);
    assert!(matches!(c.get_product_by_slug(8, "blue-coffee-mug"), Err(ApiError::NotFound(_))));
}

#[test]
fn update_keeps_unset_fields_and_reslugs() {
    let mut c = Catalog::new();
    c.create_product(1, 9, create("Mug", 1500), 100).unwrap();
    let mut req = no_change();
    req.price = Some(1700);
    let p = c.update_product(1, req, 200).unwrap();
    assert_eq!(p.price, 1700);
    assert_eq!(p.name, "Mug");
    assert_eq!(p.slug, "mug");
    assert_eq!(p.updated_at, 200);
    let mut req = no_change();
    req.name = Some("Big Mug".to_string());
    let p = c.update_product(1, req, 300).unwrap();
    assert_eq!(p.slug, "big-mug");
    assert_eq!(p.price, 1700);
    assert!(matches!(c.update_product(2, no_change(), 300), Err(ApiError::NotFound(_))));
    c.delete_product(1, 400);
    assert_eq!(c.get_product_by_id(1).unwrap().status, ProductStatus::Archived);
}

#[test]
fn listing_filters_and_pages_newest_first() {
    let mut c = Catalog::new();
    for i in 0..5u128 {
        let mut req = create(&format!("P{}", i), 10);
        req.status = Some(if i % 2 == 0 { ProductStatus::Active } else { ProductStatus::Draft });
        c.create_product(i + 1, 9, req, i as i64).unwrap();
    }
    c.create_product(99, 8, create("Elsewhere", 10), 0).unwrap();
    let ids: Vec<u128> = c.list_products(9, &all()).iter().map(|p| p.id).collect();
    assert_eq!(ids, vec![5, 4, 3, 2, 1]);
    assert_eq!(c.count_products(9, &all()), 5);
    let active = ProductListParams { status: Some(ProductStatus::Active), ..all() };
    let ids: Vec<u128> = c.list_products(9, &active).iter().map(|p| p.id).collect();
    assert_eq!(ids, vec![5, 3, 1]);
    let paged = ProductListParams { page: Some(2), per_page: Some(2), ..all() };
    let ids: Vec<u128> = c.list_products(9, &paged).iter().map(|p| p.id).collect();
    assert_eq!(ids, vec![3, 2]);
    let beyond = ProductListParams { page: Some(9), per_page: Some(2), ..all() };
    assert!(c.list_products(9, &beyond).is_empty());
}

#[test]
fn categories_crud_and_order() {
    let mut s = CategoryStore::new();
    let req = |name: &str, order: Option<i32>| CreateCategoryRequest { name: name.to_string(), description: None, parent_id: None, sort_order: order };
    let a = s.create_category(1, 9, req("Home & Garden", Some(2)), 0).unwrap();
    assert_eq!(a.slug, "home-garden");
    s.create_category(2, 9, req("Books", None), 0).unwrap();
    s.create_category(3, 9, req("Toys", Some(1)), 0).unwrap();
    s.create_category(4, 8, req("Other store", Some(0)), 0).unwrap();
    assert!(matches!(s.create_category(5, 9, req("", None), 0), Err(ApiError::Validation(_))));
    assert!(matches!(s.create_category(1, 9, req("Dup", None), 0), Err(ApiError::Conflict(_))));
    let ids: Vec<u128> = s.list_categories(9).iter().map(|c| c.id).collect();
    assert_eq!(ids, vec![2, 3, 1]);
    let upd = UpdateCategoryRequest { name: Some("Garden".to_string()), description: None, parent_id: None, sort_order: None };
    let c = s.update_category(1, upd, 5).unwrap();
    assert_eq!(c.slug, "garden");
    assert_eq!(c.sort_order, 2);
    assert_eq!(c.summary().name, "Garden");
    assert_eq!(c.to_response().slug, "garden");
    s.delete_category(1);
    assert!(matches!(s.get_category(1), Err(ApiError::NotFound(_))));
    s.delete_category(1);
    assert_eq!(s.categories.len(), 3);
}

#[test]
fn search_ignores_case_in_name_and_description() {
    let mut c = Catalog::new();
    c.create_product(1, 9, create("Blue Mug", 10), 0).unwrap();
    let mut with_text = create("Plate", 10);
    with_text.description = Some("Goes well with a BLUE mug".to_string());
    c.create_product(2, 9, with_text, 1).unwrap();
    c.create_product(3, 9, create("Red Cup", 10), 2).unwrap();
    let q = |s: &str| ProductListParams { q: Some(s.to_string()), ..all() };
    let ids: Vec<u128> = c.list_products(9, &q("blue")).iter().map(|p| p.id).collect();
    assert_eq!(ids, vec![2, 1]);
    let ids: Vec<u128> = c.list_products(9, &q("CUP")).iter().map(|p| p.id).collect();
    assert_eq!(ids, vec![3]);
    assert_eq!(c.count_products(9, &q("")), 3);
    assert_eq!(c.count_products(9, &q("green")), 0);
}
