use goseli::cart::CartStore;
use goseli::catalog::Catalog;
use goseli::error::ApiError;
use goseli::models::{CartOwner, Product, ProductStatus, ProductVariant};

const STORE: u128 = 1;
const A: u128 = 100;
const B: u128 = 200;
const SHIRT_L: u128 = 300;

fn product(id: u128, name: &str, price: i32, stock: i32) -> Product {
    Product {
        id,
        store_id: STORE,
        name: name.to_string(),
        slug: name.to_lowercase(),
        price,
        stock_quantity: stock,
        image_url: Some(format!("/img/{}.png", id)),
        status: ProductStatus::Active,
        category_id: None,
        description: None,
        sku: None,
        is_featured: false,
        created_at: 0,
        updated_at: 0,
    }
}

fn catalog() -> Catalog {
    let mut c = Catalog::new();
    c.add_product(product(A, "Mug", 1200, 10)).unwrap();
    c.add_product(product(B, "Shirt", 2500, 3)).unwrap();
    c.add_variant(ProductVariant { id: SHIRT_L, product_id: B, name: "Large".to_string(), price: 2700, stock_quantity: 2 }).unwrap();
    c
}

fn store_with_cart(owner: CartOwner, cart_id: u128) -> CartStore {
    let mut s = CartStore::new();
    s.get_or_create_cart(STORE, owner, cart_id, 0).unwrap();
    s
}

#[test]
fn catalog_rejects_duplicates_and_negatives() {
    let mut c = catalog();
    assert!(matches!(c.add_product(product(A, "Again", 1, 1)), Err(ApiError::Conflict(_))));
    assert!(matches!(c.add_product(product(7, "Bad", -1, 1)), Err(ApiError::Validation(_))));
    assert!(matches!(
        c.add_variant(ProductVariant { id: 9, product_id: 999, name: "x".to_string(), price: 1, stock_quantity: 1 }),
        Err(ApiError::NotFound(_))
    ));
    assert_eq!(c.stock_for(B, Some(SHIRT_L)).unwrap(), (2, "Shirt".to_string()));
    assert_eq!(c.stock_for(A, None).unwrap(), (10, "Mug".to_string()));
    assert!(matches!(c.stock_for(A, Some(12345)), Err(ApiError::NotFound(_))));
}

#[test]
fn get_or_create_finds_the_same_cart() {
    let mut s = CartStore::new();
    let c1 = s.get_or_create_cart(STORE, CartOwner::Guest("sid".to_string()), 1, 0).unwrap();
    let c2 = s.get_or_create_cart(STORE, CartOwner::Guest("sid".to_string()), 2, 0).unwrap();
    assert_eq!(c1.id, 1);
    assert_eq!(c2.id, 1);
    assert_eq!(c1.session_id, Some("sid".to_string()));
    assert_eq!(c1.user_id, None);
    let u = s.get_or_create_cart(STORE, CartOwner::User(5), 3, 0).unwrap();
    assert_eq!(u.id, 3);
    assert_eq!(u.user_id, Some(5));
    assert_eq!(u.session_id, None);
    assert!(matches!(s.get_or_create_cart(STORE, CartOwner::User(6), 3, 0), Err(ApiError::Database(_))));
    assert_eq!(s.carts.len(), 2);
}

#[test]
fn adding_twice_adds_up() {
    let c = catalog();
    let mut s = store_with_cart(CartOwner::User(5), 1);
    let first = s.add_item(&c, 1, A, None, 2, 11, 10).unwrap();
    assert_eq!(first.quantity, 2);
    let second = s.add_item(&c, 1, A, None, 3, 12, 20).unwrap();
    assert_eq!(second.quantity, 5);
    assert_eq!(second.id, 11);
    assert_eq!(second.updated_at, 20);
    assert_eq!(s.items.len(), 1);
}

#[test]
fn stock_bound_refuses_and_changes_nothing() {
    let c = catalog();
    let mut s = store_with_cart(CartOwner::User(5), 1);
    s.add_item(&c, 1, A, None, 8, 11, 10).unwrap();
    let before = s.clone();
    match s.add_item(&c, 1, A, None, 3, 12, 20) {
        Err(ApiError::BadRequest(m)) => assert_eq!(m, "Not enough stock for Mug. Available: 10, Requested: 11"),
        _ => panic!("expected BadRequest"),
    }
    assert_eq!(s.items.len(), before.items.len());
    assert_eq!(s.items[0].quantity, 8);
    assert!(matches!(s.add_item(&c, 1, B, Some(SHIRT_L), 3, 13, 20), Err(ApiError::BadRequest(_))));
    assert!(s.add_item(&c, 1, B, Some(SHIRT_L), 2, 13, 20).is_ok());
    let item = s.items[0].id;
    assert!(matches!(s.update_item_quantity(&c, item, 1, 11, 30), Err(ApiError::BadRequest(_))));
    assert_eq!(s.items[0].quantity, 8);
    assert_eq!(s.update_item_quantity(&c, item, 1, 10, 30).unwrap().quantity, 10);
}

#[test]
fn add_item_errors() {
    let c = catalog();
    let mut s = store_with_cart(CartOwner::User(5), 1);
    assert!(matches!(s.add_item(&c, 1, A, None, 0, 11, 10), Err(ApiError::Validation(_))));
    assert!(matches!(s.add_item(&c, 99, A, None, 1, 11, 10), Err(ApiError::NotFound(_))));
    assert!(matches!(s.add_item(&c, 1, 999, None, 1, 11, 10), Err(ApiError::NotFound(_))));
    assert!(matches!(s.add_item(&c, 1, A, Some(999), 1, 11, 10), Err(ApiError::NotFound(_))));
    s.add_item(&c, 1, A, None, 1, 11, 10).unwrap();
    assert!(matches!(s.add_item(&c, 1, B, None, 1, 11, 10), Err(ApiError::Database(_))));
}

#[test]
fn variant_and_plain_product_are_separate_lines() {
    let c = catalog();
    let mut s = store_with_cart(CartOwner::User(5), 1);
    s.add_item(&c, 1, B, None, 1, 11, 10).unwrap();
    s.add_item(&c, 1, B, Some(SHIRT_L), 1, 12, 10).unwrap();
    assert_eq!(s.items.len(), 2);
}

#[test]
fn update_and_remove_need_the_line_in_that_cart() {
    let c = catalog();
    let mut s = store_with_cart(CartOwner::User(5), 1);
    s.get_or_create_cart(STORE, CartOwner::User(6), 2, 0).unwrap();
    s.add_item(&c, 1, A, None, 1, 11, 10).unwrap();
    assert!(matches!(s.update_item_quantity(&c, 11, 2, 1, 10), Err(ApiError::NotFound(_))));
    assert!(matches!(s.update_item_quantity(&c, 11, 1, 0, 10), Err(ApiError::Validation(_))));
    assert!(matches!(s.remove_item(11, 2), Err(ApiError::NotFound(_))));
    assert!(s.remove_item(11, 1).is_ok());
    assert!(matches!(s.remove_item(11, 1), Err(ApiError::NotFound(_))));
}

#[test]
fn clear_cart_is_idempotent_and_local() {
    let c = catalog();
    let mut s = store_with_cart(CartOwner::User(5), 1);
    s.get_or_create_cart(STORE, CartOwner::User(6), 2, 0).unwrap();
    s.add_item(&c, 1, A, None, 1, 11, 10).unwrap();
    s.add_item(&c, 1, B, None, 1, 12, 10).unwrap();
    s.add_item(&c, 2, A, None, 4, 13, 10).unwrap();
    s.clear_cart(1);
    assert_eq!(s.items.len(), 1);
    assert_eq!(s.items[0].cart_id, 2);
    s.clear_cart(1);
    assert_eq!(s.items.len(), 1);
}

#[test]
fn cart_view_joins_current_prices() {
    let mut c = catalog();
    let mut s = store_with_cart(CartOwner::User(5), 1);
    s.add_item(&c, 1, A, None, 2, 11, 10).unwrap();
    s.add_item(&c, 1, B, Some(SHIRT_L), 1, 12, 11).unwrap();
    let view = s.get_cart_with_items(&c, 1).unwrap();
    assert_eq!(view.id, 1);
    assert_eq!(view.items.len(), 2);
    assert_eq!(view.items[0].product_name, "Mug");
    assert_eq!(view.items[0].price, 1200);
    assert_eq!(view.items[0].subtotal, 2400);
    assert_eq!(view.items[0].variant_name, None);
    assert_eq!(view.items[0].product_image_url, Some(format!("/img/{}.png", A)));
    assert_eq!(view.items[1].price, 2700);
    assert_eq!(view.items[1].variant_name, Some("Large".to_string()));
    assert_eq!(view.total, 2400 + 2700);
    assert_eq!(view.item_count, 3);
    c.products[0].price = 1000;
    let view = s.get_cart_with_items(&c, 1).unwrap();
    assert_eq!(view.total, 2000 + 2700);
    assert!(matches!(s.get_cart_with_items(&c, 42), Err(ApiError::NotFound(_))));
    let empty = store_with_cart(CartOwner::User(9), 7).get_cart_with_items(&c, 7).unwrap();
    assert_eq!(empty.total, 0);
    assert_eq!(empty.item_count, 0);
    assert!(empty.items.is_empty());
}

#[test]
fn merging_guest_cart_adds_quantities() {
    let c = catalog();
    let mut s = CartStore::new();
    s.get_or_create_cart(STORE, CartOwner::Guest("sid".to_string()), 1, 0).unwrap();
    s.get_or_create_cart(STORE, CartOwner::User(5), 2, 0).unwrap();
    s.add_item(&c, 1, A, None, 2, 11, 10).unwrap();
    s.add_item(&c, 1, B, None, 1, 12, 10).unwrap();
    s.add_item(&c, 2, A, None, 1, 13, 10).unwrap();
    s.merge_carts(1, 2, 20).unwrap();
    assert_eq!(s.carts.len(), 1);
    assert_eq!(s.carts[0].id, 2);
    let view = s.get_cart_with_items(&c, 2).unwrap();
    let qty = |p: u128| view.items.iter().find(|i| i.product_id == p).map(|i| i.quantity);
    assert_eq!(qty(A), Some(3));
    assert_eq!(qty(B), Some(1));
    assert_eq!(view.items.len(), 2);
    assert!(s.items.iter().all(|i| i.cart_id == 2));
    assert!(matches!(s.get_cart_with_items(&c, 1), Err(ApiError::NotFound(_))));
}

#[test]
fn merge_refusals() {
    let c = catalog();
    let mut s = store_with_cart(CartOwner::User(5), 2);
    assert!(matches!(s.merge_carts(1, 2, 0), Err(ApiError::NotFound(_))));
    assert!(matches!(s.merge_carts(2, 2, 0), Err(ApiError::BadRequest(_))));
    s.get_or_create_cart(STORE, CartOwner::Guest("g".to_string()), 1, 0).unwrap();
    s.add_item(&c, 1, A, None, 1, 11, 0).unwrap();
    s.items[0].quantity = i32::MAX;
    s.add_item(&c, 2, A, None, 1, 12, 0).unwrap();
    assert!(matches!(s.merge_carts(1, 2, 0), Err(ApiError::BadRequest(_))));
    assert_eq!(s.carts.len(), 2);
}
