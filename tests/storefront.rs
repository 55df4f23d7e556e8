use goseli::dto::{AddToCartRequest, LoginRequest, RegisterRequest, UpdateCartItemRequest};
use goseli::error::ApiError;
use goseli::models::{CartOwner, Product, ProductStatus};
use goseli::session::resolve_cart_owner;
use goseli::storefront::Storefront;
use goseli::token::{Claims, TokenConfig};

const STORE: u128 = 1;

fn guest(sid: &str) -> CartOwner {
    resolve_cart_owner(None, Some(sid.to_string())).0
}

fn sign(c: Claims) -> Result<String, ApiError> {
    Ok(format!("{}.{}.{}.{}", c.sub, c.jti, c.iat, c.exp))
}

fn verify(password: String, hash: String) -> bool {
    hash == format!("hash:{}", password)
}

fn shop() -> Storefront {
    let mut s = Storefront::new(TokenConfig::from_settings(Some("k".to_string()), None, None), true);
    s.catalog
        .add_product(Product {
            id: 100,
            store_id: STORE,
            name: "Mug".to_string(),
            slug: "mug".to_string(),
            price: 1200,
            stock_quantity: 10,
            image_url: None,
            status: ProductStatus::Active,
            category_id: None,
            description: None,
            sku: None,
            is_featured: false,
            created_at: 0,
            updated_at: 0,
        })
        .unwrap();
    s
}

#[test]
fn guest_adds_to_cart() {
    let mut s = shop();
    let req = AddToCartRequest { product_id: 100, variant_id: None, quantity: 2 };
    let view = s.add_to_cart(STORE, guest("sid"), req, 1, 11, 0).unwrap();
    assert_eq!(view.total, 2400);
    let again = s.get_cart(STORE, guest("sid"), 2, 0).unwrap();
    assert_eq!(again.id, view.id);
    assert_eq!(again.item_count, 2);
    let bad = AddToCartRequest { product_id: 100, variant_id: None, quantity: 0 };
    assert!(matches!(s.add_to_cart(STORE, guest("sid"), bad, 1, 12, 0), Err(ApiError::Validation(_))));
}

#[test]
fn signed_in_user_has_own_cart() {
    let mut s = shop();
    let view = s.get_cart(STORE, CartOwner::User(5), 1, 0).unwrap();
    let item = AddToCartRequest { product_id: 100, variant_id: None, quantity: 1 };
    s.add_to_cart(STORE, CartOwner::User(5), item, 2, 11, 0).unwrap();
    let updated = s.update_cart_item(STORE, CartOwner::User(5), 11, UpdateCartItemRequest { quantity: 4 }, 3, 0).unwrap();
    assert_eq!(updated.id, view.id);
    assert_eq!(updated.item_count, 4);
    assert!(s.remove_cart_item(STORE, CartOwner::User(5), 11, 3, 0).is_ok());
    assert!(matches!(s.remove_cart_item(STORE, CartOwner::User(5), 11, 3, 0), Err(ApiError::NotFound(_))));
    assert!(s.clear_cart(STORE, CartOwner::User(5), 3, 0).is_ok());
}

#[test]
fn login_then_merge_guest_cart() {
    let mut s = shop();
    let cfg = s.config.clone();
    let reg = RegisterRequest { email: "a@x.com".to_string(), password: "password1".to_string(), first_name: None, last_name: None };
    s.accounts.register(&cfg, STORE, reg, "hash:password1".to_string(), 5, 50, 0, &sign).unwrap();
    let item = AddToCartRequest { product_id: 100, variant_id: None, quantity: 2 };
    s.add_to_cart(STORE, guest("sid"), item, 1, 11, 0).unwrap();
    let item = AddToCartRequest { product_id: 100, variant_id: None, quantity: 1 };
    s.add_to_cart(STORE, CartOwner::User(5), item, 2, 12, 0).unwrap();
    let login = LoginRequest { email: "a@x.com".to_string(), password: "password1".to_string() };
    let out = s.login(STORE, login, Some("sid".to_string()), 51, 3, 10, &verify, &sign).unwrap();
    assert_eq!(out.user.id, 5);
    let view = s.get_cart(STORE, CartOwner::User(5), 4, 10).unwrap();
    assert_eq!(view.item_count, 3);
    assert!(!s.merge_guest_cart(STORE, 5, "sid".to_string(), 3, 10).unwrap());
    assert_eq!(s.carts.carts.len(), 1);
}

#[test]
fn merge_guest_cart_on_its_own() {
    let mut s = shop();
    let item = AddToCartRequest { product_id: 100, variant_id: None, quantity: 2 };
    s.add_to_cart(STORE, guest("g"), item, 1, 11, 0).unwrap();
    assert!(s.merge_guest_cart(STORE, 7, "g".to_string(), 2, 0).unwrap());
    let view = s.get_cart(STORE, CartOwner::User(7), 3, 0).unwrap();
    assert_eq!(view.id, 2);
    assert_eq!(view.item_count, 2);
    assert!(!s.merge_guest_cart(STORE, 7, "nobody".to_string(), 4, 0).unwrap());
}

#[test]
fn fresh_guest_gets_a_cookie_and_its_cart() {
    let mut s = shop();
    let (owner, cookie) = resolve_cart_owner(None, None);
    let sid = match &owner {
        CartOwner::Guest(sid) => sid.clone(),
        CartOwner::User(_) => panic!("a guest was expected"),
    };
    assert_eq!(cookie, Some(format!("goseli_session={}; Path=/; HttpOnly; SameSite=Lax; Max-Age=2592000", sid)));
    let item = AddToCartRequest { product_id: 100, variant_id: None, quantity: 1 };
    let view = s.add_to_cart(STORE, owner, item, 1, 11, 0).unwrap();
    let (again, cookie) = resolve_cart_owner(None, Some(sid));
    assert!(cookie.is_none());
    assert_eq!(s.get_cart(STORE, again, 2, 0).unwrap().id, view.id);
}

#[test]
fn cart_refusals_by_first_failing_check() {
    let mut s = shop();
    s.get_cart(STORE, CartOwner::User(5), 1, 0).unwrap();
    // A new owner whose cart id is taken cannot get a cart.
    assert!(matches!(s.get_cart(STORE, CartOwner::User(6), 1, 0), Err(ApiError::Database(_))));
    let too_many = AddToCartRequest { product_id: 100, variant_id: None, quantity: 11 };
    match s.add_to_cart(STORE, CartOwner::User(5), too_many, 2, 11, 0) {
        Err(ApiError::BadRequest(m)) => assert_eq!(m, "Not enough stock for Mug. Available: 10, Requested: 11"),
        _ => panic!("expected BadRequest"),
    }
    assert!(matches!(s.remove_cart_item(STORE, CartOwner::User(5), 99, 2, 0), Err(ApiError::NotFound(_))));
    assert!(matches!(
        s.update_cart_item(STORE, CartOwner::User(5), 99, UpdateCartItemRequest { quantity: 1 }, 2, 0),
        Err(ApiError::NotFound(_))
    ));
}
