use goseli::error::ApiError;
use goseli::models::{ProductStatus, UserRole};
use goseli::session::{get_or_create_session_id, resolve_cart_owner, session_cookie};
use goseli::models::CartOwner;
use goseli::slug::{slugify, slugify_lowered};

#[test]
fn status_and_code_per_kind() {
    let cases = vec![
        (ApiError::not_found("x".to_string()), 404, "not_found"),
        (ApiError::bad_request("x".to_string()), 400, "bad_request"),
        (ApiError::unauthorized("x".to_string()), 401, "unauthorized"),
        (ApiError::forbidden("x".to_string()), 403, "forbidden"),
        (ApiError::conflict("x".to_string()), 409, "conflict"),
        (ApiError::validation("x".to_string()), 422, "validation_error"),
        (ApiError::internal("x".to_string()), 500, "internal_error"),
        (ApiError::Database("x".to_string()), 500, "internal_error"),
    ];
    for (e, status, code) in cases {
        assert_eq!(e.status_code(), status);
        assert_eq!(e.code(), code);
    }
}

#[test]
fn internal_details_stay_hidden() {
    let e = ApiError::internal("SELECT * FROM users failed".to_string());
    assert_eq!(e.public_message(), "An internal error occurred");
    let e = ApiError::Database("connection refused".to_string());
    let body = e.to_response();
    assert_eq!(body.error.code, "internal_error");
    assert_eq!(body.error.message, "An internal error occurred");
    assert!(body.error.details.is_none());
    let e = ApiError::not_found("Cart not found".to_string());
    let body = e.to_response();
    assert_eq!(body.error.code, "not_found");
    assert_eq!(body.error.message, "Cart not found");
}

#[test]
fn role_and_status_names() {
    assert_eq!(UserRole::Customer.as_string(), "customer");
    assert_eq!(UserRole::SuperAdmin.as_string(), "super_admin");
    assert_eq!(UserRole::StoreAdmin.as_string(), "store_admin");
    assert_eq!(UserRole::Staff.as_string(), "staff");
    assert_eq!(ProductStatus::Draft.as_string(), "draft");
    assert_eq!(ProductStatus::Active.as_string(), "active");
    assert_eq!(ProductStatus::Archived.as_string(), "archived");
}

#[test]
fn slugs() {
    assert_eq!(slugify("Hello World!"), "hello-world");
    assert_eq!(slugify("  --Summer  Sale-- 2024 "), "summer-sale-2024");
    assert_eq!(slugify(""), "");
    assert_eq!(slugify("!!!"), "");
    assert_eq!(slugify("Café Crème"), "café-crème");
    assert_eq!(slugify_lowered("a--b__c"), "a-b-c");
    assert_eq!(slugify_lowered("ABC"), "ABC");
}

#[test]
fn guest_session_and_cookie() {
    assert_eq!(get_or_create_session_id(Some("abc".to_string())), "abc");
    let fresh = get_or_create_session_id(None);
    assert_eq!(fresh.len(), 36);
    let (owner, cookie) = resolve_cart_owner(Some(7), Some("abc".to_string()));
    assert!(matches!(owner, CartOwner::User(7)));
    assert!(cookie.is_none());
    let (owner, cookie) = resolve_cart_owner(None, Some("abc".to_string()));
    match owner {
        CartOwner::Guest(s) => assert_eq!(s, "abc"),
        CartOwner::User(_) => panic!("a guest was expected"),
    }
    assert!(cookie.is_none());
    let (owner, cookie) = resolve_cart_owner(None, None);
    match owner {
        CartOwner::Guest(s) => {
            assert_eq!(s.len(), 36);
            assert_eq!(cookie, Some(session_cookie(&s)));
        },
        CartOwner::User(_) => panic!("a guest was expected"),
    }
    assert_eq!(
        session_cookie("abc"),
        "goseli_session=abc; Path=/; HttpOnly; SameSite=Lax; Max-Age=2592000"
    );
}
