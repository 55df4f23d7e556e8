use vstd::prelude::*;
use vstd::string::StringExecFns;

verus! {

/// The role of an account. Roles are recorded and carried in tokens.
#[derive(Debug, Clone, Copy, PartialEq, Eq, Structural)]
pub enum UserRole {
    SuperAdmin,
    StoreAdmin,
    Staff,
    Customer,
}

/// The stable string of a role, as tokens and responses carry it.
pub open spec fn role_name(r: UserRole) -> Seq<char> {
    match r {
        UserRole::SuperAdmin => "super_admin"@,
        UserRole::StoreAdmin => "store_admin"@,
        UserRole::Staff => "staff"@,
        UserRole::Customer => "customer"@,
    }
}

impl UserRole {
    pub fn as_string(&self) -> (r: String)
        ensures
            r@ == role_name(*self),
    {
        match self {
            UserRole::SuperAdmin => String::from_str("super_admin"),
            UserRole::StoreAdmin => String::from_str("store_admin"),
            UserRole::Staff => String::from_str("staff"),
            UserRole::Customer => String::from_str("customer"),
        }
    }
}

/// Publication state of a product.
#[derive(Debug, Clone, Copy, PartialEq, Eq, Structural)]
pub enum ProductStatus {
    Draft,
    Active,
    Archived,
}

pub open spec fn status_name(s: ProductStatus) -> Seq<char> {
    match s {
        ProductStatus::Draft => "draft"@,
        ProductStatus::Active => "active"@,
        ProductStatus::Archived => "archived"@,
    }
}

impl ProductStatus {
    pub fn as_string(&self) -> (r: String)
        ensures
            r@ == status_name(*self),
    {
        match self {
            ProductStatus::Draft => String::from_str("draft"),
            ProductStatus::Active => String::from_str("active"),
            ProductStatus::Archived => String::from_str("archived"),
        }
    }
}

/// Orderings a product listing may ask for.
#[derive(Debug, Clone, Copy, PartialEq, Eq, Structural)]
pub enum ProductSort {
    PriceAsc,
    PriceDesc,
    CreatedAtDesc,
    NameAsc,
}

/// An account of a store. Identifiers are 128-bit values; instants are
/// unix seconds.
#[derive(Debug, Clone)]
pub struct User {
    pub id: u128,
    pub store_id: u128,
    pub email: String,
    pub password_hash: String,
    pub first_name: Option<String>,
    pub last_name: Option<String>,
    pub role: UserRole,
    pub is_active: bool,
    pub created_at: i64,
    pub updated_at: i64,
}

/// The public face of an account: no password hash.
#[derive(Debug, Clone)]
pub struct UserProfile {
    pub id: u128,
    pub email: String,
    pub first_name: Option<String>,
    pub last_name: Option<String>,
    pub role: UserRole,
    pub created_at: i64,
}

pub open spec fn profile_of(u: User) -> UserProfile {
    UserProfile {
        id: u.id,
        email: u.email,
        first_name: u.first_name,
        last_name: u.last_name,
        role: u.role,
        created_at: u.created_at,
    }
}

impl UserProfile {
    pub fn from_user(u: User) -> (r: Self)
        ensures
            r == profile_of(u),
    {
        UserProfile {
            id: u.id,
            email: u.email,
            first_name: u.first_name,
            last_name: u.last_name,
            role: u.role,
            created_at: u.created_at,
        }
    }
}

/// Who owns a cart: an account, or a guest known by a session token.
#[derive(Debug, Clone)]
pub enum CartOwner {
    User(u128),
    Guest(String),
}

/// A cart. Exactly one of `user_id` and `session_id` is set.
#[derive(Debug, Clone)]
pub struct Cart {
    pub id: u128,
    pub store_id: u128,
    pub user_id: Option<u128>,
    pub session_id: Option<String>,
    pub created_at: i64,
    pub updated_at: i64,
}

pub fn copy_text(s: &Option<String>) -> (r: Option<String>)
    ensures
        r == *s,
{
    match s {
        Some(t) => Some(t.clone()),
        None => None,
    }
}

impl Cart {
    /// A copy of the cart, equal to it field by field.
    pub fn duplicate(&self) -> (r: Cart)
        ensures
            r == *self,
    {
        Cart {
            id: self.id,
            store_id: self.store_id,
            user_id: self.user_id,
            session_id: copy_text(&self.session_id),
            created_at: self.created_at,
            updated_at: self.updated_at,
        }
    }
}

/// A line of a cart; at most one per (cart, product, variant).
#[derive(Debug, Clone, Copy)]
pub struct CartItem {
    pub id: u128,
    pub cart_id: u128,
    pub product_id: u128,
    pub variant_id: Option<u128>,
    pub quantity: i32,
    pub created_at: i64,
    pub updated_at: i64,
}

/// A product of the catalog, with what the cart reads of it.
#[derive(Debug, Clone)]
pub struct Product {
    pub id: u128,
    pub store_id: u128,
    pub category_id: Option<u128>,
    pub name: String,
    pub slug: String,
    pub description: Option<String>,
    pub sku: Option<String>,
    pub price: i32,
    pub stock_quantity: i32,
    pub image_url: Option<String>,
    pub status: ProductStatus,
    pub is_featured: bool,
    pub created_at: i64,
    pub updated_at: i64,
}

/// A variant of a product, with its own price and stock.
#[derive(Debug, Clone)]
pub struct ProductVariant {
    pub id: u128,
    pub product_id: u128,
    pub name: String,
    pub price: i32,
    pub stock_quantity: i32,
}

} // verus!
