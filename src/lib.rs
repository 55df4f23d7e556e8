//! A multi-tenant store front: accounts and sessions, a catalog, and carts.
//!
//! The two cores are [`auth::Accounts`] (registration, login, refresh-token
//! rotation and logout over a user store and a token ledger) and the cart
//! engine ([`cart::CartStore`] with [`cart_view`]): owner resolution,
//! additive stock-checked updates, merging a guest cart into a user cart and
//! derived totals. [`storefront::Storefront`] puts them together the way the
//! HTTP routes use them. Token signing and password hashing are handed in by
//! the caller; the library states what it does with their results.

use vstd::prelude::*;

pub mod auth;
pub mod cart;
pub mod cart_view;
pub mod catalog;
pub mod categories;
pub mod common;
pub mod dto;
pub mod error;
pub mod ledger;
pub mod models;
pub mod pagination;
pub mod products;
pub mod session;
pub mod slug;
pub mod storefront;
pub mod token;
pub mod users;

verus! {

} // verus!
