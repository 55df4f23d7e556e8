use vstd::prelude::*;
use crate::auth::{issuable, login_refusal, pair_signed_for, recorded_sign_in, Accounts};
use crate::cart::{
    add_accepted, add_error, cart_available, carts_after_resolve, first_owned, has_cart, has_item, has_item_id,
    has_owned, item_with, keeps_other_lines, line_at, has_line, lines_frame, merge_accepted, quantity_in, resolved_cart_id,
    update_accepted, update_error, CartStore,
};
use crate::cart_view::{count_of, enriched, total_of, visible_lines, CartResponse};
use crate::catalog::Catalog;
use crate::categories::CategoryStore;
use crate::dto::{validate_quantity, AddToCartRequest, LoginRequest, SignedIn, UpdateCartItemRequest};
use crate::error::ApiError;
use crate::models::{profile_of, Cart, CartItem, CartOwner};
use crate::token::{Claims, TokenConfig};
use crate::users::{email_taken, user_by_email};

verus! {

/// Both sums of a cart's view fit an `i64`.
pub open spec fn totals_fit(catalog: Catalog, items: Seq<CartItem>, cart_id: u128) -> bool {
    total_of(catalog, visible_lines(catalog, items, cart_id)) <= i64::MAX && count_of(
        visible_lines(catalog, items, cart_id),
    ) <= i64::MAX
}

/// `view` shows cart `cart_id` of `items` against `catalog`.
pub open spec fn shows(view: CartResponse, catalog: Catalog, items: Seq<CartItem>, cart_id: u128) -> bool {
    let lines = visible_lines(catalog, items, cart_id);
    &&& view.id == cart_id
    &&& view.items@.len() == lines.len()
    &&& forall|k: int| 0 <= k < lines.len() ==> enriched(catalog, lines[k], #[trigger] view.items@[k])
    &&& view.total == total_of(catalog, lines)
    &&& view.item_count == count_of(lines)
}

/// What merging the guest cart of `sid` after a sign-in leaves. Without a
/// guest cart nothing changes. Where the user's cart can be had and the
/// merge is accepted, the user cart holds the sum of both and the guest
/// cart is gone. Otherwise the lines stay as they were.
pub open spec fn guest_merge_done(
    before: CartStore,
    after: CartStore,
    store_id: u128,
    user_id: u128,
    sid: String,
    new_cart_id: u128,
    now: i64,
) -> bool {
    let g = first_owned(before.carts@, store_id, CartOwner::Guest(sid)).id;
    let uc = resolved_cart_id(before.carts@, store_id, CartOwner::User(user_id), new_cart_id);
    let carts1 = carts_after_resolve(before.carts@, store_id, CartOwner::User(user_id), new_cart_id, now);
    if !has_owned(before.carts@, store_id, CartOwner::Guest(sid)) {
        after == before
    } else if cart_available(before.carts@, store_id, CartOwner::User(user_id), new_cart_id) && merge_accepted(
        carts1,
        before.items@,
        g,
        uc,
    ) {
        &&& forall|p: u128, v: Option<u128>|
            #[trigger] quantity_in(after.items@, uc, p, v) == quantity_in(before.items@, uc, p, v) + quantity_in(
                before.items@,
                g,
                p,
                v,
            )
        &&& forall|p: u128, v: Option<u128>| #[trigger] quantity_in(after.items@, g, p, v) == 0
        &&& forall|c: u128, p: u128, v: Option<u128>|
            c != uc && c != g ==> #[trigger] quantity_in(after.items@, c, p, v) == quantity_in(before.items@, c, p, v)
        &&& !has_cart(after.carts@, g)
        &&& has_cart(after.carts@, uc)
        &&& forall|y: CartItem|
            y.cart_id != uc && y.cart_id != g ==> (#[trigger] after.items@.contains(y) <==> before.items@.contains(y))
    } else {
        after.items@ == before.items@
    }
}

/// A store front: accounts, catalog, categories and carts, and how tokens
/// are made.
///
/// `single_session` chooses the login policy: when set, signing in ends
/// every other session of the user. The cart operations act for an owner
/// that the caller resolves with `session::resolve_cart_owner`, which also
/// gives the session cookie to set for a new guest.
#[derive(Debug, Clone)]
pub struct Storefront {
    pub accounts: Accounts,
    pub catalog: Catalog,
    pub categories: CategoryStore,
    pub carts: CartStore,
    pub config: TokenConfig,
    pub single_session: bool,
}

impl Storefront {
    pub open spec fn wf(&self) -> bool {
        self.accounts.wf() && self.catalog.wf() && self.categories.wf() && self.carts.wf()
    }

    /// Everything but the carts is as it was.
    pub open spec fn same_but_carts(&self, other: Storefront) -> bool {
        &&& self.accounts == other.accounts
        &&& self.catalog == other.catalog
        &&& self.categories == other.categories
        &&& self.config == other.config
        &&& self.single_session == other.single_session
    }

    pub fn new(config: TokenConfig, single_session: bool) -> (r: Self)
        ensures
            r.wf(),
            r.config == config,
            r.single_session == single_session,
    {
        Storefront {
            accounts: Accounts::new(),
            catalog: Catalog::new(),
            categories: CategoryStore::new(),
            carts: CartStore::new(),
            config,
            single_session,
        }
    }

    fn cart_for(&mut self, store_id: u128, owner: CartOwner, new_cart_id: u128, now: i64) -> (r: Result<Cart, ApiError>)
        requires
            old(self).wf(),
        ensures
            final(self).wf(),
            final(self).same_but_carts(*old(self)),
            final(self).carts.items@ == old(self).carts.items@,
            r is Ok <==> cart_available(old(self).carts.carts@, store_id, owner, new_cart_id),
            r matches Ok(c) ==> c.id == resolved_cart_id(old(self).carts.carts@, store_id, owner, new_cart_id)
                && final(self).carts.carts@ == carts_after_resolve(old(self).carts.carts@, store_id, owner, new_cart_id, now)
                && has_cart(final(self).carts.carts@, c.id),
            r matches Err(e) ==> e is Database && *final(self) == *old(self),
    {
        self.carts.get_or_create_cart(store_id, owner, new_cart_id, now)
    }

    /// The owner's cart as shown to a client (made if the owner has none),
    /// and the session cookie to set for a guest.
    pub fn get_cart(&mut self, store_id: u128, owner: CartOwner, new_cart_id: u128, now: i64) -> (r: Result<
        CartResponse,
        ApiError,
    >)
        requires
            old(self).wf(),
        ensures
            final(self).wf(),
            final(self).same_but_carts(*old(self)),
            final(self).carts.items@ == old(self).carts.items@,
            ({
                let cid = resolved_cart_id(old(self).carts.carts@, store_id, owner, new_cart_id);
                &&& r is Ok <==> cart_available(old(self).carts.carts@, store_id, owner, new_cart_id)
                    && totals_fit(old(self).catalog, old(self).carts.items@, cid)
                &&& r matches Err(e) ==> if cart_available(old(self).carts.carts@, store_id, owner, new_cart_id) {
                    e is Internal
                } else {
                    e is Database && *final(self) == *old(self)
                }
                &&& r matches Ok(view) ==> {
                    &&& shows(view, old(self).catalog, old(self).carts.items@, cid)
                    &&& final(self).carts.carts@ == carts_after_resolve(
                        old(self).carts.carts@,
                        store_id,
                        owner,
                        new_cart_id,
                        now,
                    )
                }
            }),
    {
        let cart = match self.cart_for(store_id, owner, new_cart_id, now) {
            Ok(c) => c,
            Err(e) => {
                return Err(e);
            },
        };
        self.carts.get_cart_with_items(&self.catalog, cart.id)
    }

    /// Adds a product (or variant) to the owner's cart and shows the cart.
    /// The line of that product grows by the requested quantity, within
    /// stock; other lines stay as they were.
    pub fn add_to_cart(
        &mut self,
        store_id: u128,
        owner: CartOwner,
        req: AddToCartRequest,
        new_cart_id: u128,
        new_item_id: u128,
        now: i64,
    ) -> (r: Result<CartResponse, ApiError>)
        requires
            old(self).wf(),
        ensures
            final(self).wf(),
            final(self).same_but_carts(*old(self)),
            ({
                let cid = resolved_cart_id(old(self).carts.carts@, store_id, owner, new_cart_id);
                let carts1 = carts_after_resolve(old(self).carts.carts@, store_id, owner, new_cart_id, now);
                let (p, v, q) = (req.product_id, req.variant_id, req.quantity);
                let items = old(self).carts.items@;
                &&& r is Ok <==> q >= 1 && cart_available(old(self).carts.carts@, store_id, owner, new_cart_id)
                    && add_accepted(carts1, items, old(self).catalog, cid, p, v, q, new_item_id) && totals_fit(
                    old(self).catalog,
                    final(self).carts.items@,
                    cid,
                )
                &&& r matches Err(e) ==> if q < 1 {
                    e is Validation && *final(self) == *old(self)
                } else if !cart_available(old(self).carts.carts@, store_id, owner, new_cart_id) {
                    e is Database && *final(self) == *old(self)
                } else if !add_accepted(carts1, items, old(self).catalog, cid, p, v, q, new_item_id) {
                    add_error(carts1, items, old(self).catalog, cid, p, v, q, e) && final(self).carts.items@ == items
                } else {
                    e is Internal
                }
                &&& r matches Ok(view) ==> {
                    &&& shows(view, old(self).catalog, final(self).carts.items@, cid)
                    &&& quantity_in(final(self).carts.items@, cid, p, v) == quantity_in(items, cid, p, v) + q
                    &&& lines_frame(items, final(self).carts.items@, cid, p, v)
                    &&& keeps_other_lines(items, final(self).carts.items@, cid, p, v)
                }
            }),
    {
        match validate_quantity(req.quantity) {
            Ok(()) => {},
            Err(e) => {
                return Err(e);
            },
        }
        let cart = match self.cart_for(store_id, owner, new_cart_id, now) {
            Ok(c) => c,
            Err(e) => {
                return Err(e);
            },
        };
        match self.carts.add_item(&self.catalog, cart.id, req.product_id, req.variant_id, req.quantity, new_item_id, now) {
            Ok(_) => {},
            Err(e) => {
                return Err(e);
            },
        }
        self.carts.get_cart_with_items(&self.catalog, cart.id)
    }

    /// Sets the quantity of a line of the owner's cart, within stock, and
    /// shows the cart.
    pub fn update_cart_item(
        &mut self,
        store_id: u128,
        owner: CartOwner,
        item_id: u128,
        req: UpdateCartItemRequest,
        new_cart_id: u128,
        now: i64,
    ) -> (r: Result<CartResponse, ApiError>)
        requires
            old(self).wf(),
        ensures
            final(self).wf(),
            final(self).same_but_carts(*old(self)),
            ({
                let cid = resolved_cart_id(old(self).carts.carts@, store_id, owner, new_cart_id);
                let items = old(self).carts.items@;
                let q = req.quantity;
                let it = item_with(items, item_id);
                &&& r is Ok <==> q >= 1 && cart_available(old(self).carts.carts@, store_id, owner, new_cart_id)
                    && update_accepted(items, old(self).catalog, item_id, cid, q) && totals_fit(
                    old(self).catalog,
                    final(self).carts.items@,
                    cid,
                )
                &&& r matches Err(e) ==> if q < 1 {
                    e is Validation && *final(self) == *old(self)
                } else if !cart_available(old(self).carts.carts@, store_id, owner, new_cart_id) {
                    e is Database && *final(self) == *old(self)
                } else if !update_accepted(items, old(self).catalog, item_id, cid, q) {
                    update_error(items, old(self).catalog, item_id, cid, q, e) && final(self).carts.items@ == items
                } else {
                    e is Internal
                }
                &&& r matches Ok(view) ==> {
                    &&& shows(view, old(self).catalog, final(self).carts.items@, cid)
                    &&& quantity_in(final(self).carts.items@, it.cart_id, it.product_id, it.variant_id) == q
                    &&& lines_frame(items, final(self).carts.items@, it.cart_id, it.product_id, it.variant_id)
                    &&& keeps_other_lines(items, final(self).carts.items@, it.cart_id, it.product_id, it.variant_id)
                }
            }),
    {
        match validate_quantity(req.quantity) {
            Ok(()) => {},
            Err(e) => {
                return Err(e);
            },
        }
        let cart = match self.cart_for(store_id, owner, new_cart_id, now) {
            Ok(c) => c,
            Err(e) => {
                return Err(e);
            },
        };
        match self.carts.update_item_quantity(&self.catalog, item_id, cart.id, req.quantity, now) {
            Ok(_) => {},
            Err(e) => {
                return Err(e);
            },
        }
        self.carts.get_cart_with_items(&self.catalog, cart.id)
    }

    /// Removes a line of the owner's cart; `NotFound` where that cart has
    /// no such line.
    pub fn remove_cart_item(&mut self, store_id: u128, owner: CartOwner, item_id: u128, new_cart_id: u128, now: i64) -> (r:
        Result<(), ApiError>)
        requires
            old(self).wf(),
        ensures
            final(self).wf(),
            final(self).same_but_carts(*old(self)),
            ({
                let cid = resolved_cart_id(old(self).carts.carts@, store_id, owner, new_cart_id);
                let items = old(self).carts.items@;
                let it = item_with(items, item_id);
                &&& r is Ok <==> cart_available(old(self).carts.carts@, store_id, owner, new_cart_id) && has_item(
                    items,
                    item_id,
                    cid,
                )
                &&& r matches Err(e) ==> if cart_available(old(self).carts.carts@, store_id, owner, new_cart_id) {
                    e is NotFound && final(self).carts.items@ == items
                } else {
                    e is Database && *final(self) == *old(self)
                }
                &&& r is Ok ==> {
                    &&& !has_item_id(final(self).carts.items@, item_id)
                    &&& quantity_in(final(self).carts.items@, it.cart_id, it.product_id, it.variant_id) == 0
                    &&& lines_frame(items, final(self).carts.items@, it.cart_id, it.product_id, it.variant_id)
                    &&& keeps_other_lines(items, final(self).carts.items@, it.cart_id, it.product_id, it.variant_id)
                }
            }),
    {
        let cart = match self.cart_for(store_id, owner, new_cart_id, now) {
            Ok(c) => c,
            Err(e) => {
                return Err(e);
            },
        };
        self.carts.remove_item(item_id, cart.id)
    }

    /// Empties the owner's cart; other carts stay as they were.
    pub fn clear_cart(&mut self, store_id: u128, owner: CartOwner, new_cart_id: u128, now: i64) -> (r: Result<
        (),
        ApiError,
    >)
        requires
            old(self).wf(),
        ensures
            final(self).wf(),
            final(self).same_but_carts(*old(self)),
            ({
                let cid = resolved_cart_id(old(self).carts.carts@, store_id, owner, new_cart_id);
                &&& r is Ok <==> cart_available(old(self).carts.carts@, store_id, owner, new_cart_id)
                &&& r matches Err(e) ==> e is Database && *final(self) == *old(self)
                &&& r is Ok ==> {
                    &&& forall|y: CartItem|
                        #[trigger] final(self).carts.items@.contains(y) <==> old(self).carts.items@.contains(y)
                            && y.cart_id != cid
                    &&& forall|p: u128, v: Option<u128>| #[trigger] quantity_in(final(self).carts.items@, cid, p, v) == 0
                    &&& forall|c: u128, p: u128, v: Option<u128>|
                        c != cid ==> #[trigger] quantity_in(final(self).carts.items@, c, p, v) == quantity_in(
                            old(self).carts.items@,
                            c,
                            p,
                            v,
                        )
                }
            }),
    {
        let cart = match self.cart_for(store_id, owner, new_cart_id, now) {
            Ok(c) => c,
            Err(e) => {
                return Err(e);
            },
        };
        self.carts.clear_cart(cart.id);
        proof {
            assert forall|p: u128, v: Option<u128>| #[trigger] quantity_in(self.carts.items@, cart.id, p, v) == 0 by {
                assert(self.carts.quantity(cart.id, p, v) == 0);
            }
            assert forall|c: u128, p: u128, v: Option<u128>|
                c != cart.id implies #[trigger] quantity_in(self.carts.items@, c, p, v) == quantity_in(
                old(self).carts.items@,
                c,
                p,
                v,
            ) by {
                assert(self.carts.quantity(c, p, v) == old(self).carts.quantity(c, p, v));
            }
        }
        Ok(())
    }

    /// After a sign-in, moves the cart of the guest session `sid` into the
    /// user's cart (made with `new_cart_id` if the user has none).
    /// `Ok(false)` where the session has no cart.
    pub fn merge_guest_cart(&mut self, store_id: u128, user_id: u128, sid: String, new_cart_id: u128, now: i64) -> (r:
        Result<bool, ApiError>)
        requires
            old(self).wf(),
        ensures
            final(self).wf(),
            final(self).same_but_carts(*old(self)),
            guest_merge_done(old(self).carts, final(self).carts, store_id, user_id, sid, new_cart_id, now),
            (r matches Ok(false)) <==> !has_owned(old(self).carts.carts@, store_id, CartOwner::Guest(sid)),
            (r matches Ok(true)) <==> ({
                let g = first_owned(old(self).carts.carts@, store_id, CartOwner::Guest(sid)).id;
                let uc = resolved_cart_id(old(self).carts.carts@, store_id, CartOwner::User(user_id), new_cart_id);
                let carts1 = carts_after_resolve(
                    old(self).carts.carts@,
                    store_id,
                    CartOwner::User(user_id),
                    new_cart_id,
                    now,
                );
                &&& has_owned(old(self).carts.carts@, store_id, CartOwner::Guest(sid))
                &&& cart_available(old(self).carts.carts@, store_id, CartOwner::User(user_id), new_cart_id)
                &&& merge_accepted(carts1, old(self).carts.items@, g, uc)
            }),
    {
        let ghost gs = sid;
        let guest = match self.carts.find_owned_cart(store_id, &CartOwner::Guest(sid)) {
            Some(g) => g,
            None => {
                return Ok(false);
            },
        };
        let user_cart = match self.carts.get_or_create_cart(store_id, CartOwner::User(user_id), new_cart_id, now) {
            Ok(c) => c,
            Err(e) => {
                return Err(e);
            },
        };
        let ghost mid = self.carts;
        match self.carts.merge_carts(guest.id, user_cart.id, now) {
            Ok(()) => {},
            Err(e) => {
                return Err(e);
            },
        }
        proof {
            let (g, uc) = (guest.id, user_cart.id);
            assert(has_cart(mid.carts@, uc));
            assert(g != uc);
            assert(has_cart(self.carts.carts@, uc) <==> has_cart(mid.carts@, uc) && uc != g);
            assert(has_cart(self.carts.carts@, g) <==> has_cart(mid.carts@, g) && g != g);
            assert forall|p: u128, v: Option<u128>|
                #[trigger] quantity_in(self.carts.items@, uc, p, v) == quantity_in(old(self).carts.items@, uc, p, v)
                    + quantity_in(old(self).carts.items@, g, p, v) by {
                assert(self.carts.quantity(uc, p, v) == mid.quantity(uc, p, v) + mid.quantity(g, p, v));
            }
            assert forall|p: u128, v: Option<u128>| #[trigger] quantity_in(self.carts.items@, g, p, v) == 0 by {
                assert(self.carts.quantity(g, p, v) == 0);
            }
            assert forall|c: u128, p: u128, v: Option<u128>|
                c != uc && c != g implies #[trigger] quantity_in(self.carts.items@, c, p, v) == quantity_in(
                old(self).carts.items@,
                c,
                p,
                v,
            ) by {
                assert(self.carts.quantity(c, p, v) == mid.quantity(c, p, v));
            }
        }
        Ok(true)
    }

    /// Signs in (see [`Accounts::login`], with this store front's session
    /// policy) and, where the request carries a guest session, merges that
    /// session's cart into the user's cart as [`guest_merge_done`] says. A
    /// merge that cannot be made does not undo the sign-in.
    pub fn login<S: Fn(Claims) -> Result<String, ApiError>, V: Fn(String, String) -> bool>(
        &mut self,
        store_id: u128,
        req: LoginRequest,
        cookie: Option<String>,
        new_token_id: u128,
        new_cart_id: u128,
        now: i64,
        verify: &V,
        sign: &S,
    ) -> (r: Result<SignedIn, ApiError>)
        requires
            old(self).wf(),
            forall|c: Claims| sign.requires((c,)),
            forall|p: String, h: String| verify.requires((p, h)),
        ensures
            final(self).wf(),
            final(self).catalog == old(self).catalog,
            final(self).categories == old(self).categories,
            final(self).accounts.users == old(self).accounts.users,
            ({
                let u = user_by_email(old(self).accounts.users.users@, store_id, req.email@);
                email_taken(old(self).accounts.users.users@, store_id, req.email@) && verify.ensures(
                    (req.password, u.password_hash),
                    true,
                ) && !verify.ensures((req.password, u.password_hash), false) && u.is_active && issuable(
                    *sign,
                    old(self).config,
                    old(self).accounts.tokens.records@,
                    new_token_id,
                    now,
                ) ==> r is Ok
            }),
            r matches Err(e) ==> login_refusal(
                old(self).accounts,
                final(self).accounts,
                old(self).config,
                store_id,
                req,
                new_token_id,
                now,
                *verify,
                *sign,
                e,
            ) && final(self).carts == old(self).carts,
            r matches Ok(out) ==> {
                let u = user_by_email(old(self).accounts.users.users@, store_id, req.email@);
                &&& email_taken(old(self).accounts.users.users@, store_id, req.email@)
                &&& verify.ensures((req.password, u.password_hash), true)
                &&& u.is_active
                &&& out.user == profile_of(u)
                &&& pair_signed_for(*sign, old(self).config, u, store_id, new_token_id, now, out.tokens)
                &&& recorded_sign_in(
                    old(self).accounts.tokens.records@,
                    final(self).accounts.tokens.records@,
                    new_token_id,
                    u.id,
                    out.tokens.refresh_token@,
                    now,
                    old(self).single_session,
                )
                &&& match cookie {
                    None => final(self).carts == old(self).carts,
                    Some(sid) => guest_merge_done(old(self).carts, final(self).carts, store_id, u.id, sid, new_cart_id, now),
                }
            },
    {
        let single = self.single_session;
        let out = match self.accounts.login(&self.config, store_id, req, new_token_id, now, single, verify, sign) {
            Ok(o) => o,
            Err(e) => {
                return Err(e);
            },
        };
        match cookie {
            Some(sid) => {
                let _ = self.merge_guest_cart(store_id, out.user.id, sid, new_cart_id, now);
            },
            None => {},
        }
        Ok(out)
    }
}

} // verus!
