use vstd::prelude::*;
use vstd::string::StringExecFns;
use crate::cart::{has_cart, lines_by_time, CartStore};
use crate::catalog::{has_product, has_variant, product_at, variant_at, Catalog};
use crate::error::ApiError;
use crate::models::{copy_text, CartItem};

verus! {

/// A cart with its lines joined to the current catalog.
#[derive(Debug, Clone)]
pub struct CartResponse {
    pub id: u128,
    pub items: Vec<CartItemResponse>,
    pub total: i64,
    pub item_count: i64,
}

/// A cart line with the product data it is shown with.
#[derive(Debug, Clone)]
pub struct CartItemResponse {
    pub id: u128,
    pub product_id: u128,
    pub variant_id: Option<u128>,
    pub product_name: String,
    pub product_slug: String,
    pub product_image_url: Option<String>,
    pub variant_name: Option<String>,
    pub price: i32,
    pub quantity: i32,
    pub subtotal: i64,
}

/// A line is shown when it belongs to the cart and its product exists.
pub open spec fn shown(c: Catalog, cart_id: u128, it: CartItem) -> bool {
    it.cart_id == cart_id && has_product(c.products@, it.product_id)
}

/// The current unit price of a line: its variant's where the variant
/// exists, else its product's.
pub open spec fn unit_price(c: Catalog, it: CartItem) -> int {
    match it.variant_id {
        Some(v) => if has_variant(c.variants@, v) {
            variant_at(c.variants@, v).price as int
        } else {
            product_at(c.products@, it.product_id).price as int
        },
        None => product_at(c.products@, it.product_id).price as int,
    }
}

/// The lines of a cart that are shown, in store order, which the store
/// keeps as creation order.
pub open spec fn visible_lines(c: Catalog, items: Seq<CartItem>, cart_id: u128) -> Seq<CartItem>
    decreases items.len(),
{
    if items.len() == 0 {
        Seq::empty()
    } else {
        let rest = visible_lines(c, items.drop_last(), cart_id);
        if shown(c, cart_id, items.last()) {
            rest.push(items.last())
        } else {
            rest
        }
    }
}

/// The sum of unit price times quantity over some lines.
pub open spec fn total_of(c: Catalog, lines: Seq<CartItem>) -> int
    decreases lines.len(),
{
    if lines.len() == 0 {
        0
    } else {
        total_of(c, lines.drop_last()) + unit_price(c, lines.last()) * lines.last().quantity
    }
}

/// The sum of quantities over some lines.
pub open spec fn count_of(lines: Seq<CartItem>) -> int
    decreases lines.len(),
{
    if lines.len() == 0 {
        0
    } else {
        count_of(lines.drop_last()) + lines.last().quantity
    }
}

/// `r` shows line `it` with the current data of its product and variant.
pub open spec fn enriched(c: Catalog, it: CartItem, r: CartItemResponse) -> bool {
    let p = product_at(c.products@, it.product_id);
    &&& r.id == it.id
    &&& r.product_id == it.product_id
    &&& r.variant_id == it.variant_id
    &&& r.product_name@ == p.name@
    &&& r.product_slug@ == p.slug@
    &&& r.product_image_url == p.image_url
    &&& r.variant_name == match it.variant_id {
        Some(v) => if has_variant(c.variants@, v) {
            Some(variant_at(c.variants@, v).name)
        } else {
            None
        },
        None => None,
    }
    &&& r.price == unit_price(c, it)
    &&& r.quantity == it.quantity
    &&& r.subtotal == unit_price(c, it) * it.quantity
}

/// The shown lines of a cart are lines of the store, in creation order.
pub proof fn lemma_visible_in_order(c: Catalog, items: Seq<CartItem>, cart_id: u128)
    requires
        lines_by_time(items),
    ensures
        lines_by_time(visible_lines(c, items, cart_id)),
        forall|k: int|
            0 <= k < visible_lines(c, items, cart_id).len() ==> items.contains(
                #[trigger] visible_lines(c, items, cart_id)[k],
            ),
    decreases items.len(),
{
    if items.len() > 0 {
        let pre = items.drop_last();
        let last = items.last();
        assert forall|i: int, j: int| 0 <= i < j < pre.len() implies #[trigger] pre[i].created_at
            <= #[trigger] pre[j].created_at by {
            assert(pre[i] == items[i] && pre[j] == items[j]);
        }
        lemma_visible_in_order(c, pre, cart_id);
        let rest = visible_lines(c, pre, cart_id);
        assert forall|k: int| 0 <= k < rest.len() implies items.contains(#[trigger] rest[k])
            && rest[k].created_at <= last.created_at by {
            assert(pre.contains(rest[k]));
            let j = choose|j: int| 0 <= j < pre.len() && pre[j] == rest[k];
            assert(items[j] == rest[k]);
            assert(items[j].created_at <= items[items.len() - 1].created_at);
        }
        if shown(c, cart_id, last) {
            let v = rest.push(last);
            assert(visible_lines(c, items, cart_id) == v);
            assert forall|i: int, j: int| 0 <= i < j < v.len() implies #[trigger] v[i].created_at
                <= #[trigger] v[j].created_at by {
                assert(v[i] == rest[i]);
                if j < rest.len() {
                    assert(v[j] == rest[j]);
                }
            }
            assert forall|k: int| 0 <= k < v.len() implies items.contains(#[trigger] v[k]) by {
                if k < rest.len() {
                    assert(v[k] == rest[k]);
                } else {
                    assert(items[items.len() - 1] == v[k]);
                }
            }
        }
    }
}

impl CartStore {
    /// The cart with its lines joined to the current catalog, and the sums
    /// of subtotals and of quantities. Prices are today's, not those of the
    /// moment a line was added.
    pub fn get_cart_with_items(&self, catalog: &Catalog, cart_id: u128) -> (r: Result<CartResponse, ApiError>)
        requires
            self.wf(),
            catalog.wf(),
        ensures
            r is Ok <==> has_cart(self.carts@, cart_id) && total_of(
                *catalog,
                visible_lines(*catalog, self.items@, cart_id),
            ) <= i64::MAX && count_of(visible_lines(*catalog, self.items@, cart_id)) <= i64::MAX,
            r matches Err(e) ==> if has_cart(self.carts@, cart_id) {
                e is Internal
            } else {
                e is NotFound
            },
            r matches Ok(resp) ==> ({
                let lines = visible_lines(*catalog, self.items@, cart_id);
                &&& resp.id == cart_id
                &&& lines_by_time(lines)
                &&& forall|k: int| 0 <= k < lines.len() ==> self.items@.contains(#[trigger] lines[k])
                &&& resp.items@.len() == lines.len()
                &&& forall|k: int| 0 <= k < lines.len() ==> enriched(*catalog, lines[k], #[trigger] resp.items@[k])
                &&& resp.total == total_of(*catalog, lines)
                &&& resp.item_count == count_of(lines)
            }),
    {
        if self.find_cart(cart_id).is_none() {
            return Err(ApiError::not_found(String::from_str("Cart not found")));
        }
        let mut out: Vec<CartItemResponse> = Vec::new();
        let mut total: i128 = 0;
        let mut count: i128 = 0;
        let mut i: usize = 0;
        while i < self.items.len()
            invariant
                self.wf(),
                catalog.wf(),
                i <= self.items@.len(),
                out@.len() == visible_lines(*catalog, self.items@.take(i as int), cart_id).len(),
                forall|k: int|
                    0 <= k < out@.len() ==> enriched(
                        *catalog,
                        visible_lines(*catalog, self.items@.take(i as int), cart_id)[k],
                        #[trigger] out@[k],
                    ),
                total == total_of(*catalog, visible_lines(*catalog, self.items@.take(i as int), cart_id)),
                count == count_of(visible_lines(*catalog, self.items@.take(i as int), cart_id)),
                0 <= total <= i * 0x4000_0000_0000_0000,
                0 <= count <= i * 0x8000_0000,
            decreases self.items@.len() - i,
        {
            let it = self.items[i];
            let ghost prev = visible_lines(*catalog, self.items@.take(i as int), cart_id);
            proof {
                assert(self.items@.take(i + 1).drop_last() =~= self.items@.take(i as int));
                assert(self.items@.take(i + 1).last() == it);
            }
            if it.cart_id == cart_id {
                match catalog.find_product(it.product_id) {
                    Some(pi) => {
                        let p = &catalog.products[pi];
                        let (price, variant_name) = match it.variant_id {
                            Some(v) => match catalog.find_variant(v) {
                                Some(vi) => (catalog.variants[vi].price, Some(catalog.variants[vi].name.clone())),
                                None => (p.price, None),
                            },
                            None => (p.price, None),
                        };
                        assert(price == unit_price(*catalog, it));
                        assert(0 <= price);
                        proof {
                            assert(it.quantity >= 1);
                            let (a, b) = (price as int, it.quantity as int);
                            assert(0 <= a * b <= 0x4000_0000_0000_0000) by (nonlinear_arith)
                                requires
                                    0 <= a <= 0x7fff_ffff,
                                    1 <= b <= 0x7fff_ffff,
                            ;
                            assert(i * 0x4000_0000_0000_0000 + 0x4000_0000_0000_0000 == (i + 1)
                                * 0x4000_0000_0000_0000) by (nonlinear_arith);
                            assert(i * 0x8000_0000 + 0x8000_0000 == (i + 1) * 0x8000_0000) by (nonlinear_arith);
                            assert((i + 1) * 0x4000_0000_0000_0000 <= 0x1_0000_0000_0000_0000 * 0x4000_0000_0000_0000)
                                by (nonlinear_arith)
                                requires
                                    i + 1 <= 0x1_0000_0000_0000_0000,
                            ;
                        }
                        let subtotal: i64 = price as i64 * it.quantity as i64;
                        let line = CartItemResponse {
                            id: it.id,
                            product_id: it.product_id,
                            variant_id: it.variant_id,
                            product_name: p.name.clone(),
                            product_slug: p.slug.clone(),
                            product_image_url: copy_text(&p.image_url),
                            variant_name,
                            price,
                            quantity: it.quantity,
                            subtotal,
                        };
                        out.push(line);
                        total = total + subtotal as i128;
                        count = count + it.quantity as i128;
                        proof {
                            assert(shown(*catalog, cart_id, it));
                            let cur = visible_lines(*catalog, self.items@.take(i + 1), cart_id);
                            assert(cur == prev.push(it));
                            assert(cur.drop_last() =~= prev);
                            assert forall|k: int| 0 <= k < out@.len() implies enriched(
                                *catalog,
                                cur[k],
                                #[trigger] out@[k],
                            ) by {
                                if k < prev.len() {
                                    assert(cur[k] == prev[k]);
                                }
                            }
                        }
                    },
                    None => {
                        proof {
                            assert(!shown(*catalog, cart_id, it));
                            assert(i * 0x4000_0000_0000_0000 <= (i + 1) * 0x4000_0000_0000_0000) by (nonlinear_arith);
                            assert(i * 0x8000_0000 <= (i + 1) * 0x8000_0000) by (nonlinear_arith);
                        }
                    },
                }
            } else {
                proof {
                    assert(!shown(*catalog, cart_id, it));
                    assert(i * 0x4000_0000_0000_0000 <= (i + 1) * 0x4000_0000_0000_0000) by (nonlinear_arith);
                    assert(i * 0x8000_0000 <= (i + 1) * 0x8000_0000) by (nonlinear_arith);
                }
            }
            i += 1;
        }
        proof {
            assert(self.items@.take(self.items@.len() as int) =~= self.items@);
        }
        proof {
            lemma_visible_in_order(*catalog, self.items@, cart_id);
        }
        if total > i64::MAX as i128 || count > i64::MAX as i128 {
            return Err(ApiError::internal(String::from_str("cart totals out of range")));
        }
        Ok(CartResponse { id: cart_id, items: out, total: total as i64, item_count: count as i64 })
    }
}

} // verus!
