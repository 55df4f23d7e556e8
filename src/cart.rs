use vstd::prelude::*;
use vstd::string::StringExecFns;
use crate::catalog::{stock_source, Catalog};
use crate::error::ApiError;
use crate::models::{Cart, CartItem, CartOwner};

verus! {

pub open spec fn digit_char(d: int) -> char {
    seq!['0', '1', '2', '3', '4', '5', '6', '7', '8', '9'][d]
}

/// The decimal digits of a natural number, without leading zeros.
pub open spec fn digits_of(n: nat) -> Seq<char>
    decreases n,
{
    if n < 10 {
        seq![digit_char(n as int)]
    } else {
        digits_of((n / 10) as nat).push(digit_char((n % 10) as int))
    }
}

/// An integer in decimal, with `-` before a negative one.
pub open spec fn decimal_of(n: int) -> Seq<char> {
    if n < 0 {
        seq!['-'] + digits_of((-n) as nat)
    } else {
        digits_of(n as nat)
    }
}

/// Relies on `ToString` for `i64` (its `Display`): the decimal digits, with
/// `-` before a negative number.
#[verifier::external_body]
fn decimal_text(n: i64) -> (r: String)
    ensures
        r@ == decimal_of(n as int),
{
    n.to_string()
}

/// The text of a stock refusal: it names the product and both counts.
pub open spec fn stock_message_of(name: Seq<char>, available: i32, requested: i64) -> Seq<char> {
    "Not enough stock for "@ + name + ". Available: "@ + decimal_of(available as int) + ", Requested: "@
        + decimal_of(requested as int)
}

fn stock_message(name: &str, available: i32, requested: i64) -> (r: String)
    ensures
        r@ == stock_message_of(name@, available, requested),
{
    let text = String::from_str("Not enough stock for ");
    let text = text.concat(name);
    let text = text.concat(". Available: ");
    let shown = decimal_text(available as i64);
    let text = text.concat(shown.as_str());
    let text = text.concat(", Requested: ");
    let asked = decimal_text(requested);
    text.concat(asked.as_str())
}

pub open spec fn same_key(it: CartItem, cart: u128, product: u128, variant: Option<u128>) -> bool {
    it.cart_id == cart && it.product_id == product && it.variant_id == variant
}

/// A line exists for (cart, product, variant).
pub open spec fn has_line(items: Seq<CartItem>, cart: u128, product: u128, variant: Option<u128>) -> bool {
    exists|i: int| 0 <= i < items.len() && same_key(items[i], cart, product, variant)
}

pub open spec fn line_at(items: Seq<CartItem>, cart: u128, product: u128, variant: Option<u128>) -> CartItem {
    items[choose|i: int| 0 <= i < items.len() && same_key(items[i], cart, product, variant)]
}

/// The quantity held for (cart, product, variant); 0 where there is no line.
pub open spec fn quantity_in(items: Seq<CartItem>, cart: u128, product: u128, variant: Option<u128>) -> int {
    if has_line(items, cart, product, variant) {
        line_at(items, cart, product, variant).quantity as int
    } else {
        0
    }
}

pub open spec fn has_item_id(items: Seq<CartItem>, id: u128) -> bool {
    exists|i: int| 0 <= i < items.len() && items[i].id == id
}

/// Item ids are unique, (cart, product, variant) is unique, quantities are
/// positive.
pub open spec fn lines_wf(items: Seq<CartItem>) -> bool {
    &&& forall|i: int, j: int|
        0 <= i < items.len() && 0 <= j < items.len() && i != j ==> #[trigger] items[i].id
            != #[trigger] items[j].id
    &&& forall|i: int, j: int|
        0 <= i < items.len() && 0 <= j < items.len() && i != j ==> !same_key(
            #[trigger] items[j],
            #[trigger] items[i].cart_id,
            items[i].product_id,
            items[i].variant_id,
        )
    &&& forall|i: int| 0 <= i < items.len() ==> #[trigger] items[i].quantity >= 1
}

/// Every (cart, product, variant) but the one named holds the same quantity
/// in `a` and `b`.
pub open spec fn lines_frame(
    a: Seq<CartItem>,
    b: Seq<CartItem>,
    cart: u128,
    product: u128,
    variant: Option<u128>,
) -> bool {
    forall|c: u128, p: u128, v: Option<u128>|
        !(c == cart && p == product && v == variant) ==> #[trigger] quantity_in(b, c, p, v)
            == quantity_in(a, c, p, v)
}

/// Every line of another key is in `b` exactly when it is in `a`: ids,
/// quantities and instants included.
pub open spec fn keeps_other_lines(
    a: Seq<CartItem>,
    b: Seq<CartItem>,
    cart: u128,
    product: u128,
    variant: Option<u128>,
) -> bool {
    forall|y: CartItem| !same_key(y, cart, product, variant) ==> (#[trigger] b.contains(y) <==> a.contains(y))
}

/// The only line of this key in `b` is `x`.
pub open spec fn only_line(b: Seq<CartItem>, x: CartItem) -> bool {
    forall|y: CartItem| same_key(y, x.cart_id, x.product_id, x.variant_id) ==> (#[trigger] b.contains(y) <==> y == x)
}

/// Lines are kept in the order of their creation instants.
pub open spec fn lines_by_time(items: Seq<CartItem>) -> bool {
    forall|i: int, j: int| 0 <= i < j < items.len() ==> #[trigger] items[i].created_at <= #[trigger] items[j].created_at
}

pub proof fn lemma_time_update(a: Seq<CartItem>, i: int, x: CartItem)
    requires
        lines_by_time(a),
        0 <= i < a.len(),
        x.created_at == a[i].created_at,
    ensures
        lines_by_time(a.update(i, x)),
{
    let b = a.update(i, x);
    assert forall|k: int, l: int| 0 <= k < l < b.len() implies #[trigger] b[k].created_at <= #[trigger] b[l].created_at by {
        assert(b[k].created_at == a[k].created_at && b[l].created_at == a[l].created_at);
    }
}

pub proof fn lemma_time_push(a: Seq<CartItem>, x: CartItem)
    requires
        lines_by_time(a),
        forall|k: int| 0 <= k < a.len() ==> #[trigger] a[k].created_at <= x.created_at,
    ensures
        lines_by_time(a.push(x)),
{
    let b = a.push(x);
    assert forall|k: int, l: int| 0 <= k < l < b.len() implies #[trigger] b[k].created_at <= #[trigger] b[l].created_at by {
        assert(b[k] == a[k]);
        if l < a.len() {
            assert(b[l] == a[l]);
        }
    }
}

pub proof fn lemma_time_remove(a: Seq<CartItem>, i: int)
    requires
        lines_by_time(a),
        0 <= i < a.len(),
    ensures
        lines_by_time(a.remove(i)),
{
    let b = a.remove(i);
    a.remove_ensures(i);
    assert forall|k: int, l: int| 0 <= k < l < b.len() implies #[trigger] b[k].created_at <= #[trigger] b[l].created_at by {
        let sk = if k < i { k } else { k + 1 };
        let sl = if l < i { l } else { l + 1 };
        assert(b[k] == a[sk] && b[l] == a[sl]);
    }
}

/// The creation instant of a new line: `now`, or the latest instant held
/// where the clock has gone back, so that lines stay in creation order.
fn stamp_after(items: &Vec<CartItem>, now: i64) -> (r: i64)
    requires
        lines_by_time(items@),
    ensures
        r == if items@.len() > 0 && items@.last().created_at > now {
            items@.last().created_at
        } else {
            now
        },
        r >= now,
        forall|k: int| 0 <= k < items@.len() ==> #[trigger] items@[k].created_at <= r,
{
    let n = items.len();
    if n > 0 && items[n - 1].created_at > now {
        proof {
            assert forall|k: int| 0 <= k < items@.len() implies #[trigger] items@[k].created_at <= items@[n - 1].created_at by {
                if k < n - 1 {
                    assert(items@[k].created_at <= items@[n - 1].created_at);
                }
            }
        }
        items[n - 1].created_at
    } else {
        proof {
            if n > 0 {
                assert forall|k: int| 0 <= k < items@.len() implies #[trigger] items@[k].created_at <= now by {
                    if k < n - 1 {
                        assert(items@[k].created_at <= items@[n - 1].created_at);
                    }
                }
            }
        }
        now
    }
}

pub proof fn lemma_line_at(items: Seq<CartItem>, i: int)
    requires
        lines_wf(items),
        0 <= i < items.len(),
    ensures
        has_line(items, items[i].cart_id, items[i].product_id, items[i].variant_id),
        line_at(items, items[i].cart_id, items[i].product_id, items[i].variant_id) == items[i],
        quantity_in(items, items[i].cart_id, items[i].product_id, items[i].variant_id)
            == items[i].quantity,
{
    let it = items[i];
    assert(same_key(items[i], it.cart_id, it.product_id, it.variant_id));
    let j = choose|j: int| 0 <= j < items.len() && same_key(items[j], it.cart_id, it.product_id, it.variant_id);
    if j != i {
        assert(!same_key(items[j], items[i].cart_id, items[i].product_id, items[i].variant_id));
    }
}

/// Replacing a line by one with the same id and key changes the quantity
/// of that key alone.
pub proof fn lemma_update_line(a: Seq<CartItem>, i: int, x: CartItem)
    requires
        lines_wf(a),
        0 <= i < a.len(),
        x.id == a[i].id,
        same_key(x, a[i].cart_id, a[i].product_id, a[i].variant_id),
        x.quantity >= 1,
    ensures
        lines_wf(a.update(i, x)),
        quantity_in(a.update(i, x), x.cart_id, x.product_id, x.variant_id) == x.quantity,
        lines_frame(a, a.update(i, x), x.cart_id, x.product_id, x.variant_id),
        keeps_other_lines(a, a.update(i, x), x.cart_id, x.product_id, x.variant_id),
        only_line(a.update(i, x), x),
{
    let b = a.update(i, x);
    assert forall|y: CartItem| !same_key(y, x.cart_id, x.product_id, x.variant_id) implies (#[trigger] b.contains(y)
        <==> a.contains(y)) by {
        if b.contains(y) {
            let k = choose|k: int| 0 <= k < b.len() && b[k] == y;
            assert(k != i);
            assert(a[k] == y);
        }
        if a.contains(y) {
            let k = choose|k: int| 0 <= k < a.len() && a[k] == y;
            assert(k != i);
            assert(b[k] == y);
        }
    }
    assert forall|y: CartItem| same_key(y, x.cart_id, x.product_id, x.variant_id) implies (#[trigger] b.contains(y)
        <==> y == x) by {
        if b.contains(y) {
            let k = choose|k: int| 0 <= k < b.len() && b[k] == y;
            if k != i {
                assert(b[k] == a[k]);
                assert(!same_key(a[k], a[i].cart_id, a[i].product_id, a[i].variant_id));
            }
        }
        if y == x {
            assert(b[i] == x);
        }
    }
    assert forall|k: int, l: int| 0 <= k < b.len() && 0 <= l < b.len() && k != l implies !same_key(
        #[trigger] b[l],
        #[trigger] b[k].cart_id,
        b[k].product_id,
        b[k].variant_id,
    ) by {
        assert(!same_key(a[l], a[k].cart_id, a[k].product_id, a[k].variant_id));
    }
    assert(lines_wf(b));
    lemma_line_at(b, i);
    assert forall|c: u128, p: u128, v: Option<u128>|
        !(c == x.cart_id && p == x.product_id && v == x.variant_id) implies #[trigger] quantity_in(
        b,
        c,
        p,
        v,
    ) == quantity_in(a, c, p, v) by {
        if has_line(a, c, p, v) {
            let j = choose|j: int| 0 <= j < a.len() && same_key(a[j], c, p, v);
            lemma_line_at(a, j);
            assert(b[j] == a[j]);
            lemma_line_at(b, j);
        } else if has_line(b, c, p, v) {
            let j = choose|j: int| 0 <= j < b.len() && same_key(b[j], c, p, v);
            assert(b[j] == a[j]);
        }
    }
}

/// Appending a line of a new key and a new id changes the quantity of that
/// key alone.
pub proof fn lemma_push_line(a: Seq<CartItem>, x: CartItem)
    requires
        lines_wf(a),
        !has_line(a, x.cart_id, x.product_id, x.variant_id),
        !has_item_id(a, x.id),
        x.quantity >= 1,
    ensures
        lines_wf(a.push(x)),
        quantity_in(a.push(x), x.cart_id, x.product_id, x.variant_id) == x.quantity,
        lines_frame(a, a.push(x), x.cart_id, x.product_id, x.variant_id),
        keeps_other_lines(a, a.push(x), x.cart_id, x.product_id, x.variant_id),
        only_line(a.push(x), x),
{
    let b = a.push(x);
    assert forall|y: CartItem| !same_key(y, x.cart_id, x.product_id, x.variant_id) implies (#[trigger] b.contains(y)
        <==> a.contains(y)) by {
        if b.contains(y) {
            let k = choose|k: int| 0 <= k < b.len() && b[k] == y;
            assert(k != a.len());
            assert(a[k] == y);
        }
        if a.contains(y) {
            let k = choose|k: int| 0 <= k < a.len() && a[k] == y;
            assert(b[k] == y);
        }
    }
    assert forall|y: CartItem| same_key(y, x.cart_id, x.product_id, x.variant_id) implies (#[trigger] b.contains(y)
        <==> y == x) by {
        if b.contains(y) {
            let k = choose|k: int| 0 <= k < b.len() && b[k] == y;
            if k != a.len() {
                assert(b[k] == a[k]);
            }
        }
        if y == x {
            assert(b[a.len() as int] == x);
        }
    }
    assert forall|k: int, l: int| 0 <= k < b.len() && 0 <= l < b.len() && k != l implies #[trigger] b[k].id
        != #[trigger] b[l].id by {
        if k == a.len() {
            assert(b[l] == a[l]);
        } else if l == a.len() {
            assert(b[k] == a[k]);
        }
    }
    assert forall|k: int, l: int| 0 <= k < b.len() && 0 <= l < b.len() && k != l implies !same_key(
        #[trigger] b[l],
        #[trigger] b[k].cart_id,
        b[k].product_id,
        b[k].variant_id,
    ) by {
        if k == a.len() {
            assert(b[l] == a[l]);
        } else if l == a.len() {
            assert(b[k] == a[k]);
        } else {
            assert(!same_key(a[l], a[k].cart_id, a[k].product_id, a[k].variant_id));
        }
    }
    assert(lines_wf(b));
    lemma_line_at(b, a.len() as int);
    assert forall|c: u128, p: u128, v: Option<u128>|
        !(c == x.cart_id && p == x.product_id && v == x.variant_id) implies #[trigger] quantity_in(
        b,
        c,
        p,
        v,
    ) == quantity_in(a, c, p, v) by {
        if has_line(a, c, p, v) {
            let j = choose|j: int| 0 <= j < a.len() && same_key(a[j], c, p, v);
            lemma_line_at(a, j);
            assert(b[j] == a[j]);
            lemma_line_at(b, j);
        } else if has_line(b, c, p, v) {
            let j = choose|j: int| 0 <= j < b.len() && same_key(b[j], c, p, v);
            assert(b[j] == a[j]);
        }
    }
}

/// Removing a line drops its key and keeps every other.
pub proof fn lemma_remove_line(a: Seq<CartItem>, i: int)
    requires
        lines_wf(a),
        0 <= i < a.len(),
    ensures
        lines_wf(a.remove(i)),
        quantity_in(a.remove(i), a[i].cart_id, a[i].product_id, a[i].variant_id) == 0,
        lines_frame(a, a.remove(i), a[i].cart_id, a[i].product_id, a[i].variant_id),
        forall|id: u128| has_item_id(a.remove(i), id) ==> has_item_id(a, id),
        !has_item_id(a.remove(i), a[i].id),
        keeps_other_lines(a, a.remove(i), a[i].cart_id, a[i].product_id, a[i].variant_id),
        forall|y: CartItem| same_key(y, a[i].cart_id, a[i].product_id, a[i].variant_id) ==> !#[trigger] a.remove(i).contains(y),
{
    let b = a.remove(i);
    a.remove_ensures(i);
    let src = |k: int| if k < i { k } else { k + 1 };
    assert forall|k: int| 0 <= k < b.len() implies #[trigger] b[k] == a[src(k)] by {}
    assert forall|k: int, l: int| 0 <= k < b.len() && 0 <= l < b.len() && k != l implies #[trigger] b[k].id
        != #[trigger] b[l].id by {
        assert(b[k] == a[src(k)]);
        assert(b[l] == a[src(l)]);
    }
    assert forall|k: int, l: int| 0 <= k < b.len() && 0 <= l < b.len() && k != l implies !same_key(
        #[trigger] b[l],
        #[trigger] b[k].cart_id,
        b[k].product_id,
        b[k].variant_id,
    ) by {
        assert(b[k] == a[src(k)]);
        assert(b[l] == a[src(l)]);
        assert(!same_key(a[src(l)], a[src(k)].cart_id, a[src(k)].product_id, a[src(k)].variant_id));
    }
    assert forall|k: int| 0 <= k < b.len() implies #[trigger] b[k].quantity >= 1 by {
        assert(b[k] == a[src(k)]);
    }
    assert(lines_wf(b));
    let x = a[i];
    if has_line(b, x.cart_id, x.product_id, x.variant_id) {
        let j = choose|j: int| 0 <= j < b.len() && same_key(b[j], x.cart_id, x.product_id, x.variant_id);
        assert(b[j] == a[src(j)]);
        assert(!same_key(a[src(j)], a[i].cart_id, a[i].product_id, a[i].variant_id));
    }
    assert forall|c: u128, p: u128, v: Option<u128>|
        !(c == x.cart_id && p == x.product_id && v == x.variant_id) implies #[trigger] quantity_in(
        b,
        c,
        p,
        v,
    ) == quantity_in(a, c, p, v) by {
        if has_line(a, c, p, v) {
            let j = choose|j: int| 0 <= j < a.len() && same_key(a[j], c, p, v);
            lemma_line_at(a, j);
            assert(j != i);
            let k = if j < i { j } else { j - 1 };
            assert(b[k] == a[j]);
            lemma_line_at(b, k);
        } else if has_line(b, c, p, v) {
            let j = choose|j: int| 0 <= j < b.len() && same_key(b[j], c, p, v);
            assert(b[j] == a[src(j)]);
        }
    }
    assert forall|id: u128| has_item_id(b, id) implies has_item_id(a, id) by {
        let j = choose|j: int| 0 <= j < b.len() && b[j].id == id;
        assert(b[j] == a[src(j)]);
    }
    if has_item_id(b, a[i].id) {
        let j = choose|j: int| 0 <= j < b.len() && b[j].id == a[i].id;
        assert(b[j] == a[src(j)]);
        assert(a[src(j)].id != a[i].id);
    }
    assert forall|y: CartItem| !same_key(y, x.cart_id, x.product_id, x.variant_id) implies (#[trigger] b.contains(y)
        <==> a.contains(y)) by {
        if b.contains(y) {
            let k = choose|k: int| 0 <= k < b.len() && b[k] == y;
            assert(b[k] == a[src(k)]);
        }
        if a.contains(y) {
            let j = choose|j: int| 0 <= j < a.len() && a[j] == y;
            assert(j != i);
            let k = if j < i { j } else { j - 1 };
            assert(b[k] == a[j]);
        }
    }
    assert forall|y: CartItem| same_key(y, x.cart_id, x.product_id, x.variant_id) implies !#[trigger] b.contains(y) by {
        if b.contains(y) {
            let k = choose|k: int| 0 <= k < b.len() && b[k] == y;
            assert(b[k] == a[src(k)]);
            assert(!same_key(a[src(k)], a[i].cart_id, a[i].product_id, a[i].variant_id));
        }
    }
}

/// A prefix of well-formed lines is well formed and holds neither the key
/// nor the id of the line that follows it.
pub proof fn lemma_prefix(a: Seq<CartItem>, i: int)
    requires
        lines_wf(a),
        0 <= i < a.len(),
    ensures
        lines_wf(a.take(i)),
        !has_line(a.take(i), a[i].cart_id, a[i].product_id, a[i].variant_id),
        !has_item_id(a.take(i), a[i].id),
        a.take(i + 1) == a.take(i).push(a[i]),
{
    let b = a.take(i);
    assert forall|k: int, l: int| 0 <= k < b.len() && 0 <= l < b.len() && k != l implies !same_key(
        #[trigger] b[l],
        #[trigger] b[k].cart_id,
        b[k].product_id,
        b[k].variant_id,
    ) by {
        assert(!same_key(a[l], a[k].cart_id, a[k].product_id, a[k].variant_id));
    }
    assert forall|k: int, l: int| 0 <= k < b.len() && 0 <= l < b.len() && k != l implies #[trigger] b[k].id
        != #[trigger] b[l].id by {
        assert(a[k].id != a[l].id);
    }
    if has_line(b, a[i].cart_id, a[i].product_id, a[i].variant_id) {
        let k = choose|k: int| 0 <= k < b.len() && same_key(b[k], a[i].cart_id, a[i].product_id, a[i].variant_id);
        assert(!same_key(a[k], a[i].cart_id, a[i].product_id, a[i].variant_id));
    }
    if has_item_id(b, a[i].id) {
        let k = choose|k: int| 0 <= k < b.len() && b[k].id == a[i].id;
        assert(a[k].id != a[i].id);
    }
    assert(a.take(i + 1) =~= a.take(i).push(a[i]));
}

pub open spec fn has_cart(carts: Seq<Cart>, id: u128) -> bool {
    exists|i: int| 0 <= i < carts.len() && carts[i].id == id
}

/// The cart belongs to this store and this owner.
pub open spec fn owned_by(c: Cart, store_id: u128, owner: CartOwner) -> bool {
    c.store_id == store_id && match owner {
        CartOwner::User(u) => c.user_id == Some(u),
        CartOwner::Guest(s) => c.session_id matches Some(t) && t@ == s@,
    }
}

/// The cart that is made for an owner that has none.
pub open spec fn fresh_cart(id: u128, store_id: u128, owner: CartOwner, now: i64) -> Cart {
    Cart {
        id,
        store_id,
        user_id: match owner {
            CartOwner::User(u) => Some(u),
            CartOwner::Guest(_) => None,
        },
        session_id: match owner {
            CartOwner::User(_) => None,
            CartOwner::Guest(s) => Some(s),
        },
        created_at: now,
        updated_at: now,
    }
}

fn same_variant(a: Option<u128>, b: Option<u128>) -> (r: bool)
    ensures
        r == (a == b),
{
    match (a, b) {
        (Some(x), Some(y)) => x == y,
        (None, None) => true,
        _ => false,
    }
}

fn cart_owned_by(c: &Cart, store_id: u128, owner: &CartOwner) -> (r: bool)
    ensures
        r == owned_by(*c, store_id, *owner),
{
    if c.store_id != store_id {
        return false;
    }
    match owner {
        CartOwner::User(u) => match c.user_id {
            Some(v) => v == *u,
            None => false,
        },
        CartOwner::Guest(s) => match &c.session_id {
            Some(t) => t.eq(s),
            None => false,
        },
    }
}

/// When `add_item` succeeds: a positive quantity, an existing cart, a
/// product (or variant) to take stock from, enough of it for the line's new
/// quantity, and a free id where a new line is needed.
pub open spec fn add_accepted(
    carts: Seq<Cart>,
    items: Seq<CartItem>,
    c: Catalog,
    cart_id: u128,
    product_id: u128,
    variant_id: Option<u128>,
    quantity: i32,
    new_item_id: u128,
) -> bool {
    &&& quantity >= 1
    &&& has_cart(carts, cart_id)
    &&& stock_source(c, product_id, variant_id) is Some
    &&& quantity_in(items, cart_id, product_id, variant_id) + quantity <= stock_source(
        c,
        product_id,
        variant_id,
    )->Some_0.0
    &&& (has_line(items, cart_id, product_id, variant_id) || !has_item_id(items, new_item_id))
}

/// The error `add_item` gives, by the first check that fails.
pub open spec fn add_error(
    carts: Seq<Cart>,
    items: Seq<CartItem>,
    c: Catalog,
    cart_id: u128,
    product_id: u128,
    variant_id: Option<u128>,
    quantity: i32,
    e: ApiError,
) -> bool {
    if quantity < 1 {
        e is Validation
    } else if !has_cart(carts, cart_id) {
        e is NotFound
    } else if stock_source(c, product_id, variant_id) is None {
        e is NotFound
    } else if quantity_in(items, cart_id, product_id, variant_id) + quantity > stock_source(
        c,
        product_id,
        variant_id,
    )->Some_0.0 {
        e matches ApiError::BadRequest(m) && m@ == stock_message_of(
            stock_source(c, product_id, variant_id)->Some_0.1,
            stock_source(c, product_id, variant_id)->Some_0.0 as i32,
            (quantity_in(items, cart_id, product_id, variant_id) + quantity) as i64,
        )
    } else {
        e is Database
    }
}

pub open spec fn has_item(items: Seq<CartItem>, item_id: u128, cart_id: u128) -> bool {
    exists|i: int| 0 <= i < items.len() && items[i].id == item_id && items[i].cart_id == cart_id
}

/// The line with this id; meaningful where one exists.
pub open spec fn item_with(items: Seq<CartItem>, item_id: u128) -> CartItem {
    items[choose|i: int| 0 <= i < items.len() && items[i].id == item_id]
}

pub proof fn lemma_item_with(items: Seq<CartItem>, i: int)
    requires
        lines_wf(items),
        0 <= i < items.len(),
    ensures
        item_with(items, items[i].id) == items[i],
{
    let j = choose|j: int| 0 <= j < items.len() && items[j].id == items[i].id;
    assert(items[j].id == items[i].id);
}

/// Splits lines into those of other carts and those of `cart_id`, each in
/// its first order.
fn split_lines(items: &Vec<CartItem>, cart_id: u128) -> (r: (Vec<CartItem>, Vec<CartItem>))
    requires
        lines_wf(items@),
        lines_by_time(items@),
    ensures
        lines_by_time(r.0@),
        lines_by_time(r.1@),
        lines_wf(r.0@),
        lines_wf(r.1@),
        forall|k: int| 0 <= k < r.0@.len() ==> #[trigger] r.0@[k].cart_id != cart_id,
        forall|k: int| 0 <= k < r.1@.len() ==> #[trigger] r.1@[k].cart_id == cart_id,
        forall|k: int| 0 <= k < r.0@.len() ==> items@.contains(#[trigger] r.0@[k]),
        forall|c: u128, p: u128, v: Option<u128>|
            c != cart_id ==> #[trigger] quantity_in(r.0@, c, p, v) == quantity_in(items@, c, p, v),
        forall|p: u128, v: Option<u128>|
            #[trigger] quantity_in(r.1@, cart_id, p, v) == quantity_in(items@, cart_id, p, v),
        forall|p: u128, v: Option<u128>| quantity_in(r.0@, cart_id, p, v) == 0,
        forall|id: u128| has_item_id(r.1@, id) ==> !has_item_id(r.0@, id),
        forall|id: u128| #[trigger] has_item_id(r.0@, id) ==> has_item_id(items@, id),
        forall|y: CartItem| #[trigger] r.0@.contains(y) <==> items@.contains(y) && y.cart_id != cart_id,
{
    let mut kept: Vec<CartItem> = Vec::new();
    let mut taken: Vec<CartItem> = Vec::new();
    let mut i: usize = 0;
    while i < items.len()
        invariant
            lines_wf(items@),
            lines_by_time(items@),
            i <= items@.len(),
            lines_wf(kept@),
            lines_wf(taken@),
            lines_by_time(kept@),
            lines_by_time(taken@),
            forall|k: int| 0 <= k < kept@.len() ==> #[trigger] kept@[k].cart_id != cart_id,
            forall|k: int| 0 <= k < taken@.len() ==> #[trigger] taken@[k].cart_id == cart_id,
            forall|k: int|
                0 <= k < kept@.len() ==> exists|j: int| 0 <= j < i && items@[j] == #[trigger] kept@[k],
            forall|k: int|
                0 <= k < taken@.len() ==> exists|j: int| 0 <= j < i && items@[j] == #[trigger] taken@[k],
            forall|j: int|
                0 <= j < i && items@[j].cart_id != cart_id ==> kept@.contains(#[trigger] items@[j]),
            forall|j: int|
                0 <= j < i && items@[j].cart_id == cart_id ==> taken@.contains(#[trigger] items@[j]),
        decreases items@.len() - i,
    {
        let it = items[i];
        proof {
            assert forall|k: int| 0 <= k < kept@.len() implies #[trigger] kept@[k].created_at <= it.created_at by {
                let j = choose|j: int| 0 <= j < i && items@[j] == kept@[k];
                assert(items@[j].created_at <= items@[i as int].created_at);
            }
            assert forall|k: int| 0 <= k < taken@.len() implies #[trigger] taken@[k].created_at <= it.created_at by {
                let j = choose|j: int| 0 <= j < i && items@[j] == taken@[k];
                assert(items@[j].created_at <= items@[i as int].created_at);
            }
            assert forall|k: int| 0 <= k < kept@.len() implies kept@[k].id != it.id && !same_key(
                it,
                kept@[k].cart_id,
                kept@[k].product_id,
                kept@[k].variant_id,
            ) by {
                let j = choose|j: int| 0 <= j < i && items@[j] == kept@[k];
                assert(items@[j].id != items@[i as int].id);
                assert(!same_key(items@[i as int], items@[j].cart_id, items@[j].product_id, items@[j].variant_id));
            }
            assert forall|k: int| 0 <= k < taken@.len() implies taken@[k].id != it.id && !same_key(
                it,
                taken@[k].cart_id,
                taken@[k].product_id,
                taken@[k].variant_id,
            ) by {
                let j = choose|j: int| 0 <= j < i && items@[j] == taken@[k];
                assert(items@[j].id != items@[i as int].id);
                assert(!same_key(items@[i as int], items@[j].cart_id, items@[j].product_id, items@[j].variant_id));
            }
        }
        if it.cart_id != cart_id {
            let ghost before = kept@;
            kept.push(it);
            proof {
                lemma_time_push(before, it);
                assert(kept@[before.len() as int] == it);
                assert forall|k: int| 0 <= k < kept@.len() implies exists|j: int|
                    0 <= j < i + 1 && items@[j] == #[trigger] kept@[k] by {
                    if k < before.len() {
                        assert(kept@[k] == before[k]);
                        let j = choose|j: int| 0 <= j < i && items@[j] == before[k];
                    } else {
                        assert(items@[i as int] == kept@[k]);
                    }
                }
                assert forall|j: int| 0 <= j < i + 1 && items@[j].cart_id != cart_id implies kept@.contains(
                    #[trigger] items@[j],
                ) by {
                    if j < i {
                        let k = choose|k: int| 0 <= k < before.len() && before[k] == items@[j];
                        assert(kept@[k] == before[k]);
                    } else {
                        assert(kept@[before.len() as int] == items@[j]);
                    }
                }
                assert forall|k: int, l: int|
                    0 <= k < kept@.len() && 0 <= l < kept@.len() && k != l implies #[trigger] kept@[k].id
                    != #[trigger] kept@[l].id by {
                    if k < before.len() && l < before.len() {
                        assert(kept@[k] == before[k] && kept@[l] == before[l]);
                    }
                }
                assert forall|k: int, l: int|
                    0 <= k < kept@.len() && 0 <= l < kept@.len() && k != l implies !same_key(
                    #[trigger] kept@[l],
                    #[trigger] kept@[k].cart_id,
                    kept@[k].product_id,
                    kept@[k].variant_id,
                ) by {
                    if k < before.len() && l < before.len() {
                        assert(kept@[k] == before[k] && kept@[l] == before[l]);
                    } else if k < before.len() {
                        assert(kept@[k] == before[k]);
                    } else if l < before.len() {
                        assert(kept@[l] == before[l]);
                    }
                }
                assert forall|j: int| 0 <= j < i + 1 && items@[j].cart_id == cart_id implies taken@.contains(
                    #[trigger] items@[j],
                ) by {}
                assert forall|k: int| 0 <= k < taken@.len() implies exists|j: int|
                    0 <= j < i + 1 && items@[j] == #[trigger] taken@[k] by {
                    let j = choose|j: int| 0 <= j < i && items@[j] == taken@[k];
                }
            }
        } else {
            let ghost before = taken@;
            taken.push(it);
            proof {
                lemma_time_push(before, it);
                assert(taken@[before.len() as int] == it);
                assert forall|k: int| 0 <= k < taken@.len() implies exists|j: int|
                    0 <= j < i + 1 && items@[j] == #[trigger] taken@[k] by {
                    if k < before.len() {
                        assert(taken@[k] == before[k]);
                        let j = choose|j: int| 0 <= j < i && items@[j] == before[k];
                    } else {
                        assert(items@[i as int] == taken@[k]);
                    }
                }
                assert forall|j: int| 0 <= j < i + 1 && items@[j].cart_id == cart_id implies taken@.contains(
                    #[trigger] items@[j],
                ) by {
                    if j < i {
                        let k = choose|k: int| 0 <= k < before.len() && before[k] == items@[j];
                        assert(taken@[k] == before[k]);
                    } else {
                        assert(taken@[before.len() as int] == items@[j]);
                    }
                }
                assert forall|k: int, l: int|
                    0 <= k < taken@.len() && 0 <= l < taken@.len() && k != l implies #[trigger] taken@[k].id
                    != #[trigger] taken@[l].id by {
                    if k < before.len() && l < before.len() {
                        assert(taken@[k] == before[k] && taken@[l] == before[l]);
                    }
                }
                assert forall|k: int, l: int|
                    0 <= k < taken@.len() && 0 <= l < taken@.len() && k != l implies !same_key(
                    #[trigger] taken@[l],
                    #[trigger] taken@[k].cart_id,
                    taken@[k].product_id,
                    taken@[k].variant_id,
                ) by {
                    if k < before.len() && l < before.len() {
                        assert(taken@[k] == before[k] && taken@[l] == before[l]);
                    } else if k < before.len() {
                        assert(taken@[k] == before[k]);
                    } else if l < before.len() {
                        assert(taken@[l] == before[l]);
                    }
                }
                assert forall|j: int| 0 <= j < i + 1 && items@[j].cart_id != cart_id implies kept@.contains(
                    #[trigger] items@[j],
                ) by {}
                assert forall|k: int| 0 <= k < kept@.len() implies exists|j: int|
                    0 <= j < i + 1 && items@[j] == #[trigger] kept@[k] by {
                    let j = choose|j: int| 0 <= j < i && items@[j] == kept@[k];
                }
            }
        }
        i += 1;
    }
    proof {
        let n = items@.len() as int;
        assert forall|k: int| 0 <= k < kept@.len() implies items@.contains(#[trigger] kept@[k]) by {
            let j = choose|j: int| 0 <= j < n && items@[j] == kept@[k];
        }
        assert forall|c: u128, p: u128, v: Option<u128>|
            c != cart_id implies #[trigger] quantity_in(kept@, c, p, v) == quantity_in(items@, c, p, v) by {
            if has_line(items@, c, p, v) {
                let j = choose|j: int| 0 <= j < n && same_key(items@[j], c, p, v);
                lemma_line_at(items@, j);
                let k = choose|k: int| 0 <= k < kept@.len() && kept@[k] == items@[j];
                lemma_line_at(kept@, k);
            } else if has_line(kept@, c, p, v) {
                let k = choose|k: int| 0 <= k < kept@.len() && same_key(kept@[k], c, p, v);
                let j = choose|j: int| 0 <= j < n && items@[j] == kept@[k];
                assert(same_key(items@[j], c, p, v));
            }
        }
        assert forall|p: u128, v: Option<u128>|
            #[trigger] quantity_in(taken@, cart_id, p, v) == quantity_in(items@, cart_id, p, v) by {
            if has_line(items@, cart_id, p, v) {
                let j = choose|j: int| 0 <= j < n && same_key(items@[j], cart_id, p, v);
                lemma_line_at(items@, j);
                let k = choose|k: int| 0 <= k < taken@.len() && taken@[k] == items@[j];
                lemma_line_at(taken@, k);
            } else if has_line(taken@, cart_id, p, v) {
                let k = choose|k: int| 0 <= k < taken@.len() && same_key(taken@[k], cart_id, p, v);
                let j = choose|j: int| 0 <= j < n && taken@[k] == items@[j];
                assert(same_key(items@[j], cart_id, p, v));
            }
        }
        assert forall|p: u128, v: Option<u128>| quantity_in(kept@, cart_id, p, v) == 0 by {
            if has_line(kept@, cart_id, p, v) {
                let k = choose|k: int| 0 <= k < kept@.len() && same_key(kept@[k], cart_id, p, v);
            }
        }
        assert forall|id: u128| has_item_id(taken@, id) implies !has_item_id(kept@, id) by {
            let k = choose|k: int| 0 <= k < taken@.len() && taken@[k].id == id;
            let j = choose|j: int| 0 <= j < n && items@[j] == taken@[k];
            if has_item_id(kept@, id) {
                let l = choose|l: int| 0 <= l < kept@.len() && kept@[l].id == id;
                let m = choose|m: int| 0 <= m < n && items@[m] == kept@[l];
                assert(items@[m].cart_id != items@[j].cart_id);
            }
        }
        assert forall|y: CartItem| #[trigger] kept@.contains(y) <==> items@.contains(y) && y.cart_id != cart_id by {
            if kept@.contains(y) {
                let k = choose|k: int| 0 <= k < kept@.len() && kept@[k] == y;
                let j = choose|j: int| 0 <= j < n && items@[j] == kept@[k];
            }
            if items@.contains(y) && y.cart_id != cart_id {
                let j = choose|j: int| 0 <= j < n && items@[j] == y;
                assert(kept@.contains(items@[j]));
            }
        }
        assert forall|id: u128| #[trigger] has_item_id(kept@, id) implies has_item_id(items@, id) by {
            let k = choose|k: int| 0 <= k < kept@.len() && kept@[k].id == id;
            let j = choose|j: int| 0 <= j < n && items@[j] == kept@[k];
        }
    }
    (kept, taken)
}

/// When `update_item_quantity` succeeds.
pub open spec fn update_accepted(items: Seq<CartItem>, c: Catalog, item_id: u128, cart_id: u128, quantity: i32) -> bool {
    let it = item_with(items, item_id);
    &&& quantity >= 1
    &&& has_item(items, item_id, cart_id)
    &&& stock_source(c, it.product_id, it.variant_id) is Some
    &&& quantity <= stock_source(c, it.product_id, it.variant_id)->Some_0.0
}

/// The error `update_item_quantity` gives, by the first check that fails.
pub open spec fn update_error(
    items: Seq<CartItem>,
    c: Catalog,
    item_id: u128,
    cart_id: u128,
    quantity: i32,
    e: ApiError,
) -> bool {
    let it = item_with(items, item_id);
    if quantity < 1 {
        e is Validation
    } else if !has_item(items, item_id, cart_id) {
        e is NotFound
    } else if stock_source(c, it.product_id, it.variant_id) is None {
        e is NotFound
    } else {
        e matches ApiError::BadRequest(m) && m@ == stock_message_of(
            stock_source(c, it.product_id, it.variant_id)->Some_0.1,
            stock_source(c, it.product_id, it.variant_id)->Some_0.0 as i32,
            quantity as i64,
        )
    }
}

/// Some (product, variant) would hold more than an `i32` once merged.
pub open spec fn merge_overflows(items: Seq<CartItem>, guest_cart_id: u128, user_cart_id: u128) -> bool {
    exists|p: u128, v: Option<u128>|
        quantity_in(items, user_cart_id, p, v) + quantity_in(items, guest_cart_id, p, v) > i32::MAX
}

/// When `merge_carts` succeeds: two distinct carts that exist, and no
/// merged quantity out of range.
pub open spec fn merge_accepted(carts: Seq<Cart>,
    items: Seq<CartItem>, guest_cart_id: u128, user_cart_id: u128) -> bool {
    &&& has_cart(carts, guest_cart_id)
    &&& has_cart(carts, user_cart_id)
    &&& guest_cart_id != user_cart_id
    &&& !merge_overflows(items, guest_cart_id, user_cart_id)
}

/// What a successful merge leaves: the user cart holds the sum of both, the
/// guest cart and its lines are gone, and the rest is as it was.
pub open spec fn merged(s: CartStore, t: CartStore, guest_cart_id: u128, user_cart_id: u128) -> bool {
    &&& forall|p: u128, v: Option<u128>|
        #[trigger] t.quantity(user_cart_id, p, v) == s.quantity(user_cart_id, p, v) + s.quantity(
            guest_cart_id,
            p,
            v,
        )
    &&& forall|p: u128, v: Option<u128>| #[trigger] t.quantity(guest_cart_id, p, v) == 0
    &&& forall|c: u128, p: u128, v: Option<u128>|
        c != user_cart_id && c != guest_cart_id ==> #[trigger] t.quantity(c, p, v) == s.quantity(c, p, v)
    &&& forall|id: u128| #[trigger] has_cart(t.carts@, id) <==> has_cart(s.carts@, id) && id != guest_cart_id
    &&& forall|y: CartItem|
        y.cart_id != user_cart_id && y.cart_id != guest_cart_id ==> (#[trigger] t.items@.contains(y)
            <==> s.items@.contains(y))
}

/// Adding is additive: two successful additions of `a` and then `b` of
/// the same (cart, product, variant) leave the line with `a + b` more than
/// it held, never just `b`.
pub proof fn lemma_add_is_additive(
    s0: CartStore,
    s1: CartStore,
    s2: CartStore,
    cart: u128,
    product: u128,
    variant: Option<u128>,
    a: i32,
    b: i32,
)
    requires
        s1.quantity(cart, product, variant) == s0.quantity(cart, product, variant) + a,
        s2.quantity(cart, product, variant) == s1.quantity(cart, product, variant) + b,
    ensures
        s2.quantity(cart, product, variant) == s0.quantity(cart, product, variant) + a + b,
{
}

/// The stock bound: an addition whose resulting quantity would exceed the
/// available stock is refused with `BadRequest` (and, by `add_item`,
/// changes nothing), however the rest of the cart looks.
pub proof fn lemma_add_beyond_stock_is_refused(
    s: CartStore,
    c: Catalog,
    cart: u128,
    product: u128,
    variant: Option<u128>,
    quantity: i32,
    new_item_id: u128,
    e: ApiError,
)
    requires
        quantity >= 1,
        has_cart(s.carts@, cart),
        stock_source(c, product, variant) matches Some((stock, _)) && s.quantity(cart, product, variant)
            + quantity > stock,
        add_error(s.carts@, s.items@, c, cart, product, variant, quantity, e),
    ensures
        !add_accepted(s.carts@, s.items@, c, cart, product, variant, quantity, new_item_id),
        e is BadRequest,
{
}

/// The stock bound for a new absolute quantity: above the available stock
/// it is refused with `BadRequest`.
pub proof fn lemma_update_beyond_stock_is_refused(
    s: CartStore,
    c: Catalog,
    item_id: u128,
    cart_id: u128,
    quantity: i32,
    e: ApiError,
)
    requires
        quantity >= 1,
        has_item(s.items@, item_id, cart_id),
        stock_source(c, item_with(s.items@, item_id).product_id, item_with(s.items@, item_id).variant_id) matches Some(
            (stock, _),
        ) && quantity > stock,
        update_error(s.items@, c, item_id, cart_id, quantity, e),
    ensures
        !update_accepted(s.items@, c, item_id, cart_id, quantity),
        e is BadRequest,
{
}

/// Some cart of this store belongs to this owner.
pub open spec fn has_owned(carts: Seq<Cart>, store_id: u128, owner: CartOwner) -> bool {
    exists|i: int| 0 <= i < carts.len() && owned_by(carts[i], store_id, owner)
}

/// `i` is the first cart of this store and owner.
pub open spec fn is_first_owned(carts: Seq<Cart>, store_id: u128, owner: CartOwner, i: int) -> bool {
    &&& 0 <= i < carts.len()
    &&& owned_by(carts[i], store_id, owner)
    &&& forall|j: int| 0 <= j < i ==> !owned_by(carts[j], store_id, owner)
}

/// The first cart of this store and owner; meaningful where one exists.
pub open spec fn first_owned(carts: Seq<Cart>, store_id: u128, owner: CartOwner) -> Cart {
    carts[choose|i: int| is_first_owned(carts, store_id, owner, i)]
}

/// The cart a request of this owner works on: the first it has, else the
/// one made with `new_cart_id`.
pub open spec fn resolved_cart_id(carts: Seq<Cart>, store_id: u128, owner: CartOwner, new_cart_id: u128) -> u128 {
    if has_owned(carts, store_id, owner) {
        first_owned(carts, store_id, owner).id
    } else {
        new_cart_id
    }
}

/// The owner has a cart, or a new one can be made with `new_cart_id`.
pub open spec fn cart_available(carts: Seq<Cart>, store_id: u128, owner: CartOwner, new_cart_id: u128) -> bool {
    has_owned(carts, store_id, owner) || !has_cart(carts, new_cart_id)
}

/// The carts once the owner's cart is found or made.
pub open spec fn carts_after_resolve(
    carts: Seq<Cart>,
    store_id: u128,
    owner: CartOwner,
    new_cart_id: u128,
    now: i64,
) -> Seq<Cart> {
    if has_owned(carts, store_id, owner) {
        carts
    } else {
        carts.push(fresh_cart(new_cart_id, store_id, owner, now))
    }
}

pub proof fn lemma_first_owned(carts: Seq<Cart>, store_id: u128, owner: CartOwner, i: int)
    requires
        is_first_owned(carts, store_id, owner, i),
    ensures
        first_owned(carts, store_id, owner) == carts[i],
        has_owned(carts, store_id, owner),
{
    let k = choose|k: int| is_first_owned(carts, store_id, owner, k);
    if k < i {
        assert(!owned_by(carts[k], store_id, owner));
    } else if k > i {
        assert(!owned_by(carts[i], store_id, owner));
    }
}

/// Carts and their lines, with the uniqueness rules of the cart engine.
#[derive(Debug, Clone)]
pub struct CartStore {
    pub carts: Vec<Cart>,
    pub items: Vec<CartItem>,
}

impl CartStore {
    /// Cart ids are unique and each cart has exactly one owner; the lines
    /// are well formed and each belongs to a cart that exists.
    pub open spec fn wf(&self) -> bool {
        &&& forall|i: int, j: int|
            0 <= i < self.carts@.len() && 0 <= j < self.carts@.len() && i != j
                ==> #[trigger] self.carts@[i].id != #[trigger] self.carts@[j].id
        &&& forall|i: int|
            0 <= i < self.carts@.len() ==> (#[trigger] self.carts@[i]).user_id.is_some()
                != self.carts@[i].session_id.is_some()
        &&& lines_wf(self.items@)
        &&& lines_by_time(self.items@)
        &&& forall|i: int|
            0 <= i < self.items@.len() ==> has_cart(self.carts@, #[trigger] self.items@[i].cart_id)
    }

    pub open spec fn quantity(&self, cart: u128, product: u128, variant: Option<u128>) -> int {
        quantity_in(self.items@, cart, product, variant)
    }

    pub fn new() -> (r: Self)
        ensures
            r.wf(),
            r.carts@.len() == 0,
            r.items@.len() == 0,
    {
        CartStore { carts: Vec::new(), items: Vec::new() }
    }

    pub(crate) fn find_cart(&self, id: u128) -> (r: Option<usize>)
        ensures
            r.is_none() <==> !has_cart(self.carts@, id),
            r matches Some(i) ==> i < self.carts@.len() && self.carts@[i as int].id == id,
    {
        let mut i: usize = 0;
        while i < self.carts.len()
            invariant
                i <= self.carts@.len(),
                forall|j: int| 0 <= j < i ==> self.carts@[j].id != id,
            decreases self.carts@.len() - i,
        {
            if self.carts[i].id == id {
                return Some(i);
            }
            i += 1;
        }
        None
    }

    fn find_line(&self, cart: u128, product: u128, variant: Option<u128>) -> (r: Option<usize>)
        requires
            lines_wf(self.items@),
        ensures
            r.is_none() <==> !has_line(self.items@, cart, product, variant),
            r matches Some(i) ==> i < self.items@.len() && same_key(
                self.items@[i as int],
                cart,
                product,
                variant,
            ),
    {
        let mut i: usize = 0;
        while i < self.items.len()
            invariant
                i <= self.items@.len(),
                forall|j: int| 0 <= j < i ==> !same_key(self.items@[j], cart, product, variant),
            decreases self.items@.len() - i,
        {
            let it = self.items[i];
            if it.cart_id == cart && it.product_id == product && same_variant(it.variant_id, variant) {
                return Some(i);
            }
            i += 1;
        }
        None
    }

    fn find_item(&self, item_id: u128, cart_id: u128) -> (r: Option<usize>)
        ensures
            r.is_none() <==> !has_item(self.items@, item_id, cart_id),
            r matches Some(i) ==> i < self.items@.len() && self.items@[i as int].id == item_id
                && self.items@[i as int].cart_id == cart_id,
    {
        let mut i: usize = 0;
        while i < self.items.len()
            invariant
                i <= self.items@.len(),
                forall|j: int|
                    0 <= j < i ==> !(self.items@[j].id == item_id && self.items@[j].cart_id == cart_id),
            decreases self.items@.len() - i,
        {
            if self.items[i].id == item_id && self.items[i].cart_id == cart_id {
                return Some(i);
            }
            i += 1;
        }
        None
    }

    fn find_item_id(&self, id: u128) -> (r: bool)
        ensures
            r == has_item_id(self.items@, id),
    {
        let mut i: usize = 0;
        while i < self.items.len()
            invariant
                i <= self.items@.len(),
                forall|j: int| 0 <= j < i ==> self.items@[j].id != id,
            decreases self.items@.len() - i,
        {
            if self.items[i].id == id {
                return true;
            }
            i += 1;
        }
        false
    }

    /// The owner's cart in this store: the first that matches, else a new
    /// one with id `new_cart_id`.
    pub fn get_or_create_cart(&mut self, store_id: u128, owner: CartOwner, new_cart_id: u128, now: i64) -> (r:
        Result<Cart, ApiError>)
        requires
            old(self).wf(),
        ensures
            final(self).wf(),
            (exists|i: int| 0 <= i < old(self).carts@.len() && owned_by(old(self).carts@[i], store_id, owner))
                ==> {
                &&& *final(self) == *old(self)
                &&& r matches Ok(c) && exists|i: int|
                    0 <= i < old(self).carts@.len() && owned_by(old(self).carts@[i], store_id, owner)
                        && c == old(self).carts@[i] && forall|j: int|
                        0 <= j < i ==> !owned_by(old(self).carts@[j], store_id, owner)
            },
            !(exists|i: int| 0 <= i < old(self).carts@.len() && owned_by(old(self).carts@[i], store_id, owner))
                ==> if has_cart(old(self).carts@, new_cart_id) {
                &&& *final(self) == *old(self)
                &&& r matches Err(e) && e is Database
            } else {
                r matches Ok(c) && c == fresh_cart(new_cart_id, store_id, owner, now)
                    && final(self).carts@ == old(self).carts@.push(c) && final(self).items@
                    == old(self).items@
            },
            r matches Ok(c) ==> owned_by(c, store_id, owner) && has_cart(final(self).carts@, c.id),
            r is Ok <==> cart_available(old(self).carts@, store_id, owner, new_cart_id),
            r matches Ok(c) ==> c.id == resolved_cart_id(old(self).carts@, store_id, owner, new_cart_id)
                && final(self).carts@ == carts_after_resolve(old(self).carts@, store_id, owner, new_cart_id, now),
            r is Err ==> *final(self) == *old(self),
            final(self).items@ == old(self).items@,
            forall|id: u128| #[trigger] has_cart(old(self).carts@, id) ==> has_cart(final(self).carts@, id),
    {
        let mut i: usize = 0;
        while i < self.carts.len()
            invariant
                self.wf(),
                *self == *old(self),
                i <= self.carts@.len(),
                forall|j: int| 0 <= j < i ==> !owned_by(self.carts@[j], store_id, owner),
            decreases self.carts@.len() - i,
        {
            let c = &self.carts[i];
            if cart_owned_by(c, store_id, &owner) {
                proof {
                    lemma_first_owned(self.carts@, store_id, owner, i as int);
                }
                return Ok(c.duplicate());
            }
            i += 1;
        }
        if self.find_cart(new_cart_id).is_some() {
            return Err(ApiError::Database(String::from_str("cart id already in use")));
        }
        let cart = match owner {
            CartOwner::User(u) => Cart {
                id: new_cart_id,
                store_id,
                user_id: Some(u),
                session_id: None,
                created_at: now,
                updated_at: now,
            },
            CartOwner::Guest(s) => Cart {
                id: new_cart_id,
                store_id,
                user_id: None,
                session_id: Some(s),
                created_at: now,
                updated_at: now,
            },
        };
        let out = cart.duplicate();
        let ghost before = self.carts@;
        self.carts.push(cart);
        proof {
            assert(self.carts@[before.len() as int] == out);
            assert forall|id: u128| #[trigger] has_cart(before, id) implies has_cart(self.carts@, id) by {
                let j = choose|j: int| 0 <= j < before.len() && before[j].id == id;
                assert(self.carts@[j] == before[j]);
            }
            assert forall|k: int| 0 <= k < self.items@.len() implies has_cart(
                self.carts@,
                #[trigger] self.items@[k].cart_id,
            ) by {
                let j = choose|j: int| 0 <= j < before.len() && before[j].id == self.items@[k].cart_id;
                assert(self.carts@[j] == before[j]);
            }
        }
        Ok(out)
    }

    /// Adds `quantity` of a product (or of one of its variants) to a cart.
    ///
    /// The stock is that of the variant when one is named, else that of the
    /// product. An existing line for (cart, product, variant) grows by
    /// `quantity`; otherwise a line with id `new_item_id` is made. Nothing
    /// changes when the call fails.
    pub fn add_item(
        &mut self,
        catalog: &Catalog,
        cart_id: u128,
        product_id: u128,
        variant_id: Option<u128>,
        quantity: i32,
        new_item_id: u128,
        now: i64,
    ) -> (r: Result<CartItem, ApiError>)
        requires
            old(self).wf(),
            catalog.wf(),
        ensures
            final(self).wf(),
            final(self).carts@ == old(self).carts@,
            r is Ok <==> add_accepted(old(self).carts@, old(self).items@, *catalog, cart_id, product_id, variant_id, quantity, new_item_id),
            r matches Ok(item) ==> {
                &&& same_key(item, cart_id, product_id, variant_id)
                &&& item.id == if has_line(old(self).items@, cart_id, product_id, variant_id) {
                    line_at(old(self).items@, cart_id, product_id, variant_id).id
                } else {
                    new_item_id
                }
                &&& item.quantity == old(self).quantity(cart_id, product_id, variant_id) + quantity
                &&& final(self).quantity(cart_id, product_id, variant_id) == item.quantity
                &&& lines_frame(old(self).items@, final(self).items@, cart_id, product_id, variant_id)
                &&& keeps_other_lines(old(self).items@, final(self).items@, cart_id, product_id, variant_id)
                &&& only_line(final(self).items@, item)
            },
            r matches Err(e) ==> {
                &&& *final(self) == *old(self)
                &&& add_error(old(self).carts@, old(self).items@, *catalog, cart_id, product_id, variant_id, quantity, e)
            },
    {
        if quantity < 1 {
            return Err(ApiError::validation(String::from_str("quantity must be at least 1")));
        }
        if self.find_cart(cart_id).is_none() {
            return Err(ApiError::not_found(String::from_str("Cart not found")));
        }
        let (stock, name) = match catalog.stock_for(product_id, variant_id) {
            Ok(found) => found,
            Err(e) => {
                return Err(e);
            },
        };
        let found = self.find_line(cart_id, product_id, variant_id);
        let existing: i32 = match found {
            Some(i) => self.items[i].quantity,
            None => 0,
        };
        proof {
            if let Some(i) = found {
                lemma_line_at(self.items@, i as int);
            }
        }
        let requested: i64 = existing as i64 + quantity as i64;
        if requested > stock as i64 {
            return Err(ApiError::bad_request(stock_message(name.as_str(), stock, requested)));
        }
        match found {
            Some(i) => {
                let mut item = self.items[i];
                item.quantity = requested as i32;
                item.updated_at = now;
                proof {
                    lemma_update_line(self.items@, i as int, item);
                    lemma_time_update(self.items@, i as int, item);
                }
                self.items.set(i, item);
                proof {
                    assert forall|k: int| 0 <= k < self.items@.len() implies has_cart(
                        self.carts@,
                        #[trigger] self.items@[k].cart_id,
                    ) by {
                        assert(self.items@[k].cart_id == old(self).items@[k].cart_id);
                    }
                }
                Ok(item)
            },
            None => {
                if self.find_item_id(new_item_id) {
                    return Err(ApiError::Database(String::from_str("cart item id already in use")));
                }
                let stamp = stamp_after(&self.items, now);
                let item = CartItem {
                    id: new_item_id,
                    cart_id,
                    product_id,
                    variant_id,
                    quantity,
                    created_at: stamp,
                    updated_at: stamp,
                };
                proof {
                    lemma_time_push(self.items@, item);
                    lemma_push_line(self.items@, item);
                }
                self.items.push(item);
                proof {
                    assert forall|k: int| 0 <= k < self.items@.len() implies has_cart(
                        self.carts@,
                        #[trigger] self.items@[k].cart_id,
                    ) by {
                        if k < old(self).items@.len() {
                            assert(self.items@[k] == old(self).items@[k]);
                        }
                    }
                }
                Ok(item)
            },
        }
    }

    /// Empties a cart. Lines of other carts stay as they are; an empty or
    /// unknown cart is no error.
    pub fn clear_cart(&mut self, cart_id: u128)
        requires
            old(self).wf(),
        ensures
            final(self).wf(),
            final(self).carts@ == old(self).carts@,
            forall|p: u128, v: Option<u128>| #[trigger] final(self).quantity(cart_id, p, v) == 0,
            forall|c: u128, p: u128, v: Option<u128>|
                c != cart_id ==> #[trigger] final(self).quantity(c, p, v) == old(self).quantity(c, p, v),
            forall|y: CartItem|
                #[trigger] final(self).items@.contains(y) <==> old(self).items@.contains(y) && y.cart_id != cart_id,
    {
        let (kept, _taken) = split_lines(&self.items, cart_id);
        let ghost before = self.items@;
        self.items = kept;
        proof {
            assert forall|k: int| 0 <= k < self.items@.len() implies has_cart(
                self.carts@,
                #[trigger] self.items@[k].cart_id,
            ) by {
                assert(before.contains(self.items@[k]));
                let j = choose|j: int| 0 <= j < before.len() && before[j] == self.items@[k];
                assert(has_cart(self.carts@, before[j].cart_id));
            }
        }
    }

    /// Removes the line `item_id` of cart `cart_id`, or fails with
    /// `NotFound` when the cart holds no such line.
    pub fn remove_item(&mut self, item_id: u128, cart_id: u128) -> (r: Result<(), ApiError>)
        requires
            old(self).wf(),
        ensures
            final(self).wf(),
            final(self).carts@ == old(self).carts@,
            r is Ok <==> has_item(old(self).items@, item_id, cart_id),
            r matches Err(e) ==> e is NotFound && *final(self) == *old(self),
            r is Ok ==> ({
                let it = item_with(old(self).items@, item_id);
                &&& !has_item_id(final(self).items@, item_id)
                &&& final(self).quantity(it.cart_id, it.product_id, it.variant_id) == 0
                &&& lines_frame(old(self).items@, final(self).items@, it.cart_id, it.product_id, it.variant_id)
                &&& keeps_other_lines(old(self).items@, final(self).items@, it.cart_id, it.product_id, it.variant_id)
                &&& forall|y: CartItem|
                    same_key(y, it.cart_id, it.product_id, it.variant_id) ==> !#[trigger] final(self).items@.contains(y)
            }),
    {
        let mut i: usize = 0;
        while i < self.items.len()
            invariant
                self.wf(),
                *self == *old(self),
                i <= self.items@.len(),
                forall|j: int| 0 <= j < i ==> !(self.items@[j].id == item_id && self.items@[j].cart_id == cart_id),
            decreases self.items@.len() - i,
        {
            if self.items[i].id == item_id && self.items[i].cart_id == cart_id {
                proof {
                    lemma_item_with(self.items@, i as int);
                    lemma_remove_line(self.items@, i as int);
                    lemma_time_remove(self.items@, i as int);
                }
                let ghost before = self.items@;
                self.items.remove(i);
                proof {
                    before.remove_ensures(i as int);
                    assert forall|k: int| 0 <= k < self.items@.len() implies has_cart(
                        self.carts@,
                        #[trigger] self.items@[k].cart_id,
                    ) by {
                        if k < i {
                            assert(self.items@[k] == before[k]);
                        } else {
                            assert(self.items@[k] == before[k + 1]);
                        }
                    }
                }
                return Ok(());
            }
            i += 1;
        }
        Err(ApiError::not_found(String::from_str("Cart item not found")))
    }

    /// Sets the quantity of line `item_id` of cart `cart_id`, checked
    /// against the current stock of its product or variant.
    pub fn update_item_quantity(
        &mut self,
        catalog: &Catalog,
        item_id: u128,
        cart_id: u128,
        quantity: i32,
        now: i64,
    ) -> (r: Result<CartItem, ApiError>)
        requires
            old(self).wf(),
            catalog.wf(),
        ensures
            final(self).wf(),
            final(self).carts@ == old(self).carts@,
            r is Ok <==> update_accepted(old(self).items@, *catalog, item_id, cart_id, quantity),
            r matches Ok(item) ==> ({
                let it = item_with(old(self).items@, item_id);
                &&& item.id == item_id
                &&& same_key(item, it.cart_id, it.product_id, it.variant_id)
                &&& item.quantity == quantity
                &&& final(self).quantity(it.cart_id, it.product_id, it.variant_id) == quantity
                &&& lines_frame(old(self).items@, final(self).items@, it.cart_id, it.product_id, it.variant_id)
                &&& keeps_other_lines(old(self).items@, final(self).items@, it.cart_id, it.product_id, it.variant_id)
                &&& only_line(final(self).items@, item)
            }),
            r matches Err(e) ==> {
                &&& *final(self) == *old(self)
                &&& update_error(old(self).items@, *catalog, item_id, cart_id, quantity, e)
            },
    {
        if quantity < 1 {
            return Err(ApiError::validation(String::from_str("quantity must be at least 1")));
        }
        let i = match self.find_item(item_id, cart_id) {
            Some(i) => i,
            None => {
                return Err(ApiError::not_found(String::from_str("Cart item not found")));
            },
        };
        proof {
            lemma_item_with(self.items@, i as int);
        }
        let mut item = self.items[i];
        let (stock, name) = match catalog.stock_for(item.product_id, item.variant_id) {
            Ok(found) => found,
            Err(e) => {
                return Err(e);
            },
        };
        if quantity > stock {
            return Err(ApiError::bad_request(stock_message(name.as_str(), stock, quantity as i64)));
        }
        item.quantity = quantity;
        item.updated_at = now;
        proof {
            lemma_update_line(self.items@, i as int, item);
            lemma_time_update(self.items@, i as int, item);
        }
        self.items.set(i, item);
        proof {
            assert forall|k: int| 0 <= k < self.items@.len() implies has_cart(
                self.carts@,
                #[trigger] self.items@[k].cart_id,
            ) by {
                assert(self.items@[k].cart_id == old(self).items@[k].cart_id);
            }
        }
        Ok(item)
    }

    /// Moves the lines of a guest cart into a user cart, adding quantities
    /// where both hold the same (product, variant), then deletes the guest
    /// cart. Stock is not checked again. Nothing changes when it fails.
    pub fn merge_carts(&mut self, guest_cart_id: u128, user_cart_id: u128, now: i64) -> (r: Result<
        (),
        ApiError,
    >)
        requires
            old(self).wf(),
        ensures
            final(self).wf(),
            r is Ok <==> merge_accepted(old(self).carts@, old(self).items@, guest_cart_id, user_cart_id),
            r is Ok ==> merged(*old(self), *final(self), guest_cart_id, user_cart_id),
            r matches Err(e) ==> {
                &&& *final(self) == *old(self)
                &&& if !has_cart(old(self).carts@, guest_cart_id) || !has_cart(
                    old(self).carts@,
                    user_cart_id,
                ) {
                    e is NotFound
                } else {
                    e is BadRequest
                }
            },
    {
        let guest_index = match self.find_cart(guest_cart_id) {
            Some(g) => g,
            None => {
                return Err(ApiError::not_found(String::from_str("Cart not found")));
            },
        };
        if self.find_cart(user_cart_id).is_none() {
            return Err(ApiError::not_found(String::from_str("Cart not found")));
        }
        if guest_cart_id == user_cart_id {
            return Err(ApiError::bad_request(String::from_str("a cart cannot be merged into itself")));
        }
        let mut i: usize = 0;
        while i < self.items.len()
            invariant
                self.wf(),
                *self == *old(self),
                i <= self.items@.len(),
                forall|j: int|
                    0 <= j < i && self.items@[j].cart_id == guest_cart_id ==> self.quantity(
                        user_cart_id,
                        #[trigger] self.items@[j].product_id,
                        self.items@[j].variant_id,
                    ) + self.items@[j].quantity <= i32::MAX,
            decreases self.items@.len() - i,
        {
            let it = self.items[i];
            if it.cart_id == guest_cart_id {
                let held: i64 = match self.find_line(user_cart_id, it.product_id, it.variant_id) {
                    Some(k) => {
                        proof {
                            lemma_line_at(self.items@, k as int);
                        }
                        self.items[k].quantity as i64
                    },
                    None => 0,
                };
                if held + it.quantity as i64 > i32::MAX as i64 {
                    proof {
                        lemma_line_at(self.items@, i as int);
                        assert(self.quantity(user_cart_id, it.product_id, it.variant_id) + self.quantity(
                            guest_cart_id,
                            it.product_id,
                            it.variant_id,
                        ) > i32::MAX);
                    }
                    return Err(ApiError::bad_request(String::from_str("merged quantity out of range")));
                }
            }
            i += 1;
        }
        proof {
            assert forall|p: u128, v: Option<u128>|
                self.quantity(user_cart_id, p, v) + self.quantity(guest_cart_id, p, v) <= i32::MAX by {
                if has_line(self.items@, guest_cart_id, p, v) {
                    let j = choose|j: int| 0 <= j < self.items@.len() && same_key(self.items@[j], guest_cart_id, p, v);
                    lemma_line_at(self.items@, j);
                }
                if has_line(self.items@, user_cart_id, p, v) {
                    let j = choose|j: int| 0 <= j < self.items@.len() && same_key(self.items@[j], user_cart_id, p, v);
                    lemma_line_at(self.items@, j);
                }
            }
        }
        let (kept, taken) = split_lines(&self.items, guest_cart_id);
        let ghost start = kept@;
        let ghost initial = self.items@;
        self.items = kept;
        proof {
            assert forall|k: int| 0 <= k < self.items@.len() implies has_cart(
                self.carts@,
                #[trigger] self.items@[k].cart_id,
            ) by {
                let j = choose|j: int| 0 <= j < initial.len() && initial[j] == self.items@[k];
            }
        }
        let mut i: usize = 0;
        while i < taken.len()
            invariant
                lines_wf(self.items@),
                lines_by_time(self.items@),
                lines_wf(taken@),
                self.carts@ == old(self).carts@,
                i <= taken@.len(),
                has_cart(self.carts@, user_cart_id),
                guest_cart_id != user_cart_id,
                forall|k: int| 0 <= k < taken@.len() ==> #[trigger] taken@[k].cart_id == guest_cart_id,
                forall|k: int|
                    0 <= k < self.items@.len() ==> has_cart(self.carts@, #[trigger] self.items@[k].cart_id)
                        && self.items@[k].cart_id != guest_cart_id,
                forall|p: u128, v: Option<u128>|
                    #[trigger] quantity_in(self.items@, user_cart_id, p, v) == quantity_in(start, user_cart_id, p, v)
                        + quantity_in(taken@.take(i as int), guest_cart_id, p, v),
                forall|c: u128, p: u128, v: Option<u128>|
                    c != user_cart_id ==> #[trigger] quantity_in(self.items@, c, p, v) == quantity_in(
                        start,
                        c,
                        p,
                        v,
                    ),
                forall|j: int| i <= j < taken@.len() ==> !has_item_id(self.items@, #[trigger] taken@[j].id),
                forall|y: CartItem|
                    y.cart_id != user_cart_id && y.cart_id != guest_cart_id ==> (#[trigger] self.items@.contains(y)
                        <==> old(self).items@.contains(y)),
                forall|p: u128, v: Option<u128>|
                    #[trigger] quantity_in(start, user_cart_id, p, v) + quantity_in(taken@, guest_cart_id, p, v)
                        <= i32::MAX,
            decreases taken@.len() - i,
        {
            let t = taken[i];
            proof {
                lemma_prefix(taken@, i as int);
                lemma_line_at(taken@, i as int);
                assert(quantity_in(taken@.take(i as int), guest_cart_id, t.product_id, t.variant_id) == 0);
                assert(quantity_in(start, user_cart_id, t.product_id, t.variant_id) + t.quantity <= i32::MAX);
                lemma_push_line(taken@.take(i as int), t);
            }
            let ghost before = self.items@;
            match self.find_line(user_cart_id, t.product_id, t.variant_id) {
                Some(k) => {
                    let mut item = self.items[k];
                    proof {
                        lemma_line_at(self.items@, k as int);
                    }
                    item.quantity = item.quantity + t.quantity;
                    item.updated_at = now;
                    proof {
                        lemma_update_line(self.items@, k as int, item);
                        lemma_time_update(self.items@, k as int, item);
                    }
                    self.items.set(k, item);
                    proof {
                        assert(quantity_in(self.items@, user_cart_id, t.product_id, t.variant_id)
                            == quantity_in(before, user_cart_id, t.product_id, t.variant_id) + t.quantity);
                        assert forall|k2: int| 0 <= k2 < self.items@.len() implies has_cart(
                            self.carts@,
                            #[trigger] self.items@[k2].cart_id,
                        ) && self.items@[k2].cart_id != guest_cart_id by {
                            assert(self.items@[k2].cart_id == before[k2].cart_id);
                        }
                        assert forall|j: int| i + 1 <= j < taken@.len() implies !has_item_id(
                            self.items@,
                            #[trigger] taken@[j].id,
                        ) by {
                            if has_item_id(self.items@, taken@[j].id) {
                                let m = choose|m: int| 0 <= m < self.items@.len() && self.items@[m].id == taken@[j].id;
                                assert(self.items@[m].id == before[m].id);
                            }
                        }
                    }
                },
                None => {
                    let stamp = stamp_after(&self.items, now);
                    let item = CartItem {
                        id: t.id,
                        cart_id: user_cart_id,
                        product_id: t.product_id,
                        variant_id: t.variant_id,
                        quantity: t.quantity,
                        created_at: stamp,
                        updated_at: stamp,
                    };
                    proof {
                        lemma_time_push(self.items@, item);
                        lemma_push_line(self.items@, item);
                    }
                    self.items.push(item);
                    proof {
                        assert(quantity_in(self.items@, user_cart_id, t.product_id, t.variant_id)
                            == quantity_in(before, user_cart_id, t.product_id, t.variant_id) + t.quantity);
                        assert forall|k2: int| 0 <= k2 < self.items@.len() implies has_cart(
                            self.carts@,
                            #[trigger] self.items@[k2].cart_id,
                        ) && self.items@[k2].cart_id != guest_cart_id by {
                            if k2 < before.len() {
                                assert(self.items@[k2] == before[k2]);
                            }
                        }
                        assert forall|j: int| i + 1 <= j < taken@.len() implies !has_item_id(
                            self.items@,
                            #[trigger] taken@[j].id,
                        ) by {
                            assert(taken@[j].id != taken@[i as int].id);
                            if has_item_id(self.items@, taken@[j].id) {
                                let m = choose|m: int| 0 <= m < self.items@.len() && self.items@[m].id == taken@[j].id;
                                if m < before.len() {
                                    assert(self.items@[m] == before[m]);
                                }
                            }
                        }
                    }
                },
            }
            proof {
                assert forall|p: u128, v: Option<u128>|
                    #[trigger] quantity_in(self.items@, user_cart_id, p, v) == quantity_in(
                        start,
                        user_cart_id,
                        p,
                        v,
                    ) + quantity_in(taken@.take(i + 1), guest_cart_id, p, v) by {
                    if !(p == t.product_id && v == t.variant_id) {
                        assert(quantity_in(self.items@, user_cart_id, p, v) == quantity_in(
                            before,
                            user_cart_id,
                            p,
                            v,
                        ));
                        assert(quantity_in(taken@.take(i + 1), guest_cart_id, p, v) == quantity_in(
                            taken@.take(i as int),
                            guest_cart_id,
                            p,
                            v,
                        ));
                    } else {
                        assert(quantity_in(taken@.take(i + 1), guest_cart_id, p, v) == t.quantity);
                        assert(quantity_in(before, user_cart_id, p, v) == quantity_in(start, user_cart_id, p, v));
                    }
                }
            }
            i += 1;
        }
        proof {
            assert(taken@.take(taken@.len() as int) =~= taken@);
        }
        let ghost carts_before = self.carts@;
        self.carts.remove(guest_index);
        proof {
            carts_before.remove_ensures(guest_index as int);
            let g = guest_index as int;
            assert forall|id: u128| #[trigger] has_cart(self.carts@, id) <==> has_cart(carts_before, id) && id
                != guest_cart_id by {
                if has_cart(self.carts@, id) {
                    let k = choose|k: int| 0 <= k < self.carts@.len() && self.carts@[k].id == id;
                    let src = if k < g { k } else { k + 1 };
                    assert(self.carts@[k] == carts_before[src]);
                }
                if has_cart(carts_before, id) && id != guest_cart_id {
                    let j = choose|j: int| 0 <= j < carts_before.len() && carts_before[j].id == id;
                    assert(j != g);
                    let k = if j < g { j } else { j - 1 };
                    assert(self.carts@[k] == carts_before[j]);
                }
            }
            assert forall|k: int, l: int|
                0 <= k < self.carts@.len() && 0 <= l < self.carts@.len() && k != l implies #[trigger] self.carts@[k].id
                != #[trigger] self.carts@[l].id by {
                let sk = if k < g { k } else { k + 1 };
                let sl = if l < g { l } else { l + 1 };
                assert(self.carts@[k] == carts_before[sk]);
                assert(self.carts@[l] == carts_before[sl]);
            }
            assert forall|k: int| 0 <= k < self.items@.len() implies has_cart(
                self.carts@,
                #[trigger] self.items@[k].cart_id,
            ) by {
                assert(has_cart(carts_before, self.items@[k].cart_id));
            }
            assert forall|k: int| 0 <= k < self.carts@.len() implies (#[trigger] self.carts@[k]).user_id.is_some()
                != self.carts@[k].session_id.is_some() by {
                let sk = if k < g { k } else { k + 1 };
                assert(self.carts@[k] == carts_before[sk]);
            }
            assert forall|p: u128, v: Option<u128>| #[trigger] self.quantity(guest_cart_id, p, v) == 0 by {
                if has_line(self.items@, guest_cart_id, p, v) {
                    let k = choose|k: int| 0 <= k < self.items@.len() && same_key(self.items@[k], guest_cart_id, p, v);
                }
            }
        }
        Ok(())
    }

    /// The first cart of this store and owner, without making one.
    pub fn find_owned_cart(&self, store_id: u128, owner: &CartOwner) -> (r: Option<Cart>)
        requires
            self.wf(),
        ensures
            r is None <==> !(exists|i: int| 0 <= i < self.carts@.len() && owned_by(self.carts@[i], store_id, *owner)),
            r matches Some(c) ==> owned_by(c, store_id, *owner) && has_cart(self.carts@, c.id) && c == first_owned(
                self.carts@,
                store_id,
                *owner,
            ),
    {
        let mut i: usize = 0;
        while i < self.carts.len()
            invariant
                i <= self.carts@.len(),
                forall|j: int| 0 <= j < i ==> !owned_by(self.carts@[j], store_id, *owner),
            decreases self.carts@.len() - i,
        {
            if cart_owned_by(&self.carts[i], store_id, owner) {
                proof {
                    lemma_first_owned(self.carts@, store_id, *owner, i as int);
                }
                return Some(self.carts[i].duplicate());
            }
            i += 1;
        }
        None
    }
}

} // verus!
