use vstd::prelude::*;
use vstd::string::StringExecFns;
use crate::error::ApiError;
use crate::models::{Product, ProductVariant};

verus! {

pub open spec fn has_product(ps: Seq<Product>, id: u128) -> bool {
    exists|i: int| 0 <= i < ps.len() && ps[i].id == id
}

/// The product with this id; meaningful where `has_product` holds.
pub open spec fn product_at(ps: Seq<Product>, id: u128) -> Product {
    ps[choose|i: int| 0 <= i < ps.len() && ps[i].id == id]
}

pub open spec fn has_variant(vs: Seq<ProductVariant>, id: u128) -> bool {
    exists|i: int| 0 <= i < vs.len() && vs[i].id == id
}

pub open spec fn variant_at(vs: Seq<ProductVariant>, id: u128) -> ProductVariant {
    vs[choose|i: int| 0 <= i < vs.len() && vs[i].id == id]
}

/// Products are kept in the order of their creation instants.
pub open spec fn products_by_time(ps: Seq<Product>) -> bool {
    forall|i: int, j: int| 0 <= i < j < ps.len() ==> #[trigger] ps[i].created_at <= #[trigger] ps[j].created_at
}

/// The creation instant a product added at `t` gets: `t`, or the latest one
/// held where that is later.
pub open spec fn latest_or(ps: Seq<Product>, t: i64) -> i64 {
    if ps.len() > 0 && ps.last().created_at > t {
        ps.last().created_at
    } else {
        t
    }
}

/// The products and variants a cart reads prices and stock from.
#[derive(Debug, Clone)]
pub struct Catalog {
    pub products: Vec<Product>,
    pub variants: Vec<ProductVariant>,
}

/// Where a cart line takes its stock from, and the product name that goes
/// with it: the variant when one is named (with its product), else the
/// product itself. `None` when that record does not exist.
pub open spec fn stock_source(c: Catalog, product_id: u128, variant_id: Option<u128>) -> Option<
    (int, Seq<char>),
> {
    match variant_id {
        Some(vid) => if has_variant(c.variants@, vid) && has_product(
            c.products@,
            variant_at(c.variants@, vid).product_id,
        ) {
            Some(
                (
                    variant_at(c.variants@, vid).stock_quantity as int,
                    product_at(c.products@, variant_at(c.variants@, vid).product_id).name@,
                ),
            )
        } else {
            None
        },
        None => if has_product(c.products@, product_id) {
            Some(
                (
                    product_at(c.products@, product_id).stock_quantity as int,
                    product_at(c.products@, product_id).name@,
                ),
            )
        } else {
            None
        },
    }
}

impl Catalog {
    /// Ids are unique; prices and stock are not negative.
    pub open spec fn wf(&self) -> bool {
        &&& forall|i: int, j: int|
            0 <= i < self.products@.len() && 0 <= j < self.products@.len()
                && self.products@[i].id == self.products@[j].id ==> i == j
        &&& forall|i: int, j: int|
            0 <= i < self.variants@.len() && 0 <= j < self.variants@.len()
                && self.variants@[i].id == self.variants@[j].id ==> i == j
        &&& products_by_time(self.products@)
        &&& forall|i: int|
            0 <= i < self.products@.len() ==> self.products@[i].price >= 0
                && self.products@[i].stock_quantity >= 0
        &&& forall|i: int|
            0 <= i < self.variants@.len() ==> self.variants@[i].price >= 0
                && self.variants@[i].stock_quantity >= 0
    }

    pub fn new() -> (r: Self)
        ensures
            r.wf(),
            r.products@.len() == 0,
            r.variants@.len() == 0,
    {
        Catalog { products: Vec::new(), variants: Vec::new() }
    }

    pub fn find_product(&self, id: u128) -> (r: Option<usize>)
        requires
            self.wf(),
        ensures
            r.is_none() <==> !has_product(self.products@, id),
            r matches Some(i) ==> i < self.products@.len() && self.products@[i as int].id == id
                && self.products@[i as int] == product_at(self.products@, id),
    {
        let mut i: usize = 0;
        while i < self.products.len()
            invariant
                self.wf(),
                i <= self.products@.len(),
                forall|j: int| 0 <= j < i ==> self.products@[j].id != id,
            decreases self.products@.len() - i,
        {
            if self.products[i].id == id {
                return Some(i);
            }
            i += 1;
        }
        None
    }

    pub fn find_variant(&self, id: u128) -> (r: Option<usize>)
        requires
            self.wf(),
        ensures
            r.is_none() <==> !has_variant(self.variants@, id),
            r matches Some(i) ==> i < self.variants@.len() && self.variants@[i as int].id == id
                && self.variants@[i as int] == variant_at(self.variants@, id),
    {
        let mut i: usize = 0;
        while i < self.variants.len()
            invariant
                self.wf(),
                i <= self.variants@.len(),
                forall|j: int| 0 <= j < i ==> self.variants@[j].id != id,
            decreases self.variants@.len() - i,
        {
            if self.variants[i].id == id {
                return Some(i);
            }
            i += 1;
        }
        None
    }

    /// Adds a product; its id must be new and its numbers not negative.
    pub fn add_product(&mut self, p: Product) -> (r: Result<(), ApiError>)
        requires
            old(self).wf(),
        ensures
            final(self).wf(),
            r is Ok <==> (!has_product(old(self).products@, p.id) && p.price >= 0
                && p.stock_quantity >= 0),
            r matches Err(e) ==> *final(self) == *old(self) && if p.price >= 0 && p.stock_quantity >= 0 {
                e is Conflict
            } else {
                e is Validation
            },
            r is Ok ==> final(self).products@ == old(self).products@.push(
                Product { created_at: latest_or(old(self).products@, p.created_at), ..p },
            ) && final(self).variants@ == old(self).variants@,
    {
        if p.price < 0 || p.stock_quantity < 0 {
            return Err(ApiError::validation(String::from_str("price and stock must not be negative")));
        }
        if self.find_product(p.id).is_some() {
            return Err(ApiError::conflict(String::from_str("product id already in use")));
        }
        let mut p = p;
        let n = self.products.len();
        if n > 0 && self.products[n - 1].created_at > p.created_at {
            p.created_at = self.products[n - 1].created_at;
        }
        let ghost before = self.products@;
        self.products.push(p);
        proof {
            assert forall|i: int, j: int| 0 <= i < j < self.products@.len() implies #[trigger] self.products@[i].created_at
                <= #[trigger] self.products@[j].created_at by {
                assert(self.products@[i] == before[i]);
                if j < before.len() {
                    assert(self.products@[j] == before[j]);
                } else if i < n - 1 {
                    assert(before[i].created_at <= before[n - 1].created_at);
                }
            }
        }
        Ok(())
    }

    /// Adds a variant of an existing product; its id must be new and its
    /// numbers not negative.
    pub fn add_variant(&mut self, v: ProductVariant) -> (r: Result<(), ApiError>)
        requires
            old(self).wf(),
        ensures
            final(self).wf(),
            r is Ok <==> (!has_variant(old(self).variants@, v.id) && has_product(
                old(self).products@,
                v.product_id,
            ) && v.price >= 0 && v.stock_quantity >= 0),
            r is Err ==> *final(self) == *old(self),
            r is Ok ==> final(self).variants@ == old(self).variants@.push(v)
                && final(self).products@ == old(self).products@,
    {
        if v.price < 0 || v.stock_quantity < 0 {
            return Err(ApiError::validation(String::from_str("price and stock must not be negative")));
        }
        if self.find_product(v.product_id).is_none() {
            return Err(ApiError::not_found(String::from_str("Product not found")));
        }
        if self.find_variant(v.id).is_some() {
            return Err(ApiError::conflict(String::from_str("variant id already in use")));
        }
        self.variants.push(v);
        Ok(())
    }

    /// Available stock and product name for a cart line, or `NotFound`.
    pub fn stock_for(&self, product_id: u128, variant_id: Option<u128>) -> (r: Result<
        (i32, String),
        ApiError,
    >)
        requires
            self.wf(),
        ensures
            match r {
                Ok((stock, name)) => stock_source(*self, product_id, variant_id) == Some(
                    (stock as int, name@),
                ),
                Err(e) => stock_source(*self, product_id, variant_id) is None && e is NotFound,
            },
    {
        match variant_id {
            Some(vid) => {
                match self.find_variant(vid) {
                    Some(vi) => {
                        match self.find_product(self.variants[vi].product_id) {
                            Some(pi) => Ok(
                                (self.variants[vi].stock_quantity, self.products[pi].name.clone()),
                            ),
                            None => Err(
                                ApiError::not_found(String::from_str("Product variant not found")),
                            ),
                        }
                    },
                    None => Err(ApiError::not_found(String::from_str("Product variant not found"))),
                }
            },
            None => {
                match self.find_product(product_id) {
                    Some(pi) => Ok(
                        (self.products[pi].stock_quantity, self.products[pi].name.clone()),
                    ),
                    None => Err(ApiError::not_found(String::from_str("Product not found"))),
                }
            },
        }
    }
}

} // verus!
