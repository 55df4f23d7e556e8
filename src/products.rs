use vstd::prelude::*;
use vstd::string::{StrSliceExecFns, StringExecFns};
use crate::catalog::{has_product, latest_or, products_by_time, Catalog};
use crate::error::ApiError;
use crate::models::{copy_text, Product, ProductSort, ProductStatus};
use crate::pagination::{clamped_per_page, effective_page, PaginationParams};
use crate::slug::{lower_of, lowercase, slug_of, slugify};

verus! {

#[derive(Debug, Clone)]
pub struct CreateProductRequest {
    pub name: String,
    pub description: Option<String>,
    pub price: i32,
    pub sku: Option<String>,
    pub category_id: Option<u128>,
    pub stock_quantity: Option<i32>,
    pub status: Option<ProductStatus>,
    pub is_featured: Option<bool>,
}

/// Fields left `None` keep their current value.
#[derive(Debug, Clone)]
pub struct UpdateProductRequest {
    pub name: Option<String>,
    pub description: Option<String>,
    pub price: Option<i32>,
    pub sku: Option<String>,
    pub category_id: Option<u128>,
    pub stock_quantity: Option<i32>,
    pub status: Option<ProductStatus>,
    pub is_featured: Option<bool>,
}

/// Filters and page of a product listing. `q` searches name and
/// description, ignoring case. The listing is always newest first; `sort`
/// is accepted and not applied.
#[derive(Debug, Clone)]
pub struct ProductListParams {
    pub page: Option<i64>,
    pub per_page: Option<i64>,
    pub status: Option<ProductStatus>,
    pub category_id: Option<u128>,
    pub sort: Option<ProductSort>,
    pub q: Option<String>,
}

pub open spec fn name_ok(name: Seq<char>) -> bool {
    1 <= name.len() <= 255
}

/// A new product: a name of 1 to 255 characters, a price and a stock that
/// are not negative.
pub open spec fn create_ok(req: CreateProductRequest) -> bool {
    &&& name_ok(req.name@)
    &&& req.price >= 0
    &&& (req.stock_quantity matches Some(s) ==> s >= 0)
}

pub open spec fn update_ok(req: UpdateProductRequest) -> bool {
    &&& (req.name matches Some(n) ==> name_ok(n@))
    &&& (req.price matches Some(p) ==> p >= 0)
    &&& (req.stock_quantity matches Some(s) ==> s >= 0)
}

fn check_name(name: &String) -> (r: Result<(), ApiError>)
    ensures
        r is Ok <==> name_ok(name@),
        r matches Err(e) ==> e is Validation,
{
    let n = name.as_str().unicode_len();
    if n < 1 || n > 255 {
        Err(ApiError::validation(String::from_str("name: must be 1 to 255 characters")))
    } else {
        Ok(())
    }
}

fn check_not_negative(v: Option<i32>) -> (r: Result<(), ApiError>)
    ensures
        r is Ok <==> (v matches Some(x) ==> x >= 0),
        r matches Err(e) ==> e is Validation,
{
    match v {
        Some(x) => if x < 0 {
            Err(ApiError::validation(String::from_str("price and stock must not be negative")))
        } else {
            Ok(())
        },
        None => Ok(()),
    }
}

/// The product that `create_product` records.
pub open spec fn created_product(
    id: u128,
    store_id: u128,
    req: CreateProductRequest,
    held: Seq<Product>,
    now: i64,
    p: Product,
) -> bool {
    &&& p.id == id
    &&& p.store_id == store_id
    &&& p.category_id == req.category_id
    &&& p.name == req.name
    &&& p.slug@ == slug_of(lower_of(req.name@))
    &&& p.description == req.description
    &&& p.sku == req.sku
    &&& p.price == req.price
    &&& p.stock_quantity == match req.stock_quantity {
        Some(s) => s,
        None => 0,
    }
    &&& p.image_url is None
    &&& p.status == match req.status {
        Some(s) => s,
        None => ProductStatus::Draft,
    }
    &&& p.is_featured == match req.is_featured {
        Some(f) => f,
        None => false,
    }
    &&& p.created_at == latest_or(held, now)
    &&& p.updated_at == now
}

/// The product after an update: each field given replaces the current one;
/// a new name brings a new slug.
pub open spec fn updated_product(old: Product, req: UpdateProductRequest, now: i64, p: Product) -> bool {
    &&& p.id == old.id
    &&& p.store_id == old.store_id
    &&& p.category_id == match req.category_id {
        Some(c) => Some(c),
        None => old.category_id,
    }
    &&& p.name == match req.name {
        Some(n) => n,
        None => old.name,
    }
    &&& p.slug@ == match req.name {
        Some(n) => slug_of(lower_of(n@)),
        None => old.slug@,
    }
    &&& p.description == match req.description {
        Some(d) => Some(d),
        None => old.description,
    }
    &&& p.sku == match req.sku {
        Some(s) => Some(s),
        None => old.sku,
    }
    &&& p.price == match req.price {
        Some(x) => x,
        None => old.price,
    }
    &&& p.stock_quantity == match req.stock_quantity {
        Some(x) => x,
        None => old.stock_quantity,
    }
    &&& p.image_url == old.image_url
    &&& p.status == match req.status {
        Some(s) => s,
        None => old.status,
    }
    &&& p.is_featured == match req.is_featured {
        Some(f) => f,
        None => old.is_featured,
    }
    &&& p.created_at == old.created_at
    &&& p.updated_at == now
}

/// A product is listed when it belongs to the store and passes the
/// category and status filters that are set.
pub open spec fn listed(p: Product, store_id: u128, params: ProductListParams) -> bool {
    &&& p.store_id == store_id
    &&& (params.category_id matches Some(c) ==> p.category_id == Some(c))
    &&& (params.status matches Some(s) ==> p.status == s)
    &&& (params.q matches Some(q) ==> text_matches(p, q@))
}

/// `needle` occurs in `hay`.
pub open spec fn contains_text(hay: Seq<char>, needle: Seq<char>) -> bool {
    exists|i: int|
        0 <= i && i + needle.len() <= hay.len() && #[trigger] hay.subrange(i, i + needle.len()) == needle
}

/// The search text occurs, ignoring case, in the name or the description.
pub open spec fn text_matches(p: Product, q: Seq<char>) -> bool {
    contains_text(lower_of(p.name@), lower_of(q)) || (p.description matches Some(d) && contains_text(
        lower_of(d@),
        lower_of(q),
    ))
}

fn chars_of(s: &str) -> (r: Vec<char>)
    ensures
        r@ == s@,
{
    let n = s.unicode_len();
    let mut out: Vec<char> = Vec::new();
    let mut i: usize = 0;
    while i < n
        invariant
            n == s@.len(),
            i <= n,
            out@ == s@.take(i as int),
        decreases n - i,
    {
        out.push(s.get_char(i));
        proof {
            assert(out@ =~= s@.take(i + 1));
        }
        i += 1;
    }
    proof {
        assert(s@.take(n as int) =~= s@);
    }
    out
}

fn contains_chars(hay: &Vec<char>, needle: &Vec<char>) -> (r: bool)
    ensures
        r == contains_text(hay@, needle@),
{
    let n = needle.len();
    if n > hay.len() {
        return false;
    }
    let mut i: usize = 0;
    while i <= hay.len() - n
        invariant
            n == needle@.len(),
            n <= hay@.len(),
            i <= hay@.len() - n + 1,
            forall|k: int| 0 <= k < i ==> #[trigger] hay@.subrange(k, k + needle@.len()) != needle@,
        decreases hay@.len() + 1 - i,
    {
        let mut j: usize = 0;
        let mut same = true;
        while j < n && same
            invariant
                n == needle@.len(),
                i + n <= hay@.len(),
                hay@.len() == hay.len(),
                j <= n,
                forall|m: int| 0 <= m < j ==> hay@[i + m] == needle@[m],
                !same ==> j < n && hay@[i + j] != needle@[j as int],
            decreases n - j + (if same { 1int } else { 0int }),
        {
            if hay[i + j] == needle[j] {
                j += 1;
            } else {
                same = false;
            }
        }
        if same {
            proof {
                assert(hay@.subrange(i as int, i + needle@.len()) =~= needle@);
            }
            return true;
        }
        proof {
            assert(hay@.subrange(i as int, i + needle@.len())[j as int] != needle@[j as int]);
        }
        i += 1;
    }
    false
}

fn search_matches(p: &Product, q: &String) -> (r: bool)
    ensures
        r == text_matches(*p, q@),
{
    let needle = chars_of(lowercase(q.as_str()).as_str());
    let name = chars_of(lowercase(p.name.as_str()).as_str());
    if contains_chars(&name, &needle) {
        return true;
    }
    match &p.description {
        Some(d) => {
            let text = chars_of(lowercase(d.as_str()).as_str());
            contains_chars(&text, &needle)
        },
        None => false,
    }
}

/// The listed products, newest first.
pub open spec fn newest_first(ps: Seq<Product>, store_id: u128, params: ProductListParams) -> Seq<Product>
    decreases ps.len(),
{
    if ps.len() == 0 {
        Seq::empty()
    } else {
        let rest = newest_first(ps.drop_last(), store_id, params);
        if listed(ps.last(), store_id, params) {
            seq![ps.last()] + rest
        } else {
            rest
        }
    }
}

/// `s` runs from the newest product to the oldest.
pub open spec fn newest_to_oldest(s: Seq<Product>) -> bool {
    forall|i: int, j: int| 0 <= i < j < s.len() ==> #[trigger] s[i].created_at >= #[trigger] s[j].created_at
}

/// Listed products come newest first by creation instant.
pub proof fn lemma_newest_first_in_order(ps: Seq<Product>, store_id: u128, params: ProductListParams)
    requires
        products_by_time(ps),
    ensures
        newest_to_oldest(newest_first(ps, store_id, params)),
        forall|k: int|
            0 <= k < newest_first(ps, store_id, params).len() ==> ps.contains(
                #[trigger] newest_first(ps, store_id, params)[k],
            ),
    decreases ps.len(),
{
    if ps.len() > 0 {
        let pre = ps.drop_last();
        let last = ps.last();
        assert forall|i: int, j: int| 0 <= i < j < pre.len() implies #[trigger] pre[i].created_at
            <= #[trigger] pre[j].created_at by {
            assert(pre[i] == ps[i] && pre[j] == ps[j]);
        }
        lemma_newest_first_in_order(pre, store_id, params);
        let rest = newest_first(pre, store_id, params);
        assert forall|k: int| 0 <= k < rest.len() implies ps.contains(#[trigger] rest[k])
            && rest[k].created_at <= last.created_at by {
            assert(pre.contains(rest[k]));
            let j = choose|j: int| 0 <= j < pre.len() && pre[j] == rest[k];
            assert(ps[j] == rest[k]);
            assert(ps[j].created_at <= ps[ps.len() - 1].created_at);
        }
        if listed(last, store_id, params) {
            let v = seq![last] + rest;
            assert(newest_first(ps, store_id, params) == v);
            assert forall|i: int, j: int| 0 <= i < j < v.len() implies #[trigger] v[i].created_at
                >= #[trigger] v[j].created_at by {
                assert(v[j] == rest[j - 1]);
                if i > 0 {
                    assert(v[i] == rest[i - 1]);
                }
            }
            assert forall|k: int| 0 <= k < v.len() implies ps.contains(#[trigger] v[k]) by {
                if k > 0 {
                    assert(v[k] == rest[k - 1]);
                } else {
                    assert(ps[ps.len() - 1] == v[k]);
                }
            }
        }
    }
}

/// Page and page size of a listing, 1 and 20 where not given.
pub open spec fn page_params(params: ProductListParams) -> PaginationParams {
    PaginationParams {
        page: match params.page {
            Some(p) => p,
            None => 1,
        },
        per_page: match params.per_page {
            Some(p) => p,
            None => 20,
        },
    }
}

pub open spec fn min_int(a: int, b: int) -> int {
    if a < b {
        a
    } else {
        b
    }
}

/// One page of `all`: at most `limit` items from `offset` on.
pub open spec fn page_of(all: Seq<Product>, offset: int, limit: int) -> Seq<Product> {
    all.subrange(min_int(offset, all.len() as int), min_int(offset + limit, all.len() as int))
}

impl Product {
    pub fn duplicate(&self) -> (r: Product)
        ensures
            r == *self,
    {
        Product {
            id: self.id,
            store_id: self.store_id,
            category_id: self.category_id,
            name: self.name.clone(),
            slug: self.slug.clone(),
            description: copy_text(&self.description),
            sku: copy_text(&self.sku),
            price: self.price,
            stock_quantity: self.stock_quantity,
            image_url: copy_text(&self.image_url),
            status: self.status,
            is_featured: self.is_featured,
            created_at: self.created_at,
            updated_at: self.updated_at,
        }
    }
}

impl Catalog {
    /// Records a product with a slug made from its name. Status defaults to
    /// draft, stock to 0.
    pub fn create_product(&mut self, id: u128, store_id: u128, req: CreateProductRequest, now: i64) -> (r: Result<
        Product,
        ApiError,
    >)
        requires
            old(self).wf(),
        ensures
            final(self).wf(),
            r is Ok <==> create_ok(req) && !has_product(old(self).products@, id),
            r matches Ok(p) ==> created_product(id, store_id, req, old(self).products@, now, p) && final(self).products@
                == old(self).products@.push(p) && final(self).variants@ == old(self).variants@,
            r matches Err(e) ==> *final(self) == *old(self) && if create_ok(req) {
                e is Conflict
            } else {
                e is Validation
            },
    {
        match check_name(&req.name) {
            Ok(()) => {},
            Err(e) => {
                return Err(e);
            },
        }
        match check_not_negative(Some(req.price)) {
            Ok(()) => {},
            Err(e) => {
                return Err(e);
            },
        }
        match check_not_negative(req.stock_quantity) {
            Ok(()) => {},
            Err(e) => {
                return Err(e);
            },
        }
        let slug = slugify(req.name.as_str());
        let n = self.products.len();
        let stamp: i64 = if n > 0 && self.products[n - 1].created_at > now {
            self.products[n - 1].created_at
        } else {
            now
        };
        let p = Product {
            id,
            store_id,
            category_id: req.category_id,
            name: req.name,
            slug,
            description: req.description,
            sku: req.sku,
            price: req.price,
            stock_quantity: match req.stock_quantity {
                Some(s) => s,
                None => 0,
            },
            image_url: None,
            status: match req.status {
                Some(s) => s,
                None => ProductStatus::Draft,
            },
            is_featured: match req.is_featured {
                Some(f) => f,
                None => false,
            },
            created_at: stamp,
            updated_at: now,
        };
        let out = p.duplicate();
        match self.add_product(p) {
            Ok(()) => Ok(out),
            Err(e) => Err(e),
        }
    }

    /// Applies an update to a product; `NotFound` where there is none.
    pub fn update_product(&mut self, id: u128, req: UpdateProductRequest, now: i64) -> (r: Result<Product, ApiError>)
        requires
            old(self).wf(),
        ensures
            final(self).wf(),
            final(self).variants@ == old(self).variants@,
            r is Ok <==> has_product(old(self).products@, id) && update_ok(req),
            r matches Err(e) ==> *final(self) == *old(self) && if has_product(old(self).products@, id) {
                e is Validation
            } else {
                e is NotFound
            },
            r matches Ok(p) ==> exists|i: int|
                0 <= i < old(self).products@.len() && old(self).products@[i].id == id && updated_product(
                    old(self).products@[i],
                    req,
                    now,
                    p,
                ) && final(self).products@ == old(self).products@.update(i, p),
    {
        let i = match self.find_product(id) {
            Some(i) => i,
            None => {
                return Err(ApiError::not_found(String::from_str("Product not found")));
            },
        };
        match &req.name {
            Some(n) => match check_name(n) {
                Ok(()) => {},
                Err(e) => {
                    return Err(e);
                },
            },
            None => {},
        }
        match check_not_negative(req.price) {
            Ok(()) => {},
            Err(e) => {
                return Err(e);
            },
        }
        match check_not_negative(req.stock_quantity) {
            Ok(()) => {},
            Err(e) => {
                return Err(e);
            },
        }
        let cur = self.products[i].duplicate();
        let (name, slug) = match req.name {
            Some(n) => {
                let s = slugify(n.as_str());
                (n, s)
            },
            None => (cur.name, cur.slug),
        };
        let p = Product {
            id: cur.id,
            store_id: cur.store_id,
            category_id: match req.category_id {
                Some(c) => Some(c),
                None => cur.category_id,
            },
            name,
            slug,
            description: match req.description {
                Some(d) => Some(d),
                None => cur.description,
            },
            sku: match req.sku {
                Some(s) => Some(s),
                None => cur.sku,
            },
            price: match req.price {
                Some(x) => x,
                None => cur.price,
            },
            stock_quantity: match req.stock_quantity {
                Some(x) => x,
                None => cur.stock_quantity,
            },
            image_url: cur.image_url,
            status: match req.status {
                Some(s) => s,
                None => cur.status,
            },
            is_featured: match req.is_featured {
                Some(f) => f,
                None => cur.is_featured,
            },
            created_at: cur.created_at,
            updated_at: now,
        };
        let out = p.duplicate();
        let ghost before = self.products@;
        self.products.set(i, p);
        proof {
            assert forall|a: int, b: int|
                0 <= a < self.products@.len() && 0 <= b < self.products@.len() && self.products@[a].id
                    == self.products@[b].id implies a == b by {
                assert(self.products@[a].id == before[a].id && self.products@[b].id == before[b].id);
            }
        }
        Ok(out)
    }

    /// Archives a product; an unknown id is no error.
    pub fn delete_product(&mut self, id: u128, now: i64)
        requires
            old(self).wf(),
        ensures
            final(self).wf(),
            final(self).variants@ == old(self).variants@,
            !has_product(old(self).products@, id) ==> *final(self) == *old(self),
            has_product(old(self).products@, id) ==> exists|i: int|
                0 <= i < old(self).products@.len() && old(self).products@[i].id == id
                    && final(self).products@ == old(self).products@.update(
                    i,
                    Product { status: ProductStatus::Archived, updated_at: now, ..old(self).products@[i] },
                ),
    {
        match self.find_product(id) {
            Some(i) => {
                let mut p = self.products[i].duplicate();
                p.status = ProductStatus::Archived;
                p.updated_at = now;
                let ghost before = self.products@;
                self.products.set(i, p);
                proof {
                    assert forall|a: int, b: int|
                        0 <= a < self.products@.len() && 0 <= b < self.products@.len() && self.products@[a].id
                            == self.products@[b].id implies a == b by {
                        assert(self.products@[a].id == before[a].id && self.products@[b].id == before[b].id);
                    }
                }
            },
            None => {},
        }
    }

    /// The product with this id.
    pub fn get_product_by_id(&self, id: u128) -> (r: Result<Product, ApiError>)
        requires
            self.wf(),
        ensures
            r is Ok <==> has_product(self.products@, id),
            r matches Ok(p) ==> p.id == id && self.products@.contains(p),
            r matches Err(e) ==> e is NotFound,
    {
        match self.find_product(id) {
            Some(i) => Ok(self.products[i].duplicate()),
            None => Err(ApiError::not_found(String::from_str("Product not found"))),
        }
    }

    /// The first product of a store with this slug.
    pub fn get_product_by_slug(&self, store_id: u128, slug: &str) -> (r: Result<Product, ApiError>)
        requires
            self.wf(),
        ensures
            r is Ok <==> exists|i: int|
                0 <= i < self.products@.len() && self.products@[i].store_id == store_id
                    && self.products@[i].slug@ == slug@,
            r matches Ok(p) ==> p.store_id == store_id && p.slug@ == slug@ && self.products@.contains(p),
            r matches Err(e) ==> e is NotFound,
    {
        let wanted = String::from_str(slug);
        let mut i: usize = 0;
        while i < self.products.len()
            invariant
                i <= self.products@.len(),
                wanted@ == slug@,
                forall|j: int|
                    0 <= j < i ==> !(self.products@[j].store_id == store_id && self.products@[j].slug@ == slug@),
            decreases self.products@.len() - i,
        {
            if self.products[i].store_id == store_id && self.products[i].slug.eq(&wanted) {
                return Ok(self.products[i].duplicate());
            }
            i += 1;
        }
        Err(ApiError::not_found(String::from_str("Product not found")))
    }

    /// The listed products of a store, newest first.
    pub fn matching_products(&self, store_id: u128, params: &ProductListParams) -> (r: Vec<Product>)
        ensures
            r@ == newest_first(self.products@, store_id, *params),
    {
        let mut out: Vec<Product> = Vec::new();
        let mut k: usize = self.products.len();
        proof {
            assert(self.products@.take(k as int) =~= self.products@);
            assert(out@ + newest_first(self.products@.take(k as int), store_id, *params) =~= newest_first(
                self.products@,
                store_id,
                *params,
            ));
        }
        while k > 0
            invariant
                k <= self.products@.len(),
                out@ + newest_first(self.products@.take(k as int), store_id, *params) == newest_first(
                    self.products@,
                    store_id,
                    *params,
                ),
            decreases k,
        {
            let p = &self.products[k - 1];
            let keep = p.store_id == store_id && match params.category_id {
                Some(c) => match p.category_id {
                    Some(pc) => pc == c,
                    None => false,
                },
                None => true,
            } && match params.status {
                Some(s) => p.status == s,
                None => true,
            } && match &params.q {
                Some(q) => search_matches(p, q),
                None => true,
            };
            let ghost prefix = self.products@.take(k as int);
            proof {
                assert(prefix.drop_last() =~= self.products@.take(k - 1));
                assert(prefix.last() == *p);
                assert(keep == listed(*p, store_id, *params));
            }
            if keep {
                let ghost before = out@;
                out.push(p.duplicate());
                proof {
                    assert(out@ + newest_first(self.products@.take(k - 1), store_id, *params) =~= before + (seq![*p]
                        + newest_first(self.products@.take(k - 1), store_id, *params)));
                }
            }
            k -= 1;
        }
        proof {
            assert(self.products@.take(0) =~= Seq::<Product>::empty());
            assert(out@ =~= out@ + Seq::<Product>::empty());
        }
        out
    }

    /// How many products a listing matches, all pages together.
    pub fn count_products(&self, store_id: u128, params: &ProductListParams) -> (r: usize)
        ensures
            r == newest_first(self.products@, store_id, *params).len(),
    {
        self.matching_products(store_id, params).len()
    }

    /// One page of a listing: page and page size as `PaginationParams`
    /// clamps them.
    pub fn list_products(&self, store_id: u128, params: &ProductListParams) -> (r: Vec<Product>)
        requires
            self.wf(),
        ensures
            newest_to_oldest(r@),
            r@ == page_of(
                newest_first(self.products@, store_id, *params),
                (effective_page(page_params(*params).page) - 1) * clamped_per_page(page_params(*params).per_page),
                clamped_per_page(page_params(*params).per_page),
            ),
    {
        let all = self.matching_products(store_id, params);
        proof {
            lemma_newest_first_in_order(self.products@, store_id, *params);
        }
        let page: i64 = match params.page {
            Some(p) => p,
            None => 1,
        };
        let per_page: i64 = match params.per_page {
            Some(p) => p,
            None => 20,
        };
        let p = PaginationParams { page, per_page };
        let limit = p.limit();
        let pg: i64 = if page < 1 {
            1
        } else {
            page
        };
        let ghost off = (pg - 1) * limit;
        let ghost n = all@.len() as int;
        proof {
            assert(0 <= (pg - 1) * limit) by (nonlinear_arith)
                requires
                    pg >= 1,
                    limit >= 1,
            ;
            assert((pg - 1) * limit <= 0x7fff_ffff_ffff_ffff * 100) by (nonlinear_arith)
                requires
                    1 <= pg <= 0x7fff_ffff_ffff_ffff,
                    1 <= limit <= 100,
            ;
        }
        let skip: u128 = (pg - 1) as u128 * (limit as u128);
        let first: usize = if skip >= all.len() as u128 {
            all.len()
        } else {
            skip as usize
        };
        let mut out: Vec<Product> = Vec::new();
        let mut i: usize = first;
        while i < all.len() && i - first < limit as usize
            invariant
                first <= i <= all@.len(),
                first == min_int(off, n),
                i - first <= limit,
                1 <= limit <= 100,
                n == all@.len(),
                out@ == all@.subrange(first as int, i as int),
            decreases all@.len() - i,
        {
            out.push(all[i].duplicate());
            proof {
                assert(out@ =~= all@.subrange(first as int, i + 1));
            }
            i += 1;
        }
        proof {
            assert(i == min_int(off + limit, n));
            assert forall|a: int, b: int| 0 <= a < b < out@.len() implies #[trigger] out@[a].created_at
                >= #[trigger] out@[b].created_at by {
                assert(out@[a] == all@[first + a] && out@[b] == all@[first + b]);
            }
        }
        out
    }
}

} // verus!
