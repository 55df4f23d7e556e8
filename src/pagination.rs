use vstd::prelude::*;

verus! {

/// The largest page size a listing hands out.
pub const MAX_PER_PAGE: i64 = 100;

/// Page and page size as a client asked for them, before clamping.
#[derive(Debug, Clone, Copy)]
pub struct PaginationParams {
    pub page: i64,
    pub per_page: i64,
}

pub fn default_page() -> (r: i64)
    ensures
        r == 1,
{
    1
}

pub fn default_per_page() -> (r: i64)
    ensures
        r == 20,
{
    20
}

/// `max(page, 1)`
pub open spec fn effective_page(page: i64) -> int {
    if page < 1 {
        1
    } else {
        page as int
    }
}

/// `clamp(per_page, 1, 100)`
pub open spec fn clamped_per_page(per_page: i64) -> int {
    if per_page < 1 {
        1
    } else if per_page > MAX_PER_PAGE {
        MAX_PER_PAGE as int
    } else {
        per_page as int
    }
}

/// `(max(page, 1) - 1) * clamp(per_page, 1, 100)`
pub open spec fn offset_of(page: i64, per_page: i64) -> int {
    (effective_page(page) - 1) * clamped_per_page(per_page)
}

/// `ceil(total / per_page)` for a positive page size.
pub open spec fn ceil_div(total: int, per_page: int) -> int
    recommends
        per_page > 0,
{
    (total + per_page - 1) / per_page
}

pub fn clamp_per_page(per_page: i64) -> (r: i64)
    ensures
        r == clamped_per_page(per_page),
        1 <= r <= MAX_PER_PAGE,
{
    if per_page < 1 {
        1
    } else if per_page > MAX_PER_PAGE {
        MAX_PER_PAGE
    } else {
        per_page
    }
}

/// `ceil(total / per_page)`, computed without overflow.
pub fn pages_for(total: i64, per_page: i64) -> (r: i64)
    requires
        total >= 0,
        per_page > 0,
    ensures
        r == ceil_div(total as int, per_page as int),
        0 <= r <= total || r == 1,
{
    let q: i64 = total / per_page;
    let m: i64 = total % per_page;
    proof {
        let (t, p) = (total as int, per_page as int);
        assert(t == p * q + m && 0 <= m < p) by (nonlinear_arith)
            requires
                t >= 0,
                p > 0,
                q == t / p,
                m == t % p,
        ;
        assert(0 <= q <= t) by (nonlinear_arith)
            requires
                t >= 0,
                p > 0,
                q == t / p,
        ;
        if m > 0 {
            assert((t + p - 1) / p == q + 1) by (nonlinear_arith)
                requires
                    t == p * q + m,
                    0 < m < p,
            ;
            assert(q + 1 <= t || q + 1 == 1) by (nonlinear_arith)
                requires
                    t == p * q + m,
                    0 < m < p,
                    q >= 0,
            ;
        } else {
            assert((t + p - 1) / p == q) by (nonlinear_arith)
                requires
                    t == p * q,
                    p > 0,
            ;
        }
    }
    if m > 0 {
        q + 1
    } else {
        q
    }
}

impl PaginationParams {
    /// How many items precede the page. Where that number does not fit an
    /// `i64` (a page beyond any listing), it is `i64::MAX`.
    pub fn offset(&self) -> (r: i64)
        ensures
            offset_of(self.page, self.per_page) <= i64::MAX ==> r == offset_of(self.page, self.per_page),
            offset_of(self.page, self.per_page) > i64::MAX ==> r == i64::MAX,
    {
        let page: i64 = if self.page < 1 {
            1
        } else {
            self.page
        };
        let per_page = clamp_per_page(self.per_page);
        proof {
            assert(0 <= (page - 1) * per_page <= 0x7fff_ffff_ffff_ffff * 100) by (nonlinear_arith)
                requires
                    1 <= page <= 0x7fff_ffff_ffff_ffff,
                    1 <= per_page <= 100,
            ;
        }
        let skipped: i128 = (page as i128 - 1) * per_page as i128;
        if skipped > i64::MAX as i128 {
            i64::MAX
        } else {
            skipped as i64
        }
    }

    pub fn limit(&self) -> (r: i64)
        ensures
            r == clamped_per_page(self.per_page),
    {
        clamp_per_page(self.per_page)
    }
}

/// Page numbers of a listing as the response reports them.
#[derive(Debug, Clone, Copy)]
pub struct PaginationMeta {
    pub page: i64,
    pub per_page: i64,
    pub total_items: i64,
    pub total_pages: i64,
}

impl PaginationMeta {
    pub fn new(params: &PaginationParams, total_items: i64) -> (r: Self)
        requires
            total_items >= 0,
        ensures
            r.page == effective_page(params.page),
            r.per_page == clamped_per_page(params.per_page),
            r.total_items == total_items,
            r.total_pages == ceil_div(total_items as int, clamped_per_page(params.per_page)),
    {
        let per_page = clamp_per_page(params.per_page);
        let total_pages = pages_for(total_items, per_page);
        let page: i64 = if params.page < 1 {
            1
        } else {
            params.page
        };
        PaginationMeta { page, per_page, total_items, total_pages }
    }
}

/// One page of a listing with its page numbers.
#[derive(Debug, Clone)]
pub struct PaginatedResponse<T> {
    pub data: Vec<T>,
    pub pagination: PaginationMeta,
}

} // verus!
