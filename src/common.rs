use vstd::prelude::*;
use crate::pagination::{ceil_div, pages_for};

verus! {

/// One page of a listing, with the page numbers beside the items.
#[derive(Debug, Clone)]
pub struct PaginatedResponse<T> {
    pub items: Vec<T>,
    pub total: i64,
    pub page: i64,
    pub per_page: i64,
    pub total_pages: i64,
}

impl<T> PaginatedResponse<T> {
    pub fn new(items: Vec<T>, total: i64, page: i64, per_page: i64) -> (r: Self)
        requires
            total >= 0,
            per_page > 0,
        ensures
            r.items@ == items@,
            r.total == total,
            r.page == page,
            r.per_page == per_page,
            r.total_pages == ceil_div(total as int, per_page as int),
    {
        let total_pages = pages_for(total, per_page);
        PaginatedResponse { items, total, page, per_page, total_pages }
    }
}

/// Page and page size of a query string, with their defaults.
#[derive(Debug, Clone, Copy)]
pub struct PaginationQuery {
    pub page: i64,
    pub per_page: i64,
}

pub fn default_page() -> (r: i64)
    ensures
        r == 1,
{
    1
}

pub fn default_per_page() -> (r: i64)
    ensures
        r == 20,
{
    20
}

impl Default for PaginationQuery {
    fn default() -> (r: Self)
        ensures
            r.page == 1,
            r.per_page == 20,
    {
        PaginationQuery { page: default_page(), per_page: default_per_page() }
    }
}

} // verus!
