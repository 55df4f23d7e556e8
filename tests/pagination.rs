use goseli::common::{self, PaginatedResponse, PaginationQuery};
use goseli::pagination::{self as pages, PaginationMeta, PaginationParams};

#[test]
fn offset_uses_clamped_page_and_size() {
    let p = PaginationParams { page: 3, per_page: 20 };
    assert_eq!(p.offset(), 40);
    assert_eq!(p.limit(), 20);
    let p = PaginationParams { page: 0, per_page: 500 };
    assert_eq!(p.offset(), 0);
    assert_eq!(p.limit(), 100);
    let p = PaginationParams { page: -4, per_page: 0 };
    assert_eq!(p.offset(), 0);
    assert_eq!(p.limit(), 1);
    let p = PaginationParams { page: 2, per_page: 250 };
    assert_eq!(p.offset(), 100);
}

#[test]
fn offset_beyond_range_saturates() {
    let p = PaginationParams { page: i64::MAX, per_page: 100 };
    assert_eq!(p.offset(), i64::MAX);
    let p = PaginationParams { page: i64::MAX, per_page: 1 };
    assert_eq!(p.offset(), i64::MAX - 1);
}

#[test]
fn total_pages_rounds_up() {
    let meta = PaginationMeta::new(&PaginationParams { page: 1, per_page: 20 }, 45);
    assert_eq!(meta.total_pages, 3);
    assert_eq!(meta.per_page, 20);
    assert_eq!(meta.page, 1);
    assert_eq!(meta.total_items, 45);
    let meta = PaginationMeta::new(&PaginationParams { page: 0, per_page: 1000 }, 200);
    assert_eq!(meta.total_pages, 2);
    assert_eq!(meta.page, 1);
    assert_eq!(meta.per_page, 100);
    let meta = PaginationMeta::new(&PaginationParams { page: 2, per_page: 10 }, 0);
    assert_eq!(meta.total_pages, 0);
    let meta = PaginationMeta::new(&PaginationParams { page: 2, per_page: 10 }, 40);
    assert_eq!(meta.total_pages, 4);
}

#[test]
fn largest_count_does_not_overflow() {
    assert_eq!(pages::pages_for(i64::MAX, 1), i64::MAX);
    assert_eq!(pages::pages_for(i64::MAX, 100), i64::MAX / 100 + 1);
}

#[test]
fn paginated_response_counts_pages() {
    let r = PaginatedResponse::new(vec![1, 2, 3], 7, 1, 3);
    assert_eq!(r.items, vec![1, 2, 3]);
    assert_eq!(r.total_pages, 3);
    assert_eq!(r.total, 7);
    assert_eq!(r.page, 1);
    assert_eq!(r.per_page, 3);
}

#[test]
fn query_defaults() {
    let q = PaginationQuery::default();
    assert_eq!(q.page, 1);
    assert_eq!(q.per_page, 20);
    assert_eq!(common::default_page(), 1);
    assert_eq!(common::default_per_page(), 20);
    assert_eq!(pages::default_page(), 1);
    assert_eq!(pages::default_per_page(), 20);
}
