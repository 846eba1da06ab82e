use vstd::prelude::*;

verus! {

/// The page that is actually served: pages below one are read as the first.
pub open spec fn current_page_of(page: int) -> int {
    if page > 0 { page } else { 1 }
}

/// Rows skipped before the served page.
pub open spec fn offset_of(limit: int, page: int) -> int {
    (current_page_of(page) - 1) * limit
}

/// Number of full pages: floor division, so a partly filled last page is not counted.
pub open spec fn total_pages_of(count: int, limit: int) -> int {
    count / limit
}

/// Whether the offset of a request fits in an `i64`.
pub open spec fn offset_fits(limit: int, page: int) -> bool {
    offset_of(limit, page) <= i64::MAX
}

/// Paging metadata of one listing request.
#[derive(Clone, Copy, Debug, PartialEq, Eq)]
pub struct Pagination {
    pub offset: i64,
    pub total_pages: i64,
    pub current_page: i64,
    pub page: i64,
    pub count: i64,
    pub limit: i64,
}

impl Pagination {
    /// Whether the fields are those that `paginate` computes for `count`, `limit`, `page`.
    pub open spec fn describes(self, count: int, limit: int, page: int) -> bool {
        &&& self.count == count
        &&& self.limit == limit
        &&& self.page == page
        &&& self.current_page == current_page_of(page)
        &&& self.offset == offset_of(limit, page)
        &&& self.total_pages == total_pages_of(count, limit)
    }
}

/// Computes the paging metadata for a table of `count` rows, pages of `limit`
/// rows and the requested `page`.
pub fn paginate(count: i64, limit: i64, page: i64) -> (r: Pagination)
    requires
        count >= 0,
        limit > 0,
        offset_fits(limit as int, page as int),
    ensures
        r.describes(count as int, limit as int, page as int),
{
    let total_pages: i64 = count / limit;
    let current_page: i64 = if page > 0 { page } else { 1 };
    assert(0 <= (current_page - 1) * limit) by (nonlinear_arith)
        requires current_page >= 1, limit > 0;
    let offset: i64 = (current_page - 1) * limit;
    Pagination { offset, total_pages, current_page, page, count, limit }
}

/// Whether `entries` holds, in this order, the keys `offset`, `totalPages`,
/// `currentPage`, `page`, `count`, `limit` with the fields of `p`.
pub open spec fn entries_of(p: Pagination, entries: Seq<(String, i64)>) -> bool {
    &&& entries.len() == 6
    &&& entries[0].0@ == "offset"@ && entries[0].1 == p.offset
    &&& entries[1].0@ == "totalPages"@ && entries[1].1 == p.total_pages
    &&& entries[2].0@ == "currentPage"@ && entries[2].1 == p.current_page
    &&& entries[3].0@ == "page"@ && entries[3].1 == p.page
    &&& entries[4].0@ == "count"@ && entries[4].1 == p.count
    &&& entries[5].0@ == "limit"@ && entries[5].1 == p.limit
}

impl Pagination {
    /// The metadata as named numbers, in the shape handed to the display layer.
    pub fn entries(&self) -> (r: Vec<(String, i64)>)
        ensures
            entries_of(*self, r@),
    {
        let mut r: Vec<(String, i64)> = Vec::new();
        r.push((String::from_str("offset"), self.offset));
        r.push((String::from_str("totalPages"), self.total_pages));
        r.push((String::from_str("currentPage"), self.current_page));
        r.push((String::from_str("page"), self.page));
        r.push((String::from_str("count"), self.count));
        r.push((String::from_str("limit"), self.limit));
        r
    }
}

/// Like `paginate`, but returns `None` instead of requiring a positive page
/// size, a non-negative count and an offset that fits in an `i64`.
pub fn try_paginate(count: i64, limit: i64, page: i64) -> (r: Option<Pagination>)
    ensures
        r.is_some() <==> (count >= 0 && limit > 0 && offset_fits(limit as int, page as int)),
        r matches Some(p) ==> p.describes(count as int, limit as int, page as int),
{
    if count < 0 || limit <= 0 {
        return None;
    }
    let current_page: i64 = if page > 0 { page } else { 1 };
    if current_page - 1 > i64::MAX / limit {
        assert((current_page - 1) * limit > i64::MAX) by (nonlinear_arith)
            requires current_page - 1 > i64::MAX / limit, limit > 0;
        return None;
    }
    assert((current_page - 1) * limit <= i64::MAX) by (nonlinear_arith)
        requires current_page - 1 <= i64::MAX / limit, limit > 0;
    Some(paginate(count, limit, page))
}

/// For a positive page size and a page of at least one, the offset skips the
/// earlier pages exactly and the page count is the floor of count over limit.
pub proof fn lemma_offset_and_total_pages(p: Pagination, count: int, limit: int, page: int)
    requires
        limit > 0,
        page >= 1,
        p.describes(count, limit, page),
    ensures
        p.offset == (page - 1) * limit,
        p.total_pages == count / limit,
        p.current_page == page,
{
}

/// A page number of zero or below is served as the first page, from offset zero.
pub proof fn lemma_nonpositive_page_is_first(p: Pagination, count: int, limit: int, page: int)
    requires
        page <= 0,
        p.describes(count, limit, page),
    ensures
        p.current_page == 1,
        p.offset == 0,
{
}

} // verus!
