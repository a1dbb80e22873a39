//! The pagination utility shared by every listing operation.
//!
//! A listing call takes a zero-based `page` and a page `size` and returns a
//! window of the underlying collection together with bookkeeping fields: the
//! window is `[page * size, min(page * size + size, total))`, and `pages` is
//! the total number of pages, rounding up.

use vstd::prelude::*;

verus! {

/// The envelope every paginated query returns.
pub struct PageResult<T> {
    pub success: bool,
    pub err: String,
    pub total: u64,
    pub pages: u64,
    pub page: u64,
    pub size: u64,
    pub data: Vec<T>,
}

/// First index of the requested window.
pub open spec fn spec_start(page: u64, size: u64) -> int {
    page * size
}

/// One past the last index of the requested window.
pub open spec fn spec_end(page: u64, size: u64, total: u64) -> int {
    if page * size + size > total {
        total as int
    } else {
        page * size + size
    }
}

/// Number of pages needed for `total` items: `total / size`, rounded up.
pub open spec fn spec_pages(total: u64, size: u64) -> int
    recommends
        size >= 1,
{
    if total % size > 0 {
        total / size + 1
    } else {
        (total / size) as int
    }
}

/// The page parameters a listing call accepts: a positive page size, small
/// enough that the window bounds fit in the machine's arithmetic.
pub open spec fn valid_page_params(page: u64, size: u64) -> bool {
    &&& 1 <= size
    &&& page * size + size <= u64::MAX
}

/// The number of items one page actually carries: the window's extent, or
/// nothing when the window starts past the end.
pub open spec fn window_len(page: u64, size: u64, total: u64) -> int {
    if spec_start(page, size) <= spec_end(page, size, total) {
        spec_end(page, size, total) - spec_start(page, size)
    } else {
        0
    }
}

/// The bookkeeping fields every successful listing result carries.
pub open spec fn page_meta<T>(r: PageResult<T>, total: u64, page: u64, size: u64) -> bool {
    &&& r.success == true
    &&& r.err@ == "success"@
    &&& r.total == total
    &&& r.pages == spec_pages(total, size)
    &&& r.page == page
    &&& r.size == size
    &&& r.data@.len() == window_len(page, size, total)
}

/// Computes the window `[start, end)` of one page over `total` items, and the
/// page count.
pub fn cal_pages(page: u64, size: u64, total: u64) -> (r: (u64, u64, u64))
    requires
        valid_page_params(page, size),
    ensures
        r.0 == spec_start(page, size),
        r.1 == spec_end(page, size, total),
        r.2 == spec_pages(total, size),
        r.1 <= total,
        r.0 < total ==> r.0 < r.1,
{
    let start = page * size;
    let mut end = start + size;
    if end > total {
        end = total;
    }
    let mut pages = total / size;
    if total % size > 0 {
        proof {
            vstd::arithmetic::div_mod::lemma_fundamental_div_mod(total as int, size as int);
            assert((total as int) / (size as int) < total) by (nonlinear_arith)
                requires
                    size >= 1,
                    total % size > 0,
                    total == (size as int) * ((total as int) / (size as int)) + (total as int) % (
                    size as int),
            ;
        }
        pages += 1;
    }
    (start, end, pages)
}

} // verus!
