//! Page arithmetic shared by the list operations.

use vstd::prelude::*;

verus! {

/// Number of pages needed to show `count` items, `page_size` items a page.
///
/// The quotient is rounded up. An empty collection has no pages, and neither
/// has a listing whose page size is not positive.
pub open spec fn spec_total_pages(count: int, page_size: int) -> int {
    if count <= 0 || page_size <= 0 {
        0
    } else {
        (count + page_size - 1) / page_size
    }
}

/// The smaller of two numbers.
pub open spec fn at_most(a: int, b: int) -> int {
    if a <= b {
        a
    } else {
        b
    }
}

/// The items of `all` that stand on page `page`, pages counted from zero
/// and `page_size` items long. Pages behind the last item are empty, and so
/// is every page of a size that is not positive.
pub open spec fn page_of<A>(all: Seq<A>, page: int, page_size: int) -> Seq<A> {
    if page < 0 || page_size <= 0 {
        Seq::empty()
    } else {
        all.subrange(
            at_most(page * page_size, all.len() as int),
            at_most(page * page_size + page_size, all.len() as int),
        )
    }
}

/// Computes [`spec_total_pages`], saturating at `i32::MAX`.
pub fn total_pages(count: usize, page_size: i32) -> (pages: i32)
    ensures
        pages == at_most(spec_total_pages(count as int, page_size as int), i32::MAX as int),
{
    if count == 0 || page_size <= 0 {
        return 0;
    }
    let size: usize = page_size as usize;
    let whole: usize = count / size;
    let rest: usize = count % size;
    assert(rest != 0 ==> whole < count) by (nonlinear_arith)
        requires
            count > 0,
            size > 0,
            whole == count / size,
            rest == count % size,
    ;
    let pages: usize = if rest == 0 {
        whole
    } else {
        whole + 1
    };
    assert(pages == spec_total_pages(count as int, page_size as int)) by (nonlinear_arith)
        requires
            count > 0,
            size > 0,
            size == page_size,
            whole == count / size,
            rest == count % size,
            rest == 0 ==> pages == whole,
            rest != 0 ==> pages == whole + 1,
    ;
    if pages > 2147483647 {
        2147483647
    } else {
        pages as i32
    }
}

/// Position of the first item of page `page`, as a number of items to
/// skip.
pub fn page_offset(page: i32, page_size: i32) -> (offset: u64)
    requires
        page >= 0,
        page_size >= 0,
    ensures
        offset == page * page_size,
        offset + page_size <= u64::MAX,
{
    let p: u64 = page as u64;
    let s: u64 = page_size as u64;
    assert(p * s <= 0x8000_0000 * 0x8000_0000) by (nonlinear_arith)
        requires
            p <= 0x8000_0000,
            s <= 0x8000_0000,
    ;
    p * s
}

} // verus!
