//! Page-granular size rounding.

use vstd::prelude::*;

verus! {

/// Number of pages of `page_size` bytes needed to hold `value` bytes.
pub open spec fn pages_for(value: int, page_size: int) -> int
    recommends
        page_size > 0,
{
    if value % page_size == 0 {
        value / page_size
    } else {
        value / page_size + 1
    }
}

/// `value` rounded up to a whole number of pages, capped at `usize::MAX`.
pub open spec fn page_align_spec(value: usize, page_size: usize) -> int
    recommends
        page_size > 0,
{
    let bytes = pages_for(value as int, page_size as int) * page_size;
    if bytes > usize::MAX {
        usize::MAX as int
    } else {
        bytes
    }
}

/// The rounded size is the least multiple of the page size that holds `value`.
pub proof fn lemma_page_align_is_least_multiple(value: usize, page_size: usize)
    requires
        page_size > 0,
    ensures
        pages_for(value as int, page_size as int) * page_size >= value,
        pages_for(value as int, page_size as int) * page_size - value < page_size,
        (pages_for(value as int, page_size as int) * page_size) % (page_size as int) == 0,
{
    let v = value as int;
    let p = page_size as int;
    vstd::arithmetic::div_mod::lemma_fundamental_div_mod(v, p);
    vstd::arithmetic::div_mod::lemma_mod_multiples_basic(pages_for(v, p), p);
    assert(p * (v / p) == (v / p) * p) by (nonlinear_arith);
    assert((v / p + 1) * p == (v / p) * p + p) by (nonlinear_arith);
}

/// Rounds `value` up to a multiple of `page_size`, saturating at `usize::MAX`
/// when the rounded size does not fit.
pub fn page_align(value: usize, page_size: usize) -> (aligned: usize)
    requires
        page_size > 0,
    ensures
        aligned == page_align_spec(value, page_size),
        aligned >= value,
        aligned < usize::MAX ==> aligned % page_size == 0 && aligned - value < page_size,
{
    proof {
        lemma_page_align_is_least_multiple(value, page_size);
    }
    let whole = value / page_size;
    let pages = if value % page_size == 0 {
        whole
    } else {
        assert(page_size >= 2);
        assert(whole <= value / 2) by (nonlinear_arith)
            requires
                whole == value / page_size,
                page_size >= 2,
        ;
        whole + 1
    };
    match pages.checked_mul(page_size) {
        Some(bytes) => bytes,
        None => usize::MAX,
    }
}

} // verus!
