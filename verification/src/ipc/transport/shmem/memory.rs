//! Sizes of the shared-memory region behind a channel.

use crate::sys::mmap::{MapError, MirroredLayout};
use crate::sys::page::{page_align, page_align_spec};
use vstd::prelude::*;

verus! {

/// The layout of a region that is created for `len` bytes of data behind
/// `reserve` reserved bytes, on pages of `page_size` bytes: both lengths
/// are rounded up to whole pages.
pub open spec fn create_layout_spec(len: usize, reserve: usize, page_size: usize) -> Result<
    (int, int),
    MapError,
> {
    let data_len = page_align_spec(len, page_size);
    let resv_len = page_align_spec(reserve, page_size);
    if data_len + resv_len > usize::MAX || resv_len == 0 || data_len == 0 {
        Err(MapError::InvalidArgument)
    } else {
        Ok((resv_len, data_len))
    }
}

/// Plans the region that a creator makes: the size of the backing object is
/// `layout.file_len()`. Fails if the rounded lengths do not fit in `usize`
/// together, or if one of them is zero.
pub fn plan_create(len: usize, reserve: usize, page_size: usize) -> (r: Result<
    MirroredLayout,
    MapError,
>)
    requires
        page_size > 0,
    ensures
        match create_layout_spec(len, reserve, page_size) {
            Ok((resv_len, data_len)) => r is Ok && r->Ok_0.wf() && r->Ok_0.resv() == resv_len
                && r->Ok_0.data() == data_len,
            Err(e) => r == Err::<MirroredLayout, MapError>(e),
        },
{
    let data_len = page_align(len, page_size);
    let resv_len = page_align(reserve, page_size);
    let file_len = match data_len.checked_add(resv_len) {
        Some(file_len) => file_len,
        None => {
            return Err(MapError::InvalidArgument);
        },
    };
    MirroredLayout::plan(file_len, resv_len)
}

/// Plans the region that an opener maps over a backing object of `file_len`
/// bytes, of which the first `reserved` bytes, rounded up to whole pages, are
/// reserved.
pub fn plan_open(file_len: usize, reserved: usize, page_size: usize) -> (r: Result<
    MirroredLayout,
    MapError,
>)
    requires
        page_size > 0,
    ensures
        r is Err <==> (page_align_spec(reserved, page_size) == 0 || page_align_spec(
            reserved,
            page_size,
        ) >= file_len),
        r is Err ==> r == Err::<MirroredLayout, MapError>(MapError::InvalidArgument),
        r is Ok ==> r->Ok_0.wf() && r->Ok_0.resv() == page_align_spec(reserved, page_size)
            && r->Ok_0.data() == file_len - page_align_spec(reserved, page_size),
{
    let resv_len = page_align(reserved, page_size);
    MirroredLayout::plan(file_len, resv_len)
}

} // verus!
