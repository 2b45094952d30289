use xgpu_common::sys::cache::{slot_offset, CacheLineAligned};
use xgpu_common::sys::page::page_align;

/// The page size of these tests.
const PAGE_SIZE: usize = 4096;

#[test]
fn test_page_align() {
    let page_size = PAGE_SIZE;

    assert_eq!(page_align(4096, page_size), 4096);
    assert_eq!(page_align(page_size, page_size), page_size);

    assert_eq!(page_align(1024, page_size), page_size);
    assert_eq!(page_align(page_size - 1, page_size), page_size);
    assert_eq!(page_align(page_size + 1, page_size), page_size * 2);

    let large_value = usize::MAX - page_size + 1;
    assert_eq!(
        page_align(large_value, page_size),
        usize::MAX - (usize::MAX % page_size)
    );
}

#[test]
fn test_test_page_align_edge_cases() {
    let page_size = PAGE_SIZE;

    assert_eq!(page_align(usize::MAX, page_size), usize::MAX);

    let value = page_size * 3 - 1;
    assert_eq!(page_align(value, page_size), page_size * 3);
}

#[test]
fn page_align_of_other_page_sizes() {
    assert_eq!(page_align(0, 4096), 0);
    assert_eq!(page_align(1, 4096), 4096);
    assert_eq!(page_align(1, 1), 1);
    assert_eq!(page_align(usize::MAX, 1), usize::MAX);
    assert_eq!(page_align(65537, 65536), 131072);
    assert_eq!(page_align(10, 3), 12);
    assert_eq!(page_align(usize::MAX - 1, 16384), usize::MAX);
}

#[test]
fn cache_line_slots() {
    let slot = CacheLineAligned::new(7u32);
    assert_eq!(*slot.get(), 7);
    assert_eq!(slot.into_inner(), 7);
    assert_eq!(slot_offset(0), Some(0));
    assert_eq!(slot_offset(5), Some(320));
    assert_eq!(slot_offset(usize::MAX), None);
}
