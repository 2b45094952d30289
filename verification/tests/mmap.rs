use xgpu_common::ipc::transport::shmem::memory::{plan_create, plan_open};
use xgpu_common::sys::mmap::{check_fixed, check_len, MapError, MapWindow, MirroredLayout};
use xgpu_common::sys::page::page_align;

/// The page size of these tests.
const PAGE_SIZE: usize = 4096;

/// A mapping as the layout describes it: every offset of the reservation
/// shows a byte of the backing object.
struct Mapped {
    layout: MirroredLayout,
    backing: Vec<u8>,
}

impl Mapped {
    fn new(layout: MirroredLayout) -> Mapped {
        Mapped { layout, backing: vec![0u8; layout.file_len()] }
    }

    fn data_ptr(&self) -> usize {
        self.layout.data_offset()
    }

    fn mirrored_ptr(&self) -> usize {
        self.layout.mirrored_offset()
    }

    fn read(&self, at: usize) -> u8 {
        self.backing[self.layout.backing_offset(at)]
    }

    fn write(&mut self, at: usize, value: u8) {
        let offset = self.layout.backing_offset(at);
        self.backing[offset] = value;
    }
}

#[test]
fn test_mirrored_mmap_basic() {
    const MAP_SIZE: usize = 8192;
    const RESERVE_SIZE: usize = 4096;
    const DATA_SIZE: usize = MAP_SIZE - RESERVE_SIZE;
    const TOTAL_SIZE: usize = RESERVE_SIZE + DATA_SIZE * 2;

    let layout = MirroredLayout::plan(MAP_SIZE, RESERVE_SIZE).unwrap();
    let mut mmap = Mapped::new(layout);

    assert_eq!(layout.reserved_len(), RESERVE_SIZE);
    assert_eq!(layout.data_len(), DATA_SIZE);
    assert_eq!(layout.mirrored_len(), DATA_SIZE);
    assert_eq!(layout.total_len(), TOTAL_SIZE);

    let data = mmap.data_ptr();
    let mirror = mmap.mirrored_ptr();

    mmap.write(data, 0xAA);
    assert_eq!(mmap.read(mirror), 0xAA);

    mmap.write(data + 100, 0xBB);
    assert_eq!(mmap.read(mirror + 100), 0xBB);
}

#[test]
fn test_mirrored_lifecycle() {
    const SHMEM_LEN: usize = 8192;
    const RESERVED_LEN: usize = 4096;
    const TEST_BYTE: u8 = 0xF0;

    let shmem1 = plan_create(SHMEM_LEN, RESERVED_LEN, PAGE_SIZE).unwrap();

    let expected_reserved_len = page_align(RESERVED_LEN, PAGE_SIZE);
    let expected_file_len = page_align(SHMEM_LEN + expected_reserved_len, PAGE_SIZE);
    let expected_data_len = expected_file_len - expected_reserved_len;

    assert_eq!(shmem1.reserved_len(), expected_reserved_len);
    assert_eq!(shmem1.data_len(), expected_data_len);
    assert_eq!(
        shmem1.total_len(),
        expected_reserved_len + expected_data_len * 2
    );

    let mut mapped1 = Mapped::new(shmem1);
    for i in 0..shmem1.data_len() {
        let at = mapped1.data_ptr() + i;
        mapped1.write(at, TEST_BYTE);
    }

    // The opener maps the same object.
    let shmem2 = plan_open(shmem1.file_len(), RESERVED_LEN, PAGE_SIZE).unwrap();
    let mapped2 = Mapped { layout: shmem2, backing: mapped1.backing.clone() };

    assert_eq!(shmem1.data_len(), shmem2.data_len());
    assert_eq!(shmem1.reserved_len(), shmem2.reserved_len());
    assert_eq!(shmem1.total_len(), shmem2.total_len());

    assert!(shmem2.data_len() > 0);
    assert_eq!(mapped2.read(mapped2.data_ptr()), TEST_BYTE);
    assert!((0..shmem2.data_len()).all(|i| mapped2.read(mapped2.data_ptr() + i) == TEST_BYTE));
    assert!((0..shmem2.reserved_len()).all(|i| mapped2.read(i) == 0));
}

#[test]
fn test_basic_mirroring() {
    const SHM_LEN: usize = 8192;
    const RESERVED_LEN: usize = 4096;

    let mut shmem = Mapped::new(plan_create(SHM_LEN, RESERVED_LEN, PAGE_SIZE).unwrap());

    let data_len = shmem.layout.data_len();
    let data_ptr = shmem.data_ptr();
    let mirrored_ptr = shmem.mirrored_ptr();

    // Scenario 1: Write to the data region (B) and read from the mirrored region (B')
    shmem.write(data_ptr, 0x11);
    shmem.write(data_ptr + 100, 0x22);
    shmem.write(data_ptr + data_len - 1, 0x33);

    assert_eq!(shmem.read(mirrored_ptr), 0x11);
    assert_eq!(shmem.read(mirrored_ptr + 100), 0x22);
    assert_eq!(shmem.read(mirrored_ptr + data_len - 1), 0x33);

    // Scenario 2: Write to the mirrored region (B') and read from the data region (B)
    shmem.write(mirrored_ptr + 55, 0x44);
    assert_eq!(shmem.read(data_ptr + 55), 0x44);
}

#[test]
fn test_wrap_around_write() {
    const SHM_LEN: usize = 8192;
    const RESERVED_LEN: usize = 4096;

    let mut shmem = Mapped::new(plan_create(SHM_LEN, RESERVED_LEN, PAGE_SIZE).unwrap());

    let data_len = shmem.layout.data_len();
    let data_ptr = shmem.data_ptr();

    let wrap_around_data = [0xDE, 0xAD, 0xBE, 0xEF];
    let start_offset = data_len - 2;

    for (i, byte) in wrap_around_data.iter().enumerate() {
        shmem.write(data_ptr + start_offset + i, *byte);
    }

    assert_eq!(shmem.read(data_ptr + data_len - 2), 0xDE);
    assert_eq!(shmem.read(data_ptr + data_len - 1), 0xAD);

    assert_eq!(shmem.read(data_ptr), 0xBE);
    assert_eq!(shmem.read(data_ptr + 1), 0xEF);
}

#[test]
fn every_data_byte_shows_twice() {
    let layout = MirroredLayout::plan(3 * 4096, 4096).unwrap();
    let data = layout.data_len();
    assert_eq!(data, 8192);
    for i in 0..data {
        assert_eq!(layout.backing_offset(4096 + i), 4096 + i);
        assert_eq!(layout.backing_offset(4096 + data + i), 4096 + i);
    }
    for i in 0..4096 {
        assert_eq!(layout.backing_offset(i), i);
    }
}

#[test]
fn layout_and_windows() {
    let layout = MirroredLayout::plan(12288, 4096).unwrap();
    assert_eq!(layout.data_offset(), 4096);
    assert_eq!(layout.mirrored_offset(), 12288);
    assert_eq!(layout.primary_window(), MapWindow { at: 0, len: 12288, file_offset: 0 });
    assert_eq!(layout.mirror_window(), MapWindow { at: 12288, len: 8192, file_offset: 4096 });
    assert_eq!(layout.mirror_file_offset(), Ok(4096));

    assert_eq!(MirroredLayout::plan(8192, 0), Err(MapError::InvalidArgument));
    assert_eq!(MirroredLayout::plan(8192, 8192), Err(MapError::InvalidArgument));
    assert_eq!(MirroredLayout::plan(8192, 9000), Err(MapError::InvalidArgument));
    assert_eq!(MirroredLayout::plan(0, 0), Err(MapError::InvalidArgument));

    // A reservation that does not fit the address space is capped; the
    // mapping call then fails for want of memory.
    let huge = MirroredLayout::plan(usize::MAX, 4096).unwrap();
    assert_eq!(huge.total_len(), usize::MAX);

    assert_eq!(check_fixed(0x7000, 0x7000), Ok(()));
    assert_eq!(check_fixed(0x7000, 0x8000), Err(MapError::AddressNotAvailable));
    assert_eq!(check_len(0), Err(MapError::InvalidArgument));
    assert_eq!(check_len(4096), Ok(()));
}
