use xgpu_common::ipc::bytewise::buffer::{is_power_of_two, padding_for};
use xgpu_common::ipc::bytewise::{
    BytewiseBuffer, BytewiseError, BytewiseReader, BytewiseWriter, RawRead,
};

struct Item {
    name: &'static str,
    bytes: Vec<u8>,
    align: usize,
}

fn item(name: &'static str, bytes: Vec<u8>, align: usize) -> Item {
    Item { name, bytes, align }
}

fn test_write<W: BytewiseWriter>(writer: &mut W, value: &Item) {
    let old_len = writer.written_bytes();

    writer.write_ref(&value.bytes, value.align).unwrap();

    let new_len = writer.written_bytes();
    let write_len = new_len - old_len;

    println!(
        "write: {:2}, padding: {:2}, size: {:2}, align: {:2}, value: {:?}, type: {}",
        write_len,
        write_len - value.bytes.len(),
        value.bytes.len(),
        value.align,
        value.bytes,
        value.name
    );
}

fn test_read<R: BytewiseReader>(reader: &mut R, orig_value: &Item) {
    let old_len = reader.read_bytes();
    let read_value = reader.read_ref(orig_value.bytes.len(), orig_value.align).unwrap();
    let new_len = reader.read_bytes();
    let read_len = new_len - old_len;

    println!(
        "read: {:2}, padding: {:2}, size: {:2}, align: {:2}, value: {:?}, type: {}",
        read_len,
        read_len - orig_value.bytes.len(),
        orig_value.bytes.len(),
        orig_value.align,
        read_value.bytes,
        orig_value.name
    );

    assert_eq!(orig_value.bytes, read_value.bytes);
}

fn test_read_mut<R: BytewiseReader>(reader: &mut R, orig_value: &Item) {
    let old_len = reader.read_bytes();
    let read_value = reader.read_mut(orig_value.bytes.len(), orig_value.align).unwrap();
    let new_len = reader.read_bytes();
    let read_len = new_len - old_len;

    println!(
        "read: {:2}, padding: {:2}, size: {:2}, align: {:2}, value: {:?}, type: {}",
        read_len,
        read_len - orig_value.bytes.len(),
        orig_value.bytes.len(),
        orig_value.align,
        read_value.bytes,
        orig_value.name
    );

    assert_eq!(orig_value.bytes, read_value.bytes);
}

fn test_items() -> Vec<Item> {
    let mut test_struct = 42i32.to_le_bytes().to_vec();
    test_struct.extend_from_slice(&(-1i8).to_le_bytes());
    test_struct.push(0);
    for c in [1u16, 2, 3] {
        test_struct.extend_from_slice(&c.to_le_bytes());
    }
    let test_slice: Vec<u8> = [0xAAi32, 0xBB, 0xCC, 0xDD]
        .iter()
        .flat_map(|v| v.to_le_bytes())
        .collect();
    vec![
        item("u64", 255u64.to_le_bytes().to_vec(), 8),
        item("()", vec![], 1),
        item("bool", vec![1], 1),
        item("*const TestStruct", 0x7fff_0000_1000u64.to_le_bytes().to_vec(), 8),
        item("u32", 0x12345678u32.to_le_bytes().to_vec(), 4),
        item("u8", vec![0xFF], 1),
        item("f64", 3.141592653589793f64.to_le_bytes().to_vec(), 8),
        item("u16", 0b1010101001010101u16.to_le_bytes().to_vec(), 2),
        item("TestStruct", test_struct, 4),
        item("[i32; 4]", test_slice, 4),
    ]
}

#[test]
fn btyewise_read_write() {
    let items = test_items();

    let buf = vec![0u8; 512];

    let mut writer = BytewiseBuffer::new(buf);
    for value in &items {
        test_write(&mut writer, value);
    }

    let write_bytes = writer.written_bytes();
    println!("write {} bytes", write_bytes);
    println!("");

    let buf = writer.into_inner();
    println!("buf: {:?}", &buf[..write_bytes]);

    let mut reader = BytewiseBuffer::new(buf);
    for value in &items {
        test_read(&mut reader, value);
    }

    let read_bytes = reader.read_bytes();
    println!("read {} bytes", read_bytes);
    println!("");

    let mut reader = BytewiseBuffer::new(reader.into_inner());
    for value in &items {
        test_read_mut(&mut reader, value);
    }

    let read_bytes = reader.read_bytes();
    println!("read {} bytes", read_bytes);

    assert_eq!(read_bytes, write_bytes);
}

#[test]
fn items_lie_at_aligned_addresses() {
    let mut writer = BytewiseBuffer::at_address(vec![0u8; 64], 0x1000, 0, 0);
    writer.write_ref(&[1], 1).unwrap();
    assert_eq!(writer.written_bytes(), 1);
    writer.write_ref(&[2, 2, 2, 2], 4).unwrap();
    assert_eq!(writer.written_bytes(), 8);
    writer.write_ref(&[3, 3], 2).unwrap();
    assert_eq!(writer.written_bytes(), 10);
    writer.write_ref(&[], 8).unwrap();
    assert_eq!(writer.written_bytes(), 10);
    writer.write_ref(&[4; 8], 8).unwrap();
    assert_eq!(writer.written_bytes(), 24);
    let buf = writer.into_inner();
    assert_eq!(
        &buf[..24],
        &[1, 0, 0, 0, 2, 2, 2, 2, 3, 3, 0, 0, 0, 0, 0, 0, 4, 4, 4, 4, 4, 4, 4, 4]
    );

    let mut reader = BytewiseBuffer::at_address(buf, 0x1000, 0, 0);
    assert_eq!(reader.read_raw(1, 1), Ok(RawRead { addr: 0x1000, offset: 0 }));
    assert_eq!(reader.read_raw(4, 4), Ok(RawRead { addr: 0x1004, offset: 4 }));
    assert_eq!(reader.read_raw(2, 2), Ok(RawRead { addr: 0x1008, offset: 8 }));
    assert_eq!(reader.read_raw(0, 8), Ok(RawRead { addr: 1, offset: 10 }));
    assert_eq!(reader.read_bytes(), 10);
    let item = reader.read_ref(8, 8).unwrap();
    assert_eq!(item.addr, 0x1010);
    assert_eq!(item.bytes, vec![4; 8]);
    assert_eq!(reader.read_bytes(), 24);
    assert_eq!(reader.remaining_bytes(), 40);
}

#[test]
fn padding_depends_on_the_address() {
    // The same writes over a buffer that lies one byte further.
    let mut writer = BytewiseBuffer::at_address(vec![0u8; 64], 0x1001, 0, 0);
    writer.write_ref(&[1], 1).unwrap();
    writer.write_ref(&[2, 2, 2, 2], 4).unwrap();
    assert_eq!(writer.written_bytes(), 7);
    assert_eq!(writer.address(), 0x1001);
    assert_eq!(&writer.as_slice()[..7], &[1, 0, 0, 2, 2, 2, 2]);

    assert_eq!(padding_for(0x1000, 16), 0);
    assert_eq!(padding_for(0x1001, 16), 15);
    assert_eq!(padding_for(0x100F, 16), 1);
    assert_eq!(padding_for(7, 1), 0);
    assert_eq!(padding_for(usize::MAX, 2), 1);
}

#[test]
fn errors_of_the_cursor() {
    let mut buffer = BytewiseBuffer::at_address(vec![0u8; 16], 0x1000, 0, 0);
    assert_eq!(
        buffer.write_ref(&[1, 2, 3], 3),
        Err(BytewiseError::InvalidAlignment { align: 3 })
    );
    assert_eq!(
        buffer.write_ref(&[1, 2, 3], 0),
        Err(BytewiseError::InvalidAlignment { align: 0 })
    );
    assert_eq!(buffer.read_raw(4, 12), Err(BytewiseError::InvalidAlignment { align: 12 }));
    // Nothing of no size is ever refused.
    assert_eq!(buffer.write_ref(&[], 3), Ok(()));
    assert_eq!(buffer.read_raw(0, 3), Ok(RawRead { addr: 1, offset: 0 }));

    assert_eq!(
        buffer.write_ref(&[0; 17], 1),
        Err(BytewiseError::InsufficientBuffer { required: 17, capacity: 16 })
    );
    buffer.write_ref(&[9; 10], 1).unwrap();
    assert_eq!(
        buffer.write_ref(&[7; 4], 8),
        Err(BytewiseError::InsufficientBuffer { required: 20, capacity: 16 })
    );
    assert_eq!(buffer.written_bytes(), 10);
    buffer.write_ref(&[7; 4], 4).unwrap();
    assert_eq!(buffer.written_bytes(), 16);

    assert_eq!(
        buffer.read_raw(17, 1),
        Err(BytewiseError::InsufficientBuffer { required: 17, capacity: 16 })
    );
    assert!(buffer.read_ref(10, 1).is_ok());
    assert_eq!(
        buffer.read_raw(4, 8),
        Err(BytewiseError::InsufficientBuffer { required: 10, capacity: 6 })
    );
    assert_eq!(buffer.read_bytes(), 10);

    // Positions beyond the end of the buffer.
    let mut beyond = BytewiseBuffer::at_address(vec![0u8; 4], 0x1000, 9, 9);
    assert_eq!(
        beyond.write_ref(&[1], 1),
        Err(BytewiseError::InsufficientBuffer { required: 10, capacity: 4 })
    );
    assert_eq!(
        beyond.read_raw(1, 1),
        Err(BytewiseError::InsufficientBuffer { required: 1, capacity: 0 })
    );
    assert_eq!(beyond.remaining_bytes(), 0);
}

#[test]
fn raw_copies_must_not_overlap() {
    let mut buffer = BytewiseBuffer::at_address(vec![0u8; 64], 0x1000, 0, 0);
    // The source lies in the buffer itself, across the destination.
    assert_eq!(
        buffer.write_raw(0x1002, &[1, 2, 3, 4], 1),
        Err(BytewiseError::IllegalOverlappingCopy)
    );
    assert_eq!(
        buffer.write_raw(0x0FFD, &[1, 2, 3, 4], 1),
        Err(BytewiseError::IllegalOverlappingCopy)
    );
    assert_eq!(buffer.written_bytes(), 0);
    // Touching ranges do not overlap.
    assert_eq!(buffer.write_raw(0x1004, &[1, 2, 3, 4], 1), Ok(()));
    assert_eq!(buffer.write_raw(0x1000, &[5, 6, 7, 8], 4), Ok(()));
    assert_eq!(&buffer.as_slice()[..8], &[1, 2, 3, 4, 5, 6, 7, 8]);
}

#[test]
fn with_offset_starts_where_told() {
    let mut buffer = BytewiseBuffer::with_offset(vec![1, 2, 3, 4, 5, 6], 2, 4);
    assert_eq!(buffer.read_bytes(), 2);
    assert_eq!(buffer.written_bytes(), 4);
    assert_eq!(buffer.read_ref(2, 1).unwrap().bytes, vec![3, 4]);
    buffer.write_ref(&[9, 9], 1).unwrap();
    assert_eq!(buffer.into_inner(), vec![1, 2, 3, 4, 9, 9]);
}

#[test]
fn powers_of_two() {
    for shift in 0..usize::BITS {
        assert!(is_power_of_two(1usize << shift));
    }
    for n in [0usize, 3, 5, 6, 7, 9, 12, 100, usize::MAX] {
        assert!(!is_power_of_two(n), "{}", n);
    }
}

#[test]
fn a_buffer_lies_where_its_bytes_lie() {
    let buf = vec![0u8; 64];
    let first = buf.as_ptr() as usize;
    let mut buffer = BytewiseBuffer::new(buf);
    assert_eq!(buffer.address(), first);
    assert_eq!(buffer.as_slice().as_ptr() as usize, first);

    // What is written at alignment 16 lies at a multiple of 16 in memory.
    buffer.write_ref(&[1], 1).unwrap();
    buffer.write_ref(&[2; 16], 16).unwrap();
    let written = buffer.written_bytes();
    assert_eq!((first + written) % 16, 0);
    assert_eq!(written - 16, 1 + padding_for(first + 1, 16));

    let with_offset = BytewiseBuffer::with_offset(buffer.into_inner(), 3, 5);
    assert_eq!(with_offset.address(), first);
}
