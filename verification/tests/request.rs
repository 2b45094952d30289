use xgpu_common::ipc::bytewise::{
    BytewiseBuffer, BytewiseError, BytewiseReadOwned, BytewiseReader, BytewiseWrite, BytewiseWriter,
};
use xgpu_common::ipc::message::{
    Argument, ArgumentFlag, MessageError, Request, RequestIdCounter, Response, TypeDesc,
};

const ZST: TypeDesc = TypeDesc { id: 0x5A, size: 0, align: 1 };
const U8: TypeDesc = TypeDesc { id: 0x08, size: 1, align: 1 };
const I16: TypeDesc = TypeDesc { id: 0x16, size: 2, align: 2 };
const U32: TypeDesc = TypeDesc { id: 0x32, size: 4, align: 4 };
const F32: TypeDesc = TypeDesc { id: 0xF4, size: 4, align: 4 };
const F64: TypeDesc = TypeDesc { id: 0xF8, size: 8, align: 8 };
const U128: TypeDesc = TypeDesc { id: 0x128, size: 16, align: 16 };
const TEST_VALUE: TypeDesc = TypeDesc { id: 0x7E57, size: 16, align: 8 };

/// Where the values of these tests are taken to lie.
const ADDR: usize = 0x10_0000;

fn roundtrip_test(request: Request) {
    let buf = vec![0u8; 4096];

    let mut writer = BytewiseBuffer::new(buf);

    let send_req = &request;
    println!(
        "send_req: request_id: {}, method_id: {}, argument_count: {}",
        send_req.request_id(),
        send_req.method_id(),
        send_req.argc()
    );
    let _ = request.write_to(&mut writer).unwrap();

    let mut reader = BytewiseBuffer::new(writer.into_inner());

    let recv_req = Request::read_from(&mut reader).unwrap();
    println!(
        "recv_req: request_id: {}, method_id: {}, argument_count: {}",
        recv_req.request_id(),
        recv_req.method_id(),
        recv_req.argc()
    );

    let mut send_iter = send_req.args().iter();
    let mut recv_iter = recv_req.args().iter();
    let mut index = 0;
    while let (Some(send_arg), Some(recv_arg)) = (send_iter.next(), recv_iter.next()) {
        println!("send_args[{}]: {:?}", index, send_arg);
        println!("recv_args[{}]: {:?}", index, recv_arg);
        index += 1;
    }
    if send_iter.next().is_some() || recv_iter.next().is_some() {
        panic!("argument count mismatch!");
    }

    // What arrives has the metadata and the bytes of what was sent.
    assert_eq!(recv_req.request_id(), send_req.request_id());
    assert_eq!(recv_req.method_id(), send_req.method_id());
    for (send_arg, recv_arg) in send_req.args().iter().zip(recv_req.args()) {
        assert_eq!(recv_arg.kind(), send_arg.kind());
        assert_eq!(recv_arg.type_id(), send_arg.type_id());
        assert_eq!(recv_arg.type_size(), send_arg.type_size());
        assert_eq!(recv_arg.type_align(), send_arg.type_align());
        assert_eq!(recv_arg.len(), send_arg.len());
        assert_eq!(recv_arg.flag(), send_arg.flag());
        assert_eq!(recv_arg.is_inline(), send_arg.is_inline());
        let ty = TypeDesc {
            id: send_arg.type_id(),
            size: send_arg.type_size(),
            align: send_arg.type_align(),
        };
        if !send_arg.is_inline() {
            assert!(!recv_arg.is_exclusive());
            let sent = send_arg.inner_ref_ptr(1).unwrap();
            assert_eq!(recv_arg.inner_ref_ptr(ty.align.max(1)), Ok(sent));
        } else {
            assert_eq!(recv_arg.downcast(ty), send_arg.downcast(ty));
        }
    }
    assert_eq!(reader_position(&request), writer_position(&request));
}

fn writer_position(request: &Request) -> usize {
    let mut writer = BytewiseBuffer::at_address(vec![0u8; 4096], 0x4000, 0, 0);
    request.write_to(&mut writer).unwrap();
    writer.written_bytes()
}

fn reader_position(request: &Request) -> usize {
    let mut writer = BytewiseBuffer::at_address(vec![0u8; 4096], 0x4000, 0, 0);
    request.write_to(&mut writer).unwrap();
    let mut reader = BytewiseBuffer::at_address(writer.into_inner(), 0x4000, 0, 0);
    Request::read_from_mut(&mut reader).unwrap();
    reader.read_bytes()
}

#[test]
fn test_no_argument_roundtrip() {
    let mut ids = RequestIdCounter::new();
    roundtrip_test(Request::empty(&mut ids, 0xABCD))
}

#[test]
fn test_zst_argument_roundtrip() {
    let mut ids = RequestIdCounter::new();
    roundtrip_test(Request::with_args(
        &mut ids,
        0xDEADBEEF,
        vec![
            Argument::from_ref(ZST, ADDR, &[], ArgumentFlag::arg_in()),
            Argument::from_ref(TypeDesc::unit(), ADDR, &[], ArgumentFlag::arg_out()),
        ],
    ))
}

#[test]
fn test_single_argument_roundtrip() {
    let mut ids = RequestIdCounter::new();
    roundtrip_test(Request::with_arg(
        &mut ids,
        0xFFFF,
        Argument::from_ref(U32, ADDR, &42u32.to_le_bytes(), ArgumentFlag::arg_in()),
    ))
}

#[test]
fn test_multiple_arguments_roundtrip() {
    let mut ids = RequestIdCounter::new();
    roundtrip_test(Request::with_args(
        &mut ids,
        0xFFFF,
        vec![
            Argument::from_ref(U32, ADDR, &1u32.to_le_bytes(), ArgumentFlag::arg_in()),
            Argument::from_ref(U32, ADDR + 4, &2u32.to_le_bytes(), ArgumentFlag::arg_out()),
            Argument::from_ref(U32, ADDR + 8, &3u32.to_le_bytes(), ArgumentFlag::arg_virt()),
            Argument::from_ref(U32, ADDR + 12, &4u32.to_le_bytes(), ArgumentFlag::arg_in()),
        ],
    ));
}

#[test]
fn test_mixed_type_arguments_roundtrip() {
    let mut test_value = 1usize.to_le_bytes().to_vec();
    test_value.extend_from_slice(&2usize.to_le_bytes());
    test_value.resize(16, 0);

    let mut ids = RequestIdCounter::new();
    roundtrip_test(Request::with_args(
        &mut ids,
        0xFFFF,
        vec![
            Argument::from_ref(U8, ADDR, &1u8.to_le_bytes(), ArgumentFlag::arg_in()),
            Argument::from_ref(I16, ADDR + 2, &2i16.to_le_bytes(), ArgumentFlag::arg_in()),
            Argument::from_ref(F32, ADDR + 4, &3f32.to_le_bytes(), ArgumentFlag::arg_in()),
            Argument::from_ref(F64, ADDR + 8, &4f64.to_le_bytes(), ArgumentFlag::arg_in()),
            Argument::from_ref(U128, ADDR + 16, &5u128.to_le_bytes(), ArgumentFlag::arg_in()),
            Argument::from_ref(TypeDesc::unit(), ADDR, &[], ArgumentFlag::arg_in()),
            Argument::from_ref(TEST_VALUE, ADDR + 32, &test_value, ArgumentFlag::arg_in()),
        ],
    ));
}

#[test]
fn test_update_from() {
    let mut ids = RequestIdCounter::new();
    let mut request = Request::with_args(
        &mut ids,
        0xFFFF,
        vec![
            Argument::from_value(U8, &[1u8], ArgumentFlag::arg_in()),
            Argument::from_value(U8, &[2u8], ArgumentFlag::arg_out()),
            Argument::from_value(U8, &[3u8], ArgumentFlag::arg_in()),
            Argument::from_value(U8, &[4u8], ArgumentFlag::arg_out()),
            Argument::from_value(TypeDesc::unit(), &[], ArgumentFlag::arg_in()),
        ],
    );

    let mut response = Response::with_request(&request, Argument::empty());
    response.args_mut()[0] = Argument::empty();
    response.args_mut()[1] = Argument::from_value(U8, &[9u8], ArgumentFlag::arg_out());
    response.args_mut()[2] = Argument::empty();
    response.args_mut()[3] = Argument::from_value(U8, &[9u8], ArgumentFlag::arg_out());
    response.args_mut()[4] = Argument::empty();

    request
        .update_from(&response)
        .expect("Update operation should succeed");

    assert_eq!(request.args()[0].downcast(U8), Ok(vec![1u8]));
    assert_eq!(request.args()[1].downcast(U8), Ok(vec![9u8]));
    assert_eq!(request.args()[2].downcast(U8), Ok(vec![3u8]));
    assert_eq!(request.args()[3].downcast(U8), Ok(vec![9u8]));
    assert_eq!(request.args()[4].downcast(TypeDesc::unit()), Ok(vec![]));
}

#[test]
fn request_ids_start_at_one_and_rise() {
    let mut ids = RequestIdCounter::new();
    let first = Request::empty(&mut ids, 7);
    let second = Request::with_arg(&mut ids, 7, Argument::empty());
    let third = Request::with_args(&mut ids, 7, vec![]);
    assert_eq!(first.request_id(), 1);
    assert_eq!(second.request_id(), 2);
    assert_eq!(third.request_id(), 3);
    assert_eq!(ids.next_id(), 4);
    assert_eq!(first.method_id(), 7);
    assert_eq!(second.argc(), 1);
    assert_eq!(third.argc(), 0);
}

#[test]
fn update_from_checks_id_and_count() {
    let mut ids = RequestIdCounter::new();
    let mut request = Request::with_arg(
        &mut ids,
        5,
        Argument::from_value(U8, &[1u8], ArgumentFlag::arg_out()),
    );

    let stranger = Response::empty(99, 5);
    assert_eq!(
        request.update_from(&stranger),
        Err(MessageError::RequestIdMismatch { expect: 1, actual: 99 })
    );

    let short = Response::empty(1, 5);
    assert_eq!(
        request.update_from(&short),
        Err(MessageError::ArgumentCountMismatch { expect: 1, actual: 0 })
    );
    assert_eq!(request.args()[0].downcast(U8), Ok(vec![1u8]));
}

#[test]
fn update_from_stops_at_the_first_failure() {
    let mut ids = RequestIdCounter::new();
    let mut request = Request::with_args(
        &mut ids,
        5,
        vec![
            Argument::from_value(U8, &[1u8], ArgumentFlag::arg_out()),
            Argument::from_value(U8, &[2u8], ArgumentFlag::arg_out()),
            Argument::from_value(U8, &[3u8], ArgumentFlag::arg_out()),
        ],
    );
    let mut response = Response::with_request(&request, Argument::empty());
    response.args_mut()[0] = Argument::from_value(U8, &[7u8], ArgumentFlag::arg_out());
    // An OUT position that comes back empty does not fit the argument.
    response.args_mut()[1] = Argument::empty();
    response.args_mut()[2] = Argument::from_value(U8, &[9u8], ArgumentFlag::arg_out());

    assert_eq!(request.update_from(&response), Err(MessageError::ArgumentTypeMismatch));
    assert_eq!(request.args()[0].downcast(U8), Ok(vec![7u8]));
    assert_eq!(request.args()[1].downcast(U8), Ok(vec![2u8]));
    assert_eq!(request.args()[2].downcast(U8), Ok(vec![3u8]));
}

#[test]
fn update_from_own_response_changes_nothing() {
    let mut ids = RequestIdCounter::new();
    let out_bytes = [5u8, 6, 7, 8];
    let mut request = Request::with_args(
        &mut ids,
        5,
        vec![
            Argument::from_value(U8, &[1u8], ArgumentFlag::arg_in()),
            Argument::from_mut(U32, ADDR, &out_bytes, ArgumentFlag::arg_out()),
            Argument::from_value(U8, &[3u8], ArgumentFlag::arg_in().union(ArgumentFlag::arg_out())),
            Argument::from_ref(U32, ADDR, &out_bytes, ArgumentFlag::arg_virt()),
        ],
    );
    let response = Response::with_request(&request, Argument::empty());
    assert_eq!(request.update_from(&response), Ok(()));
    assert_eq!(request.argc(), 4);
    assert_eq!(request.args()[0].downcast(U8), Ok(vec![1u8]));
    assert_eq!(request.args()[1].downcast(U32), Ok(out_bytes.to_vec()));
    assert_eq!(request.args()[2].downcast(U8), Ok(vec![3u8]));
    assert_eq!(request.args()[3].downcast(U32), Ok(out_bytes.to_vec()));
    assert!(request.args()[1].is_exclusive());
    assert!(request.args()[2].is_inline());
}

#[test]
fn request_wire_layout() {
    let mut ids = RequestIdCounter::new();
    let payload = [0x11u8, 0x22, 0x33, 0x44];
    let request = Request::with_args(
        &mut ids,
        0x0102_0304_0506_0708,
        vec![
            Argument::from_value(U8, &[0xEE], ArgumentFlag::arg_in()),
            Argument::from_ref(U32, ADDR, &payload, ArgumentFlag::arg_out()),
        ],
    );
    let mut writer = BytewiseBuffer::at_address(vec![0xFFu8; 256], 0x1000, 0, 0);
    request.write_to(&mut writer).unwrap();
    let buf = writer.into_inner();

    // Metadata: request id, method id, number of arguments.
    assert_eq!(&buf[0..8], &1u64.to_le_bytes());
    assert_eq!(&buf[8..16], &0x0102_0304_0506_0708u64.to_le_bytes());
    assert_eq!(&buf[16..24], &2u64.to_le_bytes());
    // Padding up to the alignment of the record is left as it was.
    assert_eq!(&buf[24..32], &[0xFF; 8]);
    // First record at 32: an inline scalar. Tag, type token, element size,
    // alignment and count, flags, inline buffer.
    assert_eq!(buf[32], 0);
    assert_eq!(&buf[33..40], &[0; 7]);
    assert_eq!(&buf[40..48], &0x08u64.to_le_bytes());
    assert_eq!(&buf[48..56], &1u64.to_le_bytes());
    assert_eq!(&buf[56..64], &1u64.to_le_bytes());
    assert_eq!(&buf[64..72], &1u64.to_le_bytes());
    assert_eq!(&buf[72..76], &1u32.to_le_bytes());
    assert_eq!(&buf[76..80], &[0; 4]);
    assert_eq!(buf[80], 0xEE);
    assert_eq!(&buf[81..96], &[0; 15]);
    // Second record at 96: a scalar referent, followed by its four bytes.
    assert_eq!(buf[96], 1);
    assert_eq!(&buf[97..104], &[0; 7]);
    assert_eq!(&buf[104..112], &0x32u64.to_le_bytes());
    assert_eq!(&buf[112..120], &4u64.to_le_bytes());
    assert_eq!(&buf[120..128], &4u64.to_le_bytes());
    assert_eq!(&buf[128..136], &1u64.to_le_bytes());
    assert_eq!(&buf[136..140], &2u32.to_le_bytes());
    assert_eq!(&buf[140..144], &[0; 4]);
    assert_eq!(&buf[144..160], &[0; 16]);
    assert_eq!(&buf[160..164], &payload);
    assert_eq!(buf[164], 0xFF);
}

#[test]
fn reading_fails_on_a_short_or_malformed_buffer() {
    let mut reader = BytewiseBuffer::at_address(vec![0u8; 10], 0x1000, 0, 0);
    assert_eq!(
        Request::read_from(&mut reader).unwrap_err(),
        BytewiseError::InsufficientBuffer { required: 24, capacity: 10 }
    );

    // Two arguments are announced, none follows.
    let mut buf = vec![0u8; 24];
    buf[16] = 2;
    let mut reader = BytewiseBuffer::at_address(buf, 0x1000, 0, 0);
    assert_eq!(
        Request::read_from(&mut reader).unwrap_err(),
        BytewiseError::InsufficientBuffer { required: 72, capacity: 0 }
    );

    // An inline value of 17 bytes does not fit the inline buffer.
    let mut buf = vec![0u8; 128];
    buf[16] = 1;
    buf[32 + 16] = 17;
    buf[32 + 24] = 1;
    let mut reader = BytewiseBuffer::at_address(buf, 0x1000, 0, 0);
    assert_eq!(
        Request::read_from(&mut reader).unwrap_err(),
        BytewiseError::InsufficientBuffer { required: 17, capacity: 16 }
    );

    // An inline value aligned to 32 cannot lie in the inline buffer.
    let mut buf = vec![0u8; 128];
    buf[16] = 1;
    buf[32 + 16] = 4;
    buf[32 + 24] = 32;
    let mut reader = BytewiseBuffer::at_address(buf, 0x1000, 0, 0);
    assert_eq!(
        Request::read_from(&mut reader).unwrap_err(),
        BytewiseError::IntrinsicMisalignment { align: 32 }
    );

    // A referent whose alignment is no power of two.
    let mut buf = vec![0u8; 128];
    buf[16] = 1;
    buf[32] = 1;
    buf[32 + 16] = 4;
    buf[32 + 24] = 3;
    let mut reader = BytewiseBuffer::at_address(buf, 0x1000, 0, 0);
    assert_eq!(
        Request::read_from(&mut reader).unwrap_err(),
        BytewiseError::InvalidAlignment { align: 3 }
    );
}

#[test]
fn read_from_mut_takes_referents_as_exclusive() {
    let mut ids = RequestIdCounter::new();
    let request = Request::with_arg(
        &mut ids,
        1,
        Argument::from_ref(U32, ADDR, &7u32.to_le_bytes(), ArgumentFlag::arg_out()),
    );
    let mut writer = BytewiseBuffer::at_address(vec![0u8; 256], 0x2000, 0, 0);
    request.write_to(&mut writer).unwrap();
    let buf = writer.into_inner();

    let mut reader = BytewiseBuffer::at_address(buf.clone(), 0x2000, 0, 0);
    let shared = Request::read_from(&mut reader).unwrap();
    assert!(!shared.args()[0].is_exclusive());
    // 24 bytes of metadata, 8 of padding, 64 of record: the referent lies at 96.
    assert_eq!(shared.args()[0].address(), Some(0x2000 + 96));

    let mut reader = BytewiseBuffer::at_address(buf, 0x2000, 0, 0);
    let mut exclusive = Request::read_from_mut(&mut reader).unwrap();
    assert!(exclusive.args()[0].is_exclusive());
    exclusive.args_mut()[0]
        .downcast_mut(U32)
        .unwrap()
        .copy_from_slice(&42u32.to_le_bytes());
    assert_eq!(exclusive.args()[0].downcast(U32), Ok(42u32.to_le_bytes().to_vec()));
}

#[test]
fn a_copy_of_a_request_is_updated_like_the_request() {
    let mut ids = RequestIdCounter::new();
    let request = Request::with_args(
        &mut ids,
        0xFFFF,
        vec![
            Argument::from_value(U8, &[1u8], ArgumentFlag::arg_in()),
            Argument::from_value(U8, &[2u8], ArgumentFlag::arg_out()),
            Argument::from_mut(U32, ADDR, &7u32.to_le_bytes(), ArgumentFlag::arg_out()),
        ],
    );
    let response = Response::with_request(&request, Argument::empty());

    let mut copy = request.clone();
    assert_eq!(copy.request_id(), request.request_id());
    assert_eq!(copy.method_id(), request.method_id());
    assert_eq!(copy.argc(), request.argc());
    assert_eq!(copy.update_from(&response.clone()), Ok(()));
    for (after, before) in copy.args().iter().zip(request.args()) {
        let ty = TypeDesc { id: before.type_id(), size: before.type_size(), align: before.type_align() };
        assert_eq!(after.kind(), before.kind());
        assert_eq!(after.len(), before.len());
        assert_eq!(after.flag(), before.flag());
        assert_eq!(after.is_inline(), before.is_inline());
        assert_eq!(after.address(), before.address());
        assert_eq!(after.downcast(ty), before.downcast(ty));
    }
}

#[test]
fn the_empty_argument_travels_as_its_record_alone() {
    let mut ids = RequestIdCounter::new();
    let request = Request::with_arg(&mut ids, 3, Argument::empty());
    let mut writer = BytewiseBuffer::at_address(vec![0xFFu8; 128], 0x1000, 0, 0);
    request.write_to(&mut writer).unwrap();
    // 24 bytes of metadata, 8 of padding, 64 of record, and nothing behind.
    assert_eq!(writer.written_bytes(), 96);
    let buf = writer.into_inner();
    assert_eq!(&buf[32..96], &{
        let mut record = [0u8; 64];
        record[24] = 1; // alignment
        record[32] = 1; // count
        record[40] = 1; // the flag of a value that travels in
        record
    });

    let mut reader = BytewiseBuffer::at_address(buf, 0x1000, 0, 0);
    let found = Request::read_from_mut(&mut reader).unwrap();
    assert!(found.args()[0].is_inline());
    assert!(found.args()[0].is_empty());
    assert_eq!(found.args()[0].downcast(TypeDesc::unit()), Ok(vec![]));
    assert_eq!(
        found.args()[0].downcast_ref(TypeDesc::unit()),
        Err(xgpu_common::ipc::message::MessageError::IllegalBorrowOfInlined)
    );
}
