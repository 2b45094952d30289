use xgpu_common::ipc::message::{Argument, ArgumentFlag, ArgumentKind, MessageError, TypeDesc};

const ZERO_SIZED_STRUCT: TypeDesc = TypeDesc { id: 0x5A, size: 0, align: 1 };
const POINT: TypeDesc = TypeDesc { id: 0x50, size: 8, align: 4 };
const I32: TypeDesc = TypeDesc { id: 0x32, size: 4, align: 4 };
const U32: TypeDesc = TypeDesc { id: 0x33, size: 4, align: 4 };
const I32_SLICE_REF: TypeDesc = TypeDesc { id: 0x34, size: 16, align: 8 };
const ALIGNED_DATA: TypeDesc = TypeDesc { id: 0xA1, size: 16, align: 16 };

/// Where the values of these tests are taken to lie.
const ADDR: usize = 0x7000;

fn point(x: i32, y: i32) -> Vec<u8> {
    let mut bytes = x.to_le_bytes().to_vec();
    bytes.extend_from_slice(&y.to_le_bytes());
    bytes
}

fn i32s(values: &[i32]) -> Vec<u8> {
    values.iter().flat_map(|v| v.to_le_bytes()).collect()
}

fn u32s(values: &[u32]) -> Vec<u8> {
    values.iter().flat_map(|v| v.to_le_bytes()).collect()
}

fn aligned_data(value: u32) -> Vec<u8> {
    let mut bytes = value.to_le_bytes().to_vec();
    bytes.resize(16, 0);
    bytes
}

#[test]
fn test_empty_downcast() {
    let argument = Argument::empty();
    println!("argument:  {:#?}", argument);

    let result = argument.downcast(TypeDesc::unit());
    println!("result:    {:?}", result);

    assert_eq!(result, Ok(Vec::new()));
}

#[test]
fn test_empty_downcast_ref() {
    let argument = Argument::empty();
    println!("argument:  {:#?}", argument);

    let result = argument.downcast_ref(TypeDesc::unit());
    println!("result:    {:?}", result);

    // The empty argument is inline, and an inline value is never borrowed.
    assert_eq!(result, Err(MessageError::IllegalBorrowOfInlined));
}

#[test]
fn test_empty_downcast_mut() {
    let mut argument = Argument::empty();
    println!("argument:  {:#?}", argument);

    let result = argument.downcast_mut(TypeDesc::unit());
    println!("result:    {:?}", result);

    // The empty argument is inline, and an inline value is never borrowed.
    assert_eq!(result, Err(MessageError::IllegalBorrowOfInlined));
}

#[test]
fn test_zst_from_value_downcast() {
    let argument = Argument::from_value(ZERO_SIZED_STRUCT, &[], ArgumentFlag::default());
    println!("argument:  {:#?}", argument);

    let result = argument.downcast(ZERO_SIZED_STRUCT);
    println!("result:    {:?}", result);

    assert_eq!(result, Ok(Vec::new()));
}

#[test]
fn test_zst_from_value_downcast_ref() {
    let argument = Argument::from_value(ZERO_SIZED_STRUCT, &[], ArgumentFlag::default());
    println!("argument:  {:#?}", argument);

    let result = argument.downcast_ref(ZERO_SIZED_STRUCT);
    println!("result:    {:?}", result);

    // A value of no size is held inline like any other value.
    assert_eq!(result, Err(MessageError::IllegalBorrowOfInlined));
}

#[test]
fn test_zst_from_value_downcast_mut() {
    let mut argument = Argument::from_value(ZERO_SIZED_STRUCT, &[], ArgumentFlag::default());
    println!("argument:  {:#?}", argument);

    let result = argument.downcast_mut(ZERO_SIZED_STRUCT);
    println!("result:    {:?}", result);

    // A value of no size is held inline like any other value.
    assert_eq!(result, Err(MessageError::IllegalBorrowOfInlined));
}

#[test]
fn test_from_value_downcast() {
    let orig_value = point(10, 20);
    println!("value:     {:?}", orig_value);

    let argument = Argument::from_value(POINT, &orig_value, ArgumentFlag::default());
    println!("argument:  {:#?}", argument);

    let result = argument.downcast(POINT);
    println!("result:    {:?}", result);

    assert_eq!(result, Ok(orig_value));
}

#[test]
fn test_from_value_downcast_ref() {
    let orig_value = point(10, 20);
    println!("value:     {:?}", orig_value);

    let argument = Argument::from_value(POINT, &orig_value, ArgumentFlag::default());
    println!("argument:  {:#?}", argument);

    let result = argument.downcast_ref(POINT);
    println!("result:    {:?}", result);

    assert_eq!(result, Err(MessageError::IllegalBorrowOfInlined));
}

#[test]
fn test_from_value_downcast_mut() {
    let orig_value = point(10, 20);
    println!("value:     {:?}", orig_value);

    let mut argument = Argument::from_value(POINT, &orig_value, ArgumentFlag::default());
    println!("argument:  {:#?}", argument);

    let result = argument.downcast_mut(POINT);
    println!("result:    {:?}", result);

    assert_eq!(result, Err(MessageError::IllegalBorrowOfInlined));
}

#[test]
fn test_from_value_downcast_slice() {
    let orig_value = 1i32.to_le_bytes();
    println!("value:     {:?}", orig_value);

    let argument = Argument::from_value(I32, &orig_value, ArgumentFlag::default());
    println!("argument:  {:#?}", argument);

    let result = argument.downcast_slice(I32);
    println!("result:    {:?}", result);

    assert_eq!(result, Err(MessageError::ArgumentIsNotSlice));
}

#[test]
fn test_from_value_downcast_mut_slice() {
    let orig_value = 1i32.to_le_bytes();
    println!("value:     {:?}", orig_value);

    let mut argument = Argument::from_value(I32, &orig_value, ArgumentFlag::default());
    println!("argument:  {:#?}", argument);

    let result = argument.downcast_mut_slice(I32);
    println!("result:    {:?}", result);

    assert_eq!(result, Err(MessageError::ArgumentIsNotSlice));
}

#[test]
fn test_from_ref_downcast() {
    let orig_value = point(10, 20);
    println!("value:     {:?}", orig_value);

    let argument = Argument::from_ref(POINT, ADDR, &orig_value, ArgumentFlag::default());
    println!("argument:  {:#?}", argument);

    let result = argument.downcast(POINT);
    println!("result:    {:?}", result);

    assert_eq!(result, Ok(orig_value));
}

#[test]
fn test_from_ref_downcast_ref() {
    let orig_value = point(10, 20);
    println!("value:     {:?}", orig_value);

    let argument = Argument::from_ref(POINT, ADDR, &orig_value, ArgumentFlag::default());
    println!("argument:  {:#?}", argument);

    let result = argument.downcast_ref(POINT);
    println!("result:    {:?}", result);

    assert_eq!(result, Ok(orig_value.as_slice()));
}

#[test]
fn test_from_ref_downcast_mut() {
    let orig_value = point(10, 20);
    println!("value:     {:?}", orig_value);

    let mut argument = Argument::from_ref(POINT, ADDR, &orig_value, ArgumentFlag::default());
    println!("argument:  {:#?}", argument);

    let result = argument.downcast_mut(POINT);
    println!("result:    {:?}", result);

    assert_eq!(result, Err(MessageError::IllegalMutation));
}

#[test]
fn test_from_ref_downcast_slice() {
    let orig_value = point(10, 20);
    println!("value:     {:?}", orig_value);

    let argument = Argument::from_ref(POINT, ADDR, &orig_value, ArgumentFlag::default());
    println!("argument:  {:#?}", argument);

    let result = argument.downcast_slice(POINT);
    println!("result:    {:?}", result);

    assert_eq!(result, Err(MessageError::ArgumentIsNotSlice));
}

#[test]
fn test_from_ref_downcast_mut_slice() {
    let orig_value = point(10, 20);
    println!("value:     {:?}", orig_value);

    let mut argument = Argument::from_ref(POINT, ADDR, &orig_value, ArgumentFlag::default());
    println!("argument:  {:#?}", argument);

    let result = argument.downcast_mut_slice(POINT);
    println!("result:    {:?}", result);

    assert_eq!(result, Err(MessageError::ArgumentIsNotSlice));
}

#[test]
fn test_from_mut_downcast() {
    let orig_value = point(10, 20);
    println!("value:     {:?}", orig_value);

    let argument = Argument::from_mut(POINT, ADDR, &orig_value, ArgumentFlag::default());
    println!("argument:  {:#?}", argument);

    let result = argument.downcast(POINT);
    println!("result:    {:?}", result);

    assert_eq!(result, Ok(orig_value));
}

#[test]
fn test_from_mut_downcast_ref() {
    let orig_value = point(10, 20);
    let value_ref = orig_value.clone();

    println!("value:     {:?}", orig_value);

    let argument = Argument::from_mut(POINT, ADDR, &orig_value, ArgumentFlag::default());
    println!("argument:  {:#?}", argument);

    let result = argument.downcast_ref(POINT);
    println!("result:    {:?}", result);

    assert_eq!(result, Ok(value_ref.as_slice()));
}

#[test]
fn test_from_mut_downcast_mut() {
    let orig_value = point(10, 20);

    println!("value:     {:?}", orig_value);

    let mut argument = Argument::from_mut(POINT, ADDR, &orig_value, ArgumentFlag::default());
    println!("argument:  {:#?}", argument);

    {
        let result = argument.downcast_mut(POINT);
        println!("result:    {:?}", result);

        let modified = result.expect("downcast_mut failed");
        modified.copy_from_slice(&point(100, 100));
        println!("modified:  {:?}", modified);
    }

    // What was written through the reference is the value of the argument.
    let value_mut = argument.downcast(POINT);
    println!("original:  {:?}", value_mut);
    assert_eq!(value_mut, Ok(point(100, 100)));
}

#[test]
fn test_from_mut_downcast_slice() {
    let orig_value = point(10, 20);
    println!("value:     {:?}", orig_value);

    let argument = Argument::from_mut(POINT, ADDR, &orig_value, ArgumentFlag::default());
    println!("argument:  {:#?}", argument);

    let result = argument.downcast_slice(POINT);
    println!("result:    {:?}", result);

    assert_eq!(result, Err(MessageError::ArgumentIsNotSlice));
}

#[test]
fn test_from_mut_downcast_mut_slice() {
    let orig_value = point(10, 20);
    println!("value:     {:?}", orig_value);

    let mut argument = Argument::from_mut(POINT, ADDR, &orig_value, ArgumentFlag::default());
    println!("argument:  {:#?}", argument);

    let result = argument.downcast_mut_slice(POINT);
    println!("result:    {:?}", result);

    assert_eq!(result, Err(MessageError::ArgumentIsNotSlice));
}

#[test]
fn test_from_slice_downcast_ref() {
    let orig_value = i32s(&[1, 2, 3, 4]);
    println!("value:     {:?}", orig_value);

    let argument = Argument::from_slice(I32, ADDR, &orig_value, 4, ArgumentFlag::default());
    println!("argument:  {:#?}", argument);

    let result = argument.downcast_ref(I32);
    println!("result:    {:?}", result);

    assert!(matches!(result, Err(MessageError::ArgumentIsNotScalar)));
}

#[test]
fn test_from_slice_downcast_mut() {
    let orig_value = i32s(&[1, 2, 3, 4]);
    println!("value:     {:?}", orig_value);

    let mut argument = Argument::from_slice(I32, ADDR, &orig_value, 4, ArgumentFlag::default());
    println!("argument:  {:#?}", argument);

    let result = argument.downcast_mut(I32);
    println!("result:    {:?}", result);

    assert!(matches!(result, Err(MessageError::ArgumentIsNotScalar)));
}

#[test]
fn test_from_slice_downcast_slice() {
    let orig_value = i32s(&[1, 2, 3, 4]);
    println!("value:     {:?}", orig_value);

    let argument = Argument::from_slice(I32, ADDR, &orig_value, 4, ArgumentFlag::default());
    println!("argument:  {:#?}", argument);

    let result = argument.downcast_slice(I32);
    println!("result:    {:?}", result);

    assert_eq!(result, Ok(orig_value.as_slice()));
    assert_eq!(argument.len(), 4);
}

#[test]
fn test_from_slice_downcast_mut_slice() {
    let orig_value = i32s(&[1, 2, 3, 4]);
    println!("value:     {:?}", orig_value);

    let mut argument = Argument::from_slice(I32, ADDR, &orig_value, 4, ArgumentFlag::default());
    println!("argument:  {:#?}", argument);

    let result = argument.downcast_mut_slice(I32);
    println!("result:    {:?}", result);

    assert_eq!(result, Err(MessageError::IllegalMutation));
}

#[test]
fn test_from_mut_slice_downcast() {
    let orig_value = i32s(&[1, 2, 3, 4]);
    println!("value:     {:?}", orig_value);

    let argument = Argument::from_mut_slice(I32, ADDR, &orig_value, 4, ArgumentFlag::default());
    println!("argument:  {:#?}", argument);

    let result = argument.downcast(I32_SLICE_REF);
    println!("result:    {:?}", result);

    assert!(matches!(result, Err(MessageError::ArgumentTypeMismatch)));
}

#[test]
fn test_from_mut_slice_downcast_ref() {
    let orig_value = i32s(&[1, 2, 3, 4]);
    println!("value:     {:?}", orig_value);

    let argument = Argument::from_mut_slice(I32, ADDR, &orig_value, 4, ArgumentFlag::default());
    println!("argument:  {:#?}", argument);

    let result = argument.downcast_ref(I32);
    println!("result:    {:?}", result);

    assert!(matches!(result, Err(MessageError::ArgumentIsNotScalar)));
}

#[test]
fn test_from_mut_slice_downcast_mut() {
    let orig_value = i32s(&[1, 2, 3, 4]);
    println!("value:     {:?}", orig_value);

    let mut argument = Argument::from_mut_slice(I32, ADDR, &orig_value, 4, ArgumentFlag::default());
    println!("argument:  {:#?}", argument);

    let result = argument.downcast_mut(I32);
    println!("result:    {:?}", result);

    assert!(matches!(result, Err(MessageError::ArgumentIsNotScalar)));
}

#[test]
fn test_from_mut_slice_downcast_slice() {
    let orig_value = i32s(&[1, 2, 3, 4]);
    let value_slice = orig_value.clone();
    println!("value:     {:?}", orig_value);

    let argument = Argument::from_mut_slice(I32, ADDR, &orig_value, 4, ArgumentFlag::default());
    println!("argument:  {:#?}", argument);

    let result = argument.downcast_slice(I32);
    println!("result:    {:?}", result);

    assert_eq!(result, Ok(value_slice.as_slice()));
}

#[test]
fn test_from_mut_slice_downcast_mut_slice() {
    let orig_value = i32s(&[1, 2, 3, 4]);
    let mut value_slice = orig_value.clone();
    println!("value:     {:?}", orig_value);

    let mut argument = Argument::from_mut_slice(I32, ADDR, &orig_value, 4, ArgumentFlag::default());
    println!("argument:  {:#?}", argument);

    let result = argument.downcast_mut_slice(I32);
    println!("result:    {:?}", result);

    assert_eq!(result, Ok(value_slice.as_mut_slice()));
}

#[test]
fn test_type_mismatch() {
    let value = aligned_data(100);
    println!("value:    {:?}", value);

    let argument = Argument::from_ref(ALIGNED_DATA, ADDR, &value, ArgumentFlag::arg_in());
    println!("argument: {:#?}", argument);

    let result = argument.downcast_ref(U32);
    println!("result:   {:?}", result);

    assert!(matches!(result, Err(MessageError::ArgumentTypeMismatch)));
}

#[test]
fn test_size_mismatch() {
    let value = aligned_data(100);
    println!("value:    {:?}", value);

    // The argument says 8 where the type has 16.
    let stated = TypeDesc { size: 8, ..ALIGNED_DATA };
    let argument = Argument::from_ref(stated, ADDR, &value[..8], ArgumentFlag::arg_in());
    println!("argument: {:#?}", argument);

    let result = argument.downcast_ref(ALIGNED_DATA);
    println!("result:   {:?}", result);

    assert!(matches!(
        result,
        Err(MessageError::ArgumentTypeSizeMismatch {
            expect: _,
            actual: _
        })
    ));
    assert_eq!(
        result,
        Err(MessageError::ArgumentTypeSizeMismatch { expect: 8, actual: 16 })
    );
}

#[test]
fn test_align_mismatch() {
    let value = aligned_data(100);
    println!("value:    {:?}", value);

    // The argument says 8 where the type has 16.
    let stated = TypeDesc { align: 8, ..ALIGNED_DATA };
    let argument = Argument::from_ref(stated, ADDR, &value, ArgumentFlag::arg_in());
    println!("argument: {:#?}", argument);

    let result = argument.downcast_ref(ALIGNED_DATA);
    println!("result:   {:?}", result);

    assert!(matches!(
        result,
        Err(MessageError::ArgumentTypeAlignMismatch {
            expect: _,
            actual: _
        })
    ));
    assert_eq!(
        result,
        Err(MessageError::ArgumentTypeAlignMismatch { expect: 8, actual: 16 })
    );
}

#[test]
fn test_val_update_from() {
    let src_value: i32 = -1;
    let dst_value: i32 = 0;

    let src_arg = Argument::from_value(I32, &src_value.to_le_bytes(), ArgumentFlag::default());
    let mut dst_arg = Argument::from_value(I32, &dst_value.to_le_bytes(), ArgumentFlag::default());

    dst_arg
        .update_from(&src_arg)
        .expect("Update operation should succeed");

    let updated_value = dst_arg.downcast(I32).expect("Data type mismatched");
    println!("Before update: dst_value = {:?}", dst_value);
    println!("After update:  dst_value = {:?}", updated_value);

    assert_eq!(
        updated_value,
        (-1i32).to_le_bytes().to_vec(),
        "Data was not copied correctly"
    );
}

#[test]
fn test_mut_update_from() {
    let src_data = u32s(&[12345, 67890]);
    let dst_data = u32s(&[0, 0]);
    println!("Before update: dst_data = {:?}", dst_data);

    let src_arg = Argument::from_slice(U32, ADDR, &src_data, 2, ArgumentFlag::default());
    let mut dst_arg =
        Argument::from_mut_slice(U32, ADDR + 64, &dst_data, 2, ArgumentFlag::default());

    dst_arg
        .update_from(&src_arg)
        .expect("Update operation should succeed");

    let dst_data = dst_arg.downcast_slice(U32).expect("Data type mismatched");
    println!("After update:  dst_data = {:?}", dst_data);
    assert_eq!(
        dst_data,
        u32s(&[12345, 67890]).as_slice(),
        "Data was not copied correctly"
    );
}

#[test]
fn test_ref_update_from() {
    let src_data = u32s(&[12345, 67890]);
    let dst_data = u32s(&[99, 99]);

    let src_arg = Argument::from_slice(U32, ADDR, &src_data, 2, ArgumentFlag::default());
    let mut dst_arg = Argument::from_slice(U32, ADDR + 64, &dst_data, 2, ArgumentFlag::default());

    let result = dst_arg.update_from(&src_arg);
    assert_eq!(
        result,
        Err(MessageError::IllegalMutation),
        "Update should fail with IllegalMutation for a Ref destination"
    );
    println!("Update failed as expected: {:?}", result.unwrap_err());
    assert_eq!(
        dst_arg.downcast_slice(U32),
        Ok(u32s(&[99, 99]).as_slice()),
        "Data should not be modified on failure"
    );
}

#[test]
fn from_ref_comes_back_by_reference() {
    for (ty, bytes) in [(POINT, point(-7, 9)), (U32, u32s(&[0xDEAD_BEEF])), (TypeDesc::unit(), vec![])] {
        for flag in [ArgumentFlag::arg_in(), ArgumentFlag::arg_out(), ArgumentFlag::arg_virt()] {
            let argument = Argument::from_ref(ty, 0x40, &bytes, flag);
            assert_eq!(argument.downcast_ref(ty), Ok(bytes.as_slice()));
            assert_eq!(argument.flag(), flag);
        }
    }
}

#[test]
fn inline_is_never_borrowed() {
    for size in 0..=16usize {
        let ty = TypeDesc { id: 77, size, align: 1 };
        let bytes = vec![0xABu8; size];
        let mut argument = Argument::from_value(ty, &bytes, ArgumentFlag::default());
        assert!(argument.is_inline());
        assert_eq!(argument.downcast_ref(ty), Err(MessageError::IllegalBorrowOfInlined));
        assert_eq!(argument.downcast_mut(ty), Err(MessageError::IllegalBorrowOfInlined));
        assert_eq!(argument.downcast(ty), Ok(bytes));
    }
}

#[test]
fn unaligned_referent_is_refused() {
    let bytes = u32s(&[5]);
    let mut argument = Argument::from_mut(U32, 0x1002, &bytes, ArgumentFlag::default());
    assert_eq!(argument.downcast(U32), Err(MessageError::UnalignedAccess));
    assert_eq!(argument.downcast_ref(U32), Err(MessageError::UnalignedAccess));
    assert_eq!(argument.downcast_mut(U32), Err(MessageError::UnalignedAccess));
}

#[test]
fn metadata_of_constructors() {
    let empty = Argument::empty();
    assert_eq!(empty.kind(), ArgumentKind::Scalar);
    assert_eq!(empty.type_id(), 0);
    assert_eq!(empty.type_size(), 0);
    assert_eq!(empty.type_align(), 1);
    assert_eq!(empty.len(), 1);
    assert_eq!(empty.total_size(), 0);
    assert!(empty.is_empty());
    assert!(empty.is_inline());
    assert!(!empty.is_exclusive());
    assert_eq!(empty.address(), None);
    assert_eq!(empty.flag(), ArgumentFlag::arg_in());

    let bytes = i32s(&[1, 2, 3]);
    let slice = Argument::from_slice(I32, ADDR, &bytes, 3, ArgumentFlag::arg_out());
    assert_eq!(slice.kind(), ArgumentKind::Slice);
    assert_eq!(slice.len(), 3);
    assert_eq!(slice.total_size(), 12);
    assert!(!slice.is_empty());
    assert_eq!(slice.address(), Some(ADDR));
    assert!(!slice.is_exclusive());

    let none = Argument::from_mut_slice(I32, ADDR, &[], 0, ArgumentFlag::arg_out());
    assert!(none.is_empty());
    assert!(none.is_exclusive());
    assert_eq!(none.downcast_slice(I32), Ok(&[][..]));
}

#[test]
fn update_from_reports_each_mismatch() {
    let four = u32s(&[1]);
    let eight = u32s(&[1, 2]);
    let mut dst = Argument::from_mut(U32, ADDR, &four, ArgumentFlag::arg_out());

    let other_type = Argument::from_ref(I32, ADDR, &four, ArgumentFlag::arg_out());
    assert_eq!(dst.update_from(&other_type), Err(MessageError::ArgumentTypeMismatch));

    let other_size = Argument::from_ref(TypeDesc { size: 8, ..U32 }, ADDR, &eight, ArgumentFlag::arg_out());
    assert_eq!(
        dst.update_from(&other_size),
        Err(MessageError::ArgumentTypeSizeMismatch { expect: 4, actual: 8 })
    );

    let other_align = Argument::from_ref(TypeDesc { align: 8, ..U32 }, ADDR, &four, ArgumentFlag::arg_out());
    assert_eq!(
        dst.update_from(&other_align),
        Err(MessageError::ArgumentTypeAlignMismatch { expect: 4, actual: 8 })
    );

    let mut dst_slice = Argument::from_mut_slice(U32, ADDR, &eight, 2, ArgumentFlag::arg_out());
    let other_len = Argument::from_slice(U32, ADDR, &four, 1, ArgumentFlag::arg_out());
    assert_eq!(
        dst_slice.update_from(&other_len),
        Err(MessageError::ArgumentTypeLengthMismatch { expect: 2, actual: 1 })
    );

    let inline = Argument::from_value(U32, &four, ArgumentFlag::arg_out());
    assert_eq!(dst.update_from(&inline), Err(MessageError::ArgumentStorageMismatch));
    let mut inline_dst = Argument::from_value(U32, &four, ArgumentFlag::arg_out());
    let referent = Argument::from_ref(U32, ADDR, &four, ArgumentFlag::arg_out());
    assert_eq!(inline_dst.update_from(&referent), Err(MessageError::ArgumentStorageMismatch));

    // Nothing was touched by the failures.
    assert_eq!(dst.downcast(U32), Ok(four.clone()));

    // An update between values of no size succeeds, also on a shared one.
    let mut shared_unit = Argument::from_ref(TypeDesc::unit(), ADDR, &[], ArgumentFlag::arg_out());
    assert_eq!(shared_unit.update_from(&Argument::empty()), Ok(()));
}

#[test]
fn flags_combine() {
    let both = ArgumentFlag::arg_in().union(ArgumentFlag::arg_out());
    assert_eq!(both.bits(), 0b0011);
    assert!(both.contains(ArgumentFlag::arg_in()));
    assert!(both.contains(ArgumentFlag::arg_out()));
    assert!(!both.contains(ArgumentFlag::arg_virt()));
    assert_eq!(ArgumentFlag::default(), ArgumentFlag::arg_in());
    assert_eq!(ArgumentFlag::arg_virt().bits(), 0b0100);
    assert_eq!(ArgumentFlag::empty().bits(), 0);
    assert_eq!(ArgumentFlag::from_bits_retain(0x80).bits(), 0x80);

    let mut flag = ArgumentFlag::empty();
    flag.insert(ArgumentFlag::arg_virt());
    assert_eq!(flag, ArgumentFlag::arg_virt());
}

#[test]
fn clone_keeps_everything() {
    let bytes = point(3, 4);
    let argument = Argument::from_mut(POINT, ADDR, &bytes, ArgumentFlag::arg_out());
    let copy = argument.clone();
    assert_eq!(copy.downcast(POINT), Ok(bytes));
    assert_eq!(copy.address(), Some(ADDR));
    assert!(copy.is_exclusive());
    assert_eq!(copy.flag(), ArgumentFlag::arg_out());
}
