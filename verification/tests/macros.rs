use xgpu_common::ipc::message::{
    arg_flag, ArgMut, ArgMutSlice, ArgRef, ArgSlice, ArgValue, Argument, ArgumentFlag,
    IntoArgument, Request, RequestIdCounter, TypeDesc,
};

const I32: TypeDesc = TypeDesc { id: 0x32, size: 4, align: 4 };
const I64: TypeDesc = TypeDesc { id: 0x64, size: 8, align: 8 };
const U8: TypeDesc = TypeDesc { id: 0x08, size: 1, align: 1 };
const U8_ARRAY_4: TypeDesc = TypeDesc { id: 0x84, size: 4, align: 1 };

/// Where the values of these tests are taken to lie.
const ADDR: usize = 0x6000;

#[test]
fn test_arg_macro() {
    let value = 42i32;
    let data_vec = vec![10u8, 20, 30];
    let mutable_scalar = 100i64;

    let arg_empty = Argument::empty();
    println!("arg!(): {:#?}", arg_empty);
    assert_eq!(arg_empty.type_size(), 0);
    assert!(arg_empty.is_empty());
    println!("");

    // no flag
    let arg_val_no_flag =
        ArgValue { ty: I32, bytes: &value.to_le_bytes() }.into_arg(ArgumentFlag::default());
    println!("arg!(val(...): {:#?}", arg_val_no_flag);
    assert_eq!(arg_val_no_flag.type_size(), 4);
    assert_eq!(arg_val_no_flag.type_align(), 4);
    assert_eq!(arg_val_no_flag.flag(), ArgumentFlag::default());
    assert_eq!(arg_val_no_flag.downcast(I32).unwrap(), 42i32.to_le_bytes().to_vec());
    println!("");

    // multiple flags
    let arg_val_with_flags = ArgValue { ty: I32, bytes: &value.to_le_bytes() }
        .into_arg(arg_flag(&[ArgumentFlag::arg_in(), ArgumentFlag::arg_out()]));
    println!("arg!(val(...): {:#?}", arg_val_with_flags);
    assert!(arg_val_with_flags.flag().contains(ArgumentFlag::arg_in()));
    assert!(arg_val_with_flags.flag().contains(ArgumentFlag::arg_out()));
    println!("");

    // &T
    let arg_ref = ArgRef { ty: I64, addr: ADDR, bytes: &mutable_scalar.to_le_bytes() }
        .into_arg(arg_flag(&[ArgumentFlag::arg_in()]));
    println!("arg!(ref(...): {:#?}", arg_ref);
    assert_eq!(arg_ref.type_size(), 8);
    assert_eq!(arg_ref.downcast_ref(I64).unwrap(), &100i64.to_le_bytes());
    println!("");

    // &[T]
    let arg_slice = ArgSlice { ty: U8, addr: ADDR + 8, bytes: &data_vec, len: 3 }
        .into_arg(ArgumentFlag::default());
    println!("arg!(ref(...): {:#?}", arg_slice);
    assert_eq!(arg_slice.total_size(), 3);
    assert_eq!(arg_slice.downcast_slice(U8).unwrap(), &[10, 20, 30]);
    println!("");

    // &mut [T]
    let mut arg_mut_slice = ArgMutSlice { ty: U8, addr: ADDR + 8, bytes: &data_vec, len: 3 }
        .into_arg(arg_flag(&[ArgumentFlag::arg_out()]));
    println!("arg!(ref(...): {:#?}", arg_mut_slice);
    let slice = arg_mut_slice.downcast_mut_slice(U8).unwrap();
    slice[1] = 25;
    assert_eq!(arg_mut_slice.downcast_slice(U8).unwrap(), &[10, 25, 30]);
    println!("");

    // *const T
    let arg_const_ptr = Argument::from_ptr(
        U8,
        ADDR + 8,
        &data_vec[..1],
        arg_flag(&[ArgumentFlag::arg_virt()]),
    );
    println!("arg!(ptr(...)): {:#?}", arg_const_ptr);
    assert!(arg_const_ptr.flag().contains(ArgumentFlag::arg_virt()));
    assert_eq!(arg_const_ptr.downcast_ref(U8).unwrap(), &[10]);
    println!("");

    // *mut T
    let mut arg_mut_ptr = Argument::from_mut_ptr(
        I64,
        ADDR,
        &mutable_scalar.to_le_bytes(),
        ArgumentFlag::default(),
    );
    println!("arg!(ptr(...)): {:#?}", arg_mut_ptr);
    let ptr_back = arg_mut_ptr.downcast_mut(I64).unwrap();
    ptr_back.copy_from_slice(&200i64.to_le_bytes());
    assert_eq!(arg_mut_ptr.downcast(I64).unwrap(), 200i64.to_le_bytes().to_vec());
}

#[test]
fn test_request_macro() {
    let my_data = [1u8, 2, 3, 4];
    let output_buffer = [0u8; 4];
    let mut ids = RequestIdCounter::new();

    let empty_req = Request::empty(&mut ids, 102);
    assert_eq!(empty_req.method_id(), 102);
    assert!(empty_req.args().is_empty());

    let req = Request::with_args(
        &mut ids,
        101,
        vec![
            ArgValue { ty: I32, bytes: &42i32.to_le_bytes() }.into_arg(ArgumentFlag::default()),
            ArgRef { ty: U8_ARRAY_4, addr: ADDR, bytes: &my_data }
                .into_arg(arg_flag(&[ArgumentFlag::arg_out(), ArgumentFlag::arg_virt()])),
            Argument::from_mut_ptr(U8, ADDR + 4, &output_buffer[..1], ArgumentFlag::default()),
        ],
    );

    println!("Request: {:#?}", req);
    assert_eq!(req.method_id(), 101);
    assert_eq!(req.args().len(), 3);
}

#[test]
fn arg_flag_starts_from_the_default() {
    assert_eq!(arg_flag(&[]), ArgumentFlag::arg_in());
    assert_eq!(arg_flag(&[ArgumentFlag::arg_out()]).bits(), 0b0011);
    assert_eq!(
        arg_flag(&[ArgumentFlag::arg_out(), ArgumentFlag::arg_virt()]).bits(),
        0b0111
    );
}

#[test]
fn carriers_keep_what_they_carry() {
    let bytes = 7i64.to_le_bytes();
    let argument = ArgMut { ty: I64, addr: ADDR, bytes: &bytes }.into_arg(ArgumentFlag::arg_out());
    assert!(argument.is_exclusive());
    assert_eq!(argument.address(), Some(ADDR));
    assert_eq!(argument.downcast(I64), Ok(bytes.to_vec()));

    let unit = ArgValue { ty: TypeDesc::unit(), bytes: &[] }.into_arg(ArgumentFlag::default());
    assert!(unit.is_inline());
    assert!(unit.is_empty());
}
