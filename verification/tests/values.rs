//! Runtime value and shared-handle tests.

use jit_unwind::handle::Ref;
use jit_unwind::values::{AnyRef, Func, Val, ValType};

#[test]
fn default_is_the_null_reference() {
    match Val::default() {
        Val::AnyRef(AnyRef::Null) => {}
        _ => panic!("expected the null reference"),
    }
}

#[test]
fn value_types() {
    assert_eq!(Val::I32(1).ty(), ValType::I32);
    assert_eq!(Val::I64(1).ty(), ValType::I64);
    assert_eq!(Val::F32(1).ty(), ValType::F32);
    assert_eq!(Val::F64(1).ty(), ValType::F64);
    assert_eq!(Val::default().ty(), ValType::AnyRef);
    let f = Ref::new(Func { start: 0x1000, len: 64 });
    assert_eq!(Val::FuncRef(f).ty(), ValType::FuncRef);
}

#[test]
fn float_values_carry_their_bits() {
    match Val::from_f32_bits(0x3F80_0000) {
        Val::F32(bits) => assert_eq!(bits, 0x3F80_0000),
        _ => panic!("expected an F32"),
    }
    match Val::from_f64_bits(0x3FF0_0000_0000_0000) {
        Val::F64(bits) => assert_eq!(bits, 0x3FF0_0000_0000_0000),
        _ => panic!("expected an F64"),
    }
}

#[test]
fn integer_conversions() {
    match Val::from(7i32) {
        Val::I32(v) => assert_eq!(v, 7),
        _ => panic!("expected an I32"),
    }
    match Val::from(-3i64) {
        Val::I64(v) => assert_eq!(v, -3),
        _ => panic!("expected an I64"),
    }
}

#[test]
fn function_references_convert() {
    let f = Ref::new(Func { start: 0x2000, len: 16 });
    let a = AnyRef::from(f.clone());
    match Val::from(a) {
        Val::FuncRef(r) => assert_eq!(*r.borrow(), Func { start: 0x2000, len: 16 }),
        _ => panic!("expected a FuncRef"),
    }
    match Val::from(AnyRef::null()) {
        Val::AnyRef(AnyRef::Null) => {}
        _ => panic!("expected the null reference"),
    }
}

#[test]
fn shared_handles() {
    let r = Ref::new(41u64);
    let s = r.clone();
    assert!(r.ptr_eq(&s));
    assert_eq!(*r.borrow(), 41);
    assert_eq!(*s.borrow(), 41);
    let t = Ref::new(41u64);
    assert!(!r.ptr_eq(&t));
}

#[test]
fn transform_error_carries_its_message() {
    let e = jit_unwind::debug::TransformError("no debug info");
    assert_eq!(e.0, "no debug info");
}
