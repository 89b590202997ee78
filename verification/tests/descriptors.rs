//! The descriptor token of every supported scalar kind.

use npy_stream::DType;

#[test]
fn descriptor_i8() {
    assert_eq!(<i8 as DType>::descr(), "<i1");
}

#[test]
fn descriptor_u8() {
    assert_eq!(<u8 as DType>::descr(), "<u1");
}

#[test]
fn descriptor_i16() {
    assert_eq!(<i16 as DType>::descr(), "<i2");
}

#[test]
fn descriptor_u16() {
    assert_eq!(<u16 as DType>::descr(), "<u2");
}

#[test]
fn descriptor_i32() {
    assert_eq!(<i32 as DType>::descr(), "<i4");
}

#[test]
fn descriptor_u32() {
    assert_eq!(<u32 as DType>::descr(), "<u4");
}

#[test]
fn descriptor_i64() {
    assert_eq!(<i64 as DType>::descr(), "<i8");
}

#[test]
fn descriptor_u64() {
    assert_eq!(<u64 as DType>::descr(), "<u8");
}
