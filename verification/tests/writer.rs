//! The streaming writer: per-call byte widths, little-endian encodings,
//! call order, sink access, and the end-to-end byte stream.

use npy_stream::{NpyWriter, NpyWriterBuilder};

#[test]
fn put_writes_exactly_the_byte_width_in_call_order() {
    let builder = NpyWriterBuilder::<i32>::new(Vec::new());
    let mut writer = builder.begin(&[3]).unwrap();
    let header_len = writer.get_ref().len();

    assert_eq!(writer.put(1).unwrap(), 4);
    assert_eq!(writer.put(-1).unwrap(), 4);
    assert_eq!(writer.put(0x12345678).unwrap(), 4);

    let sink = writer.get_ref();
    assert_eq!(sink.len(), header_len + 12);
    assert_eq!(&sink[header_len..header_len + 4], &[0x01, 0x00, 0x00, 0x00]);
    assert_eq!(&sink[header_len + 4..header_len + 8], &[0xff, 0xff, 0xff, 0xff]);
    assert_eq!(&sink[header_len + 8..header_len + 12], &[0x78, 0x56, 0x34, 0x12]);
}

#[test]
fn put_encodes_signed_extremes_in_twos_complement() {
    let builder = NpyWriterBuilder::<i32>::new(Vec::new());
    let mut writer = builder.begin(&[2]).unwrap();
    let header_len = writer.get_ref().len();
    writer.put(i32::MIN).unwrap();
    writer.put(i32::MAX).unwrap();
    let sink = writer.get_ref();
    assert_eq!(&sink[header_len..header_len + 4], &[0x00, 0x00, 0x00, 0x80]);
    assert_eq!(&sink[header_len + 4..header_len + 8], &[0xff, 0xff, 0xff, 0x7f]);
}

#[test]
fn put_widths_match_each_scalar_kind() {
    let mut w1 = NpyWriter::<i8>::build(Vec::new()).begin(&[1]).unwrap();
    assert_eq!(w1.put(-2).unwrap(), 1);
    let n1 = w1.get_ref().len();
    assert_eq!(w1.get_ref()[n1 - 1], 0xfe);

    let mut w2 = NpyWriter::<u16>::build(Vec::new()).begin(&[1]).unwrap();
    assert_eq!(w2.put(0xabcd).unwrap(), 2);
    let n2 = w2.get_ref().len();
    assert_eq!(&w2.get_ref()[n2 - 2..], &[0xcd, 0xab]);

    let mut w4 = NpyWriter::<u32>::build(Vec::new()).begin(&[1]).unwrap();
    assert_eq!(w4.put(0xdeadbeef).unwrap(), 4);
    let n4 = w4.get_ref().len();
    assert_eq!(&w4.get_ref()[n4 - 4..], &[0xef, 0xbe, 0xad, 0xde]);

    let mut w8 = NpyWriter::<u64>::build(Vec::new()).begin(&[1]).unwrap();
    assert_eq!(w8.put(0x0102030405060708).unwrap(), 8);
    let n8 = w8.get_ref().len();
    assert_eq!(
        &w8.get_ref()[n8 - 8..],
        &[0x08, 0x07, 0x06, 0x05, 0x04, 0x03, 0x02, 0x01]
    );

    let mut s8 = NpyWriter::<i64>::build(Vec::new()).begin(&[1]).unwrap();
    assert_eq!(s8.put(-2).unwrap(), 8);
    let m8 = s8.get_ref().len();
    assert_eq!(
        &s8.get_ref()[m8 - 8..],
        &[0xfe, 0xff, 0xff, 0xff, 0xff, 0xff, 0xff, 0xff]
    );

    let mut s2 = NpyWriter::<i16>::build(Vec::new()).begin(&[1]).unwrap();
    assert_eq!(s2.put(-300).unwrap(), 2);
    let m2 = s2.get_ref().len();
    assert_eq!(&s2.get_ref()[m2 - 2..], &[0xd4, 0xfe]);

    let mut b1 = NpyWriter::<u8>::build(Vec::new()).begin(&[1]).unwrap();
    assert_eq!(b1.put(0x7f).unwrap(), 1);
    let k1 = b1.get_ref().len();
    assert_eq!(b1.get_ref()[k1 - 1], 0x7f);
}

#[test]
fn writer_does_not_cap_put_calls_against_the_shape() {
    // The declared shape says two elements; the writer still accepts more.
    let mut writer = NpyWriter::<u8>::build(Vec::new()).begin(&[2]).unwrap();
    for i in 0..10u8 {
        assert_eq!(writer.put(i).unwrap(), 1);
    }
    let header_len = writer.get_ref().len() - 10;
    let sink = writer.get_ref();
    for i in 0..10usize {
        assert_eq!(sink[header_len + i], i as u8);
    }
}

#[test]
fn begin_appends_after_existing_sink_bytes() {
    let mut sink: Vec<u8> = Vec::new();
    sink.push(0xaa);
    sink.push(0xbb);
    let writer = NpyWriterBuilder::<u8>::new(sink).begin(&[1]).unwrap();
    let bytes = writer.get_ref();
    assert_eq!(bytes[0], 0xaa);
    assert_eq!(bytes[1], 0xbb);
    assert_eq!(&bytes[2..8], b"\x93NUMPY");
    assert_eq!(bytes.len(), 2 + 128);
}

#[test]
fn get_mut_allows_draining_the_sink() {
    let mut writer = NpyWriter::<u8>::build(Vec::new()).begin(&[4]).unwrap();
    writer.put(1).unwrap();
    let drained: Vec<u8> = writer.get_mut().drain(..).collect();
    assert_eq!(drained.len(), 129);
    assert_eq!(writer.get_ref().len(), 0);
    writer.put(2).unwrap();
    assert_eq!(writer.get_ref().as_slice(), &[2]);
}

#[test]
fn end_to_end_10_by_10_i32_grid() {
    let builder = NpyWriterBuilder::<i32>::new(Vec::new());
    let mut writer = builder.begin(&[10, 10]).unwrap();
    for row in 0..10i32 {
        for col in 0..10i32 {
            let written = writer.put(row * 10 + col).unwrap();
            assert_eq!(written, 4);
        }
    }
    let sink = writer.get_ref();

    // Header: one aligned block with the exact dictionary literal.
    assert_eq!(sink.len(), 128 + 400);
    assert_eq!(&sink[0..6], b"\x93NUMPY");
    assert_eq!(sink[6], 3);
    assert_eq!(sink[7], 0);
    assert_eq!(i32::from_le_bytes([sink[8], sink[9], sink[10], sink[11]]), 116);
    let text = String::from_utf8(sink[12..128].to_vec()).unwrap();
    assert!(text.starts_with("{'descr':'<i4','fortran_order':False,'shape':(10,10)}"));
    assert!(text.ends_with("\n"));

    // Data: row-major little-endian values, tightly packed.
    for i in 0..100usize {
        let at = 128 + 4 * i;
        let value = i32::from_le_bytes([sink[at], sink[at + 1], sink[at + 2], sink[at + 3]]);
        assert_eq!(value as usize, i);
    }
}
