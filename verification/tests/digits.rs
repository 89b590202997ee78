//! The decimal helpers and the alignment helper of the header module.

use npy_stream::header::{allign_header_buffer, digit_count_exec, push_decimal};
use npy_stream::NpyWriterBuilder;

#[test]
fn digit_counts() {
    assert_eq!(digit_count_exec(0), 1);
    assert_eq!(digit_count_exec(7), 1);
    assert_eq!(digit_count_exec(9), 1);
    assert_eq!(digit_count_exec(10), 2);
    assert_eq!(digit_count_exec(99), 2);
    assert_eq!(digit_count_exec(100), 3);
    assert_eq!(digit_count_exec(12345), 5);
    assert_eq!(digit_count_exec(10_000_000_000_000_000_000), 20);
    assert_eq!(digit_count_exec(usize::MAX), 20);
}

#[test]
fn decimal_rendering() {
    let mut buf: Vec<u8> = Vec::new();
    push_decimal(&mut buf, 0);
    assert_eq!(buf, b"0");
    buf.clear();
    push_decimal(&mut buf, 12345);
    assert_eq!(buf, b"12345");
    buf.clear();
    push_decimal(&mut buf, usize::MAX);
    assert_eq!(buf, b"18446744073709551615");
}

#[test]
fn alignment_pads_with_spaces() {
    let mut buf: Vec<u8> = Vec::new();
    assert_eq!(allign_header_buffer(&mut buf), 0);
    assert_eq!(buf.len(), 0);

    buf.push(b'x');
    assert_eq!(allign_header_buffer(&mut buf), 64);
    assert_eq!(buf.len(), 64);
    assert_eq!(buf[0], b'x');
    assert!(buf[1..].iter().all(|&b| b == b' '));

    let mut big: Vec<u8> = vec![b'y'; 65];
    assert_eq!(allign_header_buffer(&mut big), 128);
    assert_eq!(big.len(), 128);
}

#[test]
fn largest_first_dimension_renders_all_digits() {
    let builder = NpyWriterBuilder::<u64>::new(Vec::new());
    let writer = builder.begin(&[usize::MAX]).unwrap();
    let header = writer.get_ref();
    assert_eq!(header.len(), 128);
    let text = String::from_utf8(header[12..].to_vec()).unwrap();
    assert!(text.contains("'shape':(18446744073709551615)"));
    assert!(text.contains("'descr':'<u8'"));
}

#[test]
fn zero_first_dimension_renders_one_digit() {
    let builder = NpyWriterBuilder::<u8>::new(Vec::new());
    let writer = builder.begin(&[0]).unwrap();
    let text = String::from_utf8(writer.get_ref()[12..].to_vec()).unwrap();
    assert!(text.contains("'shape':(0)"));
}
