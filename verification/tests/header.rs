//! Header block layout: alignment, growth-axis digit budget, the exact
//! dictionary literal, the length field, and the length-field overflow
//! error.

use npy_stream::{Error, NpyWriterBuilder};

/// Emit the header for `shape` with scalar kind `i32` into a fresh sink.
fn header_for_i32(shape: &[usize]) -> Vec<u8> {
    let builder = NpyWriterBuilder::<i32>::new(Vec::new());
    let writer = builder.begin(shape).expect("header should fit");
    writer.get_ref().clone()
}

#[test]
fn header_length_is_multiple_of_64() {
    let shapes: Vec<Vec<usize>> = vec![
        vec![],
        vec![0],
        vec![1],
        vec![9],
        vec![10, 10],
        vec![0, 5],
        vec![1, 2, 3, 4, 5, 6, 7, 8, 9, 10],
        vec![usize::MAX],
        vec![usize::MAX, usize::MAX, usize::MAX],
        vec![1000000, 2, 3],
        vec![0; 50],
    ];
    for shape in &shapes {
        let header = header_for_i32(shape);
        assert!(header.len() > 0);
        assert_eq!(header.len() % 64, 0, "shape {:?}", shape);
    }
}

#[test]
fn growth_axis_digits_do_not_change_header_length() {
    // First dimension across every digit count a 64-bit word can have.
    let mut first_dims: Vec<usize> = Vec::new();
    let mut d: usize = 1;
    loop {
        first_dims.push(d); // 1, 10, 100, ... 10^19: digit counts 1 to 20
        match d.checked_mul(10) {
            Some(next) => d = next,
            None => break,
        }
    }
    assert_eq!(first_dims.len(), 20);

    let reference = header_for_i32(&[1, 7, 8]).len();
    for &f in &first_dims {
        let header = header_for_i32(&[f, 7, 8]);
        assert_eq!(header.len(), reference, "first dimension {}", f);
    }
    // Zero as well: it prints one digit and still reserves the same room.
    assert_eq!(header_for_i32(&[0, 7, 8]).len(), reference);
}

#[test]
fn header_bytes_exact_for_10_by_10() {
    let header = header_for_i32(&[10, 10]);

    let dict: &[u8] = b"{'descr':'<i4','fortran_order':False,'shape':(10,10)}";
    let mut expected: Vec<u8> = Vec::new();
    expected.extend_from_slice(b"\x93NUMPY");
    expected.push(3); // version major
    expected.push(0); // version minor
    expected.extend_from_slice(&116i32.to_le_bytes()); // 128 - 12
    expected.extend_from_slice(dict);
    while expected.len() < 127 {
        expected.push(b' ');
    }
    expected.push(b'\n');

    assert_eq!(expected.len(), 128);
    assert_eq!(header, expected);
}

#[test]
fn growth_padding_follows_the_closing_brace() {
    // 21 spaces are reserved after the brace for a two-digit first
    // dimension; the alignment fill continues with more spaces.
    let header = header_for_i32(&[10, 10]);
    let brace = header.iter().position(|&b| b == b'}').unwrap();
    for i in (brace + 1)..(header.len() - 1) {
        assert_eq!(header[i], b' ');
    }
    assert_eq!(*header.last().unwrap(), b'\n');
}

#[test]
fn empty_shape_is_zero_dimensional() {
    let header = header_for_i32(&[]);
    assert_eq!(header.len(), 128);
    let text = String::from_utf8(header[12..].to_vec()).unwrap();
    assert!(text.contains("'shape':()"));
    assert!(text.contains("'descr':'<i4'"));
    assert!(text.contains("'fortran_order':False"));
    assert_eq!(header[127], b'\n');
}

#[test]
fn single_dimension_has_no_trailing_comma() {
    let header = header_for_i32(&[42]);
    let text = String::from_utf8(header[12..].to_vec()).unwrap();
    assert!(text.contains("'shape':(42)"));
}

#[test]
fn length_field_counts_bytes_after_itself() {
    for shape in [vec![], vec![5usize], vec![123456789, 4, 2]] {
        let header = header_for_i32(&shape);
        let len_field =
            i32::from_le_bytes([header[8], header[9], header[10], header[11]]);
        assert_eq!(len_field as usize, header.len() - 12);
    }
}

#[test]
fn header_len_overflow_yields_header_len_error() {
    // Enough dimensions that the dictionary literal alone passes the signed
    // 32-bit range: each maximal dimension renders as 20 digits and a comma.
    let shape: Vec<usize> = vec![usize::MAX; 103_000_000];
    let builder = NpyWriterBuilder::<i8>::new(Vec::new());
    match builder.begin(&shape) {
        Err(Error::HeaderLen(attempted, version)) => {
            assert!(attempted > i32::MAX as usize);
            assert_eq!(version, (3, 0));
        }
        Err(Error::Write) => panic!("wrong error kind"),
        Ok(_) => panic!("expected a HeaderLen error"),
    }
}
