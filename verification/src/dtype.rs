//! Scalar codec: one implementation per supported numeric scalar kind,
//! mapping the type to its descriptor token and to its fixed-width
//! little-endian byte encoding.

use vstd::prelude::*;
use vstd::arithmetic::div_mod::{lemma_mod_multiples_vanish, lemma_small_mod};
use vstd::bytes::{
    lemma_auto_spec_u16_to_from_le_bytes, lemma_auto_spec_u32_to_from_le_bytes,
    lemma_auto_spec_u64_to_from_le_bytes, spec_u16_to_le_bytes, spec_u32_to_le_bytes,
    spec_u64_to_le_bytes, u16_to_le_bytes, u32_to_le_bytes, u64_to_le_bytes,
};
use crate::error::Error;

verus! {

/// The code points of a character sequence, each truncated to a byte.
/// Only applied to ASCII sequences, where no truncation occurs.
pub open spec fn ascii_bytes(s: Seq<char>) -> Seq<u8> {
    s.map_values(|c: char| c as u8)
}

/// The descriptor token of `T`, as the ASCII bytes that appear in the header.
pub open spec fn descr_ascii<T: DType>() -> Seq<u8> {
    ascii_bytes(T::descr_chars())
}

/// Two's-complement reinterpretation of a signed byte.
pub open spec fn as_u8_twos(x: i8) -> u8 {
    ((x as int) % 0x100) as u8
}

/// Two's-complement reinterpretation of a signed 16-bit value.
pub open spec fn as_u16_twos(x: i16) -> u16 {
    ((x as int) % 0x1_0000) as u16
}

/// Two's-complement reinterpretation of a signed 32-bit value.
pub open spec fn as_u32_twos(x: i32) -> u32 {
    ((x as int) % 0x1_0000_0000) as u32
}

/// Two's-complement reinterpretation of a signed 64-bit value.
pub open spec fn as_u64_twos(x: i64) -> u64 {
    ((x as int) % 0x1_0000_0000_0000_0000) as u64
}

fn to_u8_twos(x: i8) -> (r: u8)
    ensures
        r == as_u8_twos(x),
{
    if x >= 0 {
        proof {
            lemma_small_mod(x as nat, 0x100);
        }
        x as u8
    } else {
        let w: i16 = (x as i16) + 0x100;
        proof {
            lemma_mod_multiples_vanish(1, x as int, 0x100);
            lemma_small_mod(w as nat, 0x100);
        }
        w as u8
    }
}

fn to_u16_twos(x: i16) -> (r: u16)
    ensures
        r == as_u16_twos(x),
{
    if x >= 0 {
        proof {
            lemma_small_mod(x as nat, 0x1_0000);
        }
        x as u16
    } else {
        let w: i32 = (x as i32) + 0x1_0000;
        proof {
            lemma_mod_multiples_vanish(1, x as int, 0x1_0000);
            lemma_small_mod(w as nat, 0x1_0000);
        }
        w as u16
    }
}

fn to_u32_twos(x: i32) -> (r: u32)
    ensures
        r == as_u32_twos(x),
{
    if x >= 0 {
        proof {
            lemma_small_mod(x as nat, 0x1_0000_0000);
        }
        x as u32
    } else {
        let w: i64 = (x as i64) + 0x1_0000_0000;
        proof {
            lemma_mod_multiples_vanish(1, x as int, 0x1_0000_0000);
            lemma_small_mod(w as nat, 0x1_0000_0000);
        }
        w as u32
    }
}

fn to_u64_twos(x: i64) -> (r: u64)
    ensures
        r == as_u64_twos(x),
{
    if x >= 0 {
        proof {
            lemma_small_mod(x as nat, 0x1_0000_0000_0000_0000);
        }
        x as u64
    } else {
        let w: i128 = (x as i128) + 0x1_0000_0000_0000_0000;
        proof {
            lemma_mod_multiples_vanish(1, x as int, 0x1_0000_0000_0000_0000);
            lemma_small_mod(w as nat, 0x1_0000_0000_0000_0000);
        }
        w as u64
    }
}

/// Capability set of a supported scalar kind: a descriptor token naming the
/// on-disk representation, and a fixed-width little-endian encoding.
///
/// The ghost members carry defaults so that element kinds the verifier
/// cannot reason about (the float wrappers outside the library) can still
/// implement the executable surface; every kind verified here overrides
/// them with real definitions.
pub trait DType: Sized {
    /// The descriptor token for this scalar kind (for example `<i4`).
    open spec fn descr_chars() -> Seq<char> {
        arbitrary()
    }

    /// Number of bytes one encoded scalar occupies.
    open spec fn width() -> usize {
        arbitrary()
    }

    /// The fixed-width little-endian encoding of one value.
    open spec fn encoded(self) -> Seq<u8> {
        arbitrary()
    }

    /// The descriptor token.
    fn descr() -> (r: &'static str)
        ensures
            r@ == Self::descr_chars(),
    ;

    /// Append the descriptor token's ASCII bytes to `out`.
    fn push_descr(out: &mut Vec<u8>)
        ensures
            final(out)@ == old(out)@ + ascii_bytes(Self::descr_chars()),
    ;

    /// Append the little-endian encoding of `self` to `out`; returns the
    /// number of bytes written. Appending to the in-memory sink cannot fail.
    fn write_to(self, out: &mut Vec<u8>) -> (r: Result<usize, Error>)
        ensures
            final(out)@ == old(out)@ + self.encoded(),
            self.encoded().len() == Self::width(),
            r == Ok::<usize, Error>(Self::width()),
    ;
}

impl DType for i8 {
    open spec fn descr_chars() -> Seq<char> {
        "<i1"@
    }

    open spec fn width() -> usize {
        1
    }

    open spec fn encoded(self) -> Seq<u8> {
        seq![as_u8_twos(self)]
    }


    fn descr() -> (r: &'static str) {
        "<i1"
    }

    fn push_descr(out: &mut Vec<u8>) {
        out.push(0x3c); // '<'
        out.push(0x69); // 'i'
        out.push(0x31); // '1'
        proof {
            reveal_strlit("<i1");
            assert(out@ =~= old(out)@ + ascii_bytes(Self::descr_chars()));
        }
    }

    fn write_to(self, out: &mut Vec<u8>) -> (r: Result<usize, Error>) {
        out.push(to_u8_twos(self));
        Ok(1)
    }
}

impl DType for u8 {
    open spec fn descr_chars() -> Seq<char> {
        "<u1"@
    }

    open spec fn width() -> usize {
        1
    }

    open spec fn encoded(self) -> Seq<u8> {
        seq![self]
    }


    fn descr() -> (r: &'static str) {
        "<u1"
    }

    fn push_descr(out: &mut Vec<u8>) {
        out.push(0x3c); // '<'
        out.push(0x75); // 'u'
        out.push(0x31); // '1'
        proof {
            reveal_strlit("<u1");
            assert(out@ =~= old(out)@ + ascii_bytes(Self::descr_chars()));
        }
    }

    fn write_to(self, out: &mut Vec<u8>) -> (r: Result<usize, Error>) {
        out.push(self);
        Ok(1)
    }
}

impl DType for i16 {
    open spec fn descr_chars() -> Seq<char> {
        "<i2"@
    }

    open spec fn width() -> usize {
        2
    }

    open spec fn encoded(self) -> Seq<u8> {
        spec_u16_to_le_bytes(as_u16_twos(self))
    }


    fn descr() -> (r: &'static str) {
        "<i2"
    }

    fn push_descr(out: &mut Vec<u8>) {
        out.push(0x3c); // '<'
        out.push(0x69); // 'i'
        out.push(0x32); // '2'
        proof {
            reveal_strlit("<i2");
            assert(out@ =~= old(out)@ + ascii_bytes(Self::descr_chars()));
        }
    }

    fn write_to(self, out: &mut Vec<u8>) -> (r: Result<usize, Error>) {
        proof {
            lemma_auto_spec_u16_to_from_le_bytes();
        }
        let mut b = u16_to_le_bytes(to_u16_twos(self));
        let n = b.len();
        out.append(&mut b);
        Ok(n)
    }
}

impl DType for u16 {
    open spec fn descr_chars() -> Seq<char> {
        "<u2"@
    }

    open spec fn width() -> usize {
        2
    }

    open spec fn encoded(self) -> Seq<u8> {
        spec_u16_to_le_bytes(self)
    }


    fn descr() -> (r: &'static str) {
        "<u2"
    }

    fn push_descr(out: &mut Vec<u8>) {
        out.push(0x3c); // '<'
        out.push(0x75); // 'u'
        out.push(0x32); // '2'
        proof {
            reveal_strlit("<u2");
            assert(out@ =~= old(out)@ + ascii_bytes(Self::descr_chars()));
        }
    }

    fn write_to(self, out: &mut Vec<u8>) -> (r: Result<usize, Error>) {
        proof {
            lemma_auto_spec_u16_to_from_le_bytes();
        }
        let mut b = u16_to_le_bytes(self);
        let n = b.len();
        out.append(&mut b);
        Ok(n)
    }
}

impl DType for i32 {
    open spec fn descr_chars() -> Seq<char> {
        "<i4"@
    }

    open spec fn width() -> usize {
        4
    }

    open spec fn encoded(self) -> Seq<u8> {
        spec_u32_to_le_bytes(as_u32_twos(self))
    }


    fn descr() -> (r: &'static str) {
        "<i4"
    }

    fn push_descr(out: &mut Vec<u8>) {
        out.push(0x3c); // '<'
        out.push(0x69); // 'i'
        out.push(0x34); // '4'
        proof {
            reveal_strlit("<i4");
            assert(out@ =~= old(out)@ + ascii_bytes(Self::descr_chars()));
        }
    }

    fn write_to(self, out: &mut Vec<u8>) -> (r: Result<usize, Error>) {
        proof {
            lemma_auto_spec_u32_to_from_le_bytes();
        }
        let mut b = u32_to_le_bytes(to_u32_twos(self));
        let n = b.len();
        out.append(&mut b);
        Ok(n)
    }
}

impl DType for u32 {
    open spec fn descr_chars() -> Seq<char> {
        "<u4"@
    }

    open spec fn width() -> usize {
        4
    }

    open spec fn encoded(self) -> Seq<u8> {
        spec_u32_to_le_bytes(self)
    }


    fn descr() -> (r: &'static str) {
        "<u4"
    }

    fn push_descr(out: &mut Vec<u8>) {
        out.push(0x3c); // '<'
        out.push(0x75); // 'u'
        out.push(0x34); // '4'
        proof {
            reveal_strlit("<u4");
            assert(out@ =~= old(out)@ + ascii_bytes(Self::descr_chars()));
        }
    }

    fn write_to(self, out: &mut Vec<u8>) -> (r: Result<usize, Error>) {
        proof {
            lemma_auto_spec_u32_to_from_le_bytes();
        }
        let mut b = u32_to_le_bytes(self);
        let n = b.len();
        out.append(&mut b);
        Ok(n)
    }
}

impl DType for i64 {
    open spec fn descr_chars() -> Seq<char> {
        "<i8"@
    }

    open spec fn width() -> usize {
        8
    }

    open spec fn encoded(self) -> Seq<u8> {
        spec_u64_to_le_bytes(as_u64_twos(self))
    }


    fn descr() -> (r: &'static str) {
        "<i8"
    }

    fn push_descr(out: &mut Vec<u8>) {
        out.push(0x3c); // '<'
        out.push(0x69); // 'i'
        out.push(0x38); // '8'
        proof {
            reveal_strlit("<i8");
            assert(out@ =~= old(out)@ + ascii_bytes(Self::descr_chars()));
        }
    }

    fn write_to(self, out: &mut Vec<u8>) -> (r: Result<usize, Error>) {
        proof {
            lemma_auto_spec_u64_to_from_le_bytes();
        }
        let mut b = u64_to_le_bytes(to_u64_twos(self));
        let n = b.len();
        out.append(&mut b);
        Ok(n)
    }
}

impl DType for u64 {
    open spec fn descr_chars() -> Seq<char> {
        "<u8"@
    }

    open spec fn width() -> usize {
        8
    }

    open spec fn encoded(self) -> Seq<u8> {
        spec_u64_to_le_bytes(self)
    }


    fn descr() -> (r: &'static str) {
        "<u8"
    }

    fn push_descr(out: &mut Vec<u8>) {
        out.push(0x3c); // '<'
        out.push(0x75); // 'u'
        out.push(0x38); // '8'
        proof {
            reveal_strlit("<u8");
            assert(out@ =~= old(out)@ + ascii_bytes(Self::descr_chars()));
        }
    }

    fn write_to(self, out: &mut Vec<u8>) -> (r: Result<usize, Error>) {
        proof {
            lemma_auto_spec_u64_to_from_le_bytes();
        }
        let mut b = u64_to_le_bytes(self);
        let n = b.len();
        out.append(&mut b);
        Ok(n)
    }
}

} // verus!
