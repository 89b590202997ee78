//! Header builder: produces the exact aligned header block of the container
//! format — magic bytes, version pair, signed 32-bit length field, an ASCII
//! dictionary literal describing descriptor, storage order and shape, a
//! reserved digit budget of trailing spaces for the growth axis, alignment
//! padding, and a terminating newline.

use vstd::prelude::*;
use vstd::arithmetic::div_mod::{
    lemma_fundamental_div_mod, lemma_mod_multiples_vanish, lemma_small_mod,
    lemma_div_is_ordered, lemma_div_multiples_vanish, lemma_mod_bound, lemma_multiply_divide_lt,
};
use vstd::bytes::{lemma_auto_spec_u32_to_from_le_bytes, spec_u32_to_le_bytes, u32_to_le_bytes};
use core::marker::PhantomData;
use crate::dtype::{ascii_bytes, descr_ascii, DType};
use crate::error::Error;

verus! {

/// The total header block length is always a multiple of this constant.
pub const ARRAY_ALIGN: usize = 64;

/// Decimal digits reserved for the growth axis (the first shape dimension),
/// enough for the largest unsigned 64-bit count.
pub const GROWTH_AXIS_MAX_DIGITS: usize = 21;

/// Bytes before the header text: magic prefix and version pair.
pub const V30_PREFIX_LEN: usize = 8;

/// Bytes before the header text plus the 4-byte signed length field.
pub const V30_HEADER_BEGIN: usize = 12;

/// The space character used for all padding.
pub const SPACE: u8 = 0x20;

/// The newline terminator that ends every header block.
pub const NEWLINE: u8 = 0x0a;

/// The fixed magic prefix that opens every header block.
pub open spec fn magic_bytes() -> Seq<u8> {
    seq![0x93u8, 0x4eu8, 0x55u8, 0x4du8, 0x50u8, 0x59u8]
}

/// The format version pair emitted after the magic prefix: major 3, minor 0.
pub open spec fn version_bytes() -> Seq<u8> {
    seq![3u8, 0u8]
}

/// Decimal digit count of `n`, with `digit_count(0) == 1` (zero prints as
/// one digit).
pub open spec fn digit_count(n: nat) -> nat
    decreases n,
{
    if n < 10 {
        1
    } else {
        1 + digit_count(n / 10)
    }
}

/// The ASCII decimal representation of `n`, without sign or leading zeros.
pub open spec fn dec_bytes(n: nat) -> Seq<u8>
    decreases n,
{
    if n < 10 {
        seq![(0x30 + n) as u8]
    } else {
        dec_bytes(n / 10).push((0x30 + n % 10) as u8)
    }
}

/// Ten to the power `k`.
pub open spec fn pow10(k: nat) -> nat
    decreases k,
{
    if k == 0 {
        1
    } else {
        10 * pow10((k - 1) as nat)
    }
}

pub proof fn lemma_dec_bytes_len(n: nat)
    ensures
        dec_bytes(n).len() == digit_count(n),
    decreases n,
{
    if n >= 10 {
        lemma_dec_bytes_len(n / 10);
    }
}

pub proof fn lemma_pow10_pos(k: nat)
    ensures
        pow10(k) >= 1,
        k >= 1 ==> pow10(k) >= 10,
    decreases k,
{
    if k >= 1 {
        lemma_pow10_pos((k - 1) as nat);
    }
}

/// `n` has exactly `k` digits when `pow10(k - 1) <= n < pow10(k)`.
pub proof fn lemma_digit_count_exact(n: nat, k: nat)
    requires
        1 <= k,
        pow10((k - 1) as nat) <= n,
        n < pow10(k),
    ensures
        digit_count(n) == k,
    decreases k,
{
    if k == 1 {
        assert(n < 10);
    } else {
        lemma_pow10_pos((k - 1) as nat);
        assert(n >= 10);
        // n / 10 is bounded by the next powers down
        assert(pow10(k) == 10 * pow10((k - 1) as nat));
        assert(pow10((k - 1) as nat) == 10 * pow10((k - 2) as nat));
        lemma_multiply_divide_lt(n as int, 10, pow10((k - 1) as nat) as int);
        lemma_div_is_ordered(
            10 * pow10((k - 2) as nat) as int,
            n as int,
            10,
        );
        lemma_div_multiples_vanish(pow10((k - 2) as nat) as int, 10);
        lemma_digit_count_exact(n / 10, (k - 1) as nat);
    }
}

/// Every value below `pow10(k)` has at most `k` digits.
pub proof fn lemma_digit_count_le(n: nat, k: nat)
    requires
        1 <= k,
        n < pow10(k),
    ensures
        digit_count(n) <= k,
    decreases k,
{
    if k == 1 {
        assert(pow10(1) == 10 * pow10(0));
        assert(pow10(0) == 1);
    } else if n < 10 {
    } else {
        assert(pow10(k) == 10 * pow10((k - 1) as nat));
        lemma_multiply_divide_lt(n as int, 10, pow10((k - 1) as nat) as int);
        lemma_digit_count_le(n / 10, (k - 1) as nat);
    }
}

/// The concrete values of the powers of ten up to `pow10(20)`.
pub proof fn lemma_pow10_values()
    ensures
        pow10(0) == 1,
        pow10(1) == 10,
        pow10(2) == 100,
        pow10(3) == 1000,
        pow10(4) == 10000,
        pow10(5) == 100000,
        pow10(6) == 1000000,
        pow10(7) == 10000000,
        pow10(8) == 100000000,
        pow10(9) == 1000000000,
        pow10(10) == 10000000000,
        pow10(11) == 100000000000,
        pow10(12) == 1000000000000,
        pow10(13) == 10000000000000,
        pow10(14) == 100000000000000,
        pow10(15) == 1000000000000000,
        pow10(16) == 10000000000000000,
        pow10(17) == 100000000000000000,
        pow10(18) == 1000000000000000000,
        pow10(19) == 10000000000000000000,
        pow10(20) == 100000000000000000000,
{
    assert(pow10(0) == 1);
    assert(pow10(1) == 10);
    assert(pow10(2) == 100);
    assert(pow10(3) == 1000);
    assert(pow10(4) == 10000);
    assert(pow10(5) == 100000);
    assert(pow10(6) == 1000000);
    assert(pow10(7) == 10000000);
    assert(pow10(8) == 100000000);
    assert(pow10(9) == 1000000000);
    assert(pow10(10) == 10000000000);
    assert(pow10(11) == 100000000000);
    assert(pow10(12) == 1000000000000);
    assert(pow10(13) == 10000000000000);
    assert(pow10(14) == 100000000000000);
    assert(pow10(15) == 1000000000000000);
    assert(pow10(16) == 10000000000000000);
    assert(pow10(17) == 100000000000000000);
    assert(pow10(18) == 1000000000000000000);
    assert(pow10(19) == 10000000000000000000);
    assert(pow10(20) == 100000000000000000000);
}

/// Decimal digit count of a machine word, computed by comparing against the
/// powers of ten from the largest down (constant work for large values, at
/// most twenty comparisons in all).
pub fn digit_count_exec(n: usize) -> (r: usize)
    ensures
        r as nat == digit_count(n as nat),
        1 <= r <= 20,
{
    let v: u64 = n as u64;
    proof {
        lemma_pow10_values();
        assert(v as nat == n as nat);
    }
    if v >= 10000000000000000000 {
        proof {
            lemma_digit_count_exact(n as nat, 20);
        }
        20
    } else if v >= 1000000000000000000 {
        proof {
            lemma_digit_count_exact(n as nat, 19);
        }
        19
    } else if v >= 100000000000000000 {
        proof {
            lemma_digit_count_exact(n as nat, 18);
        }
        18
    } else if v >= 10000000000000000 {
        proof {
            lemma_digit_count_exact(n as nat, 17);
        }
        17
    } else if v >= 1000000000000000 {
        proof {
            lemma_digit_count_exact(n as nat, 16);
        }
        16
    } else if v >= 100000000000000 {
        proof {
            lemma_digit_count_exact(n as nat, 15);
        }
        15
    } else if v >= 10000000000000 {
        proof {
            lemma_digit_count_exact(n as nat, 14);
        }
        14
    } else if v >= 1000000000000 {
        proof {
            lemma_digit_count_exact(n as nat, 13);
        }
        13
    } else if v >= 100000000000 {
        proof {
            lemma_digit_count_exact(n as nat, 12);
        }
        12
    } else if v >= 10000000000 {
        proof {
            lemma_digit_count_exact(n as nat, 11);
        }
        11
    } else if v >= 1000000000 {
        proof {
            lemma_digit_count_exact(n as nat, 10);
        }
        10
    } else if v >= 100000000 {
        proof {
            lemma_digit_count_exact(n as nat, 9);
        }
        9
    } else if v >= 10000000 {
        proof {
            lemma_digit_count_exact(n as nat, 8);
        }
        8
    } else if v >= 1000000 {
        proof {
            lemma_digit_count_exact(n as nat, 7);
        }
        7
    } else if v >= 100000 {
        proof {
            lemma_digit_count_exact(n as nat, 6);
        }
        6
    } else if v >= 10000 {
        proof {
            lemma_digit_count_exact(n as nat, 5);
        }
        5
    } else if v >= 1000 {
        proof {
            lemma_digit_count_exact(n as nat, 4);
        }
        4
    } else if v >= 100 {
        proof {
            lemma_digit_count_exact(n as nat, 3);
        }
        3
    } else if v >= 10 {
        proof {
            lemma_digit_count_exact(n as nat, 2);
        }
        2
    } else {
        1
    }
}

/// Append the ASCII decimal representation of `n` to `out`.
pub fn push_decimal(out: &mut Vec<u8>, n: usize)
    ensures
        final(out)@ == old(out)@ + dec_bytes(n as nat),
    decreases n,
{
    if n >= 10 {
        push_decimal(out, n / 10);
    }
    out.push(0x30 + (n % 10) as u8);
    proof {
        assert(out@ =~= old(out)@ + dec_bytes(n as nat));
    }
}

/// The comma-separated ASCII decimal rendering of the shape dimensions, in
/// order, as it appears between the parentheses of the dictionary literal.
pub open spec fn shape_ascii(s: Seq<usize>) -> Seq<u8>
    decreases s.len(),
{
    if s.len() == 0 {
        Seq::empty()
    } else if s.len() == 1 {
        dec_bytes(s[0] as nat)
    } else {
        shape_ascii(s.drop_last()) + seq![0x2cu8] + dec_bytes(s.last() as nat)
    }
}

/// Bytes written per trailing dimension (a separating comma and the digits).
pub open spec fn tail_len(t: Seq<usize>) -> int
    decreases t.len(),
{
    if t.len() == 0 {
        0
    } else {
        tail_len(t.drop_last()) + 1 + digit_count(t.last() as nat)
    }
}

/// The shape rendering splits into the first dimension's digits and the
/// trailing dimensions' contribution.
pub proof fn lemma_shape_head(s: Seq<usize>)
    requires
        s.len() >= 1,
    ensures
        shape_ascii(s).len() == dec_bytes(s[0] as nat).len() + tail_len(s.drop_first()),
    decreases s.len(),
{
    if s.len() == 1 {
        assert(s.drop_first() =~= Seq::<usize>::empty());
    } else {
        let d = s.drop_last();
        lemma_shape_head(d);
        assert(d[0] == s[0]);
        assert(s.drop_first().drop_last() =~= d.drop_first());
        assert(s.drop_first().last() == s.last());
        lemma_dec_bytes_len(s.last() as nat);
    }
}

/// A prefix of the shape never renders longer than the whole shape.
pub proof fn lemma_shape_prefix_le(s: Seq<usize>, i: int)
    requires
        0 <= i <= s.len(),
    ensures
        shape_ascii(s.take(i)).len() <= shape_ascii(s).len(),
    decreases s.len(),
{
    if i == s.len() {
        assert(s.take(i) =~= s);
    } else if s.len() == 1 {
        assert(s.take(0) =~= Seq::<usize>::empty());
    } else {
        let d = s.drop_last();
        assert(s.take(i) =~= d.take(i));
        lemma_shape_prefix_le(d, i);
    }
}

/// The opening of the dictionary literal, up to the descriptor value.
pub open spec fn dict_open() -> Seq<u8> {
    ascii_bytes("{'descr':'"@)
}

/// The middle of the dictionary literal, from the end of the descriptor
/// value to the opening parenthesis of the shape tuple.
pub open spec fn dict_mid() -> Seq<u8> {
    ascii_bytes("','fortran_order':False,'shape':("@)
}

/// The end of the dictionary literal, after the shape tuple.
pub open spec fn dict_close() -> Seq<u8> {
    ascii_bytes(")}"@)
}

/// The complete ASCII dictionary literal for a descriptor and a shape.
pub open spec fn dict_bytes(descr: Seq<u8>, shape: Seq<usize>) -> Seq<u8> {
    dict_open() + descr + dict_mid() + shape_ascii(shape) + dict_close()
}

/// The number of spaces appended directly after the dictionary literal's
/// closing brace: head-room so the first dimension can later be rewritten in
/// place with up to `GROWTH_AXIS_MAX_DIGITS` digits, plus one.
pub open spec fn growth_pad(shape: Seq<usize>) -> int {
    let first: usize = if shape.len() == 0 {
        0usize
    } else {
        shape[0]
    };
    if first == 0 {
        GROWTH_AXIS_MAX_DIGITS + 1
    } else {
        GROWTH_AXIS_MAX_DIGITS - (digit_count(first as nat) - 1) + 1
    }
}

/// Block length before alignment: prefix, length field, dictionary literal
/// and growth padding.
pub open spec fn unaligned_len(descr: Seq<u8>, shape: Seq<usize>) -> int {
    V30_HEADER_BEGIN + dict_bytes(descr, shape).len() + growth_pad(shape)
}

/// The least multiple of the alignment constant that is at least `n`.
pub open spec fn align_up(n: int) -> int {
    if n % (ARRAY_ALIGN as int) == 0 {
        n
    } else {
        n + (ARRAY_ALIGN - n % (ARRAY_ALIGN as int))
    }
}

/// Total byte length of the emitted header block.
pub open spec fn total_len(descr: Seq<u8>, shape: Seq<usize>) -> int {
    align_up(unaligned_len(descr, shape))
}

/// The value stored in the signed 32-bit length field: the byte count from
/// the end of the length field to the end of the block.
pub open spec fn header_text_len(descr: Seq<u8>, shape: Seq<usize>) -> int {
    total_len(descr, shape) - V30_HEADER_BEGIN
}

/// Whether the length-field value is representable as a signed 32-bit
/// integer.
pub open spec fn header_len_fits(descr: Seq<u8>, shape: Seq<usize>) -> bool {
    header_text_len(descr, shape) <= i32::MAX
}

/// A run of `n` space characters.
pub open spec fn spaces(n: int) -> Seq<u8> {
    Seq::new(n as nat, |i: int| SPACE)
}

/// The complete header block for a descriptor and a shape: magic prefix,
/// version pair, little-endian length field, dictionary literal, space
/// padding, and the terminating newline as the final byte.
pub open spec fn header_block(descr: Seq<u8>, shape: Seq<usize>) -> Seq<u8> {
    let text = dict_bytes(descr, shape);
    magic_bytes() + version_bytes() + spec_u32_to_le_bytes(header_text_len(descr, shape) as u32)
        + text + spaces(total_len(descr, shape) - V30_HEADER_BEGIN - text.len() - 1)
        + seq![NEWLINE]
}

/// Aligning up lands on a multiple of the alignment constant, within one
/// alignment unit above `n`.
pub proof fn lemma_align_up(n: int)
    requires
        n >= 0,
    ensures
        align_up(n) % (ARRAY_ALIGN as int) == 0,
        n <= align_up(n) < n + ARRAY_ALIGN,
{
    let m = ARRAY_ALIGN as int;
    lemma_mod_bound(n, m);
    if n % m != 0 {
        lemma_fundamental_div_mod(n, m);
        assert(n + (m - n % m) == m * ((n / m) + 1));
        lemma_mod_multiples_vanish((n / m) + 1, 0, m);
        lemma_small_mod(0, m as nat);
    }
}

/// The growth padding is between 3 and 22 spaces: the first dimension of a
/// machine-word shape never has more than twenty digits.
pub proof fn lemma_growth_pad_bounds(shape: Seq<usize>)
    ensures
        3 <= growth_pad(shape) <= GROWTH_AXIS_MAX_DIGITS + 1,
{
    if shape.len() > 0 && shape[0] != 0 {
        lemma_pow10_values();
        assert((shape[0] as nat) < pow10(20));
        lemma_digit_count_le(shape[0] as nat, 20);
    }
}

/// The rendered shape never takes more than 21 bytes per dimension: at most
/// twenty digits and a separating comma each.
pub proof fn lemma_shape_ascii_le(s: Seq<usize>)
    ensures
        shape_ascii(s).len() <= 21 * s.len(),
    decreases s.len(),
{
    if s.len() >= 1 {
        lemma_pow10_values();
        assert((s.last() as nat) < pow10(20));
        lemma_digit_count_le(s.last() as nat, 20);
        lemma_dec_bytes_len(s.last() as nat);
        if s.len() == 1 {
            assert(s[0] == s.last());
        } else {
            lemma_shape_ascii_le(s.drop_last());
        }
    }
}

/// A coarse bound on the header block length, linear in the descriptor
/// length and the dimension count; lets callers discharge the machine-size
/// precondition of the builder.
pub proof fn lemma_total_len_le(descr: Seq<u8>, shape: Seq<usize>)
    ensures
        total_len(descr, shape) <= 142 + descr.len() + 21 * shape.len(),
{
    reveal_strlit("{'descr':'");
    reveal_strlit("','fortran_order':False,'shape':(");
    reveal_strlit(")}");
    lemma_shape_ascii_le(shape);
    lemma_growth_pad_bounds(shape);
    lemma_align_up(unaligned_len(descr, shape));
}

/// Law: the header block's total byte length is always an exact multiple of
/// the alignment constant, whatever the descriptor and shape.
pub proof fn lemma_header_block_aligned(descr: Seq<u8>, shape: Seq<usize>)
    ensures
        total_len(descr, shape) % (ARRAY_ALIGN as int) == 0,
        header_block(descr, shape).len() == total_len(descr, shape),
{
    lemma_growth_pad_bounds(shape);
    lemma_align_up(unaligned_len(descr, shape));
    lemma_auto_spec_u32_to_from_le_bytes();
}

/// Law: for a fixed descriptor and fixed trailing dimensions, the header
/// block length does not depend on the first (growth-axis) dimension: the
/// digits the first dimension uses and the growth padding always sum to
/// `GROWTH_AXIS_MAX_DIGITS + 2` bytes.
pub proof fn lemma_growth_axis_reserve(descr: Seq<u8>, s1: Seq<usize>, s2: Seq<usize>)
    requires
        s1.len() >= 1,
        s2.len() >= 1,
        s1.drop_first() == s2.drop_first(),
    ensures
        total_len(descr, s1) == total_len(descr, s2),
        header_block(descr, s1).len() == header_block(descr, s2).len(),
{
    lemma_shape_head(s1);
    lemma_shape_head(s2);
    lemma_dec_bytes_len(s1[0] as nat);
    lemma_dec_bytes_len(s2[0] as nat);
    lemma_header_block_aligned(descr, s1);
    lemma_header_block_aligned(descr, s2);
}

fn push_dict_open(out: &mut Vec<u8>)
    ensures
        final(out)@ == old(out)@ + dict_open(),
{
    out.push(0x7b); // '{'
    out.push(0x27); // '\''
    out.push(0x64); // 'd'
    out.push(0x65); // 'e'
    out.push(0x73); // 's'
    out.push(0x63); // 'c'
    out.push(0x72); // 'r'
    out.push(0x27); // '\''
    out.push(0x3a); // ':'
    out.push(0x27); // '\''
    proof {
        reveal_strlit("{'descr':'");
        assert(out@ =~= old(out)@ + dict_open());
    }
}

fn push_dict_mid(out: &mut Vec<u8>)
    ensures
        final(out)@ == old(out)@ + dict_mid(),
{
    out.push(0x27); // '\''
    out.push(0x2c); // ','
    out.push(0x27); // '\''
    out.push(0x66); // 'f'
    out.push(0x6f); // 'o'
    out.push(0x72); // 'r'
    out.push(0x74); // 't'
    out.push(0x72); // 'r'
    out.push(0x61); // 'a'
    out.push(0x6e); // 'n'
    out.push(0x5f); // '_'
    out.push(0x6f); // 'o'
    out.push(0x72); // 'r'
    out.push(0x64); // 'd'
    out.push(0x65); // 'e'
    out.push(0x72); // 'r'
    out.push(0x27); // '\''
    out.push(0x3a); // ':'
    out.push(0x46); // 'F'
    out.push(0x61); // 'a'
    out.push(0x6c); // 'l'
    out.push(0x73); // 's'
    out.push(0x65); // 'e'
    out.push(0x2c); // ','
    out.push(0x27); // '\''
    out.push(0x73); // 's'
    out.push(0x68); // 'h'
    out.push(0x61); // 'a'
    out.push(0x70); // 'p'
    out.push(0x65); // 'e'
    out.push(0x27); // '\''
    out.push(0x3a); // ':'
    out.push(0x28); // '('
    proof {
        reveal_strlit("','fortran_order':False,'shape':(");
        assert(out@ =~= old(out)@ + dict_mid());
    }
}

/// Append the rendered shape tuple contents (no parentheses) to `out`.
fn push_shape(out: &mut Vec<u8>, shape: &[usize])
    ensures
        final(out)@ == old(out)@ + shape_ascii(shape@),
{
    let ghost sh = shape@;
    let n: usize = shape.len();
    proof {
        assert(sh.take(0) =~= Seq::<usize>::empty());
        assert(out@ =~= old(out)@ + shape_ascii(sh.take(0)));
    }
    let mut i: usize = 0;
    while i < n
        invariant
            i <= n,
            n == sh.len(),
            sh == shape@,
            out@ == old(out)@ + shape_ascii(sh.take(i as int)),
        decreases n - i,
    {
        if i > 0 {
            out.push(0x2c); // ','
        }
        push_decimal(out, shape[i]);
        proof {
            let gi = i as int;
            assert(sh.take(gi + 1).drop_last() =~= sh.take(gi));
            assert(sh.take(gi + 1).last() == sh[gi]);
            assert(out@ =~= old(out)@ + shape_ascii(sh.take(gi + 1)));
        }
        i = i + 1;
    }
    proof {
        assert(sh.take(n as int) =~= sh);
    }
}

/// Byte length of the rendered shape tuple contents, computed without
/// materializing them.
fn shape_ascii_len(shape: &[usize]) -> (r: usize)
    requires
        shape_ascii(shape@).len() <= usize::MAX,
    ensures
        r as nat == shape_ascii(shape@).len(),
{
    let ghost sh = shape@;
    let n: usize = shape.len();
    proof {
        assert(sh.take(0) =~= Seq::<usize>::empty());
    }
    let mut sum: usize = 0;
    let mut i: usize = 0;
    while i < n
        invariant
            i <= n,
            n == sh.len(),
            sh == shape@,
            shape_ascii(sh).len() <= usize::MAX,
            sum as nat == shape_ascii(sh.take(i as int)).len(),
        decreases n - i,
    {
        proof {
            let gi = i as int;
            assert(sh.take(gi + 1).drop_last() =~= sh.take(gi));
            assert(sh.take(gi + 1).last() == sh[gi]);
            lemma_shape_prefix_le(sh, gi + 1);
            lemma_dec_bytes_len(sh[gi] as nat);
        }
        let d: usize = digit_count_exec(shape[i]);
        if i > 0 {
            sum = sum + 1;
        }
        sum = sum + d;
        i = i + 1;
    }
    proof {
        assert(sh.take(n as int) =~= sh);
    }
    sum
}

/// Extend `buf` with spaces until its length is a multiple of the alignment
/// constant; returns the new length.
pub fn allign_header_buffer(buf: &mut Vec<u8>) -> (r: usize)
    requires
        align_up(old(buf)@.len() as int) <= usize::MAX,
    ensures
        r as int == align_up(old(buf)@.len() as int),
        final(buf)@ == old(buf)@ + spaces(align_up(old(buf)@.len() as int) - old(buf)@.len()),
        r == final(buf)@.len(),
{
    proof {
        lemma_align_up(buf@.len() as int);
    }
    let mut header_len: usize = buf.len();
    let overflow: usize = header_len % ARRAY_ALIGN;
    if overflow > 0 {
        header_len = header_len + (ARRAY_ALIGN - overflow);
        proof {
            assert(buf@ =~= old(buf)@ + spaces(0));
        }
        while buf.len() < header_len
            invariant
                old(buf)@.len() <= buf@.len() <= header_len,
                header_len as int == align_up(old(buf)@.len() as int),
                buf@ == old(buf)@ + spaces(buf@.len() - old(buf)@.len()),
            decreases header_len - buf@.len(),
        {
            buf.push(SPACE);
            proof {
                assert(buf@ =~= old(buf)@ + spaces(buf@.len() - old(buf)@.len()));
            }
        }
    } else {
        proof {
            assert(buf@ =~= old(buf)@ + spaces(0));
        }
    }
    header_len
}

/// The header of one array: its shape, with the scalar kind carried as a
/// type parameter.
pub(crate) struct Header<'a, T> {
    pub shape: &'a [usize],
    pub phantom: PhantomData<T>,
}

impl<'a, T: DType> Header<'a, T> {
    /// Build the header block and append it to `out` as one write.
    ///
    /// The block is laid out exactly as `header_block` describes. When the
    /// length-field value would not fit its signed 32-bit encoding, nothing
    /// is appended and the attempted value is reported instead.
    pub(crate) fn put_to(&self, out: &mut Vec<u8>) -> (r: Result<(), Error>)
        requires
            total_len(descr_ascii::<T>(), self.shape@) <= usize::MAX,
        ensures
            match r {
                Ok(_) => {
                    &&& header_len_fits(descr_ascii::<T>(), self.shape@)
                    &&& final(out)@ == old(out)@ + header_block(
                        descr_ascii::<T>(),
                        self.shape@,
                    )
                },
                Err(e) => {
                    &&& !header_len_fits(descr_ascii::<T>(), self.shape@)
                    &&& final(out)@ == old(out)@
                    &&& e == Error::HeaderLen(
                        header_text_len(descr_ascii::<T>(), self.shape@) as usize,
                        (3u8, 0u8),
                    )
                },
            },
    {
        let ghost dsq = descr_ascii::<T>();
        let ghost sh = self.shape@;

        // The dictionary literal up to the shape tuple.
        let mut dict: Vec<u8> = Vec::new();
        push_dict_open(&mut dict);
        T::push_descr(&mut dict);
        push_dict_mid(&mut dict);

        proof {
            reveal_strlit(")}");
            assert(dict_close().len() == 2);
            lemma_growth_pad_bounds(sh);
            lemma_align_up(unaligned_len(dsq, sh));
            lemma_shape_prefix_le(sh, sh.len() as int);
        }

        // Sizes, computed before anything is emitted.
        let s_len: usize = shape_ascii_len(self.shape);
        let first: usize = if self.shape.len() == 0 {
            0
        } else {
            self.shape[0]
        };
        let pad: usize = if first == 0 {
            GROWTH_AXIS_MAX_DIGITS + 1
        } else {
            GROWTH_AXIS_MAX_DIGITS - (digit_count_exec(first) - 1) + 1
        };
        let unaligned: usize = V30_HEADER_BEGIN + dict.len() + s_len + 2 + pad;
        proof {
            assert(unaligned as int == unaligned_len(dsq, sh));
        }
        let rem: usize = unaligned % ARRAY_ALIGN;
        let total: usize = if rem > 0 {
            unaligned + (ARRAY_ALIGN - rem)
        } else {
            unaligned
        };
        proof {
            assert(total as int == total_len(dsq, sh));
        }
        let text_len: usize = total - V30_HEADER_BEGIN;
        if text_len > 0x7fff_ffff {  // i32::MAX
            return Err(Error::HeaderLen(text_len, (3, 0)));
        }

        // Emit the block into a scratch buffer.
        let mut hb: Vec<u8> = Vec::new();
        hb.push(0x93); // magic
        hb.push(0x4e); // 'N'
        hb.push(0x55); // 'U'
        hb.push(0x4d); // 'M'
        hb.push(0x50); // 'P'
        hb.push(0x59); // 'Y'
        hb.push(3); // version major
        hb.push(0); // version minor
        let mut len_field: Vec<u8> = u32_to_le_bytes(text_len as u32);
        hb.append(&mut len_field);
        proof {
            assert(hb@ =~= magic_bytes() + version_bytes() + spec_u32_to_le_bytes(
                header_text_len(dsq, sh) as u32,
            ));
        }
        let ghost fixed = hb@;
        hb.append(&mut dict);
        push_shape(&mut hb, self.shape);
        hb.push(0x29); // ')'
        hb.push(0x7d); // '}'
        proof {
            assert(hb@ =~= fixed + dict_bytes(dsq, sh));
        }
        let ghost body = hb@;

        // Growth padding.
        let mut j: usize = 0;
        proof {
            assert(hb@ =~= body + spaces(0));
        }
        while j < pad
            invariant
                j <= pad,
                hb@ == body + spaces(j as int),
                body.len() + pad <= usize::MAX,
            decreases pad - j,
        {
            hb.push(SPACE);
            j = j + 1;
            proof {
                assert(hb@ =~= body + spaces(j as int));
            }
        }

        proof {
            assert(hb@.len() == unaligned);
            lemma_auto_spec_u32_to_from_le_bytes();
        }
        let aligned_total: usize = allign_header_buffer(&mut hb);
        proof {
            assert(aligned_total == total);
            assert(hb@ =~= body + spaces(total - body.len()));
        }

        // Replace the final padding byte with the newline terminator.
        hb.truncate(aligned_total - 1);
        hb.push(NEWLINE);
        proof {
            assert(hb@ =~= header_block(dsq, sh));
        }
        out.append(&mut hb);
        Ok(())
    }
}

} // verus!
