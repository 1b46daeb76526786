//! Integers encoded as bytes, in big, little or native endian.
use vstd::endian::{endianness, Endian};
use vstd::prelude::*;

verus! {

/// `256` to the power of `n`: the number of values that `n` bytes can encode.
pub open spec fn pow256(n: nat) -> nat
    decreases n,
{
    if n == 0 {
        1
    } else {
        256 * pow256((n - 1) as nat)
    }
}

/// The unsigned integer that the bytes encode, most significant byte first.
pub open spec fn be_value(s: Seq<u8>) -> nat
    decreases s.len(),
{
    if s.len() == 0 {
        0
    } else {
        (be_value(s.drop_last()) * 256 + s.last()) as nat
    }
}

/// The unsigned integer that the bytes encode, least significant byte first.
pub open spec fn le_value(s: Seq<u8>) -> nat
    decreases s.len(),
{
    if s.len() == 0 {
        0
    } else {
        (s[0] + 256 * le_value(s.skip(1))) as nat
    }
}

/// The two's complement reading of the unsigned value `v` of `width` bytes.
pub open spec fn to_signed(v: nat, width: nat) -> int {
    if v < pow256(width) / 2 {
        v as int
    } else {
        v - pow256(width)
    }
}

/// The powers of 256 of the integer widths.
pub proof fn lemma_pow256_values()
    ensures
        pow256(1) == 0x100,
        pow256(2) == 0x1_0000,
        pow256(4) == 0x1_0000_0000,
        pow256(8) == 0x1_0000_0000_0000_0000,
        pow256(16) == 0x1_0000_0000_0000_0000_0000_0000_0000_0000,
{
    reveal_with_fuel(pow256, 17);
}

/// A larger exponent gives a larger power.
proof fn lemma_pow256_mono(a: nat, b: nat)
    requires
        a <= b,
    ensures
        pow256(a) <= pow256(b),
    decreases b,
{
    if a < b {
        lemma_pow256_mono(a, (b - 1) as nat);
    }
}

/// The value of `n` bytes is less than `pow256(n)`.
proof fn lemma_be_bound(s: Seq<u8>)
    ensures
        be_value(s) < pow256(s.len()),
    decreases s.len(),
{
    if s.len() > 0 {
        let d = s.drop_last();
        lemma_be_bound(d);
        let p = pow256(d.len());
        let v = be_value(d);
        let l = s.last();
        assert(v * 256 + l < p * 256) by (nonlinear_arith)
            requires
                v < p,
                l < 256,
        ;
    }
}

/// The value of `n` bytes is less than `pow256(n)`.
proof fn lemma_le_bound(s: Seq<u8>)
    ensures
        le_value(s) < pow256(s.len()),
    decreases s.len(),
{
    if s.len() > 0 {
        let d = s.skip(1);
        lemma_le_bound(d);
        let p = pow256(d.len());
        let v = le_value(d);
        let f = s[0];
        assert(f + 256 * v < 256 * p) by (nonlinear_arith)
            requires
                v < p,
                f < 256,
        ;
    }
}

/// Decodes at most 16 bytes, most significant byte first.
pub fn decode_be(bytes: &[u8]) -> (r: u128)
    requires
        bytes@.len() <= 16,
    ensures
        r == be_value(bytes@),
        r < pow256(bytes@.len()),
{
    let len = bytes.len();
    let mut acc: u128 = 0;
    let mut i: usize = 0;
    while i < len
        invariant
            len == bytes@.len() <= 16,
            i <= len,
            acc == be_value(bytes@.take(i as int)),
            acc < pow256(i as nat),
        decreases len - i,
    {
        proof {
            lemma_pow256_mono((i + 1) as nat, 16);
            lemma_pow256_values();
            let p = pow256(i as nat);
            assert(acc * 256 + 255 < p * 256) by (nonlinear_arith)
                requires
                    acc < p,
            ;
            assert(bytes@.take(i + 1).drop_last() =~= bytes@.take(i as int));
        }
        acc = acc * 256 + bytes[i] as u128;
        i = i + 1;
    }
    assert(bytes@.take(len as int) =~= bytes@);
    acc
}

/// Decodes at most 16 bytes, least significant byte first.
pub fn decode_le(bytes: &[u8]) -> (r: u128)
    requires
        bytes@.len() <= 16,
    ensures
        r == le_value(bytes@),
        r < pow256(bytes@.len()),
{
    let len = bytes.len();
    let mut acc: u128 = 0;
    let mut i: usize = len;
    assert(bytes@.skip(len as int) =~= Seq::<u8>::empty());
    while i > 0
        invariant
            len == bytes@.len() <= 16,
            i <= len,
            acc == le_value(bytes@.skip(i as int)),
            acc < pow256((len - i) as nat),
        decreases i,
    {
        i = i - 1;
        proof {
            lemma_pow256_mono((len - i) as nat, 16);
            lemma_pow256_values();
            let p = pow256((len - i - 1) as nat);
            assert(acc * 256 + 255 < p * 256) by (nonlinear_arith)
                requires
                    acc < p,
            ;
            assert(bytes@.skip(i as int).skip(1) =~= bytes@.skip(i + 1));
        }
        acc = acc * 256 + bytes[i] as u128;
    }
    assert(bytes@.skip(0) =~= bytes@);
    acc
}

/// The value of the bytes in the byte order of the machine that runs the code
/// ([`endianness`]): least significant byte first on a little-endian machine, most
/// significant byte first on a big-endian one.
pub open spec fn ne_value(s: Seq<u8>) -> nat {
    match endianness() {
        Endian::Little => le_value(s),
        Endian::Big => be_value(s),
    }
}

/// Every read in the byte order of the machine uses one and the same order: either all of them
/// read least significant byte first, or all of them most significant byte first.
pub proof fn lemma_ne_one_order(s: Seq<u8>, t: Seq<u8>)
    ensures
        (ne_value(s) == le_value(s) && ne_value(t) == le_value(t)) || (ne_value(s) == be_value(s)
            && ne_value(t) == be_value(t)),
{
}

/// `u16::from_ne_bytes`: the value of the two bytes in the byte order of the machine that runs
/// the code, which is the one that vstd's [`endianness`] stands for.
#[verifier::external_body]
fn native_u16(bytes: [u8; 2]) -> (r: u16)
    ensures
        r == ne_value(bytes@),
{
    u16::from_ne_bytes(bytes)
}

/// Returns `true` when the machine stores integers least significant byte first.
fn native_little() -> (b: bool)
    ensures
        b == (endianness() == Endian::Little),
{
    let one: [u8; 2] = [1, 0];
    let v = native_u16(one);
    proof {
        assert(one@ =~= seq![1u8, 0u8]);
        reveal_with_fuel(le_value, 3);
        reveal_with_fuel(be_value, 3);
    }
    v == 1
}

/// Decodes at most 16 bytes in the byte order of the machine.
pub fn decode_ne(bytes: &[u8]) -> (r: u128)
    requires
        bytes@.len() <= 16,
    ensures
        r == ne_value(bytes@),
        r == be_value(bytes@) || r == le_value(bytes@),
        r < pow256(bytes@.len()),
{
    if native_little() {
        decode_le(bytes)
    } else {
        decode_be(bytes)
    }
}

/// Reads the bits of `x` as a two's complement `i8`.
pub fn to_i8(x: u8) -> (r: i8)
    ensures
        r as int == to_signed(x as nat, 1),
{
    proof {
        lemma_pow256_values();
    }
    assert(x < 0x80 ==> x as i8 == x) by (bit_vector);
    assert(x >= 0x80 ==> x as i8 == x - 0x100) by (bit_vector);
    x as i8
}

/// Reads the bits of `x` as a two's complement `i16`.
pub fn to_i16(x: u16) -> (r: i16)
    ensures
        r as int == to_signed(x as nat, 2),
{
    proof {
        lemma_pow256_values();
    }
    assert(x < 0x8000 ==> x as i16 == x) by (bit_vector);
    assert(x >= 0x8000 ==> x as i16 == x - 0x1_0000) by (bit_vector);
    x as i16
}

/// Reads the bits of `x` as a two's complement `i32`.
pub fn to_i32(x: u32) -> (r: i32)
    ensures
        r as int == to_signed(x as nat, 4),
{
    proof {
        lemma_pow256_values();
    }
    assert(x < 0x8000_0000 ==> x as i32 == x) by (bit_vector);
    assert(x >= 0x8000_0000 ==> x as i32 == x - 0x1_0000_0000) by (bit_vector);
    x as i32
}

/// Reads the bits of `x` as a two's complement `i64`.
pub fn to_i64(x: u64) -> (r: i64)
    ensures
        r as int == to_signed(x as nat, 8),
{
    proof {
        lemma_pow256_values();
    }
    assert(x < 0x8000_0000_0000_0000 ==> x as i64 == x) by (bit_vector);
    assert(x >= 0x8000_0000_0000_0000 ==> x as i64 == x - 0x1_0000_0000_0000_0000)
        by (bit_vector);
    x as i64
}

/// Reads the bits of `x` as a two's complement `i128`.
pub fn to_i128(x: u128) -> (r: i128)
    ensures
        r as int == to_signed(x as nat, 16),
{
    proof {
        lemma_pow256_values();
    }
    assert(x < 0x8000_0000_0000_0000_0000_0000_0000_0000 ==> x as i128 == x) by (bit_vector);
    assert(x >= 0x8000_0000_0000_0000_0000_0000_0000_0000 ==> x as i128 == x
        - 0x1_0000_0000_0000_0000_0000_0000_0000_0000) by (bit_vector);
    x as i128
}

/// Bytes read most significant first have the value of the same bytes in reverse order read
/// least significant first.
pub proof fn lemma_be_le_reverse(s: Seq<u8>)
    ensures
        be_value(s) == le_value(s.reverse()),
    decreases s.len(),
{
    if s.len() > 0 {
        let r = s.reverse();
        lemma_be_le_reverse(s.drop_last());
        assert(r[0] == s.last());
        assert(r.skip(1) =~= s.drop_last().reverse());
    } else {
        assert(s.reverse() =~= Seq::<u8>::empty());
    }
}

} // verus!
