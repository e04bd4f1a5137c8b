//! Numbers as they stand on the wire: a fixed count of bytes, most
//! significant first, signed numbers in two's complement.

use vstd::prelude::*;

verus! {

/// `256` to the power `width`: how many values `width` bytes can tell apart.
pub open spec fn pow256(width: nat) -> int
    decreases width,
{
    if width == 0 {
        1
    } else {
        256 * pow256((width - 1) as nat)
    }
}

/// The `width` low-order base-256 digits of `value`, most significant first.
pub open spec fn be_bytes(value: int, width: nat) -> Seq<u8> {
    Seq::new(width, |i: int| ((value / pow256((width - 1 - i) as nat)) % 256) as u8)
}

/// The number that two bytes stand for, most significant first.
pub open spec fn u16_of(bytes: Seq<u8>) -> int
    recommends
        bytes.len() == 2,
{
    bytes[0] * 0x100 + bytes[1]
}

/// The number that four bytes stand for, most significant first.
pub open spec fn u32_of(bytes: Seq<u8>) -> int
    recommends
        bytes.len() == 4,
{
    bytes[0] * 0x100_0000 + bytes[1] * 0x1_0000 + bytes[2] * 0x100 + bytes[3]
}

/// The number that eight bytes stand for, most significant first.
pub open spec fn u64_of(bytes: Seq<u8>) -> int
    recommends
        bytes.len() == 8,
{
    bytes[0] * 0x100_0000_0000_0000 + bytes[1] * 0x1_0000_0000_0000 + bytes[2]
        * 0x100_0000_0000 + bytes[3] * 0x1_0000_0000 + bytes[4] * 0x100_0000 + bytes[5]
        * 0x1_0000 + bytes[6] * 0x100 + bytes[7]
}

/// The unsigned number whose `width` bytes are the two's complement pattern
/// of `value`.
pub open spec fn unsigned(value: int, width: nat) -> int {
    if value >= 0 {
        value
    } else {
        value + pow256(width)
    }
}

/// The signed number whose `width` bytes of two's complement are the
/// pattern of the unsigned number `bits`.
pub open spec fn signed(bits: int, width: nat) -> int {
    if 2 * bits >= pow256(width) {
        bits - pow256(width)
    } else {
        bits
    }
}

/// Appends the four big-endian bytes of `value`.
/// Appends the two big-endian bytes of `value`.
pub fn push_u16(out: &mut Vec<u8>, value: u16)
    ensures
        final(out)@ == old(out)@ + be_bytes(value as int, 2),
{
    out.push((value / 0x100) as u8);
    out.push((value % 256) as u8);
    proof {
        lemma_pow256_values();
        assert(out@ =~= old(out)@ + be_bytes(value as int, 2));
    }
}

#[verifier::rlimit(40)]
pub fn push_u32(out: &mut Vec<u8>, value: u32)
    ensures
        final(out)@ == old(out)@ + be_bytes(value as int, 4),
{
    out.push((value / 0x100_0000) as u8);
    out.push(((value / 0x1_0000) % 256) as u8);
    out.push(((value / 0x100) % 256) as u8);
    out.push((value % 256) as u8);
    proof {
        lemma_pow256_values();
        assert(out@ =~= old(out)@ + be_bytes(value as int, 4));
    }
}

/// Appends the eight big-endian bytes of `value`.
#[verifier::rlimit(40)]
pub fn push_u64(out: &mut Vec<u8>, value: u64)
    ensures
        final(out)@ == old(out)@ + be_bytes(value as int, 8),
{
    out.push((value / 0x100_0000_0000_0000) as u8);
    out.push(((value / 0x1_0000_0000_0000) % 256) as u8);
    out.push(((value / 0x100_0000_0000) % 256) as u8);
    out.push(((value / 0x1_0000_0000) % 256) as u8);
    out.push(((value / 0x100_0000) % 256) as u8);
    out.push(((value / 0x1_0000) % 256) as u8);
    out.push(((value / 0x100) % 256) as u8);
    out.push((value % 256) as u8);
    proof {
        lemma_pow256_values();
        assert(out@ =~= old(out)@ + be_bytes(value as int, 8));
    }
}

/// The number that the two bytes at `at` stand for.
pub fn read_u16(bytes: &[u8], at: usize) -> (value: u16)
    requires
        at + 2 <= bytes@.len(),
    ensures
        value == u16_of(bytes@.subrange(at as int, at + 2)),
{
    let b0: u16 = bytes[at] as u16;
    let b1: u16 = bytes[at + 1] as u16;
    b0 * 0x100 + b1
}

/// The number that the four bytes at `at` stand for.
pub fn read_u32(bytes: &[u8], at: usize) -> (value: u32)
    requires
        at + 4 <= bytes@.len(),
    ensures
        value == u32_of(bytes@.subrange(at as int, at + 4)),
{
    let b0: u32 = bytes[at] as u32;
    let b1: u32 = bytes[at + 1] as u32;
    let b2: u32 = bytes[at + 2] as u32;
    let b3: u32 = bytes[at + 3] as u32;
    b0 * 0x100_0000 + b1 * 0x1_0000 + b2 * 0x100 + b3
}

/// The number that the eight bytes at `at` stand for.
pub fn read_u64(bytes: &[u8], at: usize) -> (value: u64)
    requires
        at + 8 <= bytes@.len(),
    ensures
        value == u64_of(bytes@.subrange(at as int, at + 8)),
{
    let size: usize = bytes.len();
    let high: u64 = read_u32(bytes, at) as u64;
    let low: u64 = read_u32(bytes, at + 4) as u64;
    proof {
        let field = bytes@.subrange(at as int, at + 8);
        assert(bytes@.subrange(at as int, at + 4) =~= field.subrange(0, 4));
        assert(bytes@.subrange(at + 4, at + 8) =~= field.subrange(4, 8));
    }
    high * 0x1_0000_0000 + low
}

/// The bit pattern of a 64-bit signed integer, as an unsigned number.
pub fn bits64(value: i64) -> (bits: u64)
    ensures
        bits == unsigned(value as int, 8),
{
    proof {
        lemma_pow256_values();
    }
    if value >= 0 {
        value as u64
    } else {
        let lifted: u64 = (value + i64::MAX + 1) as u64;
        lifted + 0x8000_0000_0000_0000
    }
}

/// The bit pattern of a 32-bit signed integer, as an unsigned number.
pub fn bits32(value: i32) -> (bits: u32)
    ensures
        bits == unsigned(value as int, 4),
{
    proof {
        lemma_pow256_values();
    }
    if value >= 0 {
        value as u32
    } else {
        let lifted: u32 = (value + i32::MAX + 1) as u32;
        lifted + 0x8000_0000
    }
}

/// The 64-bit signed integer with the given bit pattern.
pub fn from_bits64(bits: u64) -> (value: i64)
    ensures
        value == signed(bits as int, 8),
{
    proof {
        lemma_pow256_values();
    }
    if bits >= 0x8000_0000_0000_0000 {
        let lowered: i64 = (bits - 0x8000_0000_0000_0000) as i64;
        lowered + i64::MIN
    } else {
        bits as i64
    }
}

/// The 32-bit signed integer with the given bit pattern.
pub fn from_bits32(bits: u32) -> (value: i32)
    ensures
        value == signed(bits as int, 4),
{
    proof {
        lemma_pow256_values();
    }
    if bits >= 0x8000_0000 {
        let lowered: i32 = (bits - 0x8000_0000) as i32;
        lowered + i32::MIN
    } else {
        bits as i32
    }
}

/// The powers of 256 below `2^64`.
pub proof fn lemma_pow256_values()
    ensures
        pow256(0) == 1,
        pow256(1) == 0x100,
        pow256(2) == 0x1_0000,
        pow256(3) == 0x100_0000,
        pow256(4) == 0x1_0000_0000,
        pow256(5) == 0x100_0000_0000,
        pow256(6) == 0x1_0000_0000_0000,
        pow256(7) == 0x100_0000_0000_0000,
        pow256(8) == 0x1_0000_0000_0000_0000,
{
    reveal_with_fuel(pow256, 9);
}

/// Dividing by a power of 256 is dividing by 256 that many times.
pub proof fn lemma_shift_by_bytes(value: int, width: nat)
    requires
        0 <= value,
    ensures
        pow256(width) > 0,
        value / pow256(width + 1) == (value / pow256(width)) / 256,
        0 <= value / pow256(width),
    decreases width,
{
    if width > 0 {
        lemma_shift_by_bytes(value, (width - 1) as nat);
    }
    assert(pow256(width + 1) == 256 * pow256(width));
    vstd::arithmetic::div_mod::lemma_div_denominator(value, pow256(width), 256);
    assert(pow256(width) * 256 == 256 * pow256(width));
    vstd::arithmetic::div_mod::lemma_div_pos_is_pos(value, pow256(width));
}

/// Two big-endian bytes stand for the number they were made from.
pub proof fn lemma_u16_round_trip(value: int)
    requires
        0 <= value <= u16::MAX,
    ensures
        be_bytes(value, 2).len() == 2,
        u16_of(be_bytes(value, 2)) == value,
{
    lemma_pow256_values();
    let bytes = be_bytes(value, 2);
    assert(0 <= value / 256 < 256);
    assert(bytes[0] == value / 256 && bytes[1] == value % 256);
}

/// The two big-endian bytes of the number that two bytes stand for are
/// those bytes.
pub proof fn lemma_u16_bytes_round_trip(bytes: Seq<u8>)
    requires
        bytes.len() == 2,
    ensures
        0 <= u16_of(bytes) <= u16::MAX,
        be_bytes(u16_of(bytes), 2) == bytes,
{
    let value = u16_of(bytes);
    lemma_pow256_values();
    assert(value / 256 == bytes[0] && value % 256 == bytes[1]);
    assert(be_bytes(value, 2) =~= bytes);
}

/// Four big-endian bytes stand for the number they were made from.
#[verifier::rlimit(40)]
pub proof fn lemma_u32_round_trip(value: int)
    requires
        0 <= value <= u32::MAX,
    ensures
        be_bytes(value, 4).len() == 4,
        u32_of(be_bytes(value, 4)) == value,
{
    lemma_pow256_values();
    let v1 = value / 256;
    let v2 = v1 / 256;
    let v3 = v2 / 256;
    lemma_shift_by_bytes(value, 0);
    lemma_shift_by_bytes(value, 1);
    lemma_shift_by_bytes(value, 2);
    assert(value / pow256(1) == v1);
    assert(value / pow256(2) == v2);
    assert(value / pow256(3) == v3);
    assert(value == 256 * v1 + value % 256);
    assert(v1 == 256 * v2 + v1 % 256);
    assert(v2 == 256 * v3 + v2 % 256);
    assert(0 <= v3 < 256);
    let bytes = be_bytes(value, 4);
    assert(bytes[0] == v3 && bytes[1] == v2 % 256 && bytes[2] == v1 % 256 && bytes[3] == value
        % 256);
}

/// Eight big-endian bytes stand for the number they were made from.
#[verifier::rlimit(40)]
pub proof fn lemma_u64_round_trip(value: int)
    requires
        0 <= value <= u64::MAX,
    ensures
        be_bytes(value, 8).len() == 8,
        u64_of(be_bytes(value, 8)) == value,
{
    lemma_pow256_values();
    let v1 = value / 256;
    let v2 = v1 / 256;
    let v3 = v2 / 256;
    let v4 = v3 / 256;
    let v5 = v4 / 256;
    let v6 = v5 / 256;
    let v7 = v6 / 256;
    lemma_shift_by_bytes(value, 0);
    lemma_shift_by_bytes(value, 1);
    lemma_shift_by_bytes(value, 2);
    lemma_shift_by_bytes(value, 3);
    lemma_shift_by_bytes(value, 4);
    lemma_shift_by_bytes(value, 5);
    lemma_shift_by_bytes(value, 6);
    assert(value / pow256(1) == v1);
    assert(value / pow256(2) == v2);
    assert(value / pow256(3) == v3);
    assert(value / pow256(4) == v4);
    assert(value / pow256(5) == v5);
    assert(value / pow256(6) == v6);
    assert(value / pow256(7) == v7);
    assert(value == 256 * v1 + value % 256);
    assert(v1 == 256 * v2 + v1 % 256);
    assert(v2 == 256 * v3 + v2 % 256);
    assert(v3 == 256 * v4 + v3 % 256);
    assert(v4 == 256 * v5 + v4 % 256);
    assert(v5 == 256 * v6 + v5 % 256);
    assert(v6 == 256 * v7 + v6 % 256);
    assert(0 <= v7 < 256);
    let bytes = be_bytes(value, 8);
    assert(bytes[0] == v7 && bytes[1] == v6 % 256 && bytes[2] == v5 % 256 && bytes[3] == v4
        % 256);
    assert(bytes[4] == v3 % 256 && bytes[5] == v2 % 256 && bytes[6] == v1 % 256 && bytes[7]
        == value % 256);
}

/// The four big-endian bytes of the number that four bytes stand for are
/// those bytes.
#[verifier::rlimit(40)]
pub proof fn lemma_u32_bytes_round_trip(bytes: Seq<u8>)
    requires
        bytes.len() == 4,
    ensures
        0 <= u32_of(bytes) <= u32::MAX,
        be_bytes(u32_of(bytes), 4) == bytes,
{
    let value = u32_of(bytes);
    let s0 = bytes[0] as int;
    let s1 = 256 * s0 + bytes[1];
    let s2 = 256 * s1 + bytes[2];
    let s3 = 256 * s2 + bytes[3];
    assert(s3 == value);
    lemma_pow256_values();
    lemma_shift_by_bytes(value, 0);
    assert(value / pow256(1) == s2 && s3 % 256 == bytes[3]);
    lemma_shift_by_bytes(value, 1);
    assert(value / pow256(2) == s1 && s2 % 256 == bytes[2]);
    lemma_shift_by_bytes(value, 2);
    assert(value / pow256(3) == s0 && s1 % 256 == bytes[1]);
    assert(s0 % 256 == bytes[0]);
    assert(be_bytes(value, 4) =~= bytes);
}

/// The eight big-endian bytes of the number that eight bytes stand for are
/// those bytes.
#[verifier::rlimit(40)]
pub proof fn lemma_u64_bytes_round_trip(bytes: Seq<u8>)
    requires
        bytes.len() == 8,
    ensures
        0 <= u64_of(bytes) <= u64::MAX,
        be_bytes(u64_of(bytes), 8) == bytes,
{
    let value = u64_of(bytes);
    let s0 = bytes[0] as int;
    let s1 = 256 * s0 + bytes[1];
    let s2 = 256 * s1 + bytes[2];
    let s3 = 256 * s2 + bytes[3];
    let s4 = 256 * s3 + bytes[4];
    let s5 = 256 * s4 + bytes[5];
    let s6 = 256 * s5 + bytes[6];
    let s7 = 256 * s6 + bytes[7];
    assert(s7 == value);
    lemma_pow256_values();
    lemma_shift_by_bytes(value, 0);
    assert(value / pow256(1) == s6 && s7 % 256 == bytes[7]);
    lemma_shift_by_bytes(value, 1);
    assert(value / pow256(2) == s5 && s6 % 256 == bytes[6]);
    lemma_shift_by_bytes(value, 2);
    assert(value / pow256(3) == s4 && s5 % 256 == bytes[5]);
    lemma_shift_by_bytes(value, 3);
    assert(value / pow256(4) == s3 && s4 % 256 == bytes[4]);
    lemma_shift_by_bytes(value, 4);
    assert(value / pow256(5) == s2 && s3 % 256 == bytes[3]);
    lemma_shift_by_bytes(value, 5);
    assert(value / pow256(6) == s1 && s2 % 256 == bytes[2]);
    lemma_shift_by_bytes(value, 6);
    assert(value / pow256(7) == s0 && s1 % 256 == bytes[1]);
    assert(s0 % 256 == bytes[0]);
    assert(be_bytes(value, 8) =~= bytes);
}

/// The pattern of a signed number stands for that number.
pub proof fn lemma_signed_round_trip(value: int, width: nat)
    requires
        width == 4 || width == 8,
        -pow256(width) <= 2 * value < pow256(width),
    ensures
        0 <= unsigned(value, width) < pow256(width),
        signed(unsigned(value, width), width) == value,
{
    lemma_pow256_values();
}

/// The number that a pattern stands for has that pattern.
pub proof fn lemma_unsigned_round_trip(bits: int, width: nat)
    requires
        width == 4 || width == 8,
        0 <= bits < pow256(width),
    ensures
        -pow256(width) <= 2 * signed(bits, width) < pow256(width),
        unsigned(signed(bits, width), width) == bits,
{
    lemma_pow256_values();
}

} // verus!
