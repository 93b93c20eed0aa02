//! Little-endian numbers in byte sequences.

use vstd::prelude::*;

verus! {

/// The two bytes at `at`, if they are there, as a number.
pub open spec fn u16_at(d: Seq<u8>, at: int) -> Option<int> {
    if 0 <= at && at + 2 <= d.len() {
        Some(d[at] + 0x100 * d[at + 1])
    } else {
        None
    }
}

/// The number that four bytes denote, the lowest first.
pub open spec fn quad(b0: u8, b1: u8, b2: u8, b3: u8) -> int {
    b0 + 0x100 * b1 + 0x1_0000 * b2 + 0x100_0000 * b3
}

/// The four bytes at `at`, if they are there, as a number.
pub open spec fn u32_at(d: Seq<u8>, at: int) -> Option<int> {
    if 0 <= at && at + 4 <= d.len() {
        Some(quad(d[at], d[at + 1], d[at + 2], d[at + 3]))
    } else {
        None
    }
}

/// The eight bytes at `at`, if they are there, as a number.
pub open spec fn u64_at(d: Seq<u8>, at: int) -> Option<int> {
    if 0 <= at && at + 8 <= d.len() {
        Some(
            quad(d[at], d[at + 1], d[at + 2], d[at + 3]) + 0x1_0000_0000 * quad(
                d[at + 4],
                d[at + 5],
                d[at + 6],
                d[at + 7],
            ),
        )
    } else {
        None
    }
}

/// A number below 2^32 read as a signed one.
pub open spec fn signed(v: int) -> int {
    if v < 0x8000_0000 {
        v
    } else {
        v - 0x1_0000_0000
    }
}

/// A signed number as the unsigned one with the same bits.
pub open spec fn unsigned(v: int) -> int {
    if v >= 0 {
        v
    } else {
        v + 0x1_0000_0000
    }
}

/// The four bytes of a number below 2^32, the lowest first.
pub open spec fn le32(v: int) -> Seq<u8> {
    seq![
        (v % 0x100) as u8,
        (v / 0x100 % 0x100) as u8,
        (v / 0x1_0000 % 0x100) as u8,
        (v / 0x100_0000 % 0x100) as u8,
    ]
}

/// Writing a number and reading it back gives the number.
pub proof fn law_le32_reads_back(v: int)
    requires
        0 <= v < 0x1_0000_0000,
    ensures
        u32_at(le32(v), 0) == Some(v),
{
}

/// Two numbers with the same four bytes are the same.
pub proof fn law_le32_injective(v: int, w: int)
    requires
        0 <= v < 0x1_0000_0000,
        0 <= w < 0x1_0000_0000,
        le32(v) == le32(w),
    ensures
        v == w,
{
    law_le32_reads_back(v);
    law_le32_reads_back(w);
}

fn quad_value(b0: u8, b1: u8, b2: u8, b3: u8) -> (res: u32)
    ensures
        res == quad(b0, b1, b2, b3),
{
    b0 as u32 + 0x100 * (b1 as u32) + 0x1_0000 * (b2 as u32) + 0x100_0000 * (b3 as u32)
}

/// The place `at` as an index, where `n` bytes follow it in a file of `len`.
fn place(len: usize, at: u128, n: usize) -> (res: Option<usize>)
    ensures
        res is Some == (at + n <= len),
        res matches Some(i) ==> i == at,
{
    if len < n || at > (len - n) as u128 {
        None
    } else {
        Some(at as usize)
    }
}

pub fn u16le(d: &[u8], at: u128) -> (res: Option<u16>)
    ensures
        res is Some == u16_at(d@, at as int) is Some,
        res matches Some(v) ==> u16_at(d@, at as int) == Some(v as int),
{
    match place(d.len(), at, 2) {
        Some(i) => Some(d[i] as u16 + 0x100 * (d[i + 1] as u16)),
        None => None,
    }
}

pub fn u32le(d: &[u8], at: u128) -> (res: Option<u32>)
    ensures
        res is Some == u32_at(d@, at as int) is Some,
        res matches Some(v) ==> u32_at(d@, at as int) == Some(v as int),
{
    match place(d.len(), at, 4) {
        Some(i) => Some(quad_value(d[i], d[i + 1], d[i + 2], d[i + 3])),
        None => None,
    }
}

pub fn u64le(d: &[u8], at: u128) -> (res: Option<u64>)
    ensures
        res is Some == u64_at(d@, at as int) is Some,
        res matches Some(v) ==> u64_at(d@, at as int) == Some(v as int),
{
    match place(d.len(), at, 8) {
        Some(i) => {
            let low: u32 = quad_value(d[i], d[i + 1], d[i + 2], d[i + 3]);
            let high: u32 = quad_value(d[i + 4], d[i + 5], d[i + 6], d[i + 7]);
            Some(low as u64 + 0x1_0000_0000 * (high as u64))
        },
        None => None,
    }
}

pub fn u8_at(d: &[u8], at: u128) -> (res: Option<u8>)
    ensures
        res is Some == (at < d@.len()),
        res matches Some(v) ==> v == d@[at as int],
{
    match place(d.len(), at, 1) {
        Some(i) => Some(d[i]),
        None => None,
    }
}

/// The four little-endian bytes of `v`.
pub fn to_le32(v: u32) -> (res: Vec<u8>)
    ensures
        res@ == le32(v as int),
{
    let mut out: Vec<u8> = Vec::new();
    push_le32(&mut out, v);
    out
}

/// Appends the four little-endian bytes of `v`.
pub fn push_le32(out: &mut Vec<u8>, v: u32)
    ensures
        final(out)@ == old(out)@ + le32(v as int),
{
    out.push((v % 0x100) as u8);
    out.push((v / 0x100 % 0x100) as u8);
    out.push((v / 0x1_0000 % 0x100) as u8);
    out.push((v / 0x100_0000 % 0x100) as u8);
}

/// A signed number as the unsigned one with the same bits.
pub fn to_unsigned(v: i32) -> (res: u32)
    ensures
        res == unsigned(v as int),
{
    if v >= 0 {
        v as u32
    } else {
        (v as i64 + 0x1_0000_0000) as u32
    }
}

/// An unsigned number as the signed one with the same bits.
pub fn to_signed(v: u32) -> (res: i32)
    ensures
        res == signed(v as int),
{
    if v < 0x8000_0000 {
        v as i32
    } else {
        (v as i64 - 0x1_0000_0000) as i32
    }
}

/// Numbers are read with the lowest byte first: the byte `k` places on counts 256 times
/// as much as the one before it.
pub proof fn law_the_lowest_byte_comes_first(d: Seq<u8>, at: int, k: int, b: u8)
    requires
        0 <= at,
        at + 8 <= d.len(),
        0 <= k < 8,
    ensures
        ({
            let weight = if k == 0 {
                1int
            } else if k == 1 {
                0x100
            } else if k == 2 {
                0x1_0000
            } else if k == 3 {
                0x100_0000
            } else if k == 4 {
                0x1_0000_0000
            } else if k == 5 {
                0x100_0000_0000
            } else if k == 6 {
                0x1_0000_0000_0000
            } else {
                0x100_0000_0000_0000
            };
            let e = d.update(at + k, b);
            let more = weight * (b - d[at + k]);
            &&& u64_at(e, at)->0 == u64_at(d, at)->0 + more
            &&& u32_at(e, at)->0 == u32_at(d, at)->0 + if k < 4 {
                more
            } else {
                0
            }
            &&& u16_at(e, at)->0 == u16_at(d, at)->0 + if k < 2 {
                more
            } else {
                0
            }
        }),
{
}

/// A signed number has the bits of the unsigned one that stands for it, and each stands
/// for one.
pub proof fn law_signed_numbers_read_back(v: int)
    ensures
        -0x8000_0000 <= v < 0x8000_0000 ==> signed(unsigned(v)) == v && 0 <= unsigned(v)
            < 0x1_0000_0000 && (unsigned(v) - v) % 0x1_0000_0000 == 0,
        0 <= v < 0x1_0000_0000 ==> unsigned(signed(v)) == v,
{
}

} // verus!
