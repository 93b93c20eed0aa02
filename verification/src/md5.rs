//! MD5, for fingerprinting modules and naming backups.
//!
//! Used to tell files apart, not to protect anything.

pub mod laws;

use crate::bytes;
use crate::bytes::push_le32;
use crate::text;
use crate::text::{lower_digit, push_char};
use vstd::prelude::*;

verus! {

/// How far each step rotates.
pub const S: [u32; 64] = [
    7, 12, 17, 22, 7, 12, 17, 22, 7, 12, 17, 22, 7, 12, 17, 22,
    5, 9, 14, 20, 5, 9, 14, 20, 5, 9, 14, 20, 5, 9, 14, 20,
    4, 11, 16, 23, 4, 11, 16, 23, 4, 11, 16, 23, 4, 11, 16, 23,
    6, 10, 15, 21, 6, 10, 15, 21, 6, 10, 15, 21, 6, 10, 15, 21,
];

/// The constant of each step: the integer part of 2^32 * |sin(step + 1)|.
pub const K: [u32; 64] = [
    0xd76aa478, 0xe8c7b756, 0x242070db, 0xc1bdceee, 0xf57c0faf, 0x4787c62a, 0xa8304613, 0xfd469501,
    0x698098d8, 0x8b44f7af, 0xffff5bb1, 0x895cd7be, 0x6b901122, 0xfd987193, 0xa679438e, 0x49b40821,
    0xf61e2562, 0xc040b340, 0x265e5a51, 0xe9b6c7aa, 0xd62f105d, 0x02441453, 0xd8a1e681, 0xe7d3fbc8,
    0x21e1cde6, 0xc33707d6, 0xf4d50d87, 0x455a14ed, 0xa9e3e905, 0xfcefa3f8, 0x676f02d9, 0x8d2a4c8a,
    0xfffa3942, 0x8771f681, 0x6d9d6122, 0xfde5380c, 0xa4beea44, 0x4bdecfa9, 0xf6bb4b60, 0xbebfbc70,
    0x289b7ec6, 0xeaa127fa, 0xd4ef3085, 0x04881d05, 0xd9d4d039, 0xe6db99e5, 0x1fa27cf8, 0xc4ac5665,
    0xf4292244, 0x432aff97, 0xab9423a7, 0xfc93a039, 0x655b59c3, 0x8f0ccc92, 0xffeff47d, 0x85845dd1,
    0x6fa87e4f, 0xfe2ce6e0, 0xa3014314, 0x4e0811a1, 0xf7537e82, 0xbd3af235, 0x2ad7d2bb, 0xeb86d391,
];

/// The four chaining words.
#[derive(Clone, Copy)]
pub struct Words {
    pub a: u32,
    pub b: u32,
    pub c: u32,
    pub d: u32,
}

// ---------------------------------------------------------------------------
// The digest
// ---------------------------------------------------------------------------

pub open spec fn initial() -> Words {
    Words { a: 0x67452301, b: 0xefcdab89, c: 0x98badcfe, d: 0x10325476 }
}

pub open spec fn rotated(x: u32, s: u32) -> u32 {
    (x << s) | (x >> ((32 - s) as u32))
}

/// The `g`-th word of a block.
pub open spec fn word(block: Seq<u8>, g: int) -> u32 {
    bytes::quad(block[4 * g], block[4 * g + 1], block[4 * g + 2], block[4 * g + 3]) as u32
}

/// How step `i` mixes three of the words.
pub open spec fn mixed(i: int, w: Words) -> u32 {
    if i < 16 {
        (w.b & w.c) | (!w.b & w.d)
    } else if i < 32 {
        (w.d & w.b) | (!w.d & w.c)
    } else if i < 48 {
        w.b ^ w.c ^ w.d
    } else {
        w.c ^ (w.b | !w.d)
    }
}

/// Which word of the block step `i` takes.
pub open spec fn chosen(i: int) -> int {
    if i < 16 {
        i
    } else if i < 32 {
        (5 * i + 1) % 16
    } else if i < 48 {
        (3 * i + 5) % 16
    } else {
        (7 * i) % 16
    }
}

/// Step `i` of a block.
pub open spec fn stepped(i: int, w: Words, block: Seq<u8>) -> Words {
    let sum = w.a.wrapping_add(mixed(i, w)).wrapping_add(K@[i]).wrapping_add(
        word(block, chosen(i)),
    );
    Words { a: w.d, b: w.b.wrapping_add(rotated(sum, S@[i])), c: w.b, d: w.c }
}

/// The first `n` steps of a block.
pub open spec fn rounds(w: Words, block: Seq<u8>, n: int) -> Words
    decreases n,
{
    if n <= 0 {
        w
    } else {
        stepped(n - 1, rounds(w, block, n - 1), block)
    }
}

/// The chaining words after one block.
pub open spec fn chained(w: Words, block: Seq<u8>) -> Words {
    let r = rounds(w, block, 64);
    Words {
        a: w.a.wrapping_add(r.a),
        b: w.b.wrapping_add(r.b),
        c: w.c.wrapping_add(r.c),
        d: w.d.wrapping_add(r.d),
    }
}

/// The chaining words after the first `n` blocks of a message.
pub open spec fn blocks(w: Words, message: Seq<u8>, n: int) -> Words
    decreases n,
{
    if n <= 0 {
        w
    } else {
        chained(blocks(w, message, n - 1), message.subrange(64 * (n - 1), 64 * n))
    }
}

/// What follows the data: a one bit, zeros up to eight bytes short of a whole
/// block, and the length in bits.
#[verifier::opaque]
pub open spec fn padding(len: int) -> Seq<u8> {
    let bits = (len * 8) % 0x1_0000_0000_0000_0000;
    seq![0x80u8] + Seq::new(((119 - len % 64) % 64) as nat, |i: int| 0u8) + bytes::le32(
        bits % 0x1_0000_0000,
    ) + bytes::le32(bits / 0x1_0000_0000)
}

/// The chaining words after the whole of the data and its padding.
pub open spec fn digest(data: Seq<u8>) -> Words {
    let message = data + padding(data.len() as int);
    blocks(initial(), message, message.len() as int / 64)
}

/// Two lower-case digits.
pub open spec fn byte_lower(b: u8) -> Seq<char> {
    seq![text::digit_lower(b as int / 16), text::digit_lower(b as int % 16)]
}

/// The first `n` bytes in lower-case hexadecimal.
pub open spec fn hex_below(b: Seq<u8>, n: int) -> Seq<char>
    decreases n,
{
    if n <= 0 {
        seq![]
    } else {
        hex_below(b, n - 1) + byte_lower(b[n - 1])
    }
}

/// The bytes of a digest.
pub open spec fn digest_bytes(w: Words) -> Seq<u8> {
    bytes::le32(w.a as int) + bytes::le32(w.b as int) + bytes::le32(w.c as int) + bytes::le32(
        w.d as int,
    )
}

/// The digest of `data` in hexadecimal.
pub open spec fn hex_digest(data: Seq<u8>) -> Seq<char> {
    hex_below(digest_bytes(digest(data)), 16)
}

// ---------------------------------------------------------------------------
// Computing it
// ---------------------------------------------------------------------------

fn rotate(x: u32, s: u32) -> (res: u32)
    requires
        0 < s < 32,
    ensures
        res == rotated(x, s),
{
    (x << s) | (x >> (32 - s))
}

proof fn lemma_shifts(i: int)
    requires
        0 <= i < 64,
    ensures
        0 < S@[i] < 32,
{
}

fn mix(i: usize, w: Words) -> (res: u32)
    ensures
        res == mixed(i as int, w),
{
    if i < 16 {
        (w.b & w.c) | (!w.b & w.d)
    } else if i < 32 {
        (w.d & w.b) | (!w.d & w.c)
    } else if i < 48 {
        w.b ^ w.c ^ w.d
    } else {
        w.c ^ (w.b | !w.d)
    }
}

fn choose_word(i: usize) -> (res: usize)
    requires
        i < 64,
    ensures
        res == chosen(i as int),
        res < 16,
{
    if i < 16 {
        i
    } else if i < 32 {
        (5 * i + 1) % 16
    } else if i < 48 {
        (3 * i + 5) % 16
    } else {
        (7 * i) % 16
    }
}

/// One block of `data`, from `base` on.
fn process(w: Words, data: &[u8], base: usize) -> (res: Words)
    requires
        base + 64 <= data@.len(),
    ensures
        res == chained(w, data@.subrange(base as int, base + 64)),
{
    let ghost block = data@.subrange(base as int, base + 64);
    let size: usize = data.len();
    let mut m: [u32; 16] = [0; 16];
    let mut g: usize = 0;
    while g < 16
        invariant
            g <= 16,
            size == data@.len(),
            base + 64 <= data@.len(),
            block == data@.subrange(base as int, base + 64),
            forall|j: int| 0 <= j < g ==> #[trigger] m@[j] == word(block, j),
        decreases 16 - g,
    {
        let at: usize = base + 4 * g;
        assert(block[4 * g] == data@[at as int]);
        assert(block[4 * g + 1] == data@[at + 1]);
        assert(block[4 * g + 2] == data@[at + 2]);
        assert(block[4 * g + 3] == data@[at + 3]);
        m[g] = data[at] as u32 + 0x100 * (data[at + 1] as u32) + 0x1_0000 * (data[at + 2] as u32)
            + 0x100_0000 * (data[at + 3] as u32);
        g = g + 1;
    }
    let mut r: Words = w;
    let mut i: usize = 0;
    while i < 64
        invariant
            i <= 64,
            forall|j: int| 0 <= j < 16 ==> #[trigger] m@[j] == word(block, j),
            r == rounds(w, block, i as int),
        decreases 64 - i,
    {
        proof {
            lemma_shifts(i as int);
        }
        let g: usize = choose_word(i);
        let sum: u32 = r.a.wrapping_add(mix(i, r)).wrapping_add(K[i]).wrapping_add(m[g]);
        r = Words { a: r.d, b: r.b.wrapping_add(rotate(sum, S[i])), c: r.b, d: r.c };
        i = i + 1;
    }
    Words {
        a: w.a.wrapping_add(r.a),
        b: w.b.wrapping_add(r.b),
        c: w.c.wrapping_add(r.c),
        d: w.d.wrapping_add(r.d),
    }
}

/// What is left of `data` after its whole blocks, with the padding behind it.
fn tail_of(data: &[u8], from: usize) -> (res: Vec<u8>)
    requires
        from <= data@.len(),
    ensures
        res@ == data@.skip(from as int) + padding(data@.len() as int),
{
    let len: usize = data.len();
    let mut msg: Vec<u8> = Vec::new();
    let mut i: usize = from;
    while i < len
        invariant
            from <= i <= len,
            len == data@.len(),
            msg@ == data@.subrange(from as int, i as int),
        decreases len - i,
    {
        msg.push(data[i]);
        i = i + 1;
        assert(msg@ =~= data@.subrange(from as int, i as int));
    }
    assert(msg@ =~= data@.skip(from as int));
    let ghost rest = msg@;
    proof {
        reveal(padding);
    }
    msg.push(0x80);
    let zeros: usize = (119 - len % 64) % 64;
    let mut k: usize = 0;
    assert(msg@ =~= rest + seq![0x80u8] + Seq::new(0, |i: int| 0u8));
    while k < zeros
        invariant
            k <= zeros,
            msg@ == rest + seq![0x80u8] + Seq::new(k as nat, |i: int| 0u8),
        decreases zeros - k,
    {
        msg.push(0);
        k = k + 1;
        assert(msg@ =~= rest + seq![0x80u8] + Seq::new(k as nat, |i: int| 0u8));
    }
    let bits: u128 = (len as u128 * 8) % 0x1_0000_0000_0000_0000;
    push_le32(&mut msg, (bits % 0x1_0000_0000) as u32);
    push_le32(&mut msg, (bits / 0x1_0000_0000) as u32);
    assert(msg@ =~= data@.skip(from as int) + padding(len as int));
    msg
}

fn finish(w: Words) -> (res: String)
    ensures
        res@ == hex_below(digest_bytes(w), 16),
{
    let mut raw: Vec<u8> = Vec::new();
    push_le32(&mut raw, w.a);
    push_le32(&mut raw, w.b);
    push_le32(&mut raw, w.c);
    push_le32(&mut raw, w.d);
    assert(raw@ =~= digest_bytes(w));
    let mut out = String::new();
    let mut i: usize = 0;
    while i < 16
        invariant
            i <= 16,
            raw@ == digest_bytes(w),
            raw@.len() == 16,
            out@ == hex_below(raw@, i as int),
        decreases 16 - i,
    {
        push_char(&mut out, lower_digit(raw[i] as u32 / 16));
        push_char(&mut out, lower_digit(raw[i] as u32 % 16));
        i = i + 1;
        assert(out@ =~= hex_below(raw@, i as int));
    }
    out
}

pub fn hex(data: &[u8]) -> (res: String)
    ensures
        res@ == hex_digest(data@),
{
    let len: usize = data.len();
    let full: usize = len / 64;
    let ghost message = data@ + padding(data@.len() as int);
    let mut w: Words = Words { a: 0x67452301, b: 0xefcdab89, c: 0x98badcfe, d: 0x10325476 };
    let mut i: usize = 0;
    while i < full
        invariant
            i <= full,
            len == data@.len(),
            full == len / 64,
            message == data@ + padding(data@.len() as int),
            w == blocks(initial(), message, i as int),
        decreases full - i,
    {
        assert(64 * (i + 1) <= len);
        assert(message.subrange(64 * i, 64 * (i + 1)) =~= data@.subrange(64 * i, 64 * i + 64));
        w = process(w, data, 64 * i);
        i = i + 1;
    }
    let tail = tail_of(data, 64 * full);
    let ghost total = message.len() as int / 64;
    let count: usize = tail.len() / 64;
    assert(tail@ =~= message.skip(64 * full));
    proof {
        law_padding_fills_whole_blocks(len as int);
    }
    assert(total == full + count);
    let mut k: usize = 0;
    while k < count
        invariant
            k <= count,
            count == tail@.len() / 64,
            tail@ == message.skip(64 * full),
            64 * full <= message.len(),
            tail@.len() <= usize::MAX,
            w == blocks(initial(), message, full + k),
        decreases count - k,
    {
        assert(64 * (k + 1) <= tail@.len());
        assert(message.subrange(64 * (full + k), 64 * (full + k + 1)) =~= tail@.subrange(
            64 * k,
            64 * k + 64,
        ));
        w = process(w, tail.as_slice(), 64 * k);
        k = k + 1;
    }
    finish(w)
}

// ---------------------------------------------------------------------------
// Laws
// ---------------------------------------------------------------------------

proof fn lemma_hex_below_len(b: Seq<u8>, n: int)
    requires
        0 <= n,
    ensures
        hex_below(b, n).len() == 2 * n,
    decreases n,
{
    if n > 0 {
        lemma_hex_below_len(b, n - 1);
    }
}

proof fn lemma_hex_below_digits(b: Seq<u8>, n: int)
    ensures
        forall|i: int|
            0 <= i < hex_below(b, n).len() ==> ('0' <= #[trigger] hex_below(b, n)[i] <= '9' || 'a'
                <= hex_below(b, n)[i] <= 'f'),
    decreases n,
{
    if n > 0 {
        lemma_hex_below_digits(b, n - 1);
        let before = hex_below(b, n - 1);
        let all = hex_below(b, n);
        assert forall|i: int| 0 <= i < all.len() implies ('0' <= #[trigger] all[i] <= '9' || 'a'
            <= all[i] <= 'f') by {
            if i < before.len() {
                assert(all[i] == before[i]);
            } else {
                assert(all[i] == byte_lower(b[n - 1])[i - before.len()]);
            }
        }
    }
}

/// A digest is always 32 lower-case hexadecimal digits.
pub proof fn law_digests_are_32_hex_digits(data: Seq<u8>)
    ensures
        hex_digest(data).len() == 32,
        forall|i: int|
            0 <= i < 32 ==> ('0' <= #[trigger] hex_digest(data)[i] <= '9' || 'a' <= hex_digest(
                data,
            )[i] <= 'f'),
{
    lemma_hex_below_len(digest_bytes(digest(data)), 16);
    lemma_hex_below_digits(digest_bytes(digest(data)), 16);
}

/// The padded message is a whole number of blocks, at most one more than the data
/// reaches into.
pub proof fn law_padding_fills_whole_blocks(len: int)
    requires
        0 <= len,
    ensures
        (len + padding(len).len()) % 64 == 0,
        9 <= padding(len).len() <= 72,
{
    reveal(padding);
}

} // verus!
