//! How a message is cut up for its digest.

use crate::bytes;
use crate::md5;
use crate::md5::Words;
use vstd::prelude::*;

verus! {

/// The number that four bytes of `s` from `at` on denote, the lowest first.
pub open spec fn number(s: Seq<u8>, at: int) -> int {
    s[at] + 256 * (s[at + 1] + 256 * (s[at + 2] + 256 * s[at + 3]))
}

/// The padding is one set bit, then clear ones, and in its last eight bytes the length of
/// the data in bits, however long the data is.
pub proof fn law_the_padding_ends_in_the_length(len: int)
    requires
        0 <= len < 0x2000_0000_0000_0000,
    ensures
        ({
            let p = md5::padding(len);
            let n = p.len();
            &&& n >= 9
            &&& p[0] == 0x80
            &&& forall|i: int| 0 < i < n - 8 ==> #[trigger] p[i] == 0
            &&& number(p, n - 8) + 0x1_0000_0000 * number(p, n - 4) == 8 * len
        }),
{
    let bits = (len * 8) % 0x1_0000_0000_0000_0000;
    reveal(md5::padding);
    lemma_halves(len);
    let k = (119 - len % 64) % 64;
    let low = bytes::le32(bits % 0x1_0000_0000);
    let high = bytes::le32(bits / 0x1_0000_0000);
    lemma_number(bits % 0x1_0000_0000);
    lemma_number(bits / 0x1_0000_0000);
    let p = md5::padding(len);
    let clear = p.subrange(1, 1 + k);
    assert(p.len() == 1 + k + 8);
    assert(p.skip(1 + k) =~= low + high);
    lemma_cut(p, k, low, high);
    lemma_parts(clear, low, high);
}

/// A sequence is its first byte, what is clear, and two numbers.
proof fn lemma_cut(p: Seq<u8>, k: int, low: Seq<u8>, high: Seq<u8>)
    requires
        0 <= k,
        low.len() == 4,
        high.len() == 4,
        p.len() == k + 9,
        p[0] == 0x80,
        p.skip(1 + k) == low + high,
    ensures
        p == seq![0x80u8] + p.subrange(1, 1 + k) + low + high,
{
    let all = seq![0x80u8] + p.subrange(1, 1 + k) + low + high;
    assert forall|i: int| 0 <= i < p.len() implies #[trigger] p[i] == all[i] by {
        if i >= 1 + k {
            assert(p.skip(1 + k)[i - 1 - k] == p[i]);
        }
    }
    assert(p =~= all);
}

proof fn lemma_halves(len: int)
    requires
        0 <= len < 0x2000_0000_0000_0000,
    ensures
        ({
            let bits = (len * 8) % 0x1_0000_0000_0000_0000;
            &&& 0 <= bits % 0x1_0000_0000 < 0x1_0000_0000
            &&& 0 <= bits / 0x1_0000_0000 < 0x1_0000_0000
            &&& bits % 0x1_0000_0000 + 0x1_0000_0000 * (bits / 0x1_0000_0000) == 8 * len
        }),
{
}

proof fn lemma_number(v: int)
    requires
        0 <= v < 0x1_0000_0000,
    ensures
        bytes::le32(v).len() == 4,
        number(bytes::le32(v), 0) == v,
{
    let le = bytes::le32(v);
    bytes::law_le32_reads_back(v);
    assert(bytes::quad(le[0], le[1], le[2], le[3]) == v);
}

proof fn lemma_parts(clear: Seq<u8>, a: Seq<u8>, b: Seq<u8>)
    requires
        forall|i: int| 0 <= i < clear.len() ==> #[trigger] clear[i] == 0,
        a.len() == 4,
        b.len() == 4,
    ensures
        ({
            let p = seq![0x80u8] + clear + a + b;
            let n = p.len();
            &&& n == clear.len() + 9
            &&& p[0] == 0x80
            &&& forall|i: int| 0 < i < n - 8 ==> #[trigger] p[i] == 0
            &&& number(p, n - 8) == number(a, 0)
            &&& number(p, n - 4) == number(b, 0)
        }),
{
    let p = seq![0x80u8] + clear + a + b;
    let n = p.len() as int;
    assert(p[n - 8] == a[0] && p[n - 7] == a[1] && p[n - 6] == a[2] && p[n - 5] == a[3]);
    assert(p[n - 4] == b[0] && p[n - 3] == b[1] && p[n - 2] == b[2] && p[n - 1] == b[3]);
}

/// Every block counts, in order: the words after a message are those after its end, begun
/// with the words after its beginning.
pub proof fn law_blocks_are_chained(w: Words, a: Seq<u8>, na: int, b: Seq<u8>, nb: int)
    requires
        0 <= na,
        0 <= nb,
        a.len() == 64 * na,
        b.len() == 64 * nb,
    ensures
        md5::blocks(w, a + b, na + nb) == md5::blocks(md5::blocks(w, a, na), b, nb),
    decreases nb,
{
    if nb > 0 {
        let shorter = b.take(64 * (nb - 1));
        law_blocks_are_chained(w, a, na, shorter, nb - 1);
        lemma_same_start(w, a + b, a + shorter, na + nb - 1);
        lemma_same_start(md5::blocks(w, a, na), b, shorter, nb - 1);
        assert((a + b).subrange(64 * (na + nb - 1), 64 * (na + nb)) =~= b.subrange(
            64 * (nb - 1),
            64 * nb,
        ));
    } else {
        lemma_same_start(w, a + b, a, na);
    }
}

/// Only the blocks that are taken count.
proof fn lemma_same_start(w: Words, a: Seq<u8>, b: Seq<u8>, n: int)
    requires
        0 <= n,
        64 * n <= a.len(),
        64 * n <= b.len(),
        forall|i: int| 0 <= i < 64 * n ==> #[trigger] a[i] == b[i],
    ensures
        md5::blocks(w, a, n) == md5::blocks(w, b, n),
    decreases n,
{
    if n > 0 {
        lemma_same_start(w, a, b, n - 1);
        assert(a.subrange(64 * (n - 1), 64 * n) =~= b.subrange(64 * (n - 1), 64 * n));
    }
}

} // verus!
