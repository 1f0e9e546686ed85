//! Little-endian views of byte sequences: how the format's fixed-width
//! integers, 32-bit words and null-terminated strings sit in a buffer.

use vstd::prelude::*;

verus! {

/// The 16-bit little-endian integer at offset `i` of `d`.
pub open spec fn le16(d: Seq<u8>, i: int) -> u16
    recommends
        0 <= i,
        i + 2 <= d.len(),
{
    (d[i] as u16) | ((d[i + 1] as u16) << 8)
}

/// The 32-bit little-endian integer at offset `i` of `d`.
pub open spec fn le32(d: Seq<u8>, i: int) -> u32
    recommends
        0 <= i,
        i + 4 <= d.len(),
{
    (d[i] as u32) | ((d[i + 1] as u32) << 8) | ((d[i + 2] as u32) << 16) | ((d[i + 3] as u32)
        << 24)
}

/// The 64-bit little-endian integer at offset `i` of `d`.
pub open spec fn le64(d: Seq<u8>, i: int) -> u64
    recommends
        0 <= i,
        i + 8 <= d.len(),
{
    (le32(d, i) as u64) | ((le32(d, i + 4) as u64) << 32)
}

/// Byte `k` (0 = least significant) of the 32-bit word `w`.
pub open spec fn word_byte(w: u32, k: int) -> u8
    recommends
        0 <= k < 4,
{
    ((w >> (8 * k) as u32) & 0xff) as u8
}

/// The little-endian byte image of a word sequence.
pub open spec fn words_to_bytes(w: Seq<u32>) -> Seq<u8> {
    Seq::new(4 * w.len(), |i: int| word_byte(w[i / 4], i % 4))
}

/// Reading a 32-bit little-endian integer out of a word image gives the word back.
pub proof fn lemma_le32_of_words(w: Seq<u32>, j: int)
    requires
        0 <= j < w.len(),
    ensures
        le32(words_to_bytes(w), 4 * j) == w[j],
{
    let d = words_to_bytes(w);
    assert((4 * j) / 4 == j && (4 * j) % 4 == 0) by (nonlinear_arith);
    assert((4 * j + 1) / 4 == j && (4 * j + 1) % 4 == 1) by (nonlinear_arith);
    assert((4 * j + 2) / 4 == j && (4 * j + 2) % 4 == 2) by (nonlinear_arith);
    assert((4 * j + 3) / 4 == j && (4 * j + 3) % 4 == 3) by (nonlinear_arith);
    assert(d[4 * j] == word_byte(w[j], 0));
    assert(d[4 * j + 1] == word_byte(w[j], 1));
    assert(d[4 * j + 2] == word_byte(w[j], 2));
    assert(d[4 * j + 3] == word_byte(w[j], 3));
    let x = w[j];
    assert((((x >> 0u32) & 0xff) as u8 as u32) | ((((x >> 8u32) & 0xff) as u8 as u32) << 8) | ((((x
        >> 16u32) & 0xff) as u8 as u32) << 16) | ((((x >> 24u32) & 0xff) as u8 as u32) << 24)
        == x) by (bit_vector);
}

/// The first offset at or after `i` holding a zero byte, or the end of `d`.
pub open spec fn zero_scan(d: Seq<u8>, i: int) -> int
    recommends
        0 <= i <= d.len(),
    decreases d.len() - i,
{
    if i < 0 || i >= d.len() {
        d.len() as int
    } else if d[i] == 0 {
        i
    } else {
        zero_scan(d, i + 1)
    }
}

/// The null-terminated byte string starting at offset `i` of `d`
/// (without the terminator).
pub open spec fn cstr_at(d: Seq<u8>, i: int) -> Seq<u8>
    recommends
        0 <= i <= d.len(),
{
    d.subrange(i, zero_scan(d, i))
}

pub proof fn lemma_zero_scan_bounds(d: Seq<u8>, i: int)
    requires
        0 <= i <= d.len(),
    ensures
        i <= zero_scan(d, i) <= d.len(),
        zero_scan(d, i) < d.len() ==> d[zero_scan(d, i)] == 0,
        forall|j: int| i <= j < zero_scan(d, i) ==> d[j] != 0,
    decreases d.len() - i,
{
    if i < d.len() && d[i] != 0 {
        lemma_zero_scan_bounds(d, i + 1);
    }
}

/// A zero byte at `z`, with none earlier in `[i, z)`, pins the scan result.
pub proof fn lemma_zero_scan_exact(d: Seq<u8>, i: int, z: int)
    requires
        0 <= i <= z <= d.len(),
        z < d.len() ==> d[z] == 0,
        z == d.len() || d[z] == 0,
        forall|j: int| i <= j < z ==> d[j] != 0,
    ensures
        z == d.len() || zero_scan(d, i) == z,
        z < d.len() ==> zero_scan(d, i) == z,
    decreases z - i,
{
    if i < z {
        lemma_zero_scan_exact(d, i + 1, z);
    }
}

/// `k` zero bytes.
pub open spec fn zero_bytes(k: int) -> Seq<u8> {
    Seq::new(k as nat, |i: int| 0u8)
}

/// The byte image of concatenated words is the concatenation of the byte
/// images.
pub proof fn lemma_words_to_bytes_concat(a: Seq<u32>, b: Seq<u32>)
    ensures
        words_to_bytes(a + b) == words_to_bytes(a) + words_to_bytes(b),
{
    let lhs = words_to_bytes(a + b);
    let rhs = words_to_bytes(a) + words_to_bytes(b);
    assert(lhs.len() == rhs.len());
    assert forall|j: int| 0 <= j < lhs.len() implies lhs[j] == rhs[j] by {
        if j < 4 * a.len() {
            assert(j / 4 < a.len() && 0 <= j / 4) by (nonlinear_arith)
                requires 0 <= j < 4 * a.len();
            assert((a + b)[j / 4] == a[j / 4]);
        } else {
            let i = j - 4 * a.len();
            assert(a.len() + i / 4 == j / 4 && i % 4 == j % 4 && 0 <= i / 4 < b.len())
                by (nonlinear_arith)
                requires 0 <= i && j == i + 4 * a.len() && j < 4 * a.len() + 4 * b.len();
            assert((a + b)[j / 4] == b[i / 4]);
            assert(rhs[j] == words_to_bytes(b)[i]);
        }
    }
    assert(lhs =~= rhs);
}

/// The byte image of one word is its four little-endian bytes.
pub proof fn lemma_words_to_bytes_one(w: u32)
    ensures
        words_to_bytes(seq![w]) == seq![word_byte(w, 0), word_byte(w, 1), word_byte(w, 2), word_byte(w, 3)],
{
    assert(words_to_bytes(seq![w]) =~= seq![
        word_byte(w, 0),
        word_byte(w, 1),
        word_byte(w, 2),
        word_byte(w, 3),
    ]);
}

} // verus!
