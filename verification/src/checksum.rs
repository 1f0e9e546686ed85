//! The container checksum: an MD5 variant computed over every byte from
//! offset 0x14 on (everything after the magic and the checksum words).
//! It deviates from standard MD5 in its trailer: the bit length is written
//! as one 32-bit word into a fixed slot of the final block, and the low bit
//! of the last word of that block is set as a tag, instead of the standard
//! 8-byte little-endian length trailer.

use vstd::prelude::*;

use crate::bytes::{le32, word_byte};

verus! {

pub open spec fn wadd(a: u32, b: u32) -> u32 {
    a.wrapping_add(b)
}

pub open spec fn rotl(x: u32, s: u32) -> u32
    recommends
        1 <= s <= 31,
{
    (x << s) | (x >> ((32 - s) as u32))
}

/// The round constants of MD5, in step order.
pub open spec fn md5_k(i: int) -> u32
    recommends
        0 <= i < 64,
{
    seq![
        0xd76aa478u32, 0xe8c7b756, 0x242070db, 0xc1bdceee, 0xf57c0faf, 0x4787c62a, 0xa8304613,
        0xfd469501, 0x698098d8, 0x8b44f7af, 0xffff5bb1, 0x895cd7be, 0x6b901122, 0xfd987193,
        0xa679438e, 0x49b40821, 0xf61e2562, 0xc040b340, 0x265e5a51, 0xe9b6c7aa, 0xd62f105d,
        0x02441453, 0xd8a1e681, 0xe7d3fbc8, 0x21e1cde6, 0xc33707d6, 0xf4d50d87, 0x455a14ed,
        0xa9e3e905, 0xfcefa3f8, 0x676f02d9, 0x8d2a4c8a, 0xfffa3942, 0x8771f681, 0x6d9d6122,
        0xfde5380c, 0xa4beea44, 0x4bdecfa9, 0xf6bb4b60, 0xbebfbc70, 0x289b7ec6, 0xeaa127fa,
        0xd4ef3085, 0x04881d05, 0xd9d4d039, 0xe6db99e5, 0x1fa27cf8, 0xc4ac5665, 0xf4292244,
        0x432aff97, 0xab9423a7, 0xfc93a039, 0x655b59c3, 0x8f0ccc92, 0xffeff47d, 0x85845dd1,
        0x6fa87e4f, 0xfe2ce6e0, 0xa3014314, 0x4e0811a1, 0xf7537e82, 0xbd3af235, 0x2ad7d2bb,
        0xeb86d391,
    ][i]
}

/// The per-step rotation amounts of MD5.
pub open spec fn md5_s(i: int) -> u32
    recommends
        0 <= i < 64,
{
    let j = i % 4;
    if i < 16 {
        if j == 0 { 7 } else if j == 1 { 12 } else if j == 2 { 17 } else { 22 }
    } else if i < 32 {
        if j == 0 { 5 } else if j == 1 { 9 } else if j == 2 { 14 } else { 20 }
    } else if i < 48 {
        if j == 0 { 4 } else if j == 1 { 11 } else if j == 2 { 16 } else { 23 }
    } else {
        if j == 0 { 6 } else if j == 1 { 10 } else if j == 2 { 15 } else { 21 }
    }
}

/// The message-word index used at step `i`.
pub open spec fn md5_g(i: int) -> int
    recommends
        0 <= i < 64,
{
    if i < 16 {
        i
    } else if i < 32 {
        (5 * i + 1) % 16
    } else if i < 48 {
        (3 * i + 5) % 16
    } else {
        (7 * i) % 16
    }
}

/// The nonlinear mixing function used at step `i`.
pub open spec fn md5_f(i: int, b: u32, c: u32, d: u32) -> u32 {
    if i < 16 {
        (b & c) | (!b & d)
    } else if i < 32 {
        (d & b) | (!d & c)
    } else if i < 48 {
        b ^ c ^ d
    } else {
        c ^ (b | !d)
    }
}

/// One MD5 step: mixes word `md5_g(i)` of `x` into the rotating state.
pub open spec fn md5_state_step(st: (u32, u32, u32, u32), x: Seq<u32>, i: int) -> (
    u32,
    u32,
    u32,
    u32,
)
    recommends
        0 <= i < 64,
        x.len() == 16,
{
    let t = wadd(
        st.1,
        rotl(wadd(wadd(wadd(st.0, md5_f(i, st.1, st.2, st.3)), x[md5_g(i)]), md5_k(i)), md5_s(i)),
    );
    (st.3, t, st.1, st.2)
}

/// The state after the first `n` MD5 steps on block `x`.
pub open spec fn md5_rounds(st: (u32, u32, u32, u32), x: Seq<u32>, n: int) -> (u32, u32, u32, u32)
    decreases n,
{
    if n <= 0 {
        st
    } else {
        md5_state_step(md5_rounds(st, x, n - 1), x, n - 1)
    }
}

/// One MD5 compression: 64 steps, then the feed-forward addition.
pub open spec fn md5_transform(st: (u32, u32, u32, u32), x: Seq<u32>) -> (u32, u32, u32, u32) {
    let e = md5_rounds(st, x, 64);
    (wadd(st.0, e.0), wadd(st.1, e.1), wadd(st.2, e.2), wadd(st.3, e.3))
}

/// The sixteen little-endian words of the 64-byte block at `off` of `d`.
pub open spec fn block_words(d: Seq<u8>, off: int) -> Seq<u32> {
    Seq::new(16, |j: int| le32(d, off + 4 * j))
}

/// The state after compressing the first `n` 64-byte blocks of `d`,
/// starting at `off`.
pub open spec fn md5_blocks(st: (u32, u32, u32, u32), d: Seq<u8>, off: int, n: int) -> (
    u32,
    u32,
    u32,
    u32,
)
    decreases n,
{
    if n <= 0 {
        st
    } else {
        md5_transform(md5_blocks(st, d, off, n - 1), block_words(d, off + 64 * (n - 1)))
    }
}

/// `k` bytes of MD5 padding: one 0x80 marker, then zeros.
pub open spec fn md5_padding(k: int) -> Seq<u8> {
    Seq::new(k as nat, |i: int| if i == 0 { 0x80u8 } else { 0u8 })
}

/// The four little-endian bytes of `w`.
pub open spec fn le32_bytes(w: u32) -> Seq<u8> {
    seq![word_byte(w, 0), word_byte(w, 1), word_byte(w, 2), word_byte(w, 3)]
}

pub open spec fn md5_init() -> (u32, u32, u32, u32) {
    (0x67452301u32, 0xefcdab89u32, 0x98badcfeu32, 0x10325476u32)
}

/// The digest of `data` under the container's trailer rules. Full 64-byte
/// blocks are compressed as in MD5. When the tail is at least 56 bytes it is
/// compressed once with standard padding, and the same block — its first
/// word replaced by the bit length, its last by the tag word — is compressed
/// a second time. A shorter tail shares its final block with the bit-length
/// word written ahead of it, and only the tag word is patched in.
pub open spec fn dxbc_digest(data: Seq<u8>) -> Seq<u32> {
    let n = data.len() as int;
    let full = n - n % 64;
    let st1 = md5_blocks(md5_init(), data, 0, full / 64);
    let bits = ((n * 8) % 0x100000000) as u32;
    let tail = n - full;
    if tail >= 56 {
        let blk = block_words(data.subrange(full, n) + md5_padding(64 - tail), 0);
        let st2 = md5_transform(st1, blk);
        let blk2 = blk.update(0, bits).update(15, (bits >> 2) | 1);
        let st3 = md5_transform(st2, blk2);
        seq![st3.0, st3.1, st3.2, st3.3]
    } else {
        let blk = block_words(
            le32_bytes(bits) + data.subrange(full, n) + md5_padding(60 - tail),
            0,
        ).update(15, (bits >> 2) | 1);
        let st2 = md5_transform(st1, blk);
        seq![st2.0, st2.1, st2.2, st2.3]
    }
}

/// The module checksum: the digest of everything from offset 0x14 on.
pub open spec fn dxbc_checksum(module: Seq<u8>) -> Seq<u32> {
    dxbc_digest(module.skip(0x14))
}

/// The checksum reads nothing before offset 0x14: buffers that agree from
/// there on have equal checksums, whatever stands in their headers.
pub proof fn lemma_checksum_ignores_header(m1: Seq<u8>, m2: Seq<u8>)
    requires
        m1.len() >= 0x14,
        m2.len() >= 0x14,
        m1.skip(0x14) == m2.skip(0x14),
    ensures
        dxbc_checksum(m1) == dxbc_checksum(m2),
{
}

/// `le32` looks through `skip`: reading at `o` of `d.skip(k)` reads at `k + o` of `d`.
proof fn lemma_le32_skip(d: Seq<u8>, k: int, o: int)
    requires
        0 <= k,
        0 <= o,
        k + o + 4 <= d.len(),
    ensures
        le32(d.skip(k), o) == le32(d, k + o),
{
    assert(d.skip(k)[o] == d[k + o]);
    assert(d.skip(k)[o + 1] == d[k + o + 1]);
    assert(d.skip(k)[o + 2] == d[k + o + 2]);
    assert(d.skip(k)[o + 3] == d[k + o + 3]);
}

fn md5_k_exec(i: usize) -> (r: u32)
    requires
        i < 64,
    ensures
        r == md5_k(i as int),
{
    let ks: [u32; 64] = [
        0xd76aa478u32, 0xe8c7b756, 0x242070db, 0xc1bdceee, 0xf57c0faf, 0x4787c62a, 0xa8304613,
        0xfd469501, 0x698098d8, 0x8b44f7af, 0xffff5bb1, 0x895cd7be, 0x6b901122, 0xfd987193,
        0xa679438e, 0x49b40821, 0xf61e2562, 0xc040b340, 0x265e5a51, 0xe9b6c7aa, 0xd62f105d,
        0x02441453, 0xd8a1e681, 0xe7d3fbc8, 0x21e1cde6, 0xc33707d6, 0xf4d50d87, 0x455a14ed,
        0xa9e3e905, 0xfcefa3f8, 0x676f02d9, 0x8d2a4c8a, 0xfffa3942, 0x8771f681, 0x6d9d6122,
        0xfde5380c, 0xa4beea44, 0x4bdecfa9, 0xf6bb4b60, 0xbebfbc70, 0x289b7ec6, 0xeaa127fa,
        0xd4ef3085, 0x04881d05, 0xd9d4d039, 0xe6db99e5, 0x1fa27cf8, 0xc4ac5665, 0xf4292244,
        0x432aff97, 0xab9423a7, 0xfc93a039, 0x655b59c3, 0x8f0ccc92, 0xffeff47d, 0x85845dd1,
        0x6fa87e4f, 0xfe2ce6e0, 0xa3014314, 0x4e0811a1, 0xf7537e82, 0xbd3af235, 0x2ad7d2bb,
        0xeb86d391,
    ];
    ks[i]
}

fn md5_s_exec(i: usize) -> (r: u32)
    requires
        i < 64,
    ensures
        r == md5_s(i as int),
        1 <= r <= 31,
{
    let j = i % 4;
    if i < 16 {
        if j == 0 { 7 } else if j == 1 { 12 } else if j == 2 { 17 } else { 22 }
    } else if i < 32 {
        if j == 0 { 5 } else if j == 1 { 9 } else if j == 2 { 14 } else { 20 }
    } else if i < 48 {
        if j == 0 { 4 } else if j == 1 { 11 } else if j == 2 { 16 } else { 23 }
    } else {
        if j == 0 { 6 } else if j == 1 { 10 } else if j == 2 { 15 } else { 21 }
    }
}

fn rotl_exec(x: u32, s: u32) -> (r: u32)
    requires
        1 <= s <= 31,
    ensures
        r == rotl(x, s),
{
    (x << s) | (x >> (32 - s))
}

fn md5_transform_exec(st: (u32, u32, u32, u32), x: &Vec<u32>) -> (r: (u32, u32, u32, u32))
    requires
        x@.len() == 16,
    ensures
        r == md5_transform(st, x@),
{
    let mut a = st.0;
    let mut b = st.1;
    let mut c = st.2;
    let mut d = st.3;
    let mut i: usize = 0;
    while i < 64
        invariant
            i <= 64,
            x@.len() == 16,
            (a, b, c, d) == md5_rounds(st, x@, i as int),
        decreases 64 - i,
    {
        let f: u32;
        let g: usize;
        if i < 16 {
            f = (b & c) | (!b & d);
            g = i;
        } else if i < 32 {
            f = (d & b) | (!d & c);
            g = (5 * i + 1) % 16;
        } else if i < 48 {
            f = b ^ c ^ d;
            g = (3 * i + 5) % 16;
        } else {
            f = c ^ (b | !d);
            g = (7 * i) % 16;
        }
        assert(g as int == md5_g(i as int));
        let k = md5_k_exec(i);
        let s = md5_s_exec(i);
        let t = b.wrapping_add(rotl_exec(a.wrapping_add(f).wrapping_add(x[g]).wrapping_add(k), s));
        let na = d;
        let nd = c;
        let nc = b;
        d = nd;
        c = nc;
        b = t;
        a = na;
        i = i + 1;
    }
    (st.0.wrapping_add(a), st.1.wrapping_add(b), st.2.wrapping_add(c), st.3.wrapping_add(d))
}

fn read32_at(d: &[u8], off: usize) -> (r: u32)
    requires
        off + 4 <= d@.len(),
    ensures
        r == le32(d@, off as int),
{
    let b0 = d[off];
    let b1 = d[off + 1];
    let b2 = d[off + 2];
    let b3 = d[off + 3];
    (b0 as u32) | ((b1 as u32) << 8) | ((b2 as u32) << 16) | ((b3 as u32) << 24)
}

/// The sixteen words of the 64-byte block at `off` of `d`.
fn read_block(d: &[u8], off: usize) -> (r: Vec<u32>)
    requires
        off + 64 <= d@.len(),
    ensures
        r@ == block_words(d@, off as int),
{
    let dlen = d.len();
    let mut v: Vec<u32> = Vec::new();
    let mut j: usize = 0;
    while j < 16
        invariant
            j <= 16,
            dlen == d@.len(),
            off + 64 <= dlen,
            v@.len() == j,
            forall|m: int| 0 <= m < j ==> v@[m] == le32(d@, off + 4 * m),
        decreases 16 - j,
    {
        v.push(read32_at(d, off + 4 * j));
        j = j + 1;
    }
    proof {
        assert(v@ =~= block_words(d@, off as int));
    }
    v
}

/// Computes the container checksum of a finished module image.
#[verifier::rlimit(100)]
pub fn checksum(module: &[u8]) -> (r: [u32; 4])
    requires
        0x14 <= module@.len() < 0x100000000,
    ensures
        r@ == dxbc_checksum(module@),
{
    let ghost data = module@.skip(0x14);
    let total = module.len();
    let n = total - 0x14;
    let tail_len = n % 64;
    let full = n - tail_len;
    let nblocks = full / 64;
    proof {
        assert(data.len() == n);
        assert(full == n - n % 64);
        assert(nblocks == full / 64) by (nonlinear_arith)
            requires full == n - n % 64 && nblocks == full / 64;
    }

    let mut st = (0x67452301u32, 0xefcdab89u32, 0x98badcfeu32, 0x10325476u32);
    let mut bi: usize = 0;
    while bi < nblocks
        invariant
            bi <= nblocks,
            full == 64 * nblocks,
            full <= n,
            n == module@.len() - 0x14,
            0x14 <= module@.len() < 0x100000000,
            data == module@.skip(0x14),
            st == md5_blocks(md5_init(), data, 0, bi as int),
        decreases nblocks - bi,
    {
        proof {
            assert(64 * (bi + 1) <= 64 * nblocks) by (nonlinear_arith)
                requires bi + 1 <= nblocks;
        }
        let x = read_block(module, 0x14 + 64 * bi);
        proof {
            assert forall|j: int| 0 <= j < 16 implies #[trigger] x@[j] == block_words(
                data,
                64 * (bi as int),
            )[j] by {
                lemma_le32_skip(module@, 0x14, 64 * (bi as int) + 4 * j);
            }
            assert(x@ =~= block_words(data, 64 * (bi as int)));
        }
        st = md5_transform_exec(st, &x);
        bi = bi + 1;
    }

    let prod: u64 = (n as u64) * 8;
    let bits: u32 = (prod & 0xffffffff) as u32;
    proof {
        let p = prod;
        assert(p & 0xffffffffu64 == p % 0x100000000) by (bit_vector);
        assert(bits == ((n * 8) % 0x100000000) as u32);
    }

    // Assemble the final block's bytes.
    let mut buf: Vec<u8> = Vec::new();
    if tail_len >= 56 {
        // The tail with standard padding, compressed as-is ...
        let mut i: usize = 0;
        while i < tail_len
            invariant
                i <= tail_len,
                full + tail_len == n,
                n == module@.len() - 0x14,
                n + 0x14 <= usize::MAX,
                data == module@.skip(0x14),
                buf@ =~= data.subrange(full as int, full + i),
            decreases tail_len - i,
        {
            buf.push(module[0x14 + full + i]);
            proof {
                assert(module@[0x14 + full + i] == data[full + i]);
            }
            i = i + 1;
        }
        buf.push(0x80);
        while buf.len() < 64
            invariant
                tail_len < 64,
                full + tail_len == n,
                tail_len as int + 1 <= buf@.len() <= 64,
                data == module@.skip(0x14),
                buf@ =~= data.subrange(full as int, n as int) + md5_padding(
                    buf@.len() - tail_len as int,
                ),
            decreases 64 - buf.len(),
        {
            buf.push(0);
        }
        proof {
            assert(buf@ =~= data.subrange(full as int, n as int) + md5_padding(64 - tail_len));
        }
        let x = read_block(buf.as_slice(), 0);
        st = md5_transform_exec(st, &x);
        // ... then again with the bit length and the tag word patched in.
        let mut x2 = x;
        x2.set(0, bits);
        x2.set(15, (bits >> 2) | 1);
        st = md5_transform_exec(st, &x2);
        [st.0, st.1, st.2, st.3]
    } else {
        // One final block: bit length, tail, padding, patched tag word.
        buf.push((bits & 0xff) as u8);
        buf.push(((bits >> 8) & 0xff) as u8);
        buf.push(((bits >> 16) & 0xff) as u8);
        buf.push(((bits >> 24) & 0xff) as u8);
        proof {
            let w = bits;
            assert(w >> 0u32 == w) by (bit_vector);
            assert(buf@ =~= le32_bytes(bits));
        }
        let mut i: usize = 0;
        while i < tail_len
            invariant
                i <= tail_len,
                full + tail_len == n,
                n == module@.len() - 0x14,
                n + 0x14 <= usize::MAX,
                data == module@.skip(0x14),
                buf@ =~= le32_bytes(bits) + data.subrange(full as int, full + i),
            decreases tail_len - i,
        {
            buf.push(module[0x14 + full + i]);
            proof {
                assert(module@[0x14 + full + i] == data[full + i]);
            }
            i = i + 1;
        }
        buf.push(0x80);
        while buf.len() < 64
            invariant
                tail_len < 56,
                full + tail_len == n,
                tail_len as int + 5 <= buf@.len() <= 64,
                data == module@.skip(0x14),
                buf@ =~= le32_bytes(bits) + data.subrange(full as int, n as int) + md5_padding(
                    buf@.len() - tail_len as int - 4,
                ),
            decreases 64 - buf.len(),
        {
            buf.push(0);
        }
        proof {
            assert(buf@ =~= le32_bytes(bits) + data.subrange(full as int, n as int) + md5_padding(
                60 - tail_len,
            ));
        }
        let x = read_block(buf.as_slice(), 0);
        let mut x2 = x;
        x2.set(15, (bits >> 2) | 1);
        st = md5_transform_exec(st, &x2);
        [st.0, st.1, st.2, st.3]
    }
}

} // verus!
