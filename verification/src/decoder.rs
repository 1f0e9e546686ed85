//! Sequential, offset-tracked little-endian reader over an immutable byte
//! buffer. Every read is bounds-checked: a read that would pass the end of
//! the buffer fails with `Error::StreamExpected` and leaves the cursor where
//! it was, so a cursor scoped to a declared length can never yield bytes
//! from outside that region.

use vstd::prelude::*;
use vstd::slice::slice_subrange;

use crate::bytes::{cstr_at, le16, le32, le64, zero_scan};
use crate::bytes::lemma_zero_scan_bounds;
use crate::error::Error;
use vstd::utf8::{decode_utf8, valid_utf8};
use vstd::string::StringSliceAdditionalSpecFns;

verus! {

pub struct Decoder<'a> {
    bytes: &'a [u8],
    offset: usize,
}

impl<'a> Decoder<'a> {
    /// The whole buffer this cursor reads from.
    pub closed spec fn data(&self) -> Seq<u8> {
        self.bytes@
    }

    /// The current read position.
    pub closed spec fn off(&self) -> int {
        self.offset as int
    }

    pub fn new(bytes: &'a [u8]) -> (r: Self)
        ensures
            r.data() == bytes@,
            r.off() == 0,
    {
        Decoder { bytes, offset: 0 }
    }

    /// Replace the read position.
    pub fn seek_mut(&mut self, offset: usize)
        ensures
            0 <= old(self).off(),
            final(self).data() == old(self).data(),
            final(self).off() == offset as int,
    {
        self.offset = offset;
    }

    /// An independent cursor over the same buffer at a different position.
    pub fn seek(&self, offset: usize) -> (r: Self)
        ensures
            r.data() == self.data(),
            r.off() == offset as int,
    {
        Decoder { bytes: self.bytes, offset }
    }

    pub fn eof(&self) -> (r: bool)
        ensures
            0 <= self.off(),
            r == (self.off() >= self.data().len()),
    {
        self.offset >= self.bytes.len()
    }

    pub fn get_offset(&self) -> (r: usize)
        ensures
            0 <= self.off(),
            r as int == self.off(),
    {
        self.offset
    }

    /// A cursor bounding all reads to the `len` bytes at the current
    /// position. Fails with `LimitReached` when fewer bytes remain.
    pub fn scoped_decoder(&self, len: usize) -> (r: Result<Decoder<'a>, Error>)
        ensures
            0 <= self.off(),
            match r {
                Ok(d) => {
                    &&& 0 <= self.off()
                    &&& self.off() + len <= self.data().len()
                    &&& d.data() == self.data().subrange(self.off(), self.off() + len)
                    &&& d.off() == 0
                },
                Err(e) => {
                    &&& self.off() + len > self.data().len()
                    &&& e matches Error::LimitReached(o) && o as int == self.off()
                },
            },
    {
        let n = self.bytes.len();
        if self.offset <= n && len <= n - self.offset {
            Ok(Decoder { bytes: slice_subrange(self.bytes, self.offset, self.offset + len), offset: 0 })
        } else {
            Err(Error::LimitReached(self.offset))
        }
    }

    /// Advance past `n` bytes without reading them.
    pub fn skip(&mut self, n: usize) -> (r: Result<(), Error>)
        ensures
            0 <= old(self).off(),
            final(self).data() == old(self).data(),
            match r {
                Ok(()) => {
                    &&& old(self).off() + n <= old(self).data().len()
                    &&& final(self).off() == old(self).off() + n
                },
                Err(e) => {
                    &&& old(self).off() + n > old(self).data().len()
                    &&& final(self).off() == old(self).off()
                    &&& e matches Error::StreamExpected(o) && o as int == old(self).off()
                },
            },
    {
        let m = self.bytes.len();
        if self.offset <= m && n <= m - self.offset {
            self.offset = self.offset + n;
            Ok(())
        } else {
            Err(Error::StreamExpected(self.offset))
        }
    }

    /// The raw `n` bytes at the current position.
    pub fn bytes(&mut self, n: usize) -> (r: Result<&'a [u8], Error>)
        ensures
            0 <= old(self).off(),
            final(self).data() == old(self).data(),
            match r {
                Ok(s) => {
                    &&& old(self).off() + n <= old(self).data().len()
                    &&& s@ == old(self).data().subrange(old(self).off(), old(self).off() + n)
                    &&& final(self).off() == old(self).off() + n
                },
                Err(e) => {
                    &&& old(self).off() + n > old(self).data().len()
                    &&& final(self).off() == old(self).off()
                    &&& e matches Error::StreamExpected(o) && o as int == old(self).off()
                },
            },
    {
        let m = self.bytes.len();
        if self.offset <= m && n <= m - self.offset {
            let s = slice_subrange(self.bytes, self.offset, self.offset + n);
            self.offset = self.offset + n;
            Ok(s)
        } else {
            Err(Error::StreamExpected(self.offset))
        }
    }

    pub fn read_u8(&mut self) -> (r: Result<u8, Error>)
        ensures
            0 <= old(self).off(),
            final(self).data() == old(self).data(),
            match r {
                Ok(v) => {
                    &&& old(self).off() + 1 <= old(self).data().len()
                    &&& v == old(self).data()[old(self).off()]
                    &&& final(self).off() == old(self).off() + 1
                },
                Err(e) => {
                    &&& old(self).off() + 1 > old(self).data().len()
                    &&& final(self).off() == old(self).off()
                    &&& e matches Error::StreamExpected(o) && o as int == old(self).off()
                },
            },
    {
        if self.offset < self.bytes.len() {
            let v = self.bytes[self.offset];
            self.offset = self.offset + 1;
            Ok(v)
        } else {
            Err(Error::StreamExpected(self.offset))
        }
    }

    pub fn read_u16(&mut self) -> (r: Result<u16, Error>)
        ensures
            0 <= old(self).off(),
            final(self).data() == old(self).data(),
            match r {
                Ok(v) => {
                    &&& old(self).off() + 2 <= old(self).data().len()
                    &&& v == le16(old(self).data(), old(self).off())
                    &&& final(self).off() == old(self).off() + 2
                },
                Err(e) => {
                    &&& old(self).off() + 2 > old(self).data().len()
                    &&& final(self).off() == old(self).off()
                    &&& e matches Error::StreamExpected(o) && o as int == old(self).off()
                },
            },
    {
        let m = self.bytes.len();
        if self.offset <= m && 2 <= m - self.offset {
            let b0 = self.bytes[self.offset];
            let b1 = self.bytes[self.offset + 1];
            self.offset = self.offset + 2;
            Ok((b0 as u16) | ((b1 as u16) << 8))
        } else {
            Err(Error::StreamExpected(self.offset))
        }
    }

    pub fn read_u32(&mut self) -> (r: Result<u32, Error>)
        ensures
            0 <= old(self).off(),
            final(self).data() == old(self).data(),
            match r {
                Ok(v) => {
                    &&& old(self).off() + 4 <= old(self).data().len()
                    &&& v == le32(old(self).data(), old(self).off())
                    &&& final(self).off() == old(self).off() + 4
                },
                Err(e) => {
                    &&& old(self).off() + 4 > old(self).data().len()
                    &&& final(self).off() == old(self).off()
                    &&& e matches Error::StreamExpected(o) && o as int == old(self).off()
                },
            },
    {
        let m = self.bytes.len();
        if self.offset <= m && 4 <= m - self.offset {
            let b0 = self.bytes[self.offset];
            let b1 = self.bytes[self.offset + 1];
            let b2 = self.bytes[self.offset + 2];
            let b3 = self.bytes[self.offset + 3];
            self.offset = self.offset + 4;
            Ok((b0 as u32) | ((b1 as u32) << 8) | ((b2 as u32) << 16) | ((b3 as u32) << 24))
        } else {
            Err(Error::StreamExpected(self.offset))
        }
    }

    pub fn read_u64(&mut self) -> (r: Result<u64, Error>)
        ensures
            0 <= old(self).off(),
            final(self).data() == old(self).data(),
            match r {
                Ok(v) => {
                    &&& old(self).off() + 8 <= old(self).data().len()
                    &&& v == le64(old(self).data(), old(self).off())
                    &&& final(self).off() == old(self).off() + 8
                },
                Err(e) => {
                    &&& old(self).off() + 8 > old(self).data().len()
                    &&& final(self).off() == old(self).off()
                    &&& e matches Error::StreamExpected(o) && o as int == old(self).off()
                },
            },
    {
        let lo = self.read_u32()?;
        match self.read_u32() {
            Ok(hi) => Ok((lo as u64) | ((hi as u64) << 32)),
            Err(_) => {
                self.offset = self.offset - 4;
                Err(Error::StreamExpected(self.offset))
            },
        }
    }

    /// The `n` little-endian 32-bit words at the current position.
    pub fn words(&mut self, n: usize) -> (r: Result<Vec<u32>, Error>)
        ensures
            0 <= old(self).off(),
            final(self).data() == old(self).data(),
            match r {
                Ok(v) => {
                    &&& old(self).off() + 4 * n <= old(self).data().len()
                    &&& v@.len() == n
                    &&& forall|i: int|
                        0 <= i < n ==> v@[i] == le32(old(self).data(), old(self).off() + 4 * i)
                    &&& final(self).off() == old(self).off() + 4 * n
                },
                Err(e) => {
                    &&& old(self).off() + 4 * n > old(self).data().len()
                    &&& final(self).off() == old(self).off()
                    &&& e matches Error::StreamExpected(o) && o as int == old(self).off()
                },
            },
    {
        let m = self.bytes.len();
        if self.offset <= m && n <= (m - self.offset) / 4 {
            let mut v: Vec<u32> = Vec::new();
            let mut i: usize = 0;
            while i < n
                invariant
                    i <= n,
                    self.data() == old(self).data(),
                    self.off() == old(self).off() + 4 * i,
                    old(self).off() + 4 * n <= old(self).data().len(),
                    v@.len() == i,
                    forall|j: int|
                        0 <= j < i ==> v@[j] == le32(old(self).data(), old(self).off() + 4 * j),
                decreases n - i,
            {
                let w = match self.read_u32() {
                    Ok(w) => w,
                    Err(_) => {
                        proof {
                            assert(false);
                        }
                        0
                    },
                };
                v.push(w);
                i = i + 1;
            }
            Ok(v)
        } else {
            assert(self.off() + 4 * n > self.data().len());
            Err(Error::StreamExpected(self.offset))
        }
    }

    /// The null-terminated byte string at the current position; the cursor
    /// advances past the terminator, or to the end of the buffer when no
    /// terminator exists. Fails only when the position is already past the
    /// end of the buffer.
    pub fn cstr_bytes(&mut self) -> (r: Result<&'a [u8], Error>)
        ensures
            0 <= old(self).off(),
            final(self).data() == old(self).data(),
            match r {
                Ok(s) => {
                    &&& 0 <= old(self).off() <= old(self).data().len()
                    &&& s@ == cstr_at(old(self).data(), old(self).off())
                    &&& {
                        let z = zero_scan(old(self).data(), old(self).off());
                        final(self).off() == if z < old(self).data().len() {
                            z + 1
                        } else {
                            z
                        }
                    }
                },
                Err(e) => {
                    &&& old(self).off() > old(self).data().len()
                    &&& final(self).off() == old(self).off()
                    &&& e matches Error::StreamExpected(o) && o as int == old(self).off()
                },
            },
    {
        let m = self.bytes.len();
        if self.offset > m {
            return Err(Error::StreamExpected(self.offset));
        }
        let ghost d = self.bytes@;
        let ghost start = self.offset as int;
        let mut z: usize = self.offset;
        while z < m && self.bytes[z] != 0
            invariant
                self.offset as int == start,
                0 <= start <= z as int <= m as int,
                m as int == d.len(),
                self.bytes@ == d,
                forall|j: int| start <= j < z as int ==> d[j] != 0,
            decreases m - z,
        {
            z = z + 1;
        }
        proof {
            crate::bytes::lemma_zero_scan_exact(d, start, z as int);
            lemma_zero_scan_bounds(d, start);
            assert(zero_scan(d, start) == z as int);
        }
        let s = slice_subrange(self.bytes, self.offset, z);
        if z < m {
            self.offset = z + 1;
        } else {
            self.offset = z;
        }
        Ok(s)
    }
}

/// Relies on core::str::from_utf8: it returns `Ok` exactly when the bytes
/// are valid UTF-8, and the resulting `str` views those same bytes.
#[verifier::external_body]
fn try_str_from_utf8(bytes: &[u8]) -> (r: Option<&str>)
    ensures
        r is Some <==> valid_utf8(bytes@),
        r matches Some(s) ==> s@ == decode_utf8(bytes@) && s.spec_bytes() == bytes@,
{
    core::str::from_utf8(bytes).ok()
}

impl<'a> Decoder<'a> {
    /// The null-terminated string at the current position, borrowed from the
    /// buffer. The cursor advances past the terminator (or to the end of the
    /// buffer when none exists) whether or not the bytes are valid UTF-8.
    pub fn str(&mut self) -> (r: Result<&'a str, Error>)
        ensures
            0 <= old(self).off(),
            final(self).data() == old(self).data(),
            old(self).off() <= old(self).data().len() ==> {
                let z = zero_scan(old(self).data(), old(self).off());
                final(self).off() == if z < old(self).data().len() {
                    z + 1
                } else {
                    z
                }
            },
            match r {
                Ok(s) => {
                    &&& old(self).off() <= old(self).data().len()
                    &&& valid_utf8(cstr_at(old(self).data(), old(self).off()))
                    &&& s@ == decode_utf8(cstr_at(old(self).data(), old(self).off()))
                    &&& s.spec_bytes() == cstr_at(old(self).data(), old(self).off())
                },
                Err(e) => match e {
                    Error::StreamExpected(o) => old(self).off() > old(self).data().len() && o as int
                        == old(self).off(),
                    Error::DecodeStrFailed(o) => !valid_utf8(
                        cstr_at(old(self).data(), old(self).off()),
                    ) && o as int == old(self).off(),
                    _ => false,
                },
            },
    {
        let start = self.get_offset();
        let bytes = self.cstr_bytes()?;
        match try_str_from_utf8(bytes) {
            Some(s) => Ok(s),
            None => Err(Error::DecodeStrFailed(start)),
        }
    }

    /// As `str`, but returns an owned string.
    pub fn string(&mut self) -> (r: Result<String, Error>)
        ensures
            0 <= old(self).off(),
            final(self).data() == old(self).data(),
            old(self).off() <= old(self).data().len() ==> {
                let z = zero_scan(old(self).data(), old(self).off());
                final(self).off() == if z < old(self).data().len() {
                    z + 1
                } else {
                    z
                }
            },
            match r {
                Ok(s) => {
                    &&& old(self).off() <= old(self).data().len()
                    &&& valid_utf8(cstr_at(old(self).data(), old(self).off()))
                    &&& s@ == decode_utf8(cstr_at(old(self).data(), old(self).off()))
                },
                Err(e) => match e {
                    Error::StreamExpected(o) => old(self).off() > old(self).data().len() && o as int
                        == old(self).off(),
                    Error::DecodeStringFailed(o) => !valid_utf8(
                        cstr_at(old(self).data(), old(self).off()),
                    ) && o as int == old(self).off(),
                    _ => false,
                },
            },
    {
        let start = self.get_offset();
        let bytes = self.cstr_bytes()?;
        match try_str_from_utf8(bytes) {
            Some(s) => Ok(s.to_owned()),
            None => Err(Error::DecodeStringFailed(start)),
        }
    }
}

/// A cursor scoped to a declared length `n` never yields bytes from outside
/// that region: its whole buffer is the `n` bytes at the parent position, so
/// the `k` bytes a successful read returns at scoped position `p` (whose
/// contracts give `p + k <= n`) are exactly the parent bytes from
/// `off + p` on — all inside the scoped window.
pub proof fn lemma_scope_confines_reads(parent: Seq<u8>, off: int, n: int, p: int, k: int)
    requires
        0 <= off,
        0 <= p,
        0 <= k,
        off + n <= parent.len(),
        p + k <= n,
    ensures
        parent.subrange(off, off + n).subrange(p, p + k) == parent.subrange(off + p, off + p + k),
        off <= off + p && off + p + k <= off + n,
{
    assert(parent.subrange(off, off + n).subrange(p, p + k) =~= parent.subrange(
        off + p,
        off + p + k,
    ));
}

} // verus!
