//! The container parser: validates the header, walks the chunk directory,
//! scopes a cursor to each chunk's declared length and dispatches it by tag,
//! driving a consumer's callbacks. Unrecognized tags are skipped; every
//! callback result is checked before the parse goes on.

use vstd::prelude::*;

use crate::bytes::le32;
use crate::decoder::Decoder;
use crate::error::Error;
use crate::isgn::IOsgnChunk;
use crate::rdef::RdefChunk;
use crate::shex::{ShexHeader, SparseInstruction};
use crate::stat::IStatChunk;

verus! {

/// How a parse ended.
#[derive(Debug)]
pub enum State {
    /// Parsing completed.
    Complete,
    /// The consumer requested a stop; not a failure.
    ConsumerStopRequested,
    /// The consumer aborted with the given value.
    ConsumerError(Box<Error>),
    /// The buffer does not begin with the container magic.
    HeaderIncorrect,
    /// A recognized chunk was malformed.
    ChunkIncorrect,
    /// A read failed while decoding.
    DecoderError(Error),
}

/// A consumer's answer to one callback.
pub enum Action {
    Continue,
    Stop,
    Error(Box<Error>),
}

/// The callbacks a parse drives. Each chunk kind is announced once, in
/// stream order; instructions are announced one at a time with their offset
/// from the start of the instruction stream. Every method defaults to
/// `Continue`, so overriding is opt-in per chunk kind.
pub trait Consumer {
    fn initialize(&mut self) -> Action;

    fn finalize(&mut self) -> Action;

    fn consume_header(&mut self, header: &DxbcHeader) -> Action {
        Action::Continue
    }

    fn consume_rdef(&mut self, rdef: &RdefChunk<'_>) -> Action {
        Action::Continue
    }

    fn consume_isgn(&mut self, isgn: &IOsgnChunk) -> Action {
        Action::Continue
    }

    fn consume_osgn(&mut self, osgn: &IOsgnChunk) -> Action {
        Action::Continue
    }

    fn consume_shex(&mut self, shex: &ShexHeader) -> Action {
        Action::Continue
    }

    fn consume_stat(&mut self, stat: &IStatChunk) -> Action {
        Action::Continue
    }

    fn consume_instruction(&mut self, offset: u32, instruction: SparseInstruction) -> Action {
        Action::Continue
    }
}

/// Maps a callback answer to control flow: `Continue` proceeds, `Stop`
/// aborts with the non-failure outcome, and the consumer's error value is
/// propagated unchanged.
fn try_consume(action: Action) -> (r: Result<(), State>)
    ensures
        match r {
            Ok(()) => action is Continue,
            Err(s) => match action {
                Action::Continue => false,
                Action::Stop => s is ConsumerStopRequested,
                Action::Error(e) => s matches State::ConsumerError(e2) && e2 == e,
            },
        },
{
    match action {
        Action::Continue => Ok(()),
        Action::Stop => Err(State::ConsumerStopRequested),
        Action::Error(err) => Err(State::ConsumerError(err)),
    }
}

/// The fixed container header.
#[derive(Debug, Clone, Copy, PartialEq, Eq)]
pub struct DxbcHeader {
    pub magic: [u8; 4],
    pub checksum: [u32; 4],
    pub reserved: u32,
    pub size: u32,
    pub chunk_count: u32,
}

/// The four magic bytes spelling "DXBC".
pub open spec fn magic_ok(d: Seq<u8>) -> bool {
    &&& d.len() >= 4
    &&& d[0] == 0x44u8
    &&& d[1] == 0x58u8
    &&& d[2] == 0x42u8
    &&& d[3] == 0x43u8
}

/// The header record at the start of `d`.
pub open spec fn header_at(d: Seq<u8>, h: DxbcHeader) -> bool {
    &&& d.len() >= 32
    &&& h.magic@ == d.subrange(0, 4)
    &&& h.checksum@ == Seq::new(4, |i: int| le32(d, 4 + 4 * i))
    &&& h.reserved == le32(d, 20)
    &&& h.size == le32(d, 24)
    &&& h.chunk_count == le32(d, 28)
}

/// The buffer opens with a well-formed header: 32 bytes and the magic.
pub open spec fn header_ok(d: Seq<u8>) -> bool {
    d.len() >= 32 && magic_ok(d)
}

/// One pass over a container buffer.
pub struct Parser<'d> {
    decoder: Decoder<'d>,
}

impl<'d> Parser<'d> {
    /// The buffer this parser walks.
    pub closed spec fn data(&self) -> Seq<u8> {
        self.decoder.data()
    }

    pub fn new(binary: &'d [u8]) -> (r: Self)
        ensures
            r.data() == binary@,
            r.decoder_off() == 0,
    {
        Parser { decoder: Decoder::new(binary) }
    }

    /// Reads and validates the fixed header at the start of the buffer.
    fn parse_header(&mut self) -> (r: Result<DxbcHeader, State>)
        requires
            old(self).decoder_off() == 0,
        ensures
            final(self).data() == old(self).data(),
            match r {
                Ok(h) => {
                    &&& header_ok(old(self).data())
                    &&& header_at(old(self).data(), h)
                    &&& final(self).decoder_off() == 32
                },
                Err(s) => {
                    &&& (s is HeaderIncorrect || s is DecoderError)
                    &&& s is HeaderIncorrect ==> !magic_ok(old(self).data())
                    &&& s is DecoderError ==> old(self).data().len() < 32
                    &&& !header_ok(old(self).data())
                },
            },
    {
        let ghost d = self.decoder.data();
        let m0 = match self.decoder.read_u8() {
            Ok(b) => b,
            Err(e) => {
                return Err(State::DecoderError(e));
            },
        };
        let m1 = match self.decoder.read_u8() {
            Ok(b) => b,
            Err(e) => {
                return Err(State::DecoderError(e));
            },
        };
        let m2 = match self.decoder.read_u8() {
            Ok(b) => b,
            Err(e) => {
                return Err(State::DecoderError(e));
            },
        };
        let m3 = match self.decoder.read_u8() {
            Ok(b) => b,
            Err(e) => {
                return Err(State::DecoderError(e));
            },
        };
        if !(m0 == 0x44 && m1 == 0x58 && m2 == 0x42 && m3 == 0x43) {
            return Err(State::HeaderIncorrect);
        }
        let c0 = match self.decoder.read_u32() {
            Ok(w) => w,
            Err(e) => {
                return Err(State::DecoderError(e));
            },
        };
        let c1 = match self.decoder.read_u32() {
            Ok(w) => w,
            Err(e) => {
                return Err(State::DecoderError(e));
            },
        };
        let c2 = match self.decoder.read_u32() {
            Ok(w) => w,
            Err(e) => {
                return Err(State::DecoderError(e));
            },
        };
        let c3 = match self.decoder.read_u32() {
            Ok(w) => w,
            Err(e) => {
                return Err(State::DecoderError(e));
            },
        };
        let reserved = match self.decoder.read_u32() {
            Ok(w) => w,
            Err(e) => {
                return Err(State::DecoderError(e));
            },
        };
        let size = match self.decoder.read_u32() {
            Ok(w) => w,
            Err(e) => {
                return Err(State::DecoderError(e));
            },
        };
        let chunk_count = match self.decoder.read_u32() {
            Ok(w) => w,
            Err(e) => {
                return Err(State::DecoderError(e));
            },
        };
        let h = DxbcHeader { magic: [m0, m1, m2, m3], checksum: [c0, c1, c2, c3], reserved, size, chunk_count };
        proof {
            assert(h.magic@ =~= d.subrange(0, 4));
            assert(h.checksum@ =~= Seq::new(4, |i: int| le32(d, 4 + 4 * i)));
        }
        Ok(h)
    }

    /// The read position of the underlying cursor.
    pub closed spec fn decoder_off(&self) -> int {
        self.decoder.off()
    }

    /// Drives one pass: header, chunk directory, one dispatch per directory
    /// entry, callbacks checked after every decoded entity. Succeeds only on
    /// a buffer whose header is well formed; a bad magic is reported as
    /// `HeaderIncorrect`, a malformed recognized chunk aborts the parse.
    pub fn parse<C: Consumer>(&mut self, consumer: &mut C) -> (r: Result<(), State>)
        requires
            old(self).decoder_off() == 0,
        ensures
            final(self).data() == old(self).data(),
            r is Ok ==> header_ok(old(self).data()),
            r matches Err(s) && s is HeaderIncorrect ==> !magic_ok(old(self).data()),
    {
        let ghost d = self.decoder.data();
        match try_consume(consumer.initialize()) {
            Ok(()) => {},
            Err(s) => {
                return Err(s);
            },
        }

        let header = match self.parse_header() {
            Ok(h) => h,
            Err(s) => {
                return Err(s);
            },
        };
        match try_consume(consumer.consume_header(&header)) {
            Ok(()) => {},
            Err(s) => {
                return Err(s);
            },
        }

        let chunk_offsets = match self.decoder.words(header.chunk_count as usize) {
            Ok(v) => v,
            Err(e) => {
                return Err(State::DecoderError(e));
            },
        };

        let mut ci: usize = 0;
        while ci < chunk_offsets.len()
            invariant
                self.data() == d,
                d == old(self).data(),
                header_ok(d),
            decreases chunk_offsets@.len() - ci,
        {
            let chunk_offset = chunk_offsets[ci];
            self.decoder.seek_mut(chunk_offset as usize);
            let tag = match self.decoder.bytes(4) {
                Ok(t) => t,
                Err(e) => {
                    return Err(State::DecoderError(e));
                },
            };
            let chunk_length = match self.decoder.read_u32() {
                Ok(w) => w,
                Err(e) => {
                    return Err(State::DecoderError(e));
                },
            };
            let mut chunk = match self.decoder.scoped_decoder(chunk_length as usize) {
                Ok(c) => c,
                Err(e) => {
                    return Err(State::DecoderError(e));
                },
            };

            let t0 = tag[0];
            let t1 = tag[1];
            let t2 = tag[2];
            let t3 = tag[3];
            if t0 == 0x52 && t1 == 0x44 && t2 == 0x45 && t3 == 0x46 {
                // "RDEF"
                let rdef = match RdefChunk::parse(&mut chunk) {
                    Ok(c) => c,
                    Err(e) => {
                        return Err(State::DecoderError(e));
                    },
                };
                match try_consume(consumer.consume_rdef(&rdef)) {
                    Ok(()) => {},
                    Err(s) => {
                        return Err(s);
                    },
                }
            } else if t0 == 0x49 && t1 == 0x53 && t2 == 0x47 && t3 == 0x4e {
                // "ISGN"
                let isgn = match IOsgnChunk::parse(&mut chunk) {
                    Ok(c) => c,
                    Err(e) => {
                        return Err(State::DecoderError(e));
                    },
                };
                match try_consume(consumer.consume_isgn(&isgn)) {
                    Ok(()) => {},
                    Err(s) => {
                        return Err(s);
                    },
                }
            } else if t0 == 0x4f && t1 == 0x53 && t2 == 0x47 && t3 == 0x4e {
                // "OSGN"
                let osgn = match IOsgnChunk::parse(&mut chunk) {
                    Ok(c) => c,
                    Err(e) => {
                        return Err(State::DecoderError(e));
                    },
                };
                match try_consume(consumer.consume_osgn(&osgn)) {
                    Ok(()) => {},
                    Err(s) => {
                        return Err(s);
                    },
                }
            } else if t0 == 0x53 && t1 == 0x48 && t2 == 0x45 && t3 == 0x58 {
                // "SHEX"
                let shex = match ShexHeader::parse(&mut chunk) {
                    Ok(h) => h,
                    Err(e) => {
                        return Err(State::DecoderError(e));
                    },
                };
                match try_consume(consumer.consume_shex(&shex)) {
                    Ok(()) => {},
                    Err(s) => {
                        return Err(s);
                    },
                }

                let byte_len64: u64 = (shex.instruction_length as u64) * 4;
                if byte_len64 > (usize::MAX as u64) {
                    return Err(State::ChunkIncorrect);
                }
                let mut stream = match chunk.scoped_decoder(byte_len64 as usize) {
                    Ok(c) => c,
                    Err(e) => {
                        return Err(State::DecoderError(e));
                    },
                };

                while !stream.eof()
                    invariant
                        0 <= stream.off(),
                        self.data() == d,
                        d == old(self).data(),
                        header_ok(d),
                    decreases stream.data().len() - stream.off(),
                {
                    let offset = stream.get_offset();
                    let instruction = match SparseInstruction::parse(&mut stream) {
                        Ok(i) => i,
                        Err(e) => {
                            return Err(State::DecoderError(e));
                        },
                    };
                    let off32: u32 = #[verifier::truncate] (offset as u32);
                    match try_consume(consumer.consume_instruction(off32, instruction)) {
                        Ok(()) => {},
                        Err(s) => {
                            return Err(s);
                        },
                    }
                }
            } else if t0 == 0x53 && t1 == 0x54 && t2 == 0x41 && t3 == 0x54 {
                // "STAT"
                let stat = match IStatChunk::parse(&mut chunk) {
                    Ok(c) => c,
                    Err(e) => {
                        return Err(State::DecoderError(e));
                    },
                };
                match try_consume(consumer.consume_stat(&stat)) {
                    Ok(()) => {},
                    Err(s) => {
                        return Err(s);
                    },
                }
            } else {
                // Unrecognized tags are skipped for forward compatibility.
            }
            ci = ci + 1;
        }

        match try_consume(consumer.finalize()) {
            Ok(()) => {},
            Err(s) => {
                return Err(s);
            },
        }
        Ok(())
    }
}

} // verus!
