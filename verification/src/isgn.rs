//! The ISGN and OSGN chunks: input and output signatures, one fixed-size
//! element per declared entry, each resolving its name through a
//! chunk-relative offset.

use vstd::prelude::*;
use vstd::utf8::{decode_utf8, valid_utf8};

use crate::bytes::{cstr_at, le32};
use crate::decoder::Decoder;
use crate::error::Error;

verus! {

#[derive(Debug, Clone, Copy, PartialEq, Eq, Structural)]
pub enum RegisterComponentType {
    Unknown,
    Uint32,
    Int32,
    Float32,
}

impl RegisterComponentType {
    pub open spec fn as_word(self) -> u32 {
        match self {
            RegisterComponentType::Unknown => 0,
            RegisterComponentType::Uint32 => 1,
            RegisterComponentType::Int32 => 2,
            RegisterComponentType::Float32 => 3,
        }
    }

    /// The component type for a tag, or nothing outside the known range 0-3.
    pub fn from_word(word: u32) -> (r: Option<RegisterComponentType>)
        ensures
            r is Some <==> word <= 3,
            r matches Some(t) ==> t.as_word() == word,
    {
        match word {
            0 => Some(RegisterComponentType::Unknown),
            1 => Some(RegisterComponentType::Uint32),
            2 => Some(RegisterComponentType::Int32),
            3 => Some(RegisterComponentType::Float32),
            _ => None,
        }
    }
}

#[derive(Debug, Clone, Copy, PartialEq, Eq, Structural)]
pub enum SemanticName {
    Undefined,
    Position,
    ClipDistance,
    CullDistance,
    RenderTargetArrayIndex,
    ViewportArrayIndex,
    VertexId,
    PrimitiveId,
    InstanceId,
    IsFrontFace,
    SampleIndex,
    FinalQuadEdgeTessfactor,
    FinalQuadInsideTessfactor,
    FinalTriEdgeTessfactor,
    FinalTriInsideTessfactor,
    FinalLineDetailTessfactor,
    FinalLineDensityTessfactor,
    Target,
    Depth,
    Coverage,
    DepthGreaterEqual,
    DepthLessEqual,
}

/// The tag values a semantic-name field may hold: a low range for system
/// values and a separate range for render targets and depth outputs.
pub open spec fn semantic_word_known(word: u32) -> bool {
    word <= 16 || (64 <= word <= 68)
}

impl SemanticName {
    pub open spec fn as_word(self) -> u32 {
        match self {
            SemanticName::Undefined => 0,
            SemanticName::Position => 1,
            SemanticName::ClipDistance => 2,
            SemanticName::CullDistance => 3,
            SemanticName::RenderTargetArrayIndex => 4,
            SemanticName::ViewportArrayIndex => 5,
            SemanticName::VertexId => 6,
            SemanticName::PrimitiveId => 7,
            SemanticName::InstanceId => 8,
            SemanticName::IsFrontFace => 9,
            SemanticName::SampleIndex => 10,
            SemanticName::FinalQuadEdgeTessfactor => 11,
            SemanticName::FinalQuadInsideTessfactor => 12,
            SemanticName::FinalTriEdgeTessfactor => 13,
            SemanticName::FinalTriInsideTessfactor => 14,
            SemanticName::FinalLineDetailTessfactor => 15,
            SemanticName::FinalLineDensityTessfactor => 16,
            SemanticName::Target => 64,
            SemanticName::Depth => 65,
            SemanticName::Coverage => 66,
            SemanticName::DepthGreaterEqual => 67,
            SemanticName::DepthLessEqual => 68,
        }
    }

    /// The semantic for a tag, or nothing outside the known ranges.
    pub fn from_word(word: u32) -> (r: Option<SemanticName>)
        ensures
            r is Some <==> semantic_word_known(word),
            r matches Some(t) ==> t.as_word() == word,
    {
        match word {
            0 => Some(SemanticName::Undefined),
            1 => Some(SemanticName::Position),
            2 => Some(SemanticName::ClipDistance),
            3 => Some(SemanticName::CullDistance),
            4 => Some(SemanticName::RenderTargetArrayIndex),
            5 => Some(SemanticName::ViewportArrayIndex),
            6 => Some(SemanticName::VertexId),
            7 => Some(SemanticName::PrimitiveId),
            8 => Some(SemanticName::InstanceId),
            9 => Some(SemanticName::IsFrontFace),
            10 => Some(SemanticName::SampleIndex),
            11 => Some(SemanticName::FinalQuadEdgeTessfactor),
            12 => Some(SemanticName::FinalQuadInsideTessfactor),
            13 => Some(SemanticName::FinalTriEdgeTessfactor),
            14 => Some(SemanticName::FinalTriInsideTessfactor),
            15 => Some(SemanticName::FinalLineDetailTessfactor),
            16 => Some(SemanticName::FinalLineDensityTessfactor),
            64 => Some(SemanticName::Target),
            65 => Some(SemanticName::Depth),
            66 => Some(SemanticName::Coverage),
            67 => Some(SemanticName::DepthGreaterEqual),
            68 => Some(SemanticName::DepthLessEqual),
            _ => None,
        }
    }
}

/// One signature element.
#[derive(Debug, PartialEq)]
pub struct InputOutputElement {
    pub name: String,
    pub semantic_index: u32,
    pub semantic_type: SemanticName,
    pub component_type: RegisterComponentType,
    pub register: u32,
    pub component_mask: u8,
    pub rw_mask: u8,
}

/// The element record at `pos` of `d`: a chunk-relative name offset, four
/// words of tags and register, a mask byte, a read/write-mask byte and two
/// reserved bytes; the name is the null-terminated UTF-8 string at the
/// offset.
pub open spec fn element_at(d: Seq<u8>, pos: int, e: InputOutputElement) -> bool {
    &&& 0 <= pos
    &&& pos + 24 <= d.len()
    &&& {
        let name_off = le32(d, pos) as int;
        &&& name_off <= d.len()
        &&& valid_utf8(cstr_at(d, name_off))
        &&& e.name@ == decode_utf8(cstr_at(d, name_off))
    }
    &&& e.semantic_index == le32(d, pos + 4)
    &&& semantic_word_known(le32(d, pos + 8))
    &&& e.semantic_type.as_word() == le32(d, pos + 8)
    &&& le32(d, pos + 12) <= 3
    &&& e.component_type.as_word() == le32(d, pos + 12)
    &&& e.register == le32(d, pos + 16)
    &&& e.component_mask == d[pos + 20]
    &&& e.rw_mask == d[pos + 21]
}

/// The element record at `pos` decodes: it fits, its tags are known, and its
/// name is valid UTF-8 at an in-range offset.
pub open spec fn element_wf(d: Seq<u8>, pos: int) -> bool {
    &&& 0 <= pos
    &&& pos + 24 <= d.len()
    &&& semantic_word_known(le32(d, pos + 8))
    &&& le32(d, pos + 12) <= 3
    &&& le32(d, pos) as int <= d.len()
    &&& valid_utf8(cstr_at(d, le32(d, pos) as int))
}

/// The `k` consecutive element records from `pos` on all decode.
pub open spec fn elements_wf(d: Seq<u8>, pos: int, k: int) -> bool
    decreases k,
{
    k > 0 ==> element_wf(d, pos) && elements_wf(d, pos + 24, k - 1)
}

impl InputOutputElement {
    /// Reads one element record and resolves its name through a fresh cursor
    /// at the chunk-relative offset, leaving this cursor right past the
    /// record.
    pub fn parse(decoder: &mut Decoder<'_>) -> (r: Result<InputOutputElement, Error>)
        ensures
            final(decoder).data() == old(decoder).data(),
            match r {
                Ok(e) => {
                    &&& element_at(old(decoder).data(), old(decoder).off(), e)
                    &&& final(decoder).off() == old(decoder).off() + 24
                },
                Err(e) => e is StreamExpected || e is FormatViolation || e
                    is DecodeStringFailed,
            },
            element_wf(old(decoder).data(), old(decoder).off()) ==> r is Ok,
    {
        let ghost d = decoder.data();
        let ghost start = decoder.off();
        let name_offset = decoder.read_u32()?;
        let semantic_index = decoder.read_u32()?;
        let sem_word = decoder.read_u32()?;
        let semantic_type = match SemanticName::from_word(sem_word) {
            Some(t) => t,
            None => {
                return Err(Error::FormatViolation(decoder.get_offset()));
            },
        };
        let comp_word = decoder.read_u32()?;
        let component_type = match RegisterComponentType::from_word(comp_word) {
            Some(t) => t,
            None => {
                return Err(Error::FormatViolation(decoder.get_offset()));
            },
        };
        let register = decoder.read_u32()?;
        let component_mask = decoder.read_u8()?;
        let rw_mask = decoder.read_u8()?;
        decoder.skip(2)?;

        let mut name_cursor = decoder.seek(name_offset as usize);
        let name = match name_cursor.string() {
            Ok(s) => s,
            Err(e) => {
                return Err(e);
            },
        };

        Ok(InputOutputElement {
            name,
            semantic_index,
            semantic_type,
            component_type,
            register,
            component_mask,
            rw_mask,
        })
    }
}

/// An input or output signature: its elements in declaration order.
#[derive(Debug, PartialEq)]
pub struct IOsgnChunk {
    pub elements: Vec<InputOutputElement>,
}

/// The chunk at `pos` declares the element count in its first word; one
/// reserved word follows, then the fixed-size element records.
pub open spec fn iosgn_at(d: Seq<u8>, pos: int, c: IOsgnChunk) -> bool {
    &&& 0 <= pos
    &&& pos + 8 <= d.len()
    &&& c.elements@.len() == le32(d, pos)
    &&& forall|i: int|
        0 <= i < c.elements@.len() ==> element_at(d, pos + 8 + 24 * i, #[trigger] c.elements@[i])
}

/// The whole signature chunk at `pos` decodes.
pub open spec fn iosgn_wf(d: Seq<u8>, pos: int) -> bool {
    &&& 0 <= pos
    &&& pos + 8 <= d.len()
    &&& elements_wf(d, pos + 8, le32(d, pos) as int)
}

impl IOsgnChunk {
    /// Reads the element count, the reserved word, and that many elements.
    pub fn parse(decoder: &mut Decoder<'_>) -> (r: Result<IOsgnChunk, Error>)
        ensures
            final(decoder).data() == old(decoder).data(),
            match r {
                Ok(c) => {
                    &&& iosgn_at(old(decoder).data(), old(decoder).off(), c)
                    &&& final(decoder).off() == old(decoder).off() + 8 + 24 * c.elements@.len()
                },
                Err(e) => e is StreamExpected || e is FormatViolation || e
                    is DecodeStringFailed,
            },
            iosgn_wf(old(decoder).data(), old(decoder).off()) ==> r is Ok,
    {
        let ghost d = decoder.data();
        let ghost start = decoder.off();
        let element_count = decoder.read_u32()?;
        let reserved = decoder.read_u32()?;
        proof {
            if iosgn_wf(d, start) {
                assert(elements_wf(d, start + 8, element_count as int));
            }
        }

        let mut elements: Vec<InputOutputElement> = Vec::new();
        let mut i: u32 = 0;
        while i < element_count
            invariant
                i <= element_count,
                decoder.data() == d,
                d == old(decoder).data(),
                start == old(decoder).off(),
                0 <= start,
                start + 8 <= d.len(),
                element_count == le32(d, start),
                elements@.len() == i,
                decoder.off() == start + 8 + 24 * (i as int),
                forall|j: int|
                    0 <= j < i ==> element_at(d, start + 8 + 24 * j, #[trigger] elements@[j]),
                iosgn_wf(d, start) ==> elements_wf(
                    d,
                    start + 8 + 24 * (i as int),
                    element_count - i,
                ),
            decreases element_count - i,
        {
            proof {
                if iosgn_wf(d, start) {
                    assert(elements_wf(d, start + 8 + 24 * (i as int), element_count - i));
                }
            }
            let e = InputOutputElement::parse(decoder)?;
            elements.push(e);
            i = i + 1;
        }

        Ok(IOsgnChunk { elements })
    }
}

} // verus!
