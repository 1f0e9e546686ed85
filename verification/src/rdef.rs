//! The RDEF chunk: resource definitions. Counts and table offsets, the
//! shader type and version, an optional extended sub-header for shader
//! model 5, and the constant-buffer and resource-binding tables, each record
//! resolving its name through a chunk-relative offset.

use vstd::prelude::*;
use vstd::string::StringSliceAdditionalSpecFns;
use vstd::utf8::valid_utf8;

use crate::bytes::{cstr_at, le16, le32};
use crate::decoder::Decoder;
use crate::error::Error;

verus! {

/// The return type a resource declares for its components, as the
/// resource-definition tables classify it.
#[derive(Debug, Clone, Copy, PartialEq, Eq, Structural)]
pub enum ResourceReturnType {
    NotApplicable,
    UNorm,
    SNorm,
    SInt,
    UInt,
    Float,
    Mixed,
    Double,
    Continued,
}

impl ResourceReturnType {
    pub open spec fn as_word(self) -> u32 {
        match self {
            ResourceReturnType::NotApplicable => 0,
            ResourceReturnType::UNorm => 1,
            ResourceReturnType::SNorm => 2,
            ResourceReturnType::SInt => 3,
            ResourceReturnType::UInt => 4,
            ResourceReturnType::Float => 5,
            ResourceReturnType::Mixed => 6,
            ResourceReturnType::Double => 7,
            ResourceReturnType::Continued => 8,
        }
    }

    /// The return type for a tag, or nothing outside the known range 0-8.
    pub fn from_word(word: u32) -> (r: Option<ResourceReturnType>)
        ensures
            r is Some <==> word <= 8,
            r matches Some(t) ==> t.as_word() == word,
    {
        match word {
            0 => Some(ResourceReturnType::NotApplicable),
            1 => Some(ResourceReturnType::UNorm),
            2 => Some(ResourceReturnType::SNorm),
            3 => Some(ResourceReturnType::SInt),
            4 => Some(ResourceReturnType::UInt),
            5 => Some(ResourceReturnType::Float),
            6 => Some(ResourceReturnType::Mixed),
            7 => Some(ResourceReturnType::Double),
            8 => Some(ResourceReturnType::Continued),
            _ => None,
        }
    }
}

#[derive(Debug, Clone, Copy, PartialEq, Eq, Structural)]
pub enum ConstantBufferType {
    ConstantBuffer,
    TextureBuffer,
    InterfacePointers,
    ResourceBindInformation,
}

#[derive(Debug, Clone, Copy, PartialEq, Eq, Structural)]
pub enum ShaderInputType {
    CBuffer,
    TBuffer,
    Texture,
    Sampler,
    UavRwTyped,
    Structured,
    UavRwStructured,
    ByteAddress,
    UavRwByteAddress,
    UavAppendStructured,
    UavConsumeStructured,
    UavRwStructuredWithCounter,
}

#[derive(Debug, Clone, Copy, PartialEq, Eq, Structural)]
pub enum ShaderVariableClass {
    Scalar,
    Vector,
    MatrixRows,
    MatrixColumns,
    Object,
    Struct,
    InterfaceClass,
    InterfacePointer,
}

#[derive(Debug, Clone, Copy, PartialEq, Eq, Structural)]
pub enum ShaderVariableType {
    Void,
    Bool,
    Int,
    Float,
    Text,
    Texture,
    Texture1D,
    Texture2D,
    Texture3D,
    TextureCube,
    Sampler,
    PixelShader,
    VertexShader,
    UInt,
    UInt8,
    GeometryShader,
    Rasterizer,
    DepthStencil,
    Blend,
    Buffer,
    CBuffer,
    TBuffer,
    Texture1DArray,
    Texture2DArray,
    RenderTargetView,
    DepthStencilView,
    Texture2DMultiSampled,
    Texture2DMultiSampledArray,
    TextureCubeArray,
    HullShader,
    DomainShader,
    InterfacePointer,
    ComputeShader,
    Double,
    ReadWriteTexture1D,
    ReadWriteTexture1DArray,
    ReadWriteTexture2D,
    ReadWriteTexture2DArray,
    ReadWriteTexture3D,
    ReadWriteBuffer,
    ByteAddressBuffer,
    ReadWriteByteAddressBuffer,
    StructuredBuffer,
    ReadWriteStructuredBuffer,
    AppendStructuredBuffer,
    ConsumeStructuredBuffer,
}

#[derive(Debug, Clone, Copy, PartialEq, Eq, Structural)]
pub enum ViewDimension {
    Unknown,
    Buffer,
    Texture1D,
    Texture1DArray,
    Texture2D,
    Texture2DArray,
    Texture2DMultiSampled,
    Texture2DMultiSampledArray,
    Texture3D,
    TextureCube,
    TextureCubeArray,
    ExtendedBuffer,
}

#[derive(Debug, Clone, Copy, PartialEq, Eq, Structural)]
pub enum ShaderModel {
    V5_0,
}

/// One member of a structured shader type.
#[derive(Debug, PartialEq)]
pub struct ShaderTypeMember<'a> {
    pub name: &'a str,
    pub ty: ShaderType<'a>,
}

/// The shape of a shader variable.
#[derive(Debug, PartialEq)]
pub struct ShaderType<'a> {
    pub class: ShaderVariableClass,
    pub ty: ShaderVariableType,
    pub rows: u16,
    pub columns: u16,
    pub count: u16,
    pub members: Vec<ShaderTypeMember<'a>>,
}

/// One variable of a constant buffer.
#[derive(Debug, PartialEq)]
pub struct ShaderVariable<'a> {
    pub name: &'a str,
    pub byte_size: u32,
    pub flags: u32,
}

/// One constant-buffer record.
#[derive(Debug, PartialEq)]
pub struct ConstantBuffer<'a> {
    pub name: &'a str,
    pub variables: Vec<ShaderVariable<'a>>,
    pub byte_size: u32,
    pub flags: u32,
    pub ty: u32,
}

/// The constant-buffer record at `pos` of `d`: a name offset, a variable
/// count and offset, the buffer's byte size, flags and type. The variable
/// table itself is not walked.
pub open spec fn cb_at(d: Seq<u8>, pos: int, c: ConstantBuffer) -> bool {
    &&& 0 <= pos
    &&& pos + 24 <= d.len()
    &&& {
        let name_off = le32(d, pos) as int;
        &&& name_off <= d.len()
        &&& valid_utf8(cstr_at(d, name_off))
        &&& c.name.spec_bytes() == cstr_at(d, name_off)
    }
    &&& c.variables@.len() == 0
    &&& c.byte_size == le32(d, pos + 12)
    &&& c.flags == le32(d, pos + 16)
    &&& c.ty == le32(d, pos + 20)
}

/// The constant-buffer record at `pos` decodes.
pub open spec fn cb_wf(d: Seq<u8>, pos: int) -> bool {
    &&& 0 <= pos
    &&& pos + 24 <= d.len()
    &&& le32(d, pos) as int <= d.len()
    &&& valid_utf8(cstr_at(d, le32(d, pos) as int))
}

impl<'a> ConstantBuffer<'a> {
    /// Reads one constant-buffer record, resolving its name through a fresh
    /// cursor.
    pub fn parse(decoder: &mut Decoder<'a>) -> (r: Result<ConstantBuffer<'a>, Error>)
        ensures
            final(decoder).data() == old(decoder).data(),
            match r {
                Ok(c) => {
                    &&& cb_at(old(decoder).data(), old(decoder).off(), c)
                    &&& final(decoder).off() == old(decoder).off() + 24
                },
                Err(e) => e is StreamExpected || e is DecodeStrFailed,
            },
            cb_wf(old(decoder).data(), old(decoder).off()) ==> r is Ok,
    {
        let name_offset = decoder.read_u32()?;
        let _var_count = decoder.read_u32()?;
        let _var_offset = decoder.read_u32()?;
        let byte_size = decoder.read_u32()?;
        let flags = decoder.read_u32()?;
        let ty = decoder.read_u32()?;

        let mut name_cursor = decoder.seek(name_offset as usize);
        let name = match name_cursor.str() {
            Ok(s) => s,
            Err(e) => {
                return Err(e);
            },
        };
        let variables = Vec::new();

        Ok(ConstantBuffer { name, variables, byte_size, flags, ty })
    }
}

/// One resource-binding record.
#[derive(Debug, PartialEq)]
pub struct ResourceBinding<'a> {
    pub name: &'a str,
    pub input_type: u32,
    pub return_type: u32,
    pub view_dimension: u32,
    pub sample_count: u32,
    pub bind_point: u32,
    pub bind_count: u32,
    pub input_flags: u32,
}

/// The resource-binding record at `pos` of `d`: a name offset and seven
/// classification words.
pub open spec fn rb_at(d: Seq<u8>, pos: int, b: ResourceBinding) -> bool {
    &&& 0 <= pos
    &&& pos + 32 <= d.len()
    &&& {
        let name_off = le32(d, pos) as int;
        &&& name_off <= d.len()
        &&& valid_utf8(cstr_at(d, name_off))
        &&& b.name.spec_bytes() == cstr_at(d, name_off)
    }
    &&& b.input_type == le32(d, pos + 4)
    &&& b.return_type == le32(d, pos + 8)
    &&& b.view_dimension == le32(d, pos + 12)
    &&& b.sample_count == le32(d, pos + 16)
    &&& b.bind_point == le32(d, pos + 20)
    &&& b.bind_count == le32(d, pos + 24)
    &&& b.input_flags == le32(d, pos + 28)
}

/// The resource-binding record at `pos` decodes.
pub open spec fn rb_wf(d: Seq<u8>, pos: int) -> bool {
    &&& 0 <= pos
    &&& pos + 32 <= d.len()
    &&& le32(d, pos) as int <= d.len()
    &&& valid_utf8(cstr_at(d, le32(d, pos) as int))
}

impl<'a> ResourceBinding<'a> {
    /// Reads one resource-binding record, resolving its name through a fresh
    /// cursor.
    pub fn parse(decoder: &mut Decoder<'a>) -> (r: Result<ResourceBinding<'a>, Error>)
        ensures
            final(decoder).data() == old(decoder).data(),
            match r {
                Ok(b) => {
                    &&& rb_at(old(decoder).data(), old(decoder).off(), b)
                    &&& final(decoder).off() == old(decoder).off() + 32
                },
                Err(e) => e is StreamExpected || e is DecodeStrFailed,
            },
            rb_wf(old(decoder).data(), old(decoder).off()) ==> r is Ok,
    {
        let name_offset = decoder.read_u32()?;
        let input_type = decoder.read_u32()?;
        let return_type = decoder.read_u32()?;
        let view_dimension = decoder.read_u32()?;
        let sample_count = decoder.read_u32()?;
        let bind_point = decoder.read_u32()?;
        let bind_count = decoder.read_u32()?;
        let input_flags = decoder.read_u32()?;

        let mut name_cursor = decoder.seek(name_offset as usize);
        let name = match name_cursor.str() {
            Ok(s) => s,
            Err(e) => {
                return Err(e);
            },
        };

        Ok(ResourceBinding {
            name,
            input_type,
            return_type,
            view_dimension,
            sample_count,
            bind_point,
            bind_count,
            input_flags,
        })
    }
}

/// The decoded RDEF chunk.
#[derive(Debug, PartialEq)]
pub struct RdefChunk<'a> {
    pub constant_buffers: Vec<ConstantBuffer<'a>>,
    pub resource_bindings: Vec<ResourceBinding<'a>>,
    pub shader_ty: u16,
    pub minor: u8,
    pub major: u8,
    pub flags: u32,
    pub author: &'a str,
    /// The seven words of the extended sub-header, present exactly for major
    /// versions of five and above; its magic word is read but not validated.
    pub rd11: Option<[u32; 7]>,
}

/// The `k` consecutive constant-buffer records from `pos` on all decode.
pub open spec fn cbs_wf(d: Seq<u8>, pos: int, k: int) -> bool
    decreases k,
{
    k > 0 ==> cb_wf(d, pos) && cbs_wf(d, pos + 24, k - 1)
}

/// The `k` consecutive resource-binding records from `pos` on all decode.
pub open spec fn rbs_wf(d: Seq<u8>, pos: int, k: int) -> bool
    decreases k,
{
    k > 0 ==> rb_wf(d, pos) && rbs_wf(d, pos + 32, k - 1)
}

/// The RDEF chunk at `pos` of `d` decodes to `r`: the fixed fields, the
/// extended sub-header exactly when the major version is at least five, both
/// tables at their declared chunk-relative offsets, and the author string.
pub open spec fn rdef_at(d: Seq<u8>, pos: int, r: RdefChunk) -> bool {
    &&& 0 <= pos
    &&& pos + 28 <= d.len()
    &&& r.minor == d[pos + 16]
    &&& r.major == d[pos + 17]
    &&& r.shader_ty == le16(d, pos + 18)
    &&& r.flags == le32(d, pos + 20)
    &&& {
        let author_off = le32(d, pos + 24) as int;
        &&& author_off <= d.len()
        &&& valid_utf8(cstr_at(d, author_off))
        &&& r.author.spec_bytes() == cstr_at(d, author_off)
    }
    &&& match r.rd11 {
        Some(v) => {
            &&& r.major >= 5
            &&& pos + 60 <= d.len()
            &&& v@[0] == le32(d, pos + 32)
            &&& v@[1] == le32(d, pos + 36)
            &&& v@[2] == le32(d, pos + 40)
            &&& v@[3] == le32(d, pos + 44)
            &&& v@[4] == le32(d, pos + 48)
            &&& v@[5] == le32(d, pos + 52)
            &&& v@[6] == le32(d, pos + 56)
        },
        None => r.major < 5,
    }
    &&& r.constant_buffers@.len() == le32(d, pos)
    &&& forall|i: int|
        0 <= i < r.constant_buffers@.len() ==> cb_at(
            d,
            le32(d, pos + 4) + 24 * i,
            #[trigger] r.constant_buffers@[i],
        )
    &&& r.resource_bindings@.len() == le32(d, pos + 8)
    &&& forall|i: int|
        0 <= i < r.resource_bindings@.len() ==> rb_at(
            d,
            le32(d, pos + 12) + 32 * i,
            #[trigger] r.resource_bindings@[i],
        )
}

/// The whole RDEF chunk at `pos` decodes.
pub open spec fn rdef_wf(d: Seq<u8>, pos: int) -> bool {
    &&& 0 <= pos
    &&& pos + 28 <= d.len()
    &&& (d[pos + 17] >= 5 ==> pos + 60 <= d.len())
    &&& cbs_wf(d, le32(d, pos + 4) as int, le32(d, pos) as int)
    &&& rbs_wf(d, le32(d, pos + 12) as int, le32(d, pos + 8) as int)
    &&& le32(d, pos + 24) as int <= d.len()
    &&& valid_utf8(cstr_at(d, le32(d, pos + 24) as int))
}

impl<'a> RdefChunk<'a> {
    /// Reads the fixed fields and the extended sub-header, then seeks to and
    /// walks both tables, and resolves the author string.
    pub fn parse(decoder: &mut Decoder<'a>) -> (r: Result<RdefChunk<'a>, Error>)
        ensures
            final(decoder).data() == old(decoder).data(),
            match r {
                Ok(c) => rdef_at(old(decoder).data(), old(decoder).off(), c),
                Err(e) => e is StreamExpected || e is DecodeStrFailed,
            },
            rdef_wf(old(decoder).data(), old(decoder).off()) ==> r is Ok,
    {
        let ghost d = decoder.data();
        let ghost start = decoder.off();
        let cb_count = decoder.read_u32()?;
        let cb_offset = decoder.read_u32()?;
        let bind_count = decoder.read_u32()?;
        let bind_offset = decoder.read_u32()?;
        let minor = decoder.read_u8()?;
        let major = decoder.read_u8()?;
        let shader_ty = decoder.read_u16()?;
        let flags = decoder.read_u32()?;
        let author_offset = decoder.read_u32()?;

        let rd11: Option<[u32; 7]>;
        if major >= 5 {
            let _magic = decoder.read_u32()?;
            let r0 = decoder.read_u32()?;
            let r1 = decoder.read_u32()?;
            let r2 = decoder.read_u32()?;
            let r3 = decoder.read_u32()?;
            let r4 = decoder.read_u32()?;
            let r5 = decoder.read_u32()?;
            let r6 = decoder.read_u32()?;
            rd11 = Some([r0, r1, r2, r3, r4, r5, r6]);
        } else {
            rd11 = None;
        }

        proof {
            if rdef_wf(d, start) {
                assert(cbs_wf(d, le32(d, start + 4) as int, cb_count as int));
                assert(rbs_wf(d, le32(d, start + 12) as int, bind_count as int));
            }
        }

        decoder.seek_mut(cb_offset as usize);
        let mut constant_buffers: Vec<ConstantBuffer<'a>> = Vec::new();
        let mut i: u32 = 0;
        while i < cb_count
            invariant
                i <= cb_count,
                decoder.data() == d,
                d == old(decoder).data(),
                constant_buffers@.len() == i,
                0 <= start,
                start == old(decoder).off(),
                cb_offset == le32(d, start + 4),
                cb_count == le32(d, start),
                decoder.off() == cb_offset + 24 * (i as int),
                forall|j: int|
                    0 <= j < i ==> cb_at(
                        d,
                        cb_offset + 24 * j,
                        #[trigger] constant_buffers@[j],
                    ),
                rdef_wf(d, start) ==> cbs_wf(d, cb_offset + 24 * (i as int), cb_count - i),
            decreases cb_count - i,
        {
            proof {
                if rdef_wf(d, start) {
                    assert(cbs_wf(d, cb_offset + 24 * (i as int), cb_count - i));
                }
            }
            let c = ConstantBuffer::parse(decoder)?;
            constant_buffers.push(c);
            i = i + 1;
        }

        decoder.seek_mut(bind_offset as usize);
        let mut resource_bindings: Vec<ResourceBinding<'a>> = Vec::new();
        let mut k: u32 = 0;
        while k < bind_count
            invariant
                k <= bind_count,
                decoder.data() == d,
                d == old(decoder).data(),
                resource_bindings@.len() == k,
                0 <= start,
                start == old(decoder).off(),
                bind_offset == le32(d, start + 12),
                bind_count == le32(d, start + 8),
                decoder.off() == bind_offset + 32 * (k as int),
                forall|j: int|
                    0 <= j < k ==> rb_at(
                        d,
                        bind_offset + 32 * j,
                        #[trigger] resource_bindings@[j],
                    ),
                rdef_wf(d, start) ==> rbs_wf(d, bind_offset + 32 * (k as int), bind_count - k),
            decreases bind_count - k,
        {
            proof {
                if rdef_wf(d, start) {
                    assert(rbs_wf(d, bind_offset + 32 * (k as int), bind_count - k));
                }
            }
            let b = ResourceBinding::parse(decoder)?;
            resource_bindings.push(b);
            k = k + 1;
        }

        let mut author_cursor = decoder.seek(author_offset as usize);
        let author = match author_cursor.str() {
            Ok(s) => s,
            Err(e) => {
                return Err(e);
            },
        };

        Ok(RdefChunk {
            constant_buffers,
            resource_bindings,
            shader_ty,
            minor,
            major,
            flags,
            author,
            rd11,
        })
    }
}

} // verus!
