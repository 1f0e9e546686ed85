//! The SHEX token stream: the chunk header, the bit-packed opcode and
//! operand tokens, opcode extension chains, and the recursive operand
//! addressing of the tokenized program format.

use vstd::prelude::*;

use crate::bytes::{le32, le64};
use crate::decoder::Decoder;
use crate::error::Error;
use crate::tokens::{
    ext_opcode_type_field, index_dimension_field, index_representation_field, instr_length_field,
    interpolation_mode_field, num_components_field, operand_modifier_field, operand_type_field,
    opcode_type_field, resource_dimension_field, resource_return_type_field, sampler_mode_field,
    saturate_field, test_boolean_field, token_extended_bit,
};
use crate::tokens::{
    GLOBAL_FLAG_ENABLE_DOUBLE_EXTENSIONS, GLOBAL_FLAG_ENABLE_DOUBLE_PRECISION_FLOAT_OPS,
    GLOBAL_FLAG_ENABLE_MINIMUM_PRECISION, GLOBAL_FLAG_ENABLE_RAW_AND_STRUCTURED_BUFFERS,
    GLOBAL_FLAG_ENABLE_SHADER_EXTENSIONS, GLOBAL_FLAG_FORCE_EARLY_DEPTH_STENCIL,
    GLOBAL_FLAG_REFACTORING_ALLOWED, GLOBAL_FLAG_SKIP_OPTIMIZATION,
};
use crate::tokens::{
    INDEX_REP_IMMEDIATE32, INDEX_REP_IMMEDIATE32_PLUS_RELATIVE, INDEX_REP_IMMEDIATE64,
    INDEX_REP_IMMEDIATE64_PLUS_RELATIVE, INDEX_REP_RELATIVE, OPERAND_TYPE_IMMEDIATE32,
    OPERAND_TYPE_IMMEDIATE64,
};
use crate::tokens::{
    OPCODE_ADD, OPCODE_AND, OPCODE_BREAK, OPCODE_BREAKC, OPCODE_DCL_CONSTANT_BUFFER,
    OPCODE_DCL_GLOBAL_FLAGS, OPCODE_DCL_INDEXABLE_TEMP, OPCODE_DCL_INPUT, OPCODE_DCL_INPUT_PS,
    OPCODE_DCL_INPUT_PS_SGV, OPCODE_DCL_INPUT_PS_SIV, OPCODE_DCL_OUTPUT, OPCODE_DCL_OUTPUT_SGV,
    OPCODE_DCL_OUTPUT_SIV, OPCODE_DCL_RESOURCE, OPCODE_DCL_SAMPLER, OPCODE_DCL_TEMPS, OPCODE_ELSE,
    OPCODE_ENDIF, OPCODE_ENDLOOP, OPCODE_FTOU, OPCODE_IF, OPCODE_ITOF, OPCODE_LOOP, OPCODE_MAD,
    OPCODE_MOV, OPCODE_MUL, OPCODE_RET, OPCODE_SAMPLE, OPCODE_SAMPLE_L, OPCODE_UTOF,
};

verus! {

broadcast use vstd::std_specs::vec::group_vec_axioms;

#[derive(Debug, Clone, Copy, PartialEq, Eq, Structural)]
pub enum ConstantBufferIndexPattern {
    Immediate,
    Dynamic,
}

#[derive(Debug, Clone, Copy, PartialEq, Eq, Structural)]
pub enum OperandType {
    Temp,
    Input,
    Output,
    IndexableTemp,
    Immediate32,
    Immediate64,
    Sampler,
    Resource,
    ConstantBuffer,
    ImmediateConstantBuffer,
    Label,
    InputPrimitiveId,
    OutputDepth,
    Null,
    Rasterizer,
    OutputCoverageMask,
    Stream,
    FunctionBody,
    FunctionTable,
    Interface,
    FunctionInput,
    FunctionOutput,
    OutputControlPointId,
    InputForkInstanceId,
    InputJoinInstanceId,
    InputControlPoint,
    OutputControlPoint,
    InputPatchConstant,
    InputDomainPoint,
    ThisPointer,
    UnorderedAccessView,
    ThreadGroupSharedMemory,
    InputThreadId,
    InputThreadGroupId,
    InputThreadIdInGroup,
    InputCoverageMask,
    InputThreadIdInGroupFlattened,
    InputGsinstanceid,
    OutputDepthGreaterEqual,
    OutputDepthLessEqual,
    CycleCounter,
}

impl OperandType {
    /// The tag this variant stands for in an operand token.
    pub open spec fn as_word(self) -> u32 {
        match self {
            OperandType::Temp => 0,
            OperandType::Input => 1,
            OperandType::Output => 2,
            OperandType::IndexableTemp => 3,
            OperandType::Immediate32 => 4,
            OperandType::Immediate64 => 5,
            OperandType::Sampler => 6,
            OperandType::Resource => 7,
            OperandType::ConstantBuffer => 8,
            OperandType::ImmediateConstantBuffer => 9,
            OperandType::Label => 10,
            OperandType::InputPrimitiveId => 11,
            OperandType::OutputDepth => 12,
            OperandType::Null => 13,
            OperandType::Rasterizer => 14,
            OperandType::OutputCoverageMask => 15,
            OperandType::Stream => 16,
            OperandType::FunctionBody => 17,
            OperandType::FunctionTable => 18,
            OperandType::Interface => 19,
            OperandType::FunctionInput => 20,
            OperandType::FunctionOutput => 21,
            OperandType::OutputControlPointId => 22,
            OperandType::InputForkInstanceId => 23,
            OperandType::InputJoinInstanceId => 24,
            OperandType::InputControlPoint => 25,
            OperandType::OutputControlPoint => 26,
            OperandType::InputPatchConstant => 27,
            OperandType::InputDomainPoint => 28,
            OperandType::ThisPointer => 29,
            OperandType::UnorderedAccessView => 30,
            OperandType::ThreadGroupSharedMemory => 31,
            OperandType::InputThreadId => 32,
            OperandType::InputThreadGroupId => 33,
            OperandType::InputThreadIdInGroup => 34,
            OperandType::InputCoverageMask => 35,
            OperandType::InputThreadIdInGroupFlattened => 36,
            OperandType::InputGsinstanceid => 37,
            OperandType::OutputDepthGreaterEqual => 38,
            OperandType::OutputDepthLessEqual => 39,
            OperandType::CycleCounter => 40,
        }
    }

    /// The variant for a tag, or nothing outside the known range of 0-40.
    pub fn from_word(word: u32) -> (r: Option<OperandType>)
        ensures
            r is Some <==> word <= 40,
            r matches Some(t) ==> t.as_word() == word,
    {
        match word {
            0 => Some(OperandType::Temp),
            1 => Some(OperandType::Input),
            2 => Some(OperandType::Output),
            3 => Some(OperandType::IndexableTemp),
            4 => Some(OperandType::Immediate32),
            5 => Some(OperandType::Immediate64),
            6 => Some(OperandType::Sampler),
            7 => Some(OperandType::Resource),
            8 => Some(OperandType::ConstantBuffer),
            9 => Some(OperandType::ImmediateConstantBuffer),
            10 => Some(OperandType::Label),
            11 => Some(OperandType::InputPrimitiveId),
            12 => Some(OperandType::OutputDepth),
            13 => Some(OperandType::Null),
            14 => Some(OperandType::Rasterizer),
            15 => Some(OperandType::OutputCoverageMask),
            16 => Some(OperandType::Stream),
            17 => Some(OperandType::FunctionBody),
            18 => Some(OperandType::FunctionTable),
            19 => Some(OperandType::Interface),
            20 => Some(OperandType::FunctionInput),
            21 => Some(OperandType::FunctionOutput),
            22 => Some(OperandType::OutputControlPointId),
            23 => Some(OperandType::InputForkInstanceId),
            24 => Some(OperandType::InputJoinInstanceId),
            25 => Some(OperandType::InputControlPoint),
            26 => Some(OperandType::OutputControlPoint),
            27 => Some(OperandType::InputPatchConstant),
            28 => Some(OperandType::InputDomainPoint),
            29 => Some(OperandType::ThisPointer),
            30 => Some(OperandType::UnorderedAccessView),
            31 => Some(OperandType::ThreadGroupSharedMemory),
            32 => Some(OperandType::InputThreadId),
            33 => Some(OperandType::InputThreadGroupId),
            34 => Some(OperandType::InputThreadIdInGroup),
            35 => Some(OperandType::InputCoverageMask),
            36 => Some(OperandType::InputThreadIdInGroupFlattened),
            37 => Some(OperandType::InputGsinstanceid),
            38 => Some(OperandType::OutputDepthGreaterEqual),
            39 => Some(OperandType::OutputDepthLessEqual),
            40 => Some(OperandType::CycleCounter),
            _ => None,
        }
    }
}

#[derive(Debug, Clone, Copy, PartialEq, Eq, Structural)]
pub enum NumComponents {
    Zero,
    One,
    Four,
    N,
}

impl NumComponents {
    pub open spec fn as_word(self) -> u32 {
        match self {
            NumComponents::Zero => 0,
            NumComponents::One => 1,
            NumComponents::Four => 2,
            NumComponents::N => 3,
        }
    }

    /// The selector for a two-bit field value.
    pub fn from_word(word: u32) -> (r: Option<NumComponents>)
        ensures
            r is Some <==> word <= 3,
            r matches Some(t) ==> t.as_word() == word,
    {
        match word {
            0 => Some(NumComponents::Zero),
            1 => Some(NumComponents::One),
            2 => Some(NumComponents::Four),
            3 => Some(NumComponents::N),
            _ => None,
        }
    }
}

#[derive(Debug, Clone, Copy, PartialEq, Eq, Structural)]
pub enum ComponentName {
    X,
    Y,
    Z,
    W,
}

impl ComponentName {
    pub open spec fn as_word(self) -> u8 {
        match self {
            ComponentName::X => 0,
            ComponentName::Y => 1,
            ComponentName::Z => 2,
            ComponentName::W => 3,
        }
    }

    pub fn from_word(word: u8) -> (r: Option<ComponentName>)
        ensures
            r is Some <==> word <= 3,
            r matches Some(c) ==> c.as_word() == word,
    {
        match word {
            0 => Some(ComponentName::X),
            1 => Some(ComponentName::Y),
            2 => Some(ComponentName::Z),
            3 => Some(ComponentName::W),
            _ => None,
        }
    }
}

#[derive(Debug, Clone, Copy, PartialEq, Eq, Structural)]
pub struct ComponentSwizzle(
    pub ComponentName,
    pub ComponentName,
    pub ComponentName,
    pub ComponentName,
);

#[derive(Debug, Clone, Copy, PartialEq, Eq, Structural)]
pub enum IndexDimension {
    D0,
    D1,
    D2,
    D3,
}

impl IndexDimension {
    pub open spec fn as_word(self) -> u32 {
        match self {
            IndexDimension::D0 => 0,
            IndexDimension::D1 => 1,
            IndexDimension::D2 => 2,
            IndexDimension::D3 => 3,
        }
    }

    /// The dimension for a two-bit field value.
    pub fn from_word(word: u32) -> (r: Option<IndexDimension>)
        ensures
            r is Some <==> word <= 3,
            r matches Some(d) ==> d.as_word() == word,
    {
        match word {
            0 => Some(IndexDimension::D0),
            1 => Some(IndexDimension::D1),
            2 => Some(IndexDimension::D2),
            3 => Some(IndexDimension::D3),
            _ => None,
        }
    }
}

#[derive(Debug, Clone, Copy, PartialEq, Eq, Structural)]
pub enum IndexRepresentation {
    Immediate32,
    Immediate64,
    Relative,
    Immediate32PlusRelative,
    Immediate64PlusRelative,
}

impl IndexRepresentation {
    pub open spec fn as_word(self) -> u32 {
        match self {
            IndexRepresentation::Immediate32 => 0,
            IndexRepresentation::Immediate64 => 1,
            IndexRepresentation::Relative => 2,
            IndexRepresentation::Immediate32PlusRelative => 3,
            IndexRepresentation::Immediate64PlusRelative => 4,
        }
    }

    /// The representation for a three-bit tag; 5-7 are outside the format.
    pub fn from_word(word: u32) -> (r: Option<IndexRepresentation>)
        ensures
            r is Some <==> word <= 4,
            r matches Some(t) ==> t.as_word() == word,
    {
        match word {
            0 => Some(IndexRepresentation::Immediate32),
            1 => Some(IndexRepresentation::Immediate64),
            2 => Some(IndexRepresentation::Relative),
            3 => Some(IndexRepresentation::Immediate32PlusRelative),
            4 => Some(IndexRepresentation::Immediate64PlusRelative),
            _ => None,
        }
    }
}

#[derive(Debug, Clone, Copy, PartialEq, Eq, Structural)]
pub enum ComponentSelectMode {
    Mask,
    Swizzle,
    Select1,
}

impl ComponentSelectMode {
    pub open spec fn as_word(self) -> u32 {
        match self {
            ComponentSelectMode::Mask => 0,
            ComponentSelectMode::Swizzle => 1,
            ComponentSelectMode::Select1 => 2,
        }
    }

    pub fn from_word(word: u32) -> (r: Option<ComponentSelectMode>)
        ensures
            r is Some <==> word <= 2,
            r matches Some(m) ==> m.as_word() == word,
    {
        match word {
            0 => Some(ComponentSelectMode::Mask),
            1 => Some(ComponentSelectMode::Swizzle),
            2 => Some(ComponentSelectMode::Select1),
            _ => None,
        }
    }
}

#[derive(Debug, Clone, Copy, PartialEq, Eq, Structural)]
pub enum NameToken {
    Undefined,
    Position,
    ClipDistance,
    CullDistance,
    RenderTargetArrayIndex,
    ViewportArrayIndex,
    VertexId,
    PrimitiveId,
    InstanceId,
    IsFrontFace,
    SampleIndex,
    FinalQuadUEq0EdgeTessfactor,
    FinalQuadVEq0EdgeTessfactor,
    FinalQuadUEq1EdgeTessfactor,
    FinalQuadVEq1EdgeTessfactor,
    FinalQuadUInsideTessfactor,
    FinalQuadVInsideTessfactor,
    FinalTriUEq0EdgeTessfactor,
    FinalTriVEq0EdgeTessfactor,
    FinalTriWEq0EdgeTessfactor,
    FinalTriinsidetessfactor,
    FinalLineDetailTessfactor,
    FinalLineDensityTessfactor,
}

impl NameToken {
    pub open spec fn as_word(self) -> u32 {
        match self {
            NameToken::Undefined => 0,
            NameToken::Position => 1,
            NameToken::ClipDistance => 2,
            NameToken::CullDistance => 3,
            NameToken::RenderTargetArrayIndex => 4,
            NameToken::ViewportArrayIndex => 5,
            NameToken::VertexId => 6,
            NameToken::PrimitiveId => 7,
            NameToken::InstanceId => 8,
            NameToken::IsFrontFace => 9,
            NameToken::SampleIndex => 10,
            NameToken::FinalQuadUEq0EdgeTessfactor => 11,
            NameToken::FinalQuadVEq0EdgeTessfactor => 12,
            NameToken::FinalQuadUEq1EdgeTessfactor => 13,
            NameToken::FinalQuadVEq1EdgeTessfactor => 14,
            NameToken::FinalQuadUInsideTessfactor => 15,
            NameToken::FinalQuadVInsideTessfactor => 16,
            NameToken::FinalTriUEq0EdgeTessfactor => 17,
            NameToken::FinalTriVEq0EdgeTessfactor => 18,
            NameToken::FinalTriWEq0EdgeTessfactor => 19,
            NameToken::FinalTriinsidetessfactor => 20,
            NameToken::FinalLineDetailTessfactor => 21,
            NameToken::FinalLineDensityTessfactor => 22,
        }
    }

    /// The system name for a tag, or nothing outside the known range of 0-22.
    pub fn from_word(word: u32) -> (r: Option<NameToken>)
        ensures
            r is Some <==> word <= 22,
            r matches Some(t) ==> t.as_word() == word,
    {
        match word {
            0 => Some(NameToken::Undefined),
            1 => Some(NameToken::Position),
            2 => Some(NameToken::ClipDistance),
            3 => Some(NameToken::CullDistance),
            4 => Some(NameToken::RenderTargetArrayIndex),
            5 => Some(NameToken::ViewportArrayIndex),
            6 => Some(NameToken::VertexId),
            7 => Some(NameToken::PrimitiveId),
            8 => Some(NameToken::InstanceId),
            9 => Some(NameToken::IsFrontFace),
            10 => Some(NameToken::SampleIndex),
            11 => Some(NameToken::FinalQuadUEq0EdgeTessfactor),
            12 => Some(NameToken::FinalQuadVEq0EdgeTessfactor),
            13 => Some(NameToken::FinalQuadUEq1EdgeTessfactor),
            14 => Some(NameToken::FinalQuadVEq1EdgeTessfactor),
            15 => Some(NameToken::FinalQuadUInsideTessfactor),
            16 => Some(NameToken::FinalQuadVInsideTessfactor),
            17 => Some(NameToken::FinalTriUEq0EdgeTessfactor),
            18 => Some(NameToken::FinalTriVEq0EdgeTessfactor),
            19 => Some(NameToken::FinalTriWEq0EdgeTessfactor),
            20 => Some(NameToken::FinalTriinsidetessfactor),
            21 => Some(NameToken::FinalLineDetailTessfactor),
            22 => Some(NameToken::FinalLineDensityTessfactor),
            _ => None,
        }
    }
}

#[derive(Debug, Clone, Copy, PartialEq, Eq, Structural)]
pub enum OperandModifier {
    NoModifier,
    Neg,
    Abs,
    AbsNeg,
}

impl OperandModifier {
    pub open spec fn as_word(self) -> u32 {
        match self {
            OperandModifier::NoModifier => 0,
            OperandModifier::Neg => 1,
            OperandModifier::Abs => 2,
            OperandModifier::AbsNeg => 3,
        }
    }

    /// Decodes the modifier field of an operand extension token.
    pub fn from_word(word: u32) -> (r: Option<OperandModifier>)
        ensures
            r is Some <==> operand_modifier_field(word) <= 3,
            r matches Some(m) ==> m.as_word() == operand_modifier_field(word),
    {
        match (word >> 6) & 0xff {
            0 => Some(OperandModifier::NoModifier),
            1 => Some(OperandModifier::Neg),
            2 => Some(OperandModifier::Abs),
            3 => Some(OperandModifier::AbsNeg),
            _ => None,
        }
    }
}

#[derive(Debug, Clone, Copy, PartialEq, Eq, Structural)]
pub enum SamplerMode {
    Default,
    Comparison,
    Mono,
}

impl SamplerMode {
    pub open spec fn as_word(self) -> u32 {
        match self {
            SamplerMode::Default => 0,
            SamplerMode::Comparison => 1,
            SamplerMode::Mono => 2,
        }
    }

    pub fn from_word(word: u32) -> (r: Option<SamplerMode>)
        ensures
            r is Some <==> word <= 2,
            r matches Some(m) ==> m.as_word() == word,
    {
        match word {
            0 => Some(SamplerMode::Default),
            1 => Some(SamplerMode::Comparison),
            2 => Some(SamplerMode::Mono),
            _ => None,
        }
    }
}

#[derive(Debug, Clone, Copy, PartialEq, Eq, Structural)]
pub enum TestBoolean {
    Zero,
    NonZero,
}

impl TestBoolean {
    pub open spec fn as_word(self) -> u32 {
        match self {
            TestBoolean::Zero => 0,
            TestBoolean::NonZero => 1,
        }
    }

    /// Decodes the test flag of a full opcode token.
    pub fn from_word(word: u32) -> (r: TestBoolean)
        ensures
            r.as_word() == test_boolean_field(word),
    {
        proof {
            let w = word;
            assert((w >> 18u32) & 1 == 0 || (w >> 18u32) & 1 == 1) by (bit_vector);
        }
        if (word >> 18) & 1 == 0 {
            TestBoolean::Zero
        } else {
            TestBoolean::NonZero
        }
    }
}

#[derive(Debug, Clone, Copy, PartialEq, Eq, Structural)]
pub enum InterpolationMode {
    Undefined,
    Constant,
    Linear,
    LinearCentroid,
    LinearNoPerspective,
    LinearNoPerspectiveCentroid,
    LinearSample,
    LinearNoPerspectiveSample,
}

impl InterpolationMode {
    pub open spec fn as_word(self) -> u32 {
        match self {
            InterpolationMode::Undefined => 0,
            InterpolationMode::Constant => 1,
            InterpolationMode::Linear => 2,
            InterpolationMode::LinearCentroid => 3,
            InterpolationMode::LinearNoPerspective => 4,
            InterpolationMode::LinearNoPerspectiveCentroid => 5,
            InterpolationMode::LinearSample => 6,
            InterpolationMode::LinearNoPerspectiveSample => 7,
        }
    }

    pub fn from_word(word: u32) -> (r: Option<InterpolationMode>)
        ensures
            r is Some <==> word <= 7,
            r matches Some(m) ==> m.as_word() == word,
    {
        match word {
            0 => Some(InterpolationMode::Undefined),
            1 => Some(InterpolationMode::Constant),
            2 => Some(InterpolationMode::Linear),
            3 => Some(InterpolationMode::LinearCentroid),
            4 => Some(InterpolationMode::LinearNoPerspective),
            5 => Some(InterpolationMode::LinearNoPerspectiveCentroid),
            6 => Some(InterpolationMode::LinearSample),
            7 => Some(InterpolationMode::LinearNoPerspectiveSample),
            _ => None,
        }
    }
}

#[derive(Debug, Clone, Copy, PartialEq, Eq, Structural)]
pub enum ResourceDimension {
    Unknown,
    Buffer,
    Texture1D,
    Texture2D,
    Texture2DMS,
    Texture3D,
    TextureCube,
    Texture1DArray,
    Texture2DArray,
    Texture2DMSArray,
    TextureCubeArray,
    RawBuffer,
    StructuredBuffer,
}

impl ResourceDimension {
    pub open spec fn as_word(self) -> u32 {
        match self {
            ResourceDimension::Unknown => 0,
            ResourceDimension::Buffer => 1,
            ResourceDimension::Texture1D => 2,
            ResourceDimension::Texture2D => 3,
            ResourceDimension::Texture2DMS => 4,
            ResourceDimension::Texture3D => 5,
            ResourceDimension::TextureCube => 6,
            ResourceDimension::Texture1DArray => 7,
            ResourceDimension::Texture2DArray => 8,
            ResourceDimension::Texture2DMSArray => 9,
            ResourceDimension::TextureCubeArray => 10,
            ResourceDimension::RawBuffer => 11,
            ResourceDimension::StructuredBuffer => 12,
        }
    }

    /// The tag this variant stands for.
    pub fn to_word(&self) -> (r: u32)
        ensures
            r == self.as_word(),
    {
        match self {
            ResourceDimension::Unknown => 0,
            ResourceDimension::Buffer => 1,
            ResourceDimension::Texture1D => 2,
            ResourceDimension::Texture2D => 3,
            ResourceDimension::Texture2DMS => 4,
            ResourceDimension::Texture3D => 5,
            ResourceDimension::TextureCube => 6,
            ResourceDimension::Texture1DArray => 7,
            ResourceDimension::Texture2DArray => 8,
            ResourceDimension::Texture2DMSArray => 9,
            ResourceDimension::TextureCubeArray => 10,
            ResourceDimension::RawBuffer => 11,
            ResourceDimension::StructuredBuffer => 12,
        }
    }

    pub fn from_word(word: u32) -> (r: Option<ResourceDimension>)
        ensures
            r is Some <==> word <= 12,
            r matches Some(d) ==> d.as_word() == word,
    {
        match word {
            0 => Some(ResourceDimension::Unknown),
            1 => Some(ResourceDimension::Buffer),
            2 => Some(ResourceDimension::Texture1D),
            3 => Some(ResourceDimension::Texture2D),
            4 => Some(ResourceDimension::Texture2DMS),
            5 => Some(ResourceDimension::Texture3D),
            6 => Some(ResourceDimension::TextureCube),
            7 => Some(ResourceDimension::Texture1DArray),
            8 => Some(ResourceDimension::Texture2DArray),
            9 => Some(ResourceDimension::Texture2DMSArray),
            10 => Some(ResourceDimension::TextureCubeArray),
            11 => Some(ResourceDimension::RawBuffer),
            12 => Some(ResourceDimension::StructuredBuffer),
            _ => None,
        }
    }
}

#[derive(Debug, Clone, Copy, PartialEq, Eq, Structural)]
pub enum ExtendedOpcodeType {
    Empty,
    SampleControls,
    ResourceDim,
    ResourceReturnType,
}

impl ExtendedOpcodeType {
    pub open spec fn as_word(self) -> u32 {
        match self {
            ExtendedOpcodeType::Empty => 0,
            ExtendedOpcodeType::SampleControls => 1,
            ExtendedOpcodeType::ResourceDim => 2,
            ExtendedOpcodeType::ResourceReturnType => 3,
        }
    }

    /// Decodes the kind selector of an opcode extension token.
    pub fn from_word(word: u32) -> (r: Option<ExtendedOpcodeType>)
        ensures
            r is Some <==> ext_opcode_type_field(word) <= 3,
            r matches Some(t) ==> t.as_word() == ext_opcode_type_field(word),
    {
        match word & 0x3f {
            0 => Some(ExtendedOpcodeType::Empty),
            1 => Some(ExtendedOpcodeType::SampleControls),
            2 => Some(ExtendedOpcodeType::ResourceDim),
            3 => Some(ExtendedOpcodeType::ResourceReturnType),
            _ => None,
        }
    }
}

#[derive(Debug, Clone, Copy, PartialEq, Eq, Structural)]
pub enum ResourceReturnType {
    Unorm,
    Snorm,
    Sint,
    Uint,
    Float,
    Mixed,
    Double,
    Continued,
    Unused,
}

impl ResourceReturnType {
    pub open spec fn as_word(self) -> u32 {
        match self {
            ResourceReturnType::Unorm => 1,
            ResourceReturnType::Snorm => 2,
            ResourceReturnType::Sint => 3,
            ResourceReturnType::Uint => 4,
            ResourceReturnType::Float => 5,
            ResourceReturnType::Mixed => 6,
            ResourceReturnType::Double => 7,
            ResourceReturnType::Continued => 8,
            ResourceReturnType::Unused => 9,
        }
    }

    /// The tag this variant stands for.
    pub fn to_word(&self) -> (r: u32)
        ensures
            r == self.as_word(),
    {
        match self {
            ResourceReturnType::Unorm => 1,
            ResourceReturnType::Snorm => 2,
            ResourceReturnType::Sint => 3,
            ResourceReturnType::Uint => 4,
            ResourceReturnType::Float => 5,
            ResourceReturnType::Mixed => 6,
            ResourceReturnType::Double => 7,
            ResourceReturnType::Continued => 8,
            ResourceReturnType::Unused => 9,
        }
    }

    pub fn from_word(word: u32) -> (r: Option<ResourceReturnType>)
        ensures
            r is Some <==> 1 <= word <= 9,
            r matches Some(t) ==> t.as_word() == word,
    {
        match word {
            1 => Some(ResourceReturnType::Unorm),
            2 => Some(ResourceReturnType::Snorm),
            3 => Some(ResourceReturnType::Sint),
            4 => Some(ResourceReturnType::Uint),
            5 => Some(ResourceReturnType::Float),
            6 => Some(ResourceReturnType::Mixed),
            7 => Some(ResourceReturnType::Double),
            8 => Some(ResourceReturnType::Continued),
            9 => Some(ResourceReturnType::Unused),
            _ => None,
        }
    }
}

/// The leading 32-bit word of an instruction, held by value.
#[derive(Debug, Clone, Copy, PartialEq, Eq, Structural)]
pub struct OpcodeToken0 {
    pub word: u32,
}

impl OpcodeToken0 {
    pub fn from_word(word: u32) -> (r: Self)
        ensures
            r.word == word,
    {
        OpcodeToken0 { word }
    }

    /// True when an extension token chain follows this token.
    pub fn is_extended(&self) -> (r: bool)
        ensures
            r == token_extended_bit(self.word),
    {
        (self.word >> 31) & 1 == 1
    }

    pub fn is_saturated(&self) -> (r: bool)
        ensures
            r == (saturate_field(self.word) == 1),
    {
        (self.word >> 13) & 1 == 1
    }

    pub fn get_test_type(&self) -> (r: TestBoolean)
        ensures
            r.as_word() == test_boolean_field(self.word),
    {
        TestBoolean::from_word(self.word)
    }

    pub fn get_opcode_type(&self) -> (r: u32)
        ensures
            r == opcode_type_field(self.word),
    {
        self.word & 0x7ff
    }

    /// The declared length of the instruction in words, this token included.
    pub fn get_instruction_length(&self) -> (r: u32)
        ensures
            r == instr_length_field(self.word),
    {
        (self.word >> 24) & 0x7f
    }

    pub fn get_resource_dimension(&self) -> (r: Option<ResourceDimension>)
        ensures
            r is Some <==> resource_dimension_field(self.word) <= 12,
            r matches Some(d) ==> d.as_word() == resource_dimension_field(self.word),
    {
        ResourceDimension::from_word((self.word >> 11) & 0x1f)
    }

    pub fn get_sampler_mode(&self) -> (r: Option<SamplerMode>)
        ensures
            r is Some <==> sampler_mode_field(self.word) <= 2,
            r matches Some(m) ==> m.as_word() == sampler_mode_field(self.word),
    {
        SamplerMode::from_word((self.word >> 11) & 0xf)
    }

    pub fn get_interpolation_mode(&self) -> (r: Option<InterpolationMode>)
        ensures
            r is Some <==> interpolation_mode_field(self.word) <= 7,
            r matches Some(m) ==> m.as_word() == interpolation_mode_field(self.word),
    {
        InterpolationMode::from_word((self.word >> 11) & 0xf)
    }
}

/// One opcode extension token, held by value.
#[derive(Debug, Clone, Copy, PartialEq, Eq, Structural)]
pub struct OpcodeToken1 {
    pub word: u32,
}

impl OpcodeToken1 {
    pub fn from_word(word: u32) -> (r: Self)
        ensures
            r.word == word,
    {
        OpcodeToken1 { word }
    }

    pub fn get_extended_opcode_type(&self) -> (r: Option<ExtendedOpcodeType>)
        ensures
            r is Some <==> ext_opcode_type_field(self.word) <= 3,
            r matches Some(t) ==> t.as_word() == ext_opcode_type_field(self.word),
    {
        ExtendedOpcodeType::from_word(self.word)
    }

    /// True when yet another extension token follows this one.
    pub fn is_extended(&self) -> (r: bool)
        ensures
            r == token_extended_bit(self.word),
    {
        (self.word >> 31) & 1 == 1
    }
}

/// The extension token of an operand, carrying its modifier.
#[derive(Debug, Clone, Copy, PartialEq, Eq, Structural)]
pub struct OperandToken1 {
    pub word: u32,
}

impl OperandToken1 {
    pub fn from_word(word: u32) -> (r: Self)
        ensures
            r.word == word,
    {
        OperandToken1 { word }
    }

    pub fn get_operand_modifier(&self) -> (r: Option<OperandModifier>)
        ensures
            r is Some <==> operand_modifier_field(self.word) <= 3,
            r matches Some(m) ==> m.as_word() == operand_modifier_field(self.word),
    {
        OperandModifier::from_word(self.word)
    }
}

/// A resource return-type token: one four-bit return type per component.
#[derive(Debug, Clone, Copy, PartialEq, Eq, Structural)]
pub struct ResourceReturnTypeToken0 {
    pub word: u32,
}

impl ResourceReturnTypeToken0 {
    pub fn from_word(word: u32) -> (r: Self)
        ensures
            r.word == word,
    {
        ResourceReturnTypeToken0 { word }
    }

    pub fn get_return_type(&self, name: ComponentName) -> (r: Option<ResourceReturnType>)
        ensures
            r is Some <==> 1 <= resource_return_type_field(self.word, name.as_word() as u32) <= 9,
            r matches Some(t) ==> t.as_word() == resource_return_type_field(
                self.word,
                name.as_word() as u32,
            ),
    {
        let c: u32 = match name {
            ComponentName::X => 0,
            ComponentName::Y => 1,
            ComponentName::Z => 2,
            ComponentName::W => 3,
        };
        ResourceReturnType::from_word((self.word >> (4 * c)) & 0xf)
    }
}

/// The fixed header of a SHEX chunk.
#[derive(Debug, Clone, Copy, PartialEq, Eq, Structural)]
pub struct ShexHeader {
    pub minor: u8,
    pub major: u8,
    pub program_type: u16,
    /// Length of the trailing instruction stream in words (the two header
    /// words already subtracted).
    pub instruction_length: u32,
}

/// The header fields as they sit at `pos` of `d`: a version byte packing
/// minor (low nibble) and major (high nibble), one reserved byte, a 16-bit
/// program type, and a 32-bit total length in words that includes the
/// two-word header itself.
pub open spec fn shex_header_at(d: Seq<u8>, pos: int, h: ShexHeader) -> bool {
    &&& 0 <= pos
    &&& pos + 8 <= d.len()
    &&& h.minor == d[pos] & 0x0f
    &&& h.major == d[pos] >> 4
    &&& h.program_type == crate::bytes::le16(d, pos + 2)
    &&& h.instruction_length == le32(d, pos + 4).wrapping_sub(2)
}

impl ShexHeader {
    /// Reads the fixed header. Succeeds exactly when eight bytes remain.
    pub fn parse(decoder: &mut Decoder) -> (r: Result<ShexHeader, Error>)
        ensures
            final(decoder).data() == old(decoder).data(),
            match r {
                Ok(h) => {
                    &&& shex_header_at(old(decoder).data(), old(decoder).off(), h)
                    &&& final(decoder).off() == old(decoder).off() + 8
                },
                Err(e) => {
                    &&& old(decoder).off() + 8 > old(decoder).data().len()
                    &&& e is StreamExpected
                },
            },
    {
        let version = decoder.read_u8()?;
        let minor = version & 0x0f;
        let major = version >> 4;
        decoder.skip(1)?;
        let program_type = decoder.read_u16()?;
        let total_len = decoder.read_u32()?;
        let instruction_length = total_len.wrapping_sub(2);
        Ok(ShexHeader { minor, major, program_type, instruction_length })
    }
}

/// One index slot or inline value of an operand: a literal, or a nested
/// operand for relative addressing, or both.
#[derive(Debug, PartialEq)]
pub enum Immediate {
    U32(u32),
    U64(u64),
    Relative(Box<OperandToken0>),
    U32Relative(u32, Box<OperandToken0>),
    U64Relative(u64, Box<OperandToken0>),
}

/// A fully decoded operand: its token word, its extension token when the
/// extended bit is set, and its trailing values in stream order.
#[derive(Debug, PartialEq)]
pub struct OperandToken0 {
    pub word: u32,
    pub extension: Option<OperandToken1>,
    pub immediates: Vec<Immediate>,
}

/// How many trailing slots an operand token declares: its index dimension,
/// except that a dimension-0 operand carries its component count of inline
/// values when it is of an immediate type, and none otherwise.
pub open spec fn op_index_count(w: u32) -> int {
    let dim = index_dimension_field(w);
    if dim == 0 {
        let ty = operand_type_field(w);
        if ty == OPERAND_TYPE_IMMEDIATE32 || ty == OPERAND_TYPE_IMMEDIATE64 {
            comp_count(w)
        } else {
            0
        }
    } else {
        dim as int
    }
}

/// The inline value count selected by the component field (0, 1 or 4).
pub open spec fn comp_count(w: u32) -> int {
    let f = num_components_field(w);
    if f == 0 {
        0
    } else if f == 1 {
        1
    } else if f == 2 {
        4
    } else {
        0
    }
}

/// A dimension-0 operand must carry a known type tag, and an immediate type
/// must not select the unsupported component count.
pub open spec fn valid_operand_header(w: u32) -> bool {
    index_dimension_field(w) == 0 ==> {
        &&& operand_type_field(w) <= 40
        &&& (operand_type_field(w) == OPERAND_TYPE_IMMEDIATE32 || operand_type_field(w)
            == OPERAND_TYPE_IMMEDIATE64) ==> num_components_field(w) != 3
    }
}

/// The stream size of one slot, in words.
pub open spec fn imm_words(im: Immediate) -> int
    decreases im, 0int,
{
    match im {
        Immediate::U32(_) => 1,
        Immediate::U64(_) => 2,
        Immediate::Relative(op) => op_words(*op),
        Immediate::U32Relative(_, op) => 1 + op_words(*op),
        Immediate::U64Relative(_, op) => 2 + op_words(*op),
    }
}

/// The stream size of the first `n` slots of `v`, in words.
pub open spec fn imms_words_upto(v: Seq<Immediate>, n: int) -> int
    recommends
        n <= v.len(),
    decreases v, n,
{
    if n <= 0 || n > v.len() {
        0
    } else {
        imms_words_upto(v, n - 1) + imm_words(v[n - 1])
    }
}

/// The stream size of a whole operand in words: its token, its extension
/// token when present, and every slot.
pub open spec fn op_words(op: OperandToken0) -> int
    decreases op, 1int,
{
    1 + (if op.extension is Some {
        1int
    } else {
        0int
    }) + imms_words_upto(op.immediates@, op.immediates@.len() as int)
}

/// Slot `i` of an operand with token word `w` sits at `pos` of `d` and holds
/// `im`: the representation tag picks the variant, literals are read
/// little-endian, and relative slots hold a nested operand decoded at the
/// same position.
pub open spec fn imm_at(d: Seq<u8>, pos: int, repr: u32, im: Immediate) -> bool
    decreases im, 1int,
{
    match im {
        Immediate::U32(x) => repr == INDEX_REP_IMMEDIATE32 && pos + 4 <= d.len() && x == le32(
            d,
            pos,
        ),
        Immediate::U64(x) => repr == INDEX_REP_IMMEDIATE64 && pos + 8 <= d.len() && x == le64(
            d,
            pos,
        ),
        Immediate::Relative(op) => repr == INDEX_REP_RELATIVE && operand_at(d, pos, *op),
        Immediate::U32Relative(x, op) => repr == INDEX_REP_IMMEDIATE32_PLUS_RELATIVE && pos + 4
            <= d.len() && x == le32(d, pos) && operand_at(d, pos + 4, *op),
        Immediate::U64Relative(x, op) => repr == INDEX_REP_IMMEDIATE64_PLUS_RELATIVE && pos + 8
            <= d.len() && x == le64(d, pos) && operand_at(d, pos + 8, *op),
    }
}

/// Slots `i..` of `v` sit consecutively at `pos` of `d`.
pub open spec fn imms_at(d: Seq<u8>, pos: int, w: u32, v: Seq<Immediate>, i: int) -> bool
    decreases v, v.len() - i,
{
    if i < 0 || i >= v.len() {
        true
    } else {
        &&& imm_at(d, pos, index_representation_field(w, i as u32), v[i])
        &&& imms_at(d, pos + 4 * imm_words(v[i]), w, v, i + 1)
    }
}

/// The operand `op` is exactly what decoding at `pos` of `d` yields: token
/// word, extension token iff the extended bit is set, and every slot in
/// order.
pub open spec fn operand_at(d: Seq<u8>, pos: int, op: OperandToken0) -> bool
    decreases op, 2int,
{
    let w = op.word;
    &&& 0 <= pos
    &&& pos + 4 <= d.len()
    &&& w == le32(d, pos)
    &&& match op.extension {
        Some(e) => token_extended_bit(w) && pos + 8 <= d.len() && e.word == le32(d, pos + 4),
        None => !token_extended_bit(w),
    }
    &&& valid_operand_header(w)
    &&& op.immediates@.len() == op_index_count(w)
    &&& imms_at(
        d,
        pos + 4 + (if token_extended_bit(w) {
            4int
        } else {
            0int
        }),
        w,
        op.immediates@,
        0,
    )
}

/// Slots `i..count` all use literal representations and fit in `d` from
/// `pos` on.
pub open spec fn flat_slots_ok(d: Seq<u8>, pos: int, w: u32, i: int, count: int) -> bool
    decreases count - i,
{
    if i >= count {
        true
    } else {
        let repr = index_representation_field(w, i as u32);
        if repr == 0 {
            pos + 4 <= d.len() && flat_slots_ok(d, pos + 4, w, i + 1, count)
        } else if repr == 1 {
            pos + 8 <= d.len() && flat_slots_ok(d, pos + 8, w, i + 1, count)
        } else {
            false
        }
    }
}

/// An operand without relative addressing is decodable at `pos` of `d`:
/// its token fits, its header is valid, its extension token fits when
/// declared, and every slot is a literal that fits. Decoding such an
/// operand always succeeds.
pub open spec fn flat_operand_ok(d: Seq<u8>, pos: int) -> bool {
    &&& 0 <= pos
    &&& pos + 4 <= d.len()
    &&& {
        let w = le32(d, pos);
        &&& valid_operand_header(w)
        &&& (token_extended_bit(w) ==> pos + 8 <= d.len())
        &&& flat_slots_ok(
            d,
            pos + 4 + (if token_extended_bit(w) {
                4int
            } else {
                0int
            }),
            w,
            0,
            op_index_count(w),
        )
    }
}

/// Where the slots `i..count` of a flat operand end, when every slot is a
/// literal that fits.
pub open spec fn flat_slots_end(d: Seq<u8>, pos: int, w: u32, i: int, count: int) -> Option<int>
    decreases count - i,
{
    if i >= count {
        Some(pos)
    } else {
        let repr = index_representation_field(w, i as u32);
        if repr == 0 {
            if pos + 4 <= d.len() {
                flat_slots_end(d, pos + 4, w, i + 1, count)
            } else {
                Option::<int>::None
            }
        } else if repr == 1 {
            if pos + 8 <= d.len() {
                flat_slots_end(d, pos + 8, w, i + 1, count)
            } else {
                Option::<int>::None
            }
        } else {
            Option::<int>::None
        }
    }
}

/// Where an operand without relative addressing decoded at `pos` ends, when
/// it decodes at all.
pub open spec fn flat_operand_end(d: Seq<u8>, pos: int) -> Option<int> {
    if pos < 0 || pos + 4 > d.len() {
        Option::<int>::None
    } else {
        let w = le32(d, pos);
        if !valid_operand_header(w) {
            Option::<int>::None
        } else if token_extended_bit(w) && pos + 8 > d.len() {
            Option::<int>::None
        } else {
            flat_slots_end(
                d,
                pos + 4 + (if token_extended_bit(w) {
                    4int
                } else {
                    0int
                }),
                w,
                0,
                op_index_count(w),
            )
        }
    }
}

/// `k` consecutive flat operands decode from `pos` on.
pub open spec fn flat_ops_ok(d: Seq<u8>, pos: int, k: int) -> bool
    decreases k,
{
    if k <= 0 {
        true
    } else {
        &&& flat_operand_ok(d, pos)
        &&& match flat_operand_end(d, pos) {
            Some(e) => flat_ops_ok(d, e, k - 1),
            None => false,
        }
    }
}

/// The slots of a decoded flat operand end exactly where `flat_slots_end`
/// says.
proof fn lemma_flat_slots_end(d: Seq<u8>, pos: int, w: u32, v: Seq<Immediate>, i: int)
    requires
        0 <= i <= v.len(),
        imms_at(d, pos, w, v, i),
        flat_slots_ok(d, pos, w, i, v.len() as int),
    ensures
        flat_slots_end(d, pos, w, i, v.len() as int) == Some(
            pos + 4 * (imms_words_upto(v, v.len() as int) - imms_words_upto(v, i)),
        ),
    decreases v.len() - i,
{
    if i < v.len() {
        lemma_imms_words_upto_extends(v, i);
        let repr = index_representation_field(w, i as u32);
        assert(imm_at(d, pos, repr, v[i]));
        assert(repr == 0 || repr == 1);
        match v[i] {
            Immediate::U32(_) => {
                assert(imm_words(v[i]) == 1);
            },
            Immediate::U64(_) => {
                assert(imm_words(v[i]) == 2);
            },
            Immediate::Relative(_) => {
                assert(false);
            },
            Immediate::U32Relative(_, _) => {
                assert(false);
            },
            Immediate::U64Relative(_, _) => {
                assert(false);
            },
        }
        lemma_flat_slots_end(d, pos + 4 * imm_words(v[i]), w, v, i + 1);
    }
}

/// A decoded flat operand ends exactly where `flat_operand_end` says: at
/// `pos` plus its stream size.
proof fn lemma_flat_operand_end(d: Seq<u8>, pos: int, op: OperandToken0)
    requires
        operand_at(d, pos, op),
        flat_operand_ok(d, pos),
    ensures
        flat_operand_end(d, pos) == Some(pos + 4 * op_words(op)),
{
    let w = op.word;
    let body = pos + 4 + (if token_extended_bit(w) {
        4int
    } else {
        0int
    });
    lemma_flat_slots_end(d, body, w, op.immediates@, 0);
}

/// Appending a slot that sits right after the slots of `v` extends
/// `imms_at` to the longer vector.
proof fn lemma_imms_at_push(d: Seq<u8>, pos: int, w: u32, v: Seq<Immediate>, x: Immediate, i: int)
    requires
        0 <= i <= v.len(),
        imms_at(d, pos, w, v, i),
        imm_at(
            d,
            pos + 4 * (imms_words_upto(v, v.len() as int) - imms_words_upto(v, i)),
            index_representation_field(w, v.len() as u32),
            x,
        ),
    ensures
        imms_at(d, pos, w, v.push(x), i),
    decreases v.len() - i,
{
    let vp = v.push(x);
    assert(vp.len() == v.len() + 1);
    assert(forall|j: int| 0 <= j < v.len() ==> vp[j] == v[j]);
    assert(vp[v.len() as int] == x);
    if i < v.len() {
        lemma_imms_words_upto_extends(v, i);
        lemma_imms_at_push(d, pos + 4 * imm_words(v[i]), w, v, x, i + 1);
        assert(imms_at(d, pos, w, v, i));
        assert(imm_at(d, pos, index_representation_field(w, i as u32), vp[i]));
        assert(imms_at(d, pos, w, vp, i));
    } else {
        assert(i == v.len());
        assert(imms_words_upto(v, v.len() as int) - imms_words_upto(v, i) == 0);
        assert(imm_at(d, pos, index_representation_field(w, i as u32), vp[i]));
        assert(imms_at(d, pos + 4 * imm_words(x), w, vp, i + 1));
        assert(imms_at(d, pos, w, vp, i));
    }
}

/// `imms_words_upto` unfolds one slot at a time from the front.
proof fn lemma_imms_words_upto_extends(v: Seq<Immediate>, i: int)
    requires
        0 <= i < v.len(),
    ensures
        imms_words_upto(v, i + 1) == imms_words_upto(v, i) + imm_words(v[i]),
{
}

/// The slot sizes of a vector do not change when it grows.
proof fn lemma_imms_words_upto_push(v: Seq<Immediate>, x: Immediate, n: int)
    requires
        0 <= n <= v.len(),
    ensures
        imms_words_upto(v.push(x), n) == imms_words_upto(v, n),
    decreases n,
{
    if n > 0 {
        assert(v.push(x)[n - 1] == v[n - 1]);
        lemma_imms_words_upto_push(v, x, n - 1);
    }
}

impl OperandToken0 {
    /// Decodes one operand: the token word, the extension token when the
    /// extended bit is set, then one slot per declared index, recursing into
    /// nested operands for relative representations. On success the cursor
    /// stands exactly `op_words` words further; an operand without relative
    /// addressing that fits the buffer always decodes.
    pub fn parse(decoder: &mut Decoder<'_>) -> (r: Result<OperandToken0, Error>)
        ensures
            final(decoder).data() == old(decoder).data(),
            match r {
                Ok(op) => {
                    &&& operand_at(old(decoder).data(), old(decoder).off(), op)
                    &&& final(decoder).off() == old(decoder).off() + 4 * op_words(op)
                    &&& old(decoder).off() <= final(decoder).off() <= old(decoder).data().len()
                },
                Err(e) => e is StreamExpected || e is FormatViolation,
            },
            flat_operand_ok(old(decoder).data(), old(decoder).off()) ==> r is Ok,
        decreases decoder.data().len() - decoder.off(),
    {
        let ghost d = decoder.data();
        let ghost start = decoder.off();
        proof {
            if flat_operand_ok(d, start) {
                assert(start + 4 <= d.len());
            }
        }
        let word = decoder.read_u32()?;
        proof {
            if flat_operand_ok(d, start) {
                assert(valid_operand_header(word));
                assert(token_extended_bit(word) ==> start + 8 <= d.len());
            }
        }

        let dim = (word >> 20) & 3;
        proof {
            let w = word;
            assert((w >> 20u32) & 3 <= 3) by (bit_vector);
            assert((w & 3) <= 3) by (bit_vector);
        }
        let count: u32;
        if dim == 0 {
            let ty = (word >> 12) & 0xff;
            if ty > 40 {
                assert(!valid_operand_header(word));
                return Err(Error::FormatViolation(decoder.get_offset()));
            }
            if ty == 4 || ty == 5 {
                let f = word & 3;
                if f == 3 {
                    assert(!valid_operand_header(word));
                    return Err(Error::FormatViolation(decoder.get_offset()));
                }
                count = if f == 0 {
                    0
                } else if f == 1 {
                    1
                } else {
                    4
                };
            } else {
                count = 0;
            }
        } else {
            count = dim;
        }
        assert(count == op_index_count(word));
        assert(valid_operand_header(word));

        let extension: Option<OperandToken1>;
        if (word >> 31) & 1 == 1 {
            assert(token_extended_bit(word));
            let ext = decoder.read_u32()?;
            extension = Some(OperandToken1 { word: ext });
        } else {
            assert(!token_extended_bit(word));
            extension = None;
        }
        let ghost body = decoder.off();
        proof {
            if flat_operand_ok(d, start) {
                assert(flat_slots_ok(d, body, word, 0, count as int));
            }
        }

        let mut immediates: Vec<Immediate> = Vec::new();
        let mut i: u32 = 0;
        while i < count
            invariant
                i <= count,
                count <= 4,
                count == op_index_count(word),
                valid_operand_header(word),
                decoder.data() == d,
                d == old(decoder).data(),
                start == old(decoder).off(),
                word == le32(d, start),
                body == start + 4 + (if token_extended_bit(word) {
                    4int
                } else {
                    0int
                }),
                0 <= start,
                start + 4 <= body <= d.len(),
                immediates@.len() == i,
                imms_at(d, body, word, immediates@, 0),
                decoder.off() == body + 4 * imms_words_upto(immediates@, i as int),
                body <= decoder.off() <= d.len(),
                flat_operand_ok(d, start) ==> flat_slots_ok(
                    d,
                    decoder.off(),
                    word,
                    i as int,
                    count as int,
                ),
            decreases count - i,
        {
            let ghost pre_v = immediates@;
            let ghost pre_off = decoder.off();
            let repr = (word >> (22 + 3 * i)) & 7;
            proof {
                let w = word;
                let ii = i;
                assert(ii <= 3 ==> ((w >> ((22 + 3 * ii) as u32)) & 7)
                    == index_representation_field(w, ii)) by (bit_vector);
                if flat_operand_ok(d, start) {
                    assert(flat_slots_ok(d, pre_off, word, i as int, count as int));
                }
            }
            let im: Immediate;
            if repr == 0 {
                let v = decoder.read_u32()?;
                im = Immediate::U32(v);
            } else if repr == 1 {
                let v = decoder.read_u64()?;
                im = Immediate::U64(v);
            } else if repr == 2 {
                proof {
                    if flat_operand_ok(d, start) {
                        assert(false);
                    }
                }
                let op = OperandToken0::parse(decoder)?;
                im = Immediate::Relative(Box::new(op));
            } else if repr == 3 {
                proof {
                    if flat_operand_ok(d, start) {
                        assert(false);
                    }
                }
                let v = decoder.read_u32()?;
                let op = OperandToken0::parse(decoder)?;
                im = Immediate::U32Relative(v, Box::new(op));
            } else if repr == 4 {
                proof {
                    if flat_operand_ok(d, start) {
                        assert(false);
                    }
                }
                let v = decoder.read_u64()?;
                let op = OperandToken0::parse(decoder)?;
                im = Immediate::U64Relative(v, Box::new(op));
            } else {
                proof {
                    if flat_operand_ok(d, start) {
                        assert(false);
                    }
                }
                return Err(Error::FormatViolation(decoder.get_offset()));
            }
            proof {
                assert(imm_at(d, pre_off, index_representation_field(word, i), im));
                assert(pre_off == body + 4 * (imms_words_upto(pre_v, pre_v.len() as int)
                    - imms_words_upto(pre_v, 0)));
                lemma_imms_at_push(d, body, word, pre_v, im, 0);
                lemma_imms_words_upto_push(pre_v, im, i as int);
                lemma_imms_words_upto_extends(pre_v.push(im), i as int);
                assert(pre_v.push(im)[i as int] == im);
            }
            immediates.push(im);
            i = i + 1;
        }

        let op = OperandToken0 { word, extension, immediates };
        Ok(op)
    }
}

/// Every slot size is at least one word.
proof fn lemma_imm_words_pos(im: Immediate)
    ensures
        imm_words(im) >= 1,
    decreases im, 2int,
{
    match im {
        Immediate::U32(_) => {},
        Immediate::U64(_) => {},
        Immediate::Relative(op) => lemma_op_words_pos(*op),
        Immediate::U32Relative(_, op) => lemma_op_words_pos(*op),
        Immediate::U64Relative(_, op) => lemma_op_words_pos(*op),
    }
}

/// Slot prefixes have non-negative sizes.
proof fn lemma_imms_words_nonneg(v: Seq<Immediate>, n: int)
    ensures
        imms_words_upto(v, n) >= 0,
    decreases v, n,
{
    if 0 < n <= v.len() {
        lemma_imm_words_pos(v[n - 1]);
        lemma_imms_words_nonneg(v, n - 1);
    }
}

/// Every operand spans at least its token word.
proof fn lemma_op_words_pos(op: OperandToken0)
    ensures
        op_words(op) >= 1,
    decreases op, 3int,
{
    lemma_imms_words_nonneg(op.immediates@, op.immediates@.len() as int);
}

/// Longer slot prefixes are at least as large.
proof fn lemma_imms_words_mono(v: Seq<Immediate>, a: int, b: int)
    requires
        0 <= a <= b <= v.len(),
    ensures
        imms_words_upto(v, a) <= imms_words_upto(v, b),
    decreases b - a,
{
    if a < b {
        lemma_imm_words_pos(v[b - 1]);
        lemma_imms_words_mono(v, a, b - 1);
    }
}

impl OperandToken0 {
    /// The size in words of what follows this operand's leading token: its
    /// extension token when present and every trailing slot, a nested
    /// operand counting all of its words, its own leading token included.
    pub fn len(&self) -> (r: u32)
        requires
            op_words(*self) <= u32::MAX,
        ensures
            r as int == op_words(*self) - 1,
        decreases *self,
    {
        let ghost whole = op_words(*self);
        let ext: u32 = if self.extension.is_some() {
            1
        } else {
            0
        };
        proof {
            lemma_imms_words_nonneg(self.immediates@, self.immediates@.len() as int);
        }
        let mut total: u32 = ext;
        let mut i: usize = 0;
        while i < self.immediates.len()
            invariant
                i <= self.immediates@.len(),
                whole == op_words(*self),
                whole <= u32::MAX,
                ext == (if self.extension is Some {
                    1int
                } else {
                    0int
                }),
                total as int == ext + imms_words_upto(self.immediates@, i as int),
            decreases self.immediates@.len() - i,
        {
            let ghost v = self.immediates@;
            proof {
                lemma_imms_words_upto_extends(v, i as int);
                lemma_imms_words_mono(v, i as int + 1, v.len() as int);
                lemma_imm_words_pos(v[i as int]);
                match v[i as int] {
                    Immediate::Relative(op) => lemma_op_words_pos(*op),
                    Immediate::U32Relative(_, op) => lemma_op_words_pos(*op),
                    Immediate::U64Relative(_, op) => lemma_op_words_pos(*op),
                    _ => {},
                }
            }
            let sz: u32 = match &self.immediates[i] {
                Immediate::U32(_) => 1,
                Immediate::U64(_) => 2,
                Immediate::Relative(op) => 1 + op.len(),
                Immediate::U32Relative(_, op) => 2 + op.len(),
                Immediate::U64Relative(_, op) => 3 + op.len(),
            };
            total = total + sz;
            i = i + 1;
        }
        total
    }

    /// The extension token, when the extended bit is set.
    pub fn get_extended_operand(&self) -> (r: Option<OperandToken1>)
        ensures
            r == self.extension,
    {
        self.extension
    }

    /// Every trailing slot of the operand, in stream order.
    pub fn get_immediates(&self) -> (r: &Vec<Immediate>)
        ensures
            r@ == self.immediates@,
    {
        &self.immediates
    }

    /// Slot `index`, when the operand has that many.
    pub fn get_immediate(&self, index: usize) -> (r: Option<&Immediate>)
        ensures
            match r {
                Some(im) => index < self.immediates@.len() && *im == self.immediates@[index as int],
                None => index >= self.immediates@.len(),
            },
    {
        if index < self.immediates.len() {
            Some(&self.immediates[index])
        } else {
            None
        }
    }

    pub fn is_extended(&self) -> (r: bool)
        ensures
            r == token_extended_bit(self.word),
    {
        (self.word >> 31) & 1 == 1
    }

    pub fn get_num_components(&self) -> (r: NumComponents)
        ensures
            r.as_word() == num_components_field(self.word),
    {
        proof {
            let w = self.word;
            assert(w & 3 <= 3) by (bit_vector);
        }
        match NumComponents::from_word(self.word & 3) {
            Some(n) => n,
            None => NumComponents::Zero,
        }
    }

    /// The inline value count, when the component field selects a supported
    /// one (0, 1 or 4 values).
    pub fn get_num_components_u32(&self) -> (r: Option<u32>)
        ensures
            r is Some <==> num_components_field(self.word) != 3,
            r matches Some(n) ==> n == comp_count(self.word),
    {
        let f = self.word & 3;
        if f == 0 {
            Some(0)
        } else if f == 1 {
            Some(1)
        } else if f == 2 {
            Some(4)
        } else {
            proof {
                let w = self.word;
                assert(w & 3 <= 3) by (bit_vector);
            }
            None
        }
    }

    pub fn get_component_select_mode(&self) -> (r: Option<ComponentSelectMode>)
        ensures
            r is Some <==> crate::tokens::select_mode_field(self.word) <= 2,
            r matches Some(m) ==> m.as_word() == crate::tokens::select_mode_field(self.word),
    {
        ComponentSelectMode::from_word((self.word >> 2) & 3)
    }

    /// The component mask in mask mode, kept at its in-word scale
    /// (bits 0x10 to 0x80).
    pub fn get_component_mask(&self) -> (r: u32)
        ensures
            r == crate::tokens::component_mask_field(self.word),
    {
        self.word & 0xf0
    }

    pub fn get_component_swizzle(&self) -> (r: ComponentSwizzle)
        ensures
            r.0.as_word() as u32 == crate::tokens::swizzle_source_field(self.word, 0),
            r.1.as_word() as u32 == crate::tokens::swizzle_source_field(self.word, 1),
            r.2.as_word() as u32 == crate::tokens::swizzle_source_field(self.word, 2),
            r.3.as_word() as u32 == crate::tokens::swizzle_source_field(self.word, 3),
    {
        proof {
            let w = self.word;
            assert((w >> 4u32) & 3 <= 3 && (w >> 6u32) & 3 <= 3 && (w >> 8u32) & 3 <= 3 && (w
                >> 10u32) & 3 <= 3) by (bit_vector);
        }
        let x = ((self.word >> 4) & 3) as u8;
        let y = ((self.word >> 6) & 3) as u8;
        let z = ((self.word >> 8) & 3) as u8;
        let w = ((self.word >> 10) & 3) as u8;
        let cx = match ComponentName::from_word(x) {
            Some(c) => c,
            None => ComponentName::X,
        };
        let cy = match ComponentName::from_word(y) {
            Some(c) => c,
            None => ComponentName::X,
        };
        let cz = match ComponentName::from_word(z) {
            Some(c) => c,
            None => ComponentName::X,
        };
        let cw = match ComponentName::from_word(w) {
            Some(c) => c,
            None => ComponentName::X,
        };
        ComponentSwizzle(cx, cy, cz, cw)
    }

    pub fn get_operand_type(&self) -> (r: Option<OperandType>)
        ensures
            r is Some <==> crate::tokens::operand_type_field(self.word) <= 40,
            r matches Some(t) ==> t.as_word() == crate::tokens::operand_type_field(self.word),
    {
        OperandType::from_word((self.word >> 12) & 0xff)
    }

    pub fn get_index_dimension(&self) -> (r: IndexDimension)
        ensures
            r.as_word() == index_dimension_field(self.word),
    {
        proof {
            let w = self.word;
            assert((w >> 20u32) & 3 <= 3) by (bit_vector);
        }
        match IndexDimension::from_word((self.word >> 20) & 3) {
            Some(d) => d,
            None => IndexDimension::D0,
        }
    }

    /// The representation tag of index slot `index`.
    pub fn get_index_representation(&self, index: u32) -> (r: Option<IndexRepresentation>)
        requires
            index <= 3,
        ensures
            r is Some <==> index_representation_field(self.word, index) <= 4,
            r matches Some(t) ==> t.as_word() == index_representation_field(self.word, index),
    {
        IndexRepresentation::from_word((self.word >> (22 + 3 * index)) & 7)
    }
}

/// The first slot of `op` as a plain register number: the 32-bit literal it
/// holds, or the all-ones marker when the slot is missing or not a 32-bit
/// literal.
pub open spec fn slot_u32_or_max(op: OperandToken0, i: int) -> u32 {
    if 0 <= i < op.immediates@.len() {
        match op.immediates@[i] {
            Immediate::U32(x) => x,
            _ => 0xffffffffu32,
        }
    } else {
        0xffffffffu32
    }
}

/// Global flags carried by a global-flags declaration.
#[derive(Debug, PartialEq)]
pub struct DclGlobalFlags {
    pub global_flags: u32,
}

impl DclGlobalFlags {
    pub fn is_refactoring_allowed(&self) -> (r: bool)
        ensures
            r == (self.global_flags & GLOBAL_FLAG_REFACTORING_ALLOWED != 0),
    {
        self.global_flags & GLOBAL_FLAG_REFACTORING_ALLOWED != 0
    }

    pub fn is_enable_double_precision_float_ops_enabled(&self) -> (r: bool)
        ensures
            r == (self.global_flags & GLOBAL_FLAG_ENABLE_DOUBLE_PRECISION_FLOAT_OPS != 0),
    {
        self.global_flags & GLOBAL_FLAG_ENABLE_DOUBLE_PRECISION_FLOAT_OPS != 0
    }

    pub fn is_force_early_depth_stencil_enabled(&self) -> (r: bool)
        ensures
            r == (self.global_flags & GLOBAL_FLAG_FORCE_EARLY_DEPTH_STENCIL != 0),
    {
        self.global_flags & GLOBAL_FLAG_FORCE_EARLY_DEPTH_STENCIL != 0
    }

    pub fn is_raw_and_structured_buffers_enabled(&self) -> (r: bool)
        ensures
            r == (self.global_flags & GLOBAL_FLAG_ENABLE_RAW_AND_STRUCTURED_BUFFERS != 0),
    {
        self.global_flags & GLOBAL_FLAG_ENABLE_RAW_AND_STRUCTURED_BUFFERS != 0
    }

    pub fn is_skip_optimization_enabled(&self) -> (r: bool)
        ensures
            r == (self.global_flags & GLOBAL_FLAG_SKIP_OPTIMIZATION != 0),
    {
        self.global_flags & GLOBAL_FLAG_SKIP_OPTIMIZATION != 0
    }

    pub fn is_minimum_precision_enabled(&self) -> (r: bool)
        ensures
            r == (self.global_flags & GLOBAL_FLAG_ENABLE_MINIMUM_PRECISION != 0),
    {
        self.global_flags & GLOBAL_FLAG_ENABLE_MINIMUM_PRECISION != 0
    }

    pub fn is_double_extensions_enabled(&self) -> (r: bool)
        ensures
            r == (self.global_flags & GLOBAL_FLAG_ENABLE_DOUBLE_EXTENSIONS != 0),
    {
        self.global_flags & GLOBAL_FLAG_ENABLE_DOUBLE_EXTENSIONS != 0
    }

    pub fn is_shader_extensions_enabled(&self) -> (r: bool)
        ensures
            r == (self.global_flags & GLOBAL_FLAG_ENABLE_SHADER_EXTENSIONS != 0),
    {
        self.global_flags & GLOBAL_FLAG_ENABLE_SHADER_EXTENSIONS != 0
    }
}

#[derive(Debug, PartialEq)]
pub struct DclInput {
    pub operand: OperandToken0,
}

impl DclInput {
    pub fn get_input_register(&self) -> (r: u32)
        ensures
            r == slot_u32_or_max(self.operand, 0),
    {
        match self.operand.get_immediate(0) {
            Some(Immediate::U32(reg)) => *reg,
            _ => 0xffffffff,
        }
    }
}

#[derive(Debug, PartialEq)]
pub struct DclInputPs {
    pub operand: OperandToken0,
}

impl DclInputPs {
    pub fn get_input_register(&self) -> (r: u32)
        ensures
            r == slot_u32_or_max(self.operand, 0),
    {
        match self.operand.get_immediate(0) {
            Some(Immediate::U32(reg)) => *reg,
            _ => 0xffffffff,
        }
    }
}

#[derive(Debug, PartialEq)]
pub struct DclOutput {
    pub operand: OperandToken0,
}

impl DclOutput {
    pub fn get_output_register(&self) -> (r: u32)
        ensures
            r == slot_u32_or_max(self.operand, 0),
    {
        match self.operand.get_immediate(0) {
            Some(Immediate::U32(reg)) => *reg,
            _ => 0xffffffff,
        }
    }
}

#[derive(Debug, PartialEq)]
pub struct DclConstantBuffer {
    pub operand: OperandToken0,
    /// The access-pattern bit of the declaration token.
    pub access: u32,
}

impl DclConstantBuffer {
    pub fn get_access_pattern(&self) -> (r: ConstantBufferIndexPattern)
        ensures
            r == (if self.access == 0 {
                ConstantBufferIndexPattern::Immediate
            } else {
                ConstantBufferIndexPattern::Dynamic
            }),
    {
        if self.access == 0 {
            ConstantBufferIndexPattern::Immediate
        } else {
            ConstantBufferIndexPattern::Dynamic
        }
    }

    pub fn get_binding(&self) -> (r: u32)
        ensures
            r == slot_u32_or_max(self.operand, 0),
    {
        match self.operand.get_immediate(0) {
            Some(Immediate::U32(reg)) => *reg,
            _ => 0xffffffff,
        }
    }

    pub fn get_size(&self) -> (r: u32)
        ensures
            r == slot_u32_or_max(self.operand, 1),
    {
        match self.operand.get_immediate(1) {
            Some(Immediate::U32(reg)) => *reg,
            _ => 0xffffffff,
        }
    }
}

#[derive(Debug, PartialEq)]
pub struct DclResource {
    pub register: OperandToken0,
    pub return_type: ResourceReturnTypeToken0,
}

impl DclResource {
    pub fn get_register(&self) -> (r: u32)
        ensures
            r == slot_u32_or_max(self.register, 0),
    {
        match self.register.get_immediate(0) {
            Some(Immediate::U32(reg)) => *reg,
            _ => 0xffffffff,
        }
    }
}

#[derive(Debug, PartialEq)]
pub struct DclSampler {
    pub operand: OperandToken0,
}

impl DclSampler {
    pub fn get_register(&self) -> (r: u32)
        ensures
            r == slot_u32_or_max(self.operand, 0),
    {
        match self.operand.get_immediate(0) {
            Some(Immediate::U32(reg)) => *reg,
            _ => 0xffffffff,
        }
    }
}

#[derive(Debug, PartialEq)]
pub struct DclOutputSiv {
    pub operand: OperandToken0,
    pub operand_2: OperandToken0,
}

impl DclOutputSiv {
    pub fn get_output_register(&self) -> (r: u32)
        ensures
            r == slot_u32_or_max(self.operand, 0),
    {
        match self.operand.get_immediate(0) {
            Some(Immediate::U32(reg)) => *reg,
            _ => 0xffffffff,
        }
    }

    pub fn get_system_name(&self) -> (r: Option<NameToken>)
        ensures
            r is Some <==> crate::tokens::name_token_field(self.operand_2.word) <= 22,
            r matches Some(t) ==> t.as_word() == crate::tokens::name_token_field(
                self.operand_2.word,
            ),
    {
        NameToken::from_word(self.operand_2.word & 0xffff)
    }
}

#[derive(Debug, PartialEq)]
pub struct DclOutputSgv {
    pub operand: OperandToken0,
    pub operand_2: OperandToken0,
}

impl DclOutputSgv {
    pub fn get_output_register(&self) -> (r: u32)
        ensures
            r == slot_u32_or_max(self.operand, 0),
    {
        match self.operand.get_immediate(0) {
            Some(Immediate::U32(reg)) => *reg,
            _ => 0xffffffff,
        }
    }

    pub fn get_system_name(&self) -> (r: Option<NameToken>)
        ensures
            r is Some <==> crate::tokens::name_token_field(self.operand_2.word) <= 22,
            r matches Some(t) ==> t.as_word() == crate::tokens::name_token_field(
                self.operand_2.word,
            ),
    {
        NameToken::from_word(self.operand_2.word & 0xffff)
    }
}

#[derive(Debug, PartialEq)]
pub struct DclInputPsSiv {
    pub operand: OperandToken0,
    pub operand_2: OperandToken0,
}

impl DclInputPsSiv {
    pub fn get_input_register(&self) -> (r: u32)
        ensures
            r == slot_u32_or_max(self.operand, 0),
    {
        match self.operand.get_immediate(0) {
            Some(Immediate::U32(reg)) => *reg,
            _ => 0xffffffff,
        }
    }

    pub fn get_system_name(&self) -> (r: Option<NameToken>)
        ensures
            r is Some <==> crate::tokens::name_token_field(self.operand_2.word) <= 22,
            r matches Some(t) ==> t.as_word() == crate::tokens::name_token_field(
                self.operand_2.word,
            ),
    {
        NameToken::from_word(self.operand_2.word & 0xffff)
    }
}

#[derive(Debug, PartialEq)]
pub struct DclInputPsSgv {
    pub operand: OperandToken0,
    pub operand_2: OperandToken0,
}

impl DclInputPsSgv {
    pub fn get_input_register(&self) -> (r: u32)
        ensures
            r == slot_u32_or_max(self.operand, 0),
    {
        match self.operand.get_immediate(0) {
            Some(Immediate::U32(reg)) => *reg,
            _ => 0xffffffff,
        }
    }

    pub fn get_system_name(&self) -> (r: Option<NameToken>)
        ensures
            r is Some <==> crate::tokens::name_token_field(self.operand_2.word) <= 22,
            r matches Some(t) ==> t.as_word() == crate::tokens::name_token_field(
                self.operand_2.word,
            ),
    {
        NameToken::from_word(self.operand_2.word & 0xffff)
    }
}

#[derive(Debug, PartialEq)]
pub struct DclTemps {
    pub register_count: u32,
}

#[derive(Debug, PartialEq)]
pub struct DclIndexableTemp {
    pub register_index: u32,
    pub register_count: u32,
    pub num_components: u32,
}

#[derive(Debug, PartialEq)]
pub struct Add {
    pub dst: OperandToken0,
    pub a: OperandToken0,
    pub b: OperandToken0,
}

#[derive(Debug, PartialEq)]
pub struct And {
    pub dst: OperandToken0,
    pub a: OperandToken0,
    pub b: OperandToken0,
}

#[derive(Debug, PartialEq)]
pub struct Mul {
    pub dst: OperandToken0,
    pub a: OperandToken0,
    pub b: OperandToken0,
}

#[derive(Debug, PartialEq)]
pub struct Mad {
    pub dst: OperandToken0,
    pub a: OperandToken0,
    pub b: OperandToken0,
    pub c: OperandToken0,
}

#[derive(Debug, PartialEq)]
pub struct Mov {
    pub dst: OperandToken0,
    pub src: OperandToken0,
}

#[derive(Debug, PartialEq)]
pub struct Itof {
    pub dst: OperandToken0,
    pub src: OperandToken0,
}

#[derive(Debug, PartialEq)]
pub struct Utof {
    pub dst: OperandToken0,
    pub src: OperandToken0,
}

#[derive(Debug, PartialEq)]
pub struct Ftou {
    pub dst: OperandToken0,
    pub src: OperandToken0,
}

#[derive(Debug, PartialEq)]
pub struct Loop;

#[derive(Debug, PartialEq)]
pub struct EndLoop;

#[derive(Debug, PartialEq)]
pub struct BreakC {
    pub src: OperandToken0,
}

#[derive(Debug, PartialEq)]
pub struct If {
    pub src: OperandToken0,
}

#[derive(Debug, PartialEq)]
pub struct SampleL {
    pub dst: OperandToken0,
    pub src_address: OperandToken0,
    pub src_resource: OperandToken0,
    pub src_sampler: OperandToken0,
    pub src_lod: OperandToken0,
}

#[derive(Debug, PartialEq)]
pub struct Sample {
    pub dst: OperandToken0,
    pub src_address: OperandToken0,
    pub src_resource: OperandToken0,
    pub src_sampler: OperandToken0,
}

/// One decoded instruction: its opcode token and its dispatched operand
/// group.
#[derive(Debug, PartialEq)]
pub struct SparseInstruction {
    pub opcode: OpcodeToken0,
    pub operands: Operands,
}

#[derive(Debug, PartialEq)]
pub enum Operands {
    DclGlobalFlags(DclGlobalFlags),
    DclInput(DclInput),
    DclInputPs(DclInputPs),
    DclOutput(DclOutput),
    DclConstantBuffer(DclConstantBuffer),
    DclResource(DclResource),
    DclSampler(DclSampler),
    DclOutputSiv(DclOutputSiv),
    DclOutputSgv(DclOutputSgv),
    DclInputPsSiv(DclInputPsSiv),
    DclInputPsSgv(DclInputPsSgv),
    DclTemps(DclTemps),
    DclIndexableTemp(DclIndexableTemp),
    Add(Add),
    And(And),
    Mul(Mul),
    Mad(Mad),
    Mov(Mov),
    Itof(Itof),
    Utof(Utof),
    Ftou(Ftou),
    If(If),
    Else,
    EndIf,
    Loop,
    EndLoop,
    Break,
    BreakC(BreakC),
    Sample(Sample),
    SampleL(SampleL),
    Ret,
    Unknown,
}

/// Where an extension chain beginning at `pos` ends: one past the first
/// token whose chained bit is clear, or nothing when the chain runs off the
/// end of the buffer.
pub open spec fn ext_chain_end(d: Seq<u8>, pos: int) -> Option<int>
    decreases d.len() - pos,
{
    if pos < 0 || pos + 4 > d.len() {
        None
    } else if !token_extended_bit(le32(d, pos)) {
        Some(pos + 4)
    } else {
        ext_chain_end(d, pos + 4)
    }
}

/// Where the operand data of the instruction at `pos` begins: right after
/// the opcode token, or after its extension chain when the extended bit is
/// set.
pub open spec fn opcode_body(d: Seq<u8>, pos: int) -> Option<int> {
    if pos < 0 || pos + 4 > d.len() {
        None
    } else if !token_extended_bit(le32(d, pos)) {
        Some(pos + 4)
    } else {
        ext_chain_end(d, pos + 4)
    }
}

/// A chain of `n` tokens whose chained bits are set, closed by one whose bit
/// is clear, is consumed exactly: the chain ends right past that closing
/// token, never earlier and never later.
pub proof fn lemma_extension_chain_consumed(d: Seq<u8>, pos: int, n: int)
    requires
        0 <= pos,
        0 <= n,
        pos + 4 * (n + 1) <= d.len(),
        forall|j: int| 0 <= j < n ==> token_extended_bit(#[trigger] le32(d, pos + 4 * j)),
        !token_extended_bit(le32(d, pos + 4 * n)),
    ensures
        ext_chain_end(d, pos) == Some(pos + 4 * (n + 1)),
    decreases n,
{
    if n > 0 {
        assert(token_extended_bit(le32(d, pos + 4 * 0)));
        assert forall|j: int| 0 <= j < n - 1 implies token_extended_bit(
            #[trigger] le32(d, (pos + 4) + 4 * j),
        ) by {
            assert(le32(d, (pos + 4) + 4 * j) == le32(d, pos + 4 * (j + 1)));
        }
        assert(le32(d, (pos + 4) + 4 * (n - 1)) == le32(d, pos + 4 * n));
        lemma_extension_chain_consumed(d, pos + 4, n - 1);
    }
}

pub open spec fn op1_at(d: Seq<u8>, p: int, a: OperandToken0, end: int) -> bool {
    &&& operand_at(d, p, a)
    &&& end == p + 4 * op_words(a)
}

pub open spec fn op2_at(d: Seq<u8>, p: int, a: OperandToken0, b: OperandToken0, end: int) -> bool {
    &&& operand_at(d, p, a)
    &&& op1_at(d, p + 4 * op_words(a), b, end)
}

pub open spec fn op3_at(
    d: Seq<u8>,
    p: int,
    a: OperandToken0,
    b: OperandToken0,
    c: OperandToken0,
    end: int,
) -> bool {
    &&& operand_at(d, p, a)
    &&& op2_at(d, p + 4 * op_words(a), b, c, end)
}

pub open spec fn op4_at(
    d: Seq<u8>,
    p: int,
    a: OperandToken0,
    b: OperandToken0,
    c: OperandToken0,
    e: OperandToken0,
    end: int,
) -> bool {
    &&& operand_at(d, p, a)
    &&& op3_at(d, p + 4 * op_words(a), b, c, e, end)
}

pub open spec fn op5_at(
    d: Seq<u8>,
    p: int,
    a: OperandToken0,
    b: OperandToken0,
    c: OperandToken0,
    e: OperandToken0,
    f: OperandToken0,
    end: int,
) -> bool {
    &&& operand_at(d, p, a)
    &&& op4_at(d, p + 4 * op_words(a), b, c, e, f, end)
}

/// The opcodes this crate's dispatch table recognizes.
pub open spec fn is_known_opcode(ty: u32) -> bool {
    ||| ty == OPCODE_DCL_GLOBAL_FLAGS
    ||| ty == OPCODE_DCL_INPUT
    ||| ty == OPCODE_DCL_INPUT_PS
    ||| ty == OPCODE_DCL_INPUT_PS_SIV
    ||| ty == OPCODE_DCL_INPUT_PS_SGV
    ||| ty == OPCODE_DCL_OUTPUT
    ||| ty == OPCODE_DCL_CONSTANT_BUFFER
    ||| ty == OPCODE_DCL_RESOURCE
    ||| ty == OPCODE_DCL_SAMPLER
    ||| ty == OPCODE_DCL_TEMPS
    ||| ty == OPCODE_DCL_INDEXABLE_TEMP
    ||| ty == OPCODE_DCL_OUTPUT_SIV
    ||| ty == OPCODE_DCL_OUTPUT_SGV
    ||| ty == OPCODE_ADD
    ||| ty == OPCODE_AND
    ||| ty == OPCODE_MUL
    ||| ty == OPCODE_MAD
    ||| ty == OPCODE_MOV
    ||| ty == OPCODE_ITOF
    ||| ty == OPCODE_UTOF
    ||| ty == OPCODE_FTOU
    ||| ty == OPCODE_IF
    ||| ty == OPCODE_ELSE
    ||| ty == OPCODE_ENDIF
    ||| ty == OPCODE_LOOP
    ||| ty == OPCODE_ENDLOOP
    ||| ty == OPCODE_BREAK
    ||| ty == OPCODE_BREAKC
    ||| ty == OPCODE_SAMPLE
    ||| ty == OPCODE_SAMPLE_L
    ||| ty == OPCODE_RET
}

/// How far an unrecognized instruction advances past its operand start:
/// `declared length - 1` words beyond the opcode token.
pub open spec fn unknown_skip(w0: u32) -> int {
    if instr_length_field(w0) > 1 {
        4 * (instr_length_field(w0) - 1)
    } else {
        0
    }
}

/// The operand group of an instruction with opcode token `w0` and opcode
/// number `ty`, whose operand data begins at `body` of `d` and whose decode
/// ends at `end`.
pub open spec fn operands_at(
    d: Seq<u8>,
    body: int,
    w0: u32,
    ty: u32,
    ops: Operands,
    end: int,
) -> bool {
    if ty == OPCODE_DCL_GLOBAL_FLAGS {
        &&& ops matches Operands::DclGlobalFlags(g)
        &&& g.global_flags == crate::tokens::global_flags_field(w0)
        &&& end == body
    } else if ty == OPCODE_DCL_INPUT {
        ops matches Operands::DclInput(x) && op1_at(d, body, x.operand, end)
    } else if ty == OPCODE_DCL_INPUT_PS {
        ops matches Operands::DclInputPs(x) && op1_at(d, body, x.operand, end)
    } else if ty == OPCODE_DCL_INPUT_PS_SIV {
        ops matches Operands::DclInputPsSiv(x) && op2_at(d, body, x.operand, x.operand_2, end)
    } else if ty == OPCODE_DCL_INPUT_PS_SGV {
        ops matches Operands::DclInputPsSgv(x) && op2_at(d, body, x.operand, x.operand_2, end)
    } else if ty == OPCODE_DCL_OUTPUT {
        ops matches Operands::DclOutput(x) && op1_at(d, body, x.operand, end)
    } else if ty == OPCODE_DCL_CONSTANT_BUFFER {
        &&& ops matches Operands::DclConstantBuffer(x)
        &&& x.access == crate::tokens::cb_access_field(w0)
        &&& op1_at(d, body, x.operand, end)
    } else if ty == OPCODE_DCL_RESOURCE {
        &&& ops matches Operands::DclResource(x)
        &&& operand_at(d, body, x.register)
        &&& {
            let mid = body + 4 * op_words(x.register);
            &&& mid + 4 <= d.len()
            &&& x.return_type.word == le32(d, mid)
            &&& end == mid + 4
        }
    } else if ty == OPCODE_DCL_SAMPLER {
        ops matches Operands::DclSampler(x) && op1_at(d, body, x.operand, end)
    } else if ty == OPCODE_DCL_TEMPS {
        &&& ops matches Operands::DclTemps(x)
        &&& body + 4 <= d.len()
        &&& x.register_count == le32(d, body)
        &&& end == body + 4
    } else if ty == OPCODE_DCL_INDEXABLE_TEMP {
        &&& ops matches Operands::DclIndexableTemp(x)
        &&& body + 12 <= d.len()
        &&& x.register_index == le32(d, body)
        &&& x.register_count == le32(d, body + 4)
        &&& x.num_components == le32(d, body + 8)
        &&& end == body + 12
    } else if ty == OPCODE_DCL_OUTPUT_SIV {
        ops matches Operands::DclOutputSiv(x) && op2_at(d, body, x.operand, x.operand_2, end)
    } else if ty == OPCODE_DCL_OUTPUT_SGV {
        ops matches Operands::DclOutputSgv(x) && op2_at(d, body, x.operand, x.operand_2, end)
    } else if ty == OPCODE_ADD {
        ops matches Operands::Add(x) && op3_at(d, body, x.dst, x.a, x.b, end)
    } else if ty == OPCODE_AND {
        ops matches Operands::And(x) && op3_at(d, body, x.dst, x.a, x.b, end)
    } else if ty == OPCODE_MUL {
        ops matches Operands::Mul(x) && op3_at(d, body, x.dst, x.a, x.b, end)
    } else if ty == OPCODE_MAD {
        ops matches Operands::Mad(x) && op4_at(d, body, x.dst, x.a, x.b, x.c, end)
    } else if ty == OPCODE_MOV {
        ops matches Operands::Mov(x) && op2_at(d, body, x.dst, x.src, end)
    } else if ty == OPCODE_ITOF {
        ops matches Operands::Itof(x) && op2_at(d, body, x.dst, x.src, end)
    } else if ty == OPCODE_UTOF {
        ops matches Operands::Utof(x) && op2_at(d, body, x.dst, x.src, end)
    } else if ty == OPCODE_FTOU {
        ops matches Operands::Ftou(x) && op2_at(d, body, x.dst, x.src, end)
    } else if ty == OPCODE_IF {
        ops matches Operands::If(x) && op1_at(d, body, x.src, end)
    } else if ty == OPCODE_ELSE {
        ops is Else && end == body
    } else if ty == OPCODE_ENDIF {
        ops is EndIf && end == body
    } else if ty == OPCODE_LOOP {
        ops is Loop && end == body
    } else if ty == OPCODE_ENDLOOP {
        ops is EndLoop && end == body
    } else if ty == OPCODE_BREAK {
        ops is Break && end == body
    } else if ty == OPCODE_BREAKC {
        ops matches Operands::BreakC(x) && op1_at(d, body, x.src, end)
    } else if ty == OPCODE_SAMPLE {
        ops matches Operands::Sample(x) && op4_at(
            d,
            body,
            x.dst,
            x.src_address,
            x.src_resource,
            x.src_sampler,
            end,
        )
    } else if ty == OPCODE_SAMPLE_L {
        ops matches Operands::SampleL(x) && op5_at(
            d,
            body,
            x.dst,
            x.src_address,
            x.src_resource,
            x.src_sampler,
            x.src_lod,
            end,
        )
    } else if ty == OPCODE_RET {
        ops is Ret && end == body
    } else {
        &&& ops is Unknown
        &&& end == body + unknown_skip(w0)
        &&& end <= d.len()
    }
}

/// The instruction `ins` is exactly what decoding at `pos` of `d` yields,
/// ending at `end`: its opcode token, a fully consumed extension chain, and
/// the operand group its opcode number dispatches to.
pub open spec fn instruction_at(d: Seq<u8>, pos: int, ins: SparseInstruction, end: int) -> bool {
    &&& 0 <= pos
    &&& pos + 4 <= d.len()
    &&& ins.opcode.word == le32(d, pos)
    &&& opcode_body(d, pos) is Some
    &&& operands_at(
        d,
        opcode_body(d, pos).unwrap(),
        ins.opcode.word,
        opcode_type_field(ins.opcode.word),
        ins.operands,
        end,
    )
}

/// Opcodes that read nothing past their token (and their extension chain).
pub open spec fn is_no_operand_opcode(ty: u32) -> bool {
    ||| ty == OPCODE_ELSE
    ||| ty == OPCODE_ENDIF
    ||| ty == OPCODE_LOOP
    ||| ty == OPCODE_ENDLOOP
    ||| ty == OPCODE_BREAK
    ||| ty == OPCODE_RET
    ||| ty == OPCODE_DCL_GLOBAL_FLAGS
}

/// Opcodes whose whole payload is one operand.
pub open spec fn is_one_operand_opcode(ty: u32) -> bool {
    ||| ty == OPCODE_DCL_INPUT
    ||| ty == OPCODE_DCL_INPUT_PS
    ||| ty == OPCODE_DCL_OUTPUT
    ||| ty == OPCODE_DCL_CONSTANT_BUFFER
    ||| ty == OPCODE_DCL_SAMPLER
    ||| ty == OPCODE_IF
    ||| ty == OPCODE_BREAKC
}

/// Opcodes whose payload is two operands.
pub open spec fn is_two_operand_opcode(ty: u32) -> bool {
    ||| ty == OPCODE_DCL_INPUT_PS_SIV
    ||| ty == OPCODE_DCL_INPUT_PS_SGV
    ||| ty == OPCODE_DCL_OUTPUT_SIV
    ||| ty == OPCODE_DCL_OUTPUT_SGV
    ||| ty == OPCODE_MOV
    ||| ty == OPCODE_ITOF
    ||| ty == OPCODE_UTOF
    ||| ty == OPCODE_FTOU
}

/// Opcodes whose payload is three operands.
pub open spec fn is_three_operand_opcode(ty: u32) -> bool {
    ||| ty == OPCODE_ADD
    ||| ty == OPCODE_AND
    ||| ty == OPCODE_MUL
}

/// Inputs on which decoding a recognized instruction is owed to succeed:
/// the opcode token fits, its extension chain closes, and its payload —
/// nothing, a fixed number of raw words, or operands without relative
/// addressing — fits the buffer.
pub open spec fn flat_instruction_ok(d: Seq<u8>, pos: int) -> bool {
    &&& 0 <= pos
    &&& pos + 4 <= d.len()
    &&& opcode_body(d, pos) is Some
    &&& {
        let ty = opcode_type_field(le32(d, pos));
        let body = opcode_body(d, pos).unwrap();
        ||| is_no_operand_opcode(ty)
        ||| (ty == OPCODE_DCL_TEMPS && body + 4 <= d.len())
        ||| (ty == OPCODE_DCL_INDEXABLE_TEMP && body + 12 <= d.len())
        ||| (is_one_operand_opcode(ty) && flat_operand_ok(d, body))
        ||| (is_two_operand_opcode(ty) && flat_ops_ok(d, body, 2))
        ||| (is_three_operand_opcode(ty) && flat_ops_ok(d, body, 3))
        ||| ((ty == OPCODE_MAD || ty == OPCODE_SAMPLE) && flat_ops_ok(d, body, 4))
        ||| (ty == OPCODE_SAMPLE_L && flat_ops_ok(d, body, 5))
        ||| (ty == OPCODE_DCL_RESOURCE && flat_ops_ok(d, body, 1) && (match flat_operand_end(
            d,
            body,
        ) {
            Some(e) => e + 4 <= d.len(),
            None => false,
        }))
    }
}

/// An instruction outside the dispatch table decodes whenever its opcode
/// token fits, its extension chain closes, and its declared length fits the
/// buffer.
pub open spec fn unknown_parse_ok(d: Seq<u8>, pos: int) -> bool {
    &&& 0 <= pos
    &&& pos + 4 <= d.len()
    &&& opcode_body(d, pos) is Some
    &&& !is_known_opcode(opcode_type_field(le32(d, pos)))
    &&& opcode_body(d, pos).unwrap() + unknown_skip(le32(d, pos)) <= d.len()
}

/// An instruction with an opcode outside the dispatch table decodes as
/// `Unknown` and advances by exactly its declared length: the opcode token,
/// then `declared length - 1` further words (the whole token when the
/// declared length is zero).
pub proof fn lemma_unknown_opcode_advances(d: Seq<u8>, pos: int, ins: SparseInstruction, end: int)
    requires
        instruction_at(d, pos, ins, end),
        !is_known_opcode(opcode_type_field(le32(d, pos))),
        !token_extended_bit(le32(d, pos)),
    ensures
        ins.operands is Unknown,
        instr_length_field(le32(d, pos)) >= 1 ==> end == pos + 4 * instr_length_field(
            le32(d, pos),
        ),
        instr_length_field(le32(d, pos)) == 0 ==> end == pos + 4,
{
}

impl SparseInstruction {
    /// Decodes one instruction: the opcode token, the extension chain when
    /// the extended bit is set, then the operand group of the opcode number.
    /// Opcodes outside the dispatch table decode as `Unknown` and advance by
    /// the declared instruction length, keeping the stream aligned for the
    /// next instruction.
    #[verifier::rlimit(100)]
    pub fn parse(decoder: &mut Decoder<'_>) -> (r: Result<SparseInstruction, Error>)
        ensures
            final(decoder).data() == old(decoder).data(),
            match r {
                Ok(ins) => {
                    &&& instruction_at(
                        old(decoder).data(),
                        old(decoder).off(),
                        ins,
                        final(decoder).off(),
                    )
                    &&& old(decoder).off() + 4 <= final(decoder).off() <= old(decoder).data().len()
                },
                Err(e) => e is StreamExpected || e is FormatViolation,
            },
            unknown_parse_ok(old(decoder).data(), old(decoder).off()) ==> r is Ok,
            flat_instruction_ok(old(decoder).data(), old(decoder).off()) ==> r is Ok,
    {
        let ghost d = decoder.data();
        let ghost start = decoder.off();
        proof {
            if unknown_parse_ok(d, start) {
                assert(start + 4 <= d.len());
            }
            if flat_instruction_ok(d, start) {
                assert(start + 4 <= d.len());
            }
        }
        let w0 = decoder.read_u32()?;
        let opcode = OpcodeToken0 { word: w0 };
        let ty = w0 & 0x7ff;
        let len = (w0 >> 24) & 0x7f;

        if (w0 >> 31) & 1 == 1 {
            let mut chaining = true;
            while chaining
                invariant
                    decoder.data() == d,
                    d == old(decoder).data(),
                    start == old(decoder).off(),
                    0 <= start,
                    start + 4 <= decoder.off() <= d.len(),
                    w0 == le32(d, start),
                    token_extended_bit(w0),
                    chaining ==> opcode_body(d, start) == ext_chain_end(d, decoder.off()),
                    !chaining ==> opcode_body(d, start) == Some(decoder.off()),
                decreases d.len() - decoder.off(),
            {
                let ghost pre = decoder.off();
                let ext = match decoder.read_u32() {
                    Ok(ext) => ext,
                    Err(e) => {
                        proof {
                            assert(ext_chain_end(d, pre) is None);
                        }
                        return Err(e);
                    },
                };
                chaining = (ext >> 31) & 1 == 1;
                proof {
                    assert(ext == le32(d, pre));
                    assert(ext_chain_end(d, pre) == (if token_extended_bit(ext) {
                        ext_chain_end(d, pre + 4)
                    } else {
                        Some(pre + 4)
                    }));
                }
            }
        }
        let ghost body = decoder.off();
        proof {
            assert(opcode_body(d, start) == Some(body));
            if unknown_parse_ok(d, start) {
                assert(body + unknown_skip(w0) <= d.len());
            }
            if flat_instruction_ok(d, start) {
                assert(opcode_body(d, start).unwrap() == body);
            }
        }

        let operands: Operands;
        if ty == OPCODE_DCL_GLOBAL_FLAGS {
            operands = Operands::DclGlobalFlags(DclGlobalFlags { global_flags: w0 & 0xfff800 });
        } else if ty == OPCODE_DCL_INPUT {
            let operand = OperandToken0::parse(decoder)?;
            operands = Operands::DclInput(DclInput { operand });
        } else if ty == OPCODE_DCL_INPUT_PS {
            let operand = OperandToken0::parse(decoder)?;
            operands = Operands::DclInputPs(DclInputPs { operand });
        } else if ty == OPCODE_DCL_INPUT_PS_SIV {
            let operand = OperandToken0::parse(decoder)?;
            proof {
                if flat_instruction_ok(d, start) {
                    lemma_flat_operand_end(d, body, operand);
                    assert(flat_ops_ok(d, body, 2));
                    assert(flat_ops_ok(d, body + 4 * op_words(operand), 1));
                    assert(flat_operand_ok(d, body + 4 * op_words(operand)));
                }
            }
            let operand_2 = OperandToken0::parse(decoder)?;
            operands = Operands::DclInputPsSiv(DclInputPsSiv { operand, operand_2 });
        } else if ty == OPCODE_DCL_INPUT_PS_SGV {
            let operand = OperandToken0::parse(decoder)?;
            proof {
                if flat_instruction_ok(d, start) {
                    lemma_flat_operand_end(d, body, operand);
                    assert(flat_ops_ok(d, body, 2));
                    assert(flat_ops_ok(d, body + 4 * op_words(operand), 1));
                    assert(flat_operand_ok(d, body + 4 * op_words(operand)));
                }
            }
            let operand_2 = OperandToken0::parse(decoder)?;
            operands = Operands::DclInputPsSgv(DclInputPsSgv { operand, operand_2 });
        } else if ty == OPCODE_DCL_OUTPUT {
            let operand = OperandToken0::parse(decoder)?;
            operands = Operands::DclOutput(DclOutput { operand });
        } else if ty == OPCODE_DCL_CONSTANT_BUFFER {
            let operand = OperandToken0::parse(decoder)?;
            proof {
                let w = w0;
                assert((w >> 11u32) & 1 == crate::tokens::cb_access_field(w));
            }
            operands = Operands::DclConstantBuffer(
                DclConstantBuffer { operand, access: (w0 >> 11) & 1 },
            );
        } else if ty == OPCODE_DCL_RESOURCE {
            let register = OperandToken0::parse(decoder)?;
            proof {
                if flat_instruction_ok(d, start) {
                    lemma_flat_operand_end(d, body, register);
                    assert(flat_ops_ok(d, body, 1));
                    assert(decoder.off() + 4 <= d.len());
                }
            }
            let ret_word = decoder.read_u32()?;
            operands = Operands::DclResource(
                DclResource { register, return_type: ResourceReturnTypeToken0 { word: ret_word } },
            );
        } else if ty == OPCODE_DCL_SAMPLER {
            let operand = OperandToken0::parse(decoder)?;
            operands = Operands::DclSampler(DclSampler { operand });
        } else if ty == OPCODE_DCL_TEMPS {
            let register_count = decoder.read_u32()?;
            operands = Operands::DclTemps(DclTemps { register_count });
        } else if ty == OPCODE_DCL_INDEXABLE_TEMP {
            let register_index = decoder.read_u32()?;
            let register_count = decoder.read_u32()?;
            let num_components = decoder.read_u32()?;
            operands = Operands::DclIndexableTemp(
                DclIndexableTemp { register_index, register_count, num_components },
            );
        } else if ty == OPCODE_DCL_OUTPUT_SIV {
            let operand = OperandToken0::parse(decoder)?;
            proof {
                if flat_instruction_ok(d, start) {
                    lemma_flat_operand_end(d, body, operand);
                    assert(flat_ops_ok(d, body, 2));
                    assert(flat_ops_ok(d, body + 4 * op_words(operand), 1));
                    assert(flat_operand_ok(d, body + 4 * op_words(operand)));
                }
            }
            let operand_2 = OperandToken0::parse(decoder)?;
            operands = Operands::DclOutputSiv(DclOutputSiv { operand, operand_2 });
        } else if ty == OPCODE_DCL_OUTPUT_SGV {
            let operand = OperandToken0::parse(decoder)?;
            proof {
                if flat_instruction_ok(d, start) {
                    lemma_flat_operand_end(d, body, operand);
                    assert(flat_ops_ok(d, body, 2));
                    assert(flat_ops_ok(d, body + 4 * op_words(operand), 1));
                    assert(flat_operand_ok(d, body + 4 * op_words(operand)));
                }
            }
            let operand_2 = OperandToken0::parse(decoder)?;
            operands = Operands::DclOutputSgv(DclOutputSgv { operand, operand_2 });
        } else if ty == OPCODE_ADD {
            let dst = OperandToken0::parse(decoder)?;
            let ghost p1 = decoder.off();
            proof {
                if flat_instruction_ok(d, start) {
                    lemma_flat_operand_end(d, body, dst);
                    assert(flat_ops_ok(d, p1, if ty == OPCODE_MAD || ty == OPCODE_SAMPLE {
                        3int
                    } else if ty == OPCODE_SAMPLE_L {
                        4int
                    } else {
                        2int
                    }));
                    assert(flat_operand_ok(d, p1));
                }
            }
            let a = OperandToken0::parse(decoder)?;
            proof {
                if flat_instruction_ok(d, start) {
                    lemma_flat_operand_end(d, p1, a);
                    assert(flat_ops_ok(d, decoder.off(), 1));
                    assert(flat_operand_ok(d, decoder.off()));
                }
            }
            let b = OperandToken0::parse(decoder)?;
            operands = Operands::Add(Add { dst, a, b });
        } else if ty == OPCODE_AND {
            let dst = OperandToken0::parse(decoder)?;
            let ghost p1 = decoder.off();
            proof {
                if flat_instruction_ok(d, start) {
                    lemma_flat_operand_end(d, body, dst);
                    assert(flat_ops_ok(d, p1, if ty == OPCODE_MAD || ty == OPCODE_SAMPLE {
                        3int
                    } else if ty == OPCODE_SAMPLE_L {
                        4int
                    } else {
                        2int
                    }));
                    assert(flat_operand_ok(d, p1));
                }
            }
            let a = OperandToken0::parse(decoder)?;
            proof {
                if flat_instruction_ok(d, start) {
                    lemma_flat_operand_end(d, p1, a);
                    assert(flat_ops_ok(d, decoder.off(), 1));
                    assert(flat_operand_ok(d, decoder.off()));
                }
            }
            let b = OperandToken0::parse(decoder)?;
            operands = Operands::And(And { dst, a, b });
        } else if ty == OPCODE_MUL {
            let dst = OperandToken0::parse(decoder)?;
            let ghost p1 = decoder.off();
            proof {
                if flat_instruction_ok(d, start) {
                    lemma_flat_operand_end(d, body, dst);
                    assert(flat_ops_ok(d, p1, if ty == OPCODE_MAD || ty == OPCODE_SAMPLE {
                        3int
                    } else if ty == OPCODE_SAMPLE_L {
                        4int
                    } else {
                        2int
                    }));
                    assert(flat_operand_ok(d, p1));
                }
            }
            let a = OperandToken0::parse(decoder)?;
            proof {
                if flat_instruction_ok(d, start) {
                    lemma_flat_operand_end(d, p1, a);
                    assert(flat_ops_ok(d, decoder.off(), 1));
                    assert(flat_operand_ok(d, decoder.off()));
                }
            }
            let b = OperandToken0::parse(decoder)?;
            operands = Operands::Mul(Mul { dst, a, b });
        } else if ty == OPCODE_MAD {
            let dst = OperandToken0::parse(decoder)?;
            let ghost p1 = decoder.off();
            proof {
                if flat_instruction_ok(d, start) {
                    lemma_flat_operand_end(d, body, dst);
                    assert(flat_ops_ok(d, p1, if ty == OPCODE_MAD || ty == OPCODE_SAMPLE {
                        3int
                    } else if ty == OPCODE_SAMPLE_L {
                        4int
                    } else {
                        2int
                    }));
                    assert(flat_operand_ok(d, p1));
                }
            }
            let a = OperandToken0::parse(decoder)?;
            let ghost p2 = decoder.off();
            proof {
                if flat_instruction_ok(d, start) {
                    lemma_flat_operand_end(d, p1, a);
                    assert(flat_ops_ok(d, p2, 2));
                    assert(flat_operand_ok(d, p2));
                }
            }
            let b = OperandToken0::parse(decoder)?;
            let ghost p3 = decoder.off();
            proof {
                if flat_instruction_ok(d, start) {
                    lemma_flat_operand_end(d, p2, b);
                    assert(flat_ops_ok(d, p3, 1));
                    assert(flat_operand_ok(d, p3));
                }
            }
            let c = OperandToken0::parse(decoder)?;
            operands = Operands::Mad(Mad { dst, a, b, c });
        } else if ty == OPCODE_MOV {
            let dst = OperandToken0::parse(decoder)?;
            proof {
                if flat_instruction_ok(d, start) {
                    lemma_flat_operand_end(d, body, dst);
                    assert(flat_ops_ok(d, body, 2));
                    assert(flat_ops_ok(d, body + 4 * op_words(dst), 1));
                    assert(flat_operand_ok(d, body + 4 * op_words(dst)));
                }
            }
            let src = OperandToken0::parse(decoder)?;
            operands = Operands::Mov(Mov { dst, src });
        } else if ty == OPCODE_ITOF {
            let dst = OperandToken0::parse(decoder)?;
            proof {
                if flat_instruction_ok(d, start) {
                    lemma_flat_operand_end(d, body, dst);
                    assert(flat_ops_ok(d, body, 2));
                    assert(flat_ops_ok(d, body + 4 * op_words(dst), 1));
                    assert(flat_operand_ok(d, body + 4 * op_words(dst)));
                }
            }
            let src = OperandToken0::parse(decoder)?;
            operands = Operands::Itof(Itof { dst, src });
        } else if ty == OPCODE_UTOF {
            let dst = OperandToken0::parse(decoder)?;
            proof {
                if flat_instruction_ok(d, start) {
                    lemma_flat_operand_end(d, body, dst);
                    assert(flat_ops_ok(d, body, 2));
                    assert(flat_ops_ok(d, body + 4 * op_words(dst), 1));
                    assert(flat_operand_ok(d, body + 4 * op_words(dst)));
                }
            }
            let src = OperandToken0::parse(decoder)?;
            operands = Operands::Utof(Utof { dst, src });
        } else if ty == OPCODE_FTOU {
            let dst = OperandToken0::parse(decoder)?;
            proof {
                if flat_instruction_ok(d, start) {
                    lemma_flat_operand_end(d, body, dst);
                    assert(flat_ops_ok(d, body, 2));
                    assert(flat_ops_ok(d, body + 4 * op_words(dst), 1));
                    assert(flat_operand_ok(d, body + 4 * op_words(dst)));
                }
            }
            let src = OperandToken0::parse(decoder)?;
            operands = Operands::Ftou(Ftou { dst, src });
        } else if ty == OPCODE_IF {
            let src = OperandToken0::parse(decoder)?;
            operands = Operands::If(If { src });
        } else if ty == OPCODE_ELSE {
            operands = Operands::Else;
        } else if ty == OPCODE_ENDIF {
            operands = Operands::EndIf;
        } else if ty == OPCODE_LOOP {
            operands = Operands::Loop;
        } else if ty == OPCODE_ENDLOOP {
            operands = Operands::EndLoop;
        } else if ty == OPCODE_BREAK {
            operands = Operands::Break;
        } else if ty == OPCODE_BREAKC {
            let src = OperandToken0::parse(decoder)?;
            operands = Operands::BreakC(BreakC { src });
        } else if ty == OPCODE_SAMPLE {
            let dst = OperandToken0::parse(decoder)?;
            let ghost p1 = decoder.off();
            proof {
                if flat_instruction_ok(d, start) {
                    lemma_flat_operand_end(d, body, dst);
                    assert(flat_ops_ok(d, p1, if ty == OPCODE_MAD || ty == OPCODE_SAMPLE {
                        3int
                    } else if ty == OPCODE_SAMPLE_L {
                        4int
                    } else {
                        2int
                    }));
                    assert(flat_operand_ok(d, p1));
                }
            }
            let src_address = OperandToken0::parse(decoder)?;
            let ghost p2 = decoder.off();
            proof {
                if flat_instruction_ok(d, start) {
                    lemma_flat_operand_end(d, p1, src_address);
                    assert(flat_ops_ok(d, p2, if ty == OPCODE_SAMPLE_L {
                        3int
                    } else {
                        2int
                    }));
                    assert(flat_operand_ok(d, p2));
                }
            }
            let src_resource = OperandToken0::parse(decoder)?;
            let ghost p3 = decoder.off();
            proof {
                if flat_instruction_ok(d, start) {
                    lemma_flat_operand_end(d, p2, src_resource);
                    assert(flat_ops_ok(d, p3, if ty == OPCODE_SAMPLE_L {
                        2int
                    } else {
                        1int
                    }));
                    assert(flat_operand_ok(d, p3));
                }
            }
            let src_sampler = OperandToken0::parse(decoder)?;
            operands = Operands::Sample(Sample { dst, src_address, src_resource, src_sampler });
        } else if ty == OPCODE_SAMPLE_L {
            let dst = OperandToken0::parse(decoder)?;
            let ghost p1 = decoder.off();
            proof {
                if flat_instruction_ok(d, start) {
                    lemma_flat_operand_end(d, body, dst);
                    assert(flat_ops_ok(d, p1, if ty == OPCODE_MAD || ty == OPCODE_SAMPLE {
                        3int
                    } else if ty == OPCODE_SAMPLE_L {
                        4int
                    } else {
                        2int
                    }));
                    assert(flat_operand_ok(d, p1));
                }
            }
            let src_address = OperandToken0::parse(decoder)?;
            let ghost p2 = decoder.off();
            proof {
                if flat_instruction_ok(d, start) {
                    lemma_flat_operand_end(d, p1, src_address);
                    assert(flat_ops_ok(d, p2, if ty == OPCODE_SAMPLE_L {
                        3int
                    } else {
                        2int
                    }));
                    assert(flat_operand_ok(d, p2));
                }
            }
            let src_resource = OperandToken0::parse(decoder)?;
            let ghost p3 = decoder.off();
            proof {
                if flat_instruction_ok(d, start) {
                    lemma_flat_operand_end(d, p2, src_resource);
                    assert(flat_ops_ok(d, p3, if ty == OPCODE_SAMPLE_L {
                        2int
                    } else {
                        1int
                    }));
                    assert(flat_operand_ok(d, p3));
                }
            }
            let src_sampler = OperandToken0::parse(decoder)?;
            let ghost p4 = decoder.off();
            proof {
                if flat_instruction_ok(d, start) {
                    lemma_flat_operand_end(d, p3, src_sampler);
                    assert(flat_ops_ok(d, p4, 1));
                    assert(flat_operand_ok(d, p4));
                }
            }
            let src_lod = OperandToken0::parse(decoder)?;
            operands = Operands::SampleL(
                SampleL { dst, src_address, src_resource, src_sampler, src_lod },
            );
        } else if ty == OPCODE_RET {
            operands = Operands::Ret;
        } else {
            proof {
                let w = w0;
                assert((w >> 24u32) & 0x7f <= 0x7f) by (bit_vector);
            }
            if len > 1 {
                decoder.skip((4 * (len - 1)) as usize)?;
            }
            operands = Operands::Unknown;
        }

        Ok(SparseInstruction { opcode, operands })
    }
}

} // verus!
