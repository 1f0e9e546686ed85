//! Bit layout of the tokenized shader program: where each field of an opcode
//! token, an operand token and their extension tokens sits inside its 32-bit
//! word, and the fixed numbering of the opcodes this crate dispatches on.

use vstd::prelude::*;

verus! {

// Opcode numbering of the tokenized program format.
pub const OPCODE_ADD: u32 = 0;
pub const OPCODE_AND: u32 = 1;
pub const OPCODE_BREAK: u32 = 2;
pub const OPCODE_BREAKC: u32 = 3;
pub const OPCODE_ELSE: u32 = 18;
pub const OPCODE_ENDIF: u32 = 21;
pub const OPCODE_ENDLOOP: u32 = 22;
pub const OPCODE_FTOU: u32 = 28;
pub const OPCODE_IF: u32 = 31;
pub const OPCODE_ITOF: u32 = 43;
pub const OPCODE_LOOP: u32 = 48;
pub const OPCODE_MAD: u32 = 50;
pub const OPCODE_MOV: u32 = 53;
pub const OPCODE_MUL: u32 = 55;
pub const OPCODE_RET: u32 = 61;
pub const OPCODE_SAMPLE: u32 = 68;
pub const OPCODE_SAMPLE_L: u32 = 71;
pub const OPCODE_UTOF: u32 = 85;
pub const OPCODE_DCL_RESOURCE: u32 = 87;
pub const OPCODE_DCL_CONSTANT_BUFFER: u32 = 88;
pub const OPCODE_DCL_SAMPLER: u32 = 89;
pub const OPCODE_DCL_INPUT: u32 = 94;
pub const OPCODE_DCL_INPUT_PS: u32 = 97;
pub const OPCODE_DCL_INPUT_PS_SGV: u32 = 98;
pub const OPCODE_DCL_INPUT_PS_SIV: u32 = 99;
pub const OPCODE_DCL_OUTPUT: u32 = 100;
pub const OPCODE_DCL_OUTPUT_SGV: u32 = 101;
pub const OPCODE_DCL_OUTPUT_SIV: u32 = 102;
pub const OPCODE_DCL_TEMPS: u32 = 103;
pub const OPCODE_DCL_INDEXABLE_TEMP: u32 = 104;
pub const OPCODE_DCL_GLOBAL_FLAGS: u32 = 105;

// Operand type numbering used by the builder.
pub const OPERAND_TYPE_TEMP: u32 = 0;
pub const OPERAND_TYPE_INPUT: u32 = 1;
pub const OPERAND_TYPE_OUTPUT: u32 = 2;
pub const OPERAND_TYPE_IMMEDIATE32: u32 = 4;
pub const OPERAND_TYPE_IMMEDIATE64: u32 = 5;

// Index representation numbering.
pub const INDEX_REP_IMMEDIATE32: u32 = 0;
pub const INDEX_REP_IMMEDIATE64: u32 = 1;
pub const INDEX_REP_RELATIVE: u32 = 2;
pub const INDEX_REP_IMMEDIATE32_PLUS_RELATIVE: u32 = 3;
pub const INDEX_REP_IMMEDIATE64_PLUS_RELATIVE: u32 = 4;

// Global flag bits carried inside a declaration opcode token.
pub const GLOBAL_FLAG_REFACTORING_ALLOWED: u32 = 0x800;
pub const GLOBAL_FLAG_ENABLE_DOUBLE_PRECISION_FLOAT_OPS: u32 = 0x1000;
pub const GLOBAL_FLAG_FORCE_EARLY_DEPTH_STENCIL: u32 = 0x2000;
pub const GLOBAL_FLAG_ENABLE_RAW_AND_STRUCTURED_BUFFERS: u32 = 0x4000;
pub const GLOBAL_FLAG_SKIP_OPTIMIZATION: u32 = 0x8000;
pub const GLOBAL_FLAG_ENABLE_MINIMUM_PRECISION: u32 = 0x10000;
pub const GLOBAL_FLAG_ENABLE_DOUBLE_EXTENSIONS: u32 = 0x20000;
pub const GLOBAL_FLAG_ENABLE_SHADER_EXTENSIONS: u32 = 0x40000;

// Component mask bits of an operand token in mask selection mode.
pub const COMPONENT_MASK_R: u32 = 0x10;
pub const COMPONENT_MASK_G: u32 = 0x20;
pub const COMPONENT_MASK_B: u32 = 0x40;
pub const COMPONENT_MASK_A: u32 = 0x80;

// ---- Opcode token fields ----

/// Opcode number: bits [10:0].
pub open spec fn opcode_type_field(w: u32) -> u32 {
    w & 0x7ff
}

/// Declared instruction length in words, the opcode token included: bits [30:24].
pub open spec fn instr_length_field(w: u32) -> u32 {
    (w >> 24) & 0x7f
}

/// Chained-extension bit 31 of an opcode or extension token.
pub open spec fn token_extended_bit(w: u32) -> bool {
    (w >> 31) & 1 == 1
}

/// Saturate flag: bit 13.
pub open spec fn saturate_field(w: u32) -> u32 {
    (w >> 13) & 1
}

/// Test-boolean flag of a conditional instruction: bit 18.
pub open spec fn test_boolean_field(w: u32) -> u32 {
    (w >> 18) & 1
}

/// Global flags carried in a declaration token: bits [23:11].
pub open spec fn global_flags_field(w: u32) -> u32 {
    w & 0xfff800
}

/// Constant-buffer access pattern: bit 11.
pub open spec fn cb_access_field(w: u32) -> u32 {
    (w >> 11) & 1
}

/// Resource dimension of a resource declaration: bits [15:11].
pub open spec fn resource_dimension_field(w: u32) -> u32 {
    (w >> 11) & 0x1f
}

/// Sampler mode of a sampler declaration: bits [14:11].
pub open spec fn sampler_mode_field(w: u32) -> u32 {
    (w >> 11) & 0xf
}

/// Interpolation mode of a pixel-shader input declaration: bits [14:11].
pub open spec fn interpolation_mode_field(w: u32) -> u32 {
    (w >> 11) & 0xf
}

/// System name of a system-value operand: bits [15:0].
pub open spec fn name_token_field(w: u32) -> u32 {
    w & 0xffff
}

/// Kind selector of an opcode extension token: bits [5:0].
pub open spec fn ext_opcode_type_field(w: u32) -> u32 {
    w & 0x3f
}

// ---- Operand token fields ----

/// Component count selector: bits [1:0] (0, 1, 4 components, or unsupported).
pub open spec fn num_components_field(w: u32) -> u32 {
    w & 3
}

/// Component selection mode: bits [3:2] (mask, swizzle, select-one).
pub open spec fn select_mode_field(w: u32) -> u32 {
    (w >> 2) & 3
}

/// Component mask in mask mode, kept at its in-word scale: bits [7:4].
pub open spec fn component_mask_field(w: u32) -> u32 {
    w & 0xf0
}

/// Swizzle source for component `c` (0-3): two bits at [5+2c:4+2c].
pub open spec fn swizzle_source_field(w: u32, c: u32) -> u32
    recommends
        c < 4,
{
    (w >> ((4 + 2 * c) as u32)) & 3
}

/// Operand type tag: bits [19:12].
pub open spec fn operand_type_field(w: u32) -> u32 {
    (w >> 12) & 0xff
}

/// Index dimension (0-3): bits [21:20].
pub open spec fn index_dimension_field(w: u32) -> u32 {
    (w >> 20) & 3
}

/// Index representation tag of index slot `i`: three bits from bit 22 + 3i.
pub open spec fn index_representation_field(w: u32, i: u32) -> u32
    recommends
        i < 4,
{
    (w >> ((22 + 3 * i) as u32)) & 7
}

/// Modifier selector of an operand extension token: bits [13:6].
pub open spec fn operand_modifier_field(w: u32) -> u32 {
    (w >> 6) & 0xff
}

/// Return type for component `c` of a resource return-type token: four bits
/// from bit 4c.
pub open spec fn resource_return_type_field(w: u32, c: u32) -> u32
    recommends
        c < 4,
{
    (w >> ((4 * c) as u32)) & 0xf
}

// ---- Field encoders used by the builder ----

pub open spec fn encode_opcode_type(t: u32) -> u32 {
    t & 0x7ff
}

pub open spec fn encode_instr_length(l: u32) -> u32 {
    (l & 0x7f) << 24
}

pub open spec fn encode_saturate(s: u32) -> u32 {
    (s & 1) << 13
}

pub open spec fn encode_test_boolean(t: u32) -> u32 {
    (t & 1) << 18
}

pub open spec fn encode_token_extended(b: u32) -> u32 {
    (b & 1) << 31
}

pub open spec fn encode_ext_opcode_type(t: u32) -> u32 {
    t & 0x3f
}

/// Immediate address offset for coordinate `c` (0-2) of a sample-controls
/// extension token: four bits from bit 9 + 4c.
pub open spec fn encode_address_offset(c: u32, v: u32) -> u32
    recommends
        c < 3,
{
    (v & 0xf) << ((9 + 4 * c) as u32)
}

pub open spec fn encode_ext_resource_dimension(d: u32) -> u32 {
    (d & 0x1f) << 6
}

pub open spec fn encode_ext_resource_stride(s: u32) -> u32 {
    (s & 0xfff) << 11
}

/// Return type for component `c` of a return-type extension token: four bits
/// from bit 6 + 4c.
pub open spec fn encode_ext_resource_return_type(t: u32, c: u32) -> u32
    recommends
        c < 4,
{
    (t & 0xf) << ((6 + 4 * c) as u32)
}

pub open spec fn encode_operand_type(t: u32) -> u32 {
    (t & 0xff) << 12
}

pub open spec fn encode_index_representation(i: u32, r: u32) -> u32
    recommends
        i < 4,
{
    (r & 7) << ((22 + 3 * i) as u32)
}

pub open spec fn encode_num_components(c: u32) -> u32 {
    c & 3
}

pub open spec fn encode_index_dimension(d: u32) -> u32 {
    (d & 3) << 20
}

pub open spec fn encode_select_mode(m: u32) -> u32 {
    (m & 3) << 2
}

pub open spec fn encode_swizzle(x: u32, y: u32, z: u32, w: u32) -> u32 {
    ((x & 3) << 4) | ((y & 3) << 6) | ((z & 3) << 8) | ((w & 3) << 10)
}

pub open spec fn encode_select_1(c: u32) -> u32 {
    (c & 3) << 4
}

pub open spec fn encode_operand_extended(b: u32) -> u32 {
    (b & 1) << 31
}

/// An operand modifier extension token: the modifier at bits [13:6] over the
/// extension-kind selector for a modifier token.
pub open spec fn encode_operand_modifier(m: u32) -> u32 {
    (((m << 6) & 0x3fc0) | 1) as u32
}

/// The version token opening a tokenized program: program type at bits
/// [31:16], major version at [7:4], minor at [3:0].
pub open spec fn encode_program_version(ty: u32, major: u32, minor: u32) -> u32 {
    ((ty & 0xffff) << 16) | ((major & 0xf) << 4) | (minor & 0xf)
}

} // verus!
