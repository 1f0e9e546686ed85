//! The module builder: a growable sequence of 32-bit words with
//! forward-patched size and offset fields, writers for each chunk kind, an
//! instruction encoder that patches its own length once the extent is known,
//! and the final assembly that patches the directory, the total size and the
//! checksum.

use vstd::prelude::*;
use vstd::string::StringSliceAdditionalSpecFns;

use crate::checksum::{checksum, dxbc_checksum};
use crate::bytes::{
    cstr_at, le32, lemma_le32_of_words, lemma_words_to_bytes_concat, lemma_words_to_bytes_one,
    lemma_zero_scan_exact, word_byte, words_to_bytes, zero_bytes,
};
use crate::shex::{shex_header_at, ShexHeader};
use crate::stat::stat_at;
use crate::isgn::IOsgnChunk;
use crate::rdef::RdefChunk;
use crate::shex::{ResourceDimension, ResourceReturnType};
use crate::stat::IStatChunk;
use crate::tokens::{
    encode_address_offset, encode_ext_opcode_type, encode_ext_resource_dimension,
    encode_ext_resource_return_type, encode_ext_resource_stride, encode_index_dimension,
    encode_index_representation, encode_instr_length, encode_num_components,
    encode_operand_extended, encode_operand_modifier, encode_operand_type, encode_opcode_type,
    encode_program_version, encode_saturate, encode_select_1, encode_select_mode, encode_swizzle,
    encode_test_boolean, encode_token_extended, OPCODE_ADD, OPCODE_DCL_GLOBAL_FLAGS,
    OPCODE_DCL_INPUT, OPCODE_DCL_OUTPUT_SIV, OPCODE_DCL_TEMPS, OPCODE_MUL, OPCODE_RET,
    OPERAND_TYPE_INPUT, OPERAND_TYPE_OUTPUT, OPERAND_TYPE_TEMP,
};

verus! {

pub const DXBC_MAGIC: u32 = 0x43425844;
pub const RDEF_MAGIC: u32 = 0x46454452;
pub const RD11_MAGIC: u32 = 0x31314452;
pub const ISGN_MAGIC: u32 = 0x4e475349;
pub const OSGN_MAGIC: u32 = 0x4e47534f;
pub const SHEX_MAGIC: u32 = 0x58454853;
pub const STAT_MAGIC: u32 = 0x54415453;

/// Component bits at their in-word scale.
pub const X: u8 = 0x10;
pub const Y: u8 = 0x20;
pub const Z: u8 = 0x40;
pub const W: u8 = 0x80;

/// Global flags of a global-flags declaration, kept at their in-token scale.
#[derive(Debug, Clone, Copy, PartialEq, Eq, Structural)]
pub struct GlobalFlags {
    pub bits: u32,
}

impl GlobalFlags {
    pub fn bits(&self) -> (r: u32)
        ensures
            r == self.bits,
    {
        self.bits
    }
}

#[derive(Debug, Clone, Copy, PartialEq, Eq, Structural)]
pub enum Semantic {
    Undefined,
    Position,
}

impl Semantic {
    pub open spec fn as_word(self) -> u32 {
        match self {
            Semantic::Undefined => 0,
            Semantic::Position => 1,
        }
    }
}

#[derive(Debug, Clone, Copy, PartialEq, Eq, Structural)]
pub enum Modifier {
    NoModifier,
    Neg,
    Abs,
    AbsNeg,
}

impl Modifier {
    pub open spec fn as_word(self) -> u32 {
        match self {
            Modifier::NoModifier => 0,
            Modifier::Neg => 1,
            Modifier::Abs => 2,
            Modifier::AbsNeg => 3,
        }
    }
}

#[derive(Debug, Clone, Copy, PartialEq, Eq, Structural)]
pub enum ComponentMode {
    Mask(u8),
    Swizzle(u8, u8, u8, u8),
    Select(u8),
}

#[derive(Debug, Clone, Copy, PartialEq, Eq, Structural)]
pub enum NumComponent {
    D0,
    D1,
    D4(ComponentMode),
}

#[derive(Debug)]
pub enum Address {
    Constant(u32),
    Relative(IndexOperandType),
}

#[derive(Debug)]
pub enum IndexOperandType {
    Register(u32),
    Input(u32),
    Output(u32),
}

#[derive(Debug)]
pub enum OperandType {
    Register(u32),
    Input(u32),
    Output(u32),
    Imm32(u32),
    Imm32x2(u32, u32),
    Imm32x3(u32, u32, u32),
    Imm32x4(u32, u32, u32, u32),
    Resource(u32),
    Sampler(u32),
    IndexableRegister(u32, Address),
    ConstantBuffer(u32, Address),
    CustomData(Vec<u32>),
}

#[derive(Debug)]
pub enum Immediate {
    U32(u32),
    U64(u64),
    Relative(Operand),
    U32Relative(u32, Operand),
    U64Relative(u64, Operand),
}

/// One operand to encode: its type and payload, its modifier and its
/// component selection.
#[derive(Debug)]
pub struct Operand {
    pub ty: OperandType,
    pub modifiers: Modifier,
    pub component_mode: NumComponent,
}

#[derive(Debug, Clone, Copy)]
pub enum OpcodeEx {
    UvOffset(u32, u32, u32),
    Dimension(ResourceDimension, u32),
    ResourceReturnType(
        ResourceReturnType,
        ResourceReturnType,
        ResourceReturnType,
        ResourceReturnType,
    ),
}

#[derive(Debug)]
pub enum Instruction {
    DclGlobalFlags { flags: GlobalFlags },
    DclTemps { count: u32 },
    DclOutputSiv { register: Operand, semantic: Semantic },
    DclInput { register: Operand },
    Add { dest: Operand, a: Operand, b: Operand, saturated: bool },
    Mul { dest: Operand, a: Operand, b: Operand, saturated: bool },
    Ret,
}

/// A SHEX chunk under construction: its instructions in order.
pub struct ShexChunk {
    pub instructions: Vec<Instruction>,
}

impl ShexChunk {
    pub fn new() -> (r: Self)
        ensures
            r.instructions@.len() == 0,
    {
        ShexChunk { instructions: Vec::new() }
    }

    pub fn add_instruction(&mut self, instruction: Instruction)
        ensures
            final(self).instructions@ == old(self).instructions@.push(instruction),
    {
        self.instructions.push(instruction);
    }
}

// ---- The word image each writer appends, as spec functions ----

/// Four string bytes packed little-endian into one word.
pub open spec fn word4(b0: u8, b1: u8, b2: u8, b3: u8) -> u32 {
    (b0 as u32) | ((b1 as u32) << 8) | ((b2 as u32) << 16) | ((b3 as u32) << 24)
}

/// The packed word image of a string: four bytes per word, a trailing
/// partial word for one to three leftover bytes, and one all-zero terminator
/// word when the length is an exact multiple of four (the empty string
/// included).
pub open spec fn pack_str_words(b: Seq<u8>) -> Seq<u32>
    decreases b.len(),
{
    if b.len() >= 4 {
        seq![word4(b[0], b[1], b[2], b[3])] + pack_str_words(b.skip(4))
    } else if b.len() == 0 {
        seq![0u32]
    } else if b.len() == 1 {
        seq![b[0] as u32]
    } else if b.len() == 2 {
        seq![(b[0] as u32) | ((b[1] as u32) << 8)]
    } else {
        seq![(b[0] as u32) | ((b[1] as u32) << 8) | ((b[2] as u32) << 16)]
    }
}

/// The STAT chunk image: tag, byte length, nineteen counters, eighteen
/// reserved zero words.
pub open spec fn stat_words(s: IStatChunk) -> Seq<u32> {
    seq![
        STAT_MAGIC,
        148u32,
        s.instruction_count,
        s.temp_register_count,
        s.def_count,
        s.dcl_count,
        s.float_instruction_count,
        s.int_instruction_count,
        s.uint_instruction_count,
        s.static_flow_control_count,
        s.dynamic_flow_control_count,
        s.macro_instruction_count,
        s.temp_array_count,
        s.array_instruction_count,
        s.cut_instruction_count,
        s.emit_instruction_count,
        s.texture_normal_instructions,
        s.texture_load_instructions,
        s.texture_comp_instructions,
        s.texture_bias_instructions,
        s.texture_gradient_instructions,
    ] + Seq::new(18, |i: int| 0u32)
}

/// The packed words of the names of the first `n` signature elements.
pub open spec fn iosgn_name_words(elems: Seq<crate::isgn::InputOutputElement>, n: int) -> Seq<u32>
    decreases n,
{
    if n <= 0 || n > elems.len() {
        Seq::empty()
    } else {
        iosgn_name_words(elems, n - 1) + pack_str_words(
            vstd::utf8::encode_utf8(elems[n - 1].name@),
        )
    }
}

/// The six-word record of signature element `i`, its name-offset field
/// already patched: the offset in bytes, from the start of the chunk body,
/// of the element's packed name.
pub open spec fn iosgn_rec_words(elems: Seq<crate::isgn::InputOutputElement>, i: int) -> Seq<u32> {
    let e = elems[i];
    let name_off = 2 + 6 * elems.len() + iosgn_name_words(elems, i).len();
    seq![
        (4 * name_off) as u32,
        e.semantic_index,
        e.semantic_type.as_word(),
        e.component_type.as_word(),
        e.register,
        ((e.rw_mask as u32) << 8) | (e.component_mask as u32),
    ]
}

/// The records of the first `n` signature elements.
pub open spec fn iosgn_recs_words(elems: Seq<crate::isgn::InputOutputElement>, n: int) -> Seq<u32>
    decreases n,
{
    if n <= 0 {
        Seq::empty()
    } else {
        iosgn_recs_words(elems, n - 1) + iosgn_rec_words(elems, n - 1)
    }
}

/// The body of a signature chunk: element count, one reserved word, the
/// records, then the packed names.
pub open spec fn iosgn_body_words(elems: Seq<crate::isgn::InputOutputElement>) -> Seq<u32> {
    seq![elems.len() as u32, 8u32] + iosgn_recs_words(elems, elems.len() as int)
        + iosgn_name_words(elems, elems.len() as int)
}

/// The whole signature chunk image: tag, byte length, body.
pub open spec fn iosgn_words(c: IOsgnChunk, magic: u32) -> Seq<u32> {
    let body = iosgn_body_words(c.elements@);
    seq![magic, (4 * body.len()) as u32] + body
}

/// The version word of an RDEF chunk: the minor version in its low byte,
/// the major version in the next, the shader type in the high half, exactly
/// as the decoder reads them back.
pub open spec fn rdef_version_word(r: RdefChunk) -> u32 {
    ((r.shader_ty as u32) << 16) | ((r.major as u32) << 8) | (r.minor as u32)
}

/// The fixed extended sub-header a shader-model-5 RDEF chunk is written
/// with.
pub open spec fn rd11_words() -> Seq<u32> {
    seq![RD11_MAGIC, 60u32, 24u32, 32u32, 40u32, 36u32, 12u32, 0u32]
}

/// The body of an RDEF chunk as the builder writes it: counts, both table
/// offsets patched to the chunk-relative byte offset just past the fixed
/// part (the tables themselves are not re-emitted), the version word, flags,
/// the patched author offset, the sub-header for major versions of five and
/// above, then the packed author string.
pub open spec fn rdef_body_words(r: RdefChunk) -> Seq<u32> {
    let rd11 = if r.rd11 is Some {
        rd11_words()
    } else {
        Seq::<u32>::empty()
    };
    let table_loc = 7 + rd11.len();
    seq![
        r.constant_buffers@.len() as u32,
        (4 * table_loc) as u32,
        r.resource_bindings@.len() as u32,
        (4 * table_loc) as u32,
        rdef_version_word(r),
        r.flags,
        (4 * table_loc) as u32,
    ] + rd11 + pack_str_words(r.author.spec_bytes())
}

/// The whole RDEF chunk image: tag, byte length, body.
pub open spec fn rdef_words(r: RdefChunk) -> Seq<u32> {
    let body = rdef_body_words(r);
    seq![RDEF_MAGIC, (4 * body.len()) as u32] + body
}

// ---- Operand and instruction encodings ----

/// The representation-tag bits of the first `n` immediates of an operand
/// token.
pub open spec fn repr_bits(s: Seq<Immediate>, n: int) -> u32
    decreases n,
{
    if n <= 0 || n > s.len() {
        0
    } else {
        repr_bits(s, n - 1) | encode_index_representation(
            (n - 1) as u32,
            match s[n - 1] {
                Immediate::U32(_) => 0,
                Immediate::U64(_) => 1,
                Immediate::Relative(_) => 2,
                Immediate::U32Relative(_, _) => 3,
                Immediate::U64Relative(_, _) => 4,
            },
        )
    }
}

/// The component-count selector of a component mode.
pub open spec fn comp_count_sel(cm: NumComponent) -> u32 {
    match cm {
        NumComponent::D0 => 0,
        NumComponent::D1 => 1,
        NumComponent::D4(_) => 2,
    }
}

/// The selection-mode and component bits of a component mode.
pub open spec fn comp_mode_bits(cm: NumComponent) -> u32 {
    match cm {
        NumComponent::D0 => 0,
        NumComponent::D1 => 0,
        NumComponent::D4(mode) => match mode {
            ComponentMode::Mask(mask) => encode_select_mode(0) | (mask as u32),
            ComponentMode::Swizzle(x, y, z, w) => encode_select_mode(1) | encode_swizzle(
                (x as u32) >> 5,
                (y as u32) >> 5,
                (z as u32) >> 5,
                (w as u32) >> 5,
            ),
            ComponentMode::Select(comp) => encode_select_mode(2) | encode_select_1(
                (comp as u32) >> 5,
            ),
        },
    }
}

/// The leading token word of an operand.
pub open spec fn operand_word0(t: u32, m: Modifier, cm: NumComponent, s: Seq<Immediate>) -> u32 {
    encode_operand_type(t) | (if m is NoModifier {
        0u32
    } else {
        encode_operand_extended(1)
    }) | repr_bits(s, s.len() as int) | encode_num_components(comp_count_sel(cm))
        | encode_index_dimension(s.len() as u32) | comp_mode_bits(cm)
}

/// The modifier extension token, present unless the operand is unmodified.
pub open spec fn modifier_words(m: Modifier) -> Seq<u32> {
    if m is NoModifier {
        Seq::empty()
    } else {
        seq![encode_operand_modifier(m.as_word())]
    }
}

/// The word tag the builder assigns an operand type; only registers, inputs
/// and outputs are encodable.
pub open spec fn operand_type_word(t: OperandType) -> u32 {
    match t {
        OperandType::Register(_) => OPERAND_TYPE_TEMP,
        OperandType::Input(_) => OPERAND_TYPE_INPUT,
        OperandType::Output(_) => OPERAND_TYPE_OUTPUT,
        _ => 100000,
    }
}

/// The words of a nested (relative-addressing) operand: its token and
/// modifier only, no immediates.
pub open spec fn nested_operand_words(o: Operand) -> Seq<u32> {
    seq![operand_word0(operand_type_word(o.ty), o.modifiers, o.component_mode, Seq::empty())]
        + modifier_words(o.modifiers)
}

/// The trailing words of one immediate: a 32-bit literal as one word, a
/// 64-bit literal as its low then high word, and a nested operand for the
/// relative forms.
pub open spec fn imm_trail_words(im: Immediate) -> Seq<u32> {
    match im {
        Immediate::U32(v) => seq![v],
        Immediate::U64(v) => seq![(v & 0xffffffff) as u32, ((v >> 32) & 0xffffffff) as u32],
        Immediate::Relative(o) => nested_operand_words(o),
        Immediate::U32Relative(v, o) => seq![v] + nested_operand_words(o),
        Immediate::U64Relative(v, o) => seq![
            (v & 0xffffffff) as u32,
            ((v >> 32) & 0xffffffff) as u32,
        ] + nested_operand_words(o),
    }
}

/// The trailing words of the first `n` immediates.
pub open spec fn imms_trail_words(s: Seq<Immediate>, n: int) -> Seq<u32>
    decreases n,
{
    if n <= 0 || n > s.len() {
        Seq::empty()
    } else {
        imms_trail_words(s, n - 1) + imm_trail_words(s[n - 1])
    }
}

/// The full word image of one operand write: token word, modifier token,
/// immediates.
pub open spec fn operand_words(t: u32, m: Modifier, cm: NumComponent, s: Seq<Immediate>) -> Seq<
    u32,
> {
    seq![operand_word0(t, m, cm, s)] + modifier_words(m) + imms_trail_words(s, s.len() as int)
}

/// The word image of one builder operand.
pub open spec fn op_enc_words(o: Operand) -> Seq<u32> {
    match o.ty {
        OperandType::Register(reg) => operand_words(
            OPERAND_TYPE_TEMP,
            o.modifiers,
            o.component_mode,
            seq![Immediate::U32(reg)],
        ),
        OperandType::Input(reg) => operand_words(
            OPERAND_TYPE_INPUT,
            o.modifiers,
            o.component_mode,
            seq![Immediate::U32(reg)],
        ),
        OperandType::Output(reg) => operand_words(
            OPERAND_TYPE_OUTPUT,
            o.modifiers,
            o.component_mode,
            seq![Immediate::U32(reg)],
        ),
        _ => Seq::empty(),
    }
}

/// The opcode word an instruction starts from, before its length is patched
/// in.
pub open spec fn base_opcode_word(op: u32, sat: bool) -> u32 {
    encode_opcode_type(op) | encode_instr_length(0) | encode_saturate(
        if sat {
            1
        } else {
            0
        },
    )
}

/// The word image of one instruction: its opcode word with the final length
/// patched in, then its operands.
pub open spec fn instr_words(ins: Instruction) -> Seq<u32> {
    match ins {
        Instruction::DclGlobalFlags { flags } => seq![
            base_opcode_word(OPCODE_DCL_GLOBAL_FLAGS, false) | (flags.bits & 0xfff800)
                | encode_instr_length(1),
        ],
        Instruction::DclTemps { count } => seq![
            base_opcode_word(OPCODE_DCL_TEMPS, false) | encode_instr_length(2),
            count,
        ],
        Instruction::DclOutputSiv { register, semantic } => {
            let ws = op_enc_words(register) + seq![semantic.as_word()];
            seq![
                base_opcode_word(OPCODE_DCL_OUTPUT_SIV, false) | encode_instr_length(
                    (1 + ws.len()) as u32,
                ),
            ] + ws
        },
        Instruction::DclInput { register } => {
            let ws = op_enc_words(register);
            seq![
                base_opcode_word(OPCODE_DCL_INPUT, false) | encode_instr_length(
                    (1 + ws.len()) as u32,
                ),
            ] + ws
        },
        Instruction::Add { dest, a, b, saturated } => {
            let ws = op_enc_words(dest) + op_enc_words(a) + op_enc_words(b);
            seq![
                base_opcode_word(OPCODE_ADD, saturated) | encode_instr_length(
                    (1 + ws.len()) as u32,
                ),
            ] + ws
        },
        Instruction::Mul { dest, a, b, saturated } => {
            let ws = op_enc_words(dest) + op_enc_words(a) + op_enc_words(b);
            seq![
                base_opcode_word(OPCODE_MUL, saturated) | encode_instr_length(
                    (1 + ws.len()) as u32,
                ),
            ] + ws
        },
        Instruction::Ret => seq![base_opcode_word(OPCODE_RET, false) | encode_instr_length(1)],
    }
}

/// The words of the first `n` instructions.
pub open spec fn instrs_words(s: Seq<Instruction>, n: int) -> Seq<u32>
    decreases n,
{
    if n <= 0 || n > s.len() {
        Seq::empty()
    } else {
        instrs_words(s, n - 1) + instr_words(s[n - 1])
    }
}

/// The whole SHEX chunk image: tag, byte length, the vertex-shader version
/// token, the body length in words, the encoded instructions.
pub open spec fn shex_words(c: ShexChunk) -> Seq<u32> {
    let ws = instrs_words(c.instructions@, c.instructions@.len() as int);
    let sz = 2 + ws.len();
    seq![SHEX_MAGIC, (4 * sz) as u32, encode_program_version(1, 5, 0), sz as u32] + ws
}

/// The growable word buffer a module is assembled in.
pub struct DxbcModule {
    pub dwords: Vec<u32>,
}

impl DxbcModule {
    pub fn new() -> (r: Self)
        ensures
            r.dwords@.len() == 0,
    {
        DxbcModule { dwords: Vec::new() }
    }

    /// The current write position, in words.
    pub fn position(&self) -> (r: usize)
        ensures
            r == self.dwords@.len(),
    {
        self.dwords.len()
    }

    pub fn get_u32(&mut self, pos: usize) -> (r: u32)
        requires
            pos < old(self).dwords@.len(),
        ensures
            *final(self) == *old(self),
            r == old(self).dwords@[pos as int],
    {
        self.dwords[pos]
    }

    /// Appends one word.
    pub fn write_u32(&mut self, val: u32)
        ensures
            final(self).dwords@ == old(self).dwords@.push(val),
    {
        self.dwords.push(val);
    }

    /// Overwrites one word (forward patching).
    pub fn set_u32(&mut self, offset: usize, val: u32)
        requires
            offset < old(self).dwords@.len(),
        ensures
            final(self).dwords@ == old(self).dwords@.update(offset as int, val),
    {
        self.dwords.set(offset, val);
    }

    /// Overwrites the tail from `offset` on; the given words must fill it
    /// exactly.
    pub fn set_u32_slice(&mut self, offset: usize, val: &[u32])
        requires
            offset + val@.len() == old(self).dwords@.len(),
        ensures
            final(self).dwords@ == old(self).dwords@.take(offset as int) + val@,
    {
        let total = self.dwords.len();
        proof {
            assert(offset + val@.len() == total);
        }
        let mut i: usize = 0;
        while i < val.len()
            invariant
                i <= val@.len(),
                offset + val@.len() <= usize::MAX,
                offset + val@.len() == self.dwords@.len(),
                self.dwords@.len() == old(self).dwords@.len(),
                forall|j: int| 0 <= j < i ==> self.dwords@[offset + j] == val@[j],
                forall|j: int|
                    0 <= j < self.dwords@.len() && !(offset <= j < offset + i)
                        ==> self.dwords@[j] == old(self).dwords@[j],
            decreases val@.len() - i,
        {
            self.dwords.set(offset + i, val[i]);
            i = i + 1;
        }
        proof {
            assert(final(self).dwords@ =~= old(self).dwords@.take(offset as int) + val@);
        }
    }

    /// Packs a string: four bytes to a word little-endian, a partial word
    /// for one to three leftover bytes, and an all-zero terminator word when
    /// the length is an exact multiple of four, so that a decoder's null
    /// scan always ends. Returns the number of bytes written.
    pub fn write_str(&mut self, text: &str) -> (r: u32)
        requires
            text.spec_bytes().len() < 0x20000000,
        ensures
            final(self).dwords@ == old(self).dwords@ + pack_str_words(text.spec_bytes()),
            r == 4 * pack_str_words(text.spec_bytes()).len(),
    {
        let bytes = text.as_bytes();
        let ghost b = text.spec_bytes();
        let start = self.dwords.len();
        let n = bytes.len();
        proof {
            assert(b.skip(0) =~= b);
        }
        let mut i: usize = 0;
        while i + 4 <= n
            invariant
                i % 4 == 0,
                i <= n,
                n < 0x20000000,
                n == b.len(),
                bytes@ == b,
                self.dwords@ + pack_str_words(b.skip(i as int)) == old(self).dwords@
                    + pack_str_words(b),
                self.dwords@.len() == old(self).dwords@.len() + i / 4,
            decreases n - i,
        {
            let ghost rem = b.skip(i as int);
            let w = (bytes[i] as u32) | ((bytes[i + 1] as u32) << 8) | ((bytes[i + 2] as u32) << 16)
                | ((bytes[i + 3] as u32) << 24);
            proof {
                assert(rem.len() >= 4);
                assert(rem[0] == b[i as int] && rem[1] == b[i as int + 1]);
                assert(rem[2] == b[i as int + 2] && rem[3] == b[i as int + 3]);
                assert(pack_str_words(rem) == seq![word4(rem[0], rem[1], rem[2], rem[3])]
                    + pack_str_words(rem.skip(4)));
                assert(rem.skip(4) =~= b.skip(i as int + 4));
                assert((self.dwords@ + seq![w]) + pack_str_words(b.skip(i as int + 4))
                    =~= self.dwords@ + pack_str_words(b.skip(i as int)));
            }
            self.dwords.push(w);
            i = i + 4;
        }
        let ghost rem = b.skip(i as int);
        proof {
            assert(rem.len() == n - i < 4);
        }
        if n - i == 1 {
            proof {
                assert(rem[0] == b[i as int]);
                assert(pack_str_words(rem) =~= seq![b[i as int] as u32]);
            }
            self.dwords.push(bytes[i] as u32);
        } else if n - i == 2 {
            proof {
                assert(pack_str_words(rem) =~= seq![(rem[0] as u32) | ((rem[1] as u32) << 8)]);
            }
            self.dwords.push((bytes[i] as u32) | ((bytes[i + 1] as u32) << 8));
        } else if n - i == 3 {
            proof {
                assert(pack_str_words(rem) =~= seq![
                    (rem[0] as u32) | ((rem[1] as u32) << 8) | ((rem[2] as u32) << 16),
                ]);
            }
            self.dwords.push(
                (bytes[i] as u32) | ((bytes[i + 1] as u32) << 8) | ((bytes[i + 2] as u32) << 16),
            );
        } else {
            proof {
                assert(rem.len() == 0);
                assert(pack_str_words(rem) =~= seq![0u32]);
            }
            self.dwords.push(0);
        }
        proof {
            assert(self.dwords@ =~= old(self).dwords@ + pack_str_words(b));
        }
        let words = self.dwords.len() - start;
        (4 * words) as u32
    }

    /// Writes a STAT chunk: tag, a length placeholder, the nineteen
    /// counters, eighteen reserved zero words, then the patched byte length.
    pub fn write_stat(&mut self, stat: &IStatChunk)
        ensures
            final(self).dwords@ == old(self).dwords@ + stat_words(*stat),
    {
        self.write_u32(STAT_MAGIC);
        let stat_size_pos = self.position();
        self.write_u32(0);
        let chunk_start = self.position();

        self.write_u32(stat.instruction_count);
        self.write_u32(stat.temp_register_count);
        self.write_u32(stat.def_count);
        self.write_u32(stat.dcl_count);
        self.write_u32(stat.float_instruction_count);
        self.write_u32(stat.int_instruction_count);
        self.write_u32(stat.uint_instruction_count);
        self.write_u32(stat.static_flow_control_count);
        self.write_u32(stat.dynamic_flow_control_count);
        self.write_u32(stat.macro_instruction_count);
        self.write_u32(stat.temp_array_count);
        self.write_u32(stat.array_instruction_count);
        self.write_u32(stat.cut_instruction_count);
        self.write_u32(stat.emit_instruction_count);
        self.write_u32(stat.texture_normal_instructions);
        self.write_u32(stat.texture_load_instructions);
        self.write_u32(stat.texture_comp_instructions);
        self.write_u32(stat.texture_bias_instructions);
        self.write_u32(stat.texture_gradient_instructions);

        let mut k: usize = 0;
        while k < 18
            invariant
                k <= 18,
                stat_size_pos == old(self).dwords@.len() + 1,
                chunk_start == stat_size_pos + 1,
                self.dwords@.len() == chunk_start + 19 + k,
                self.dwords@ == old(self).dwords@ + seq![STAT_MAGIC, 0u32] + stat_words(
                    *stat,
                ).subrange(2, 21) + Seq::new(k as nat, |i: int| 0u32),
            decreases 18 - k,
        {
            self.write_u32(0);
            proof {
                assert(Seq::new((k + 1) as nat, |i: int| 0u32) =~= Seq::new(
                    k as nat,
                    |i: int| 0u32,
                ).push(0u32));
                assert(self.dwords@ =~= old(self).dwords@ + seq![STAT_MAGIC, 0u32] + stat_words(
                    *stat,
                ).subrange(2, 21) + Seq::new((k + 1) as nat, |i: int| 0u32));
            }
            k = k + 1;
        }

        let end_pos = self.position();
        self.set_u32(stat_size_pos, (4 * (end_pos - chunk_start)) as u32);
        proof {
            assert(self.dwords@ =~= old(self).dwords@ + stat_words(*stat));
        }
    }

    /// The little-endian byte image of the assembled words.
    pub fn as_bytes(&self) -> (r: Vec<u8>)
        ensures
            r@ == words_to_bytes(self.dwords@),
    {
        let mut out: Vec<u8> = Vec::new();
        let mut i: usize = 0;
        while i < self.dwords.len()
            invariant
                i <= self.dwords@.len(),
                out@.len() == 4 * i,
                forall|j: int|
                    0 <= j < out@.len() ==> out@[j] == word_byte(self.dwords@[j / 4], j % 4),
            decreases self.dwords@.len() - i,
        {
            let w = self.dwords[i];
            let ghost pre = out@;
            out.push((w & 0xff) as u8);
            out.push(((w >> 8) & 0xff) as u8);
            out.push(((w >> 16) & 0xff) as u8);
            out.push(((w >> 24) & 0xff) as u8);
            proof {
                let ww = w;
                assert(ww >> 0u32 == ww) by (bit_vector);
                assert forall|j: int| 0 <= j < out@.len() implies out@[j] == word_byte(
                    self.dwords@[j / 4],
                    j % 4,
                ) by {
                    if j < pre.len() {
                    } else {
                        assert((4 * i as int) / 4 == i as int && (4 * i as int) % 4 == 0) by (nonlinear_arith);
                        assert((4 * i as int + 1) / 4 == i as int && (4 * i as int + 1) % 4 == 1)
                            by (nonlinear_arith);
                        assert((4 * i as int + 2) / 4 == i as int && (4 * i as int + 2) % 4 == 2)
                            by (nonlinear_arith);
                        assert((4 * i as int + 3) / 4 == i as int && (4 * i as int + 3) % 4 == 3)
                            by (nonlinear_arith);
                    }
                }
            }
            i = i + 1;
        }
        proof {
            assert(out@ =~= words_to_bytes(self.dwords@));
        }
        out
    }
}

/// The leading word of an opcode write, before any length patch.
pub open spec fn opcode_word0(op: u32, len: u32, test: Option<u32>, sat: bool, has_ext: bool) -> u32 {
    let w = encode_opcode_type(op) | encode_instr_length(len) | encode_saturate(
        if sat {
            1
        } else {
            0
        },
    );
    let w = if has_ext {
        w | encode_token_extended(1)
    } else {
        w
    };
    match test {
        Some(t) => w | encode_test_boolean(t),
        None => w,
    }
}

/// One opcode extension token, its chained bit set when more follow.
pub open spec fn opcode_ex_word(e: OpcodeEx, more: bool) -> u32 {
    let morebit = if more {
        encode_token_extended(1)
    } else {
        0u32
    };
    match e {
        OpcodeEx::UvOffset(u, v, w) => encode_ext_opcode_type(1) | encode_address_offset(0, u)
            | encode_address_offset(1, v) | encode_address_offset(2, w) | morebit,
        OpcodeEx::Dimension(dim, stride) => encode_ext_opcode_type(2)
            | encode_ext_resource_dimension(dim.as_word()) | encode_ext_resource_stride(stride)
            | morebit,
        OpcodeEx::ResourceReturnType(x, y, z, w) => encode_ext_opcode_type(3)
            | encode_ext_resource_return_type(x.as_word(), 0) | encode_ext_resource_return_type(
            y.as_word(),
            1,
        ) | encode_ext_resource_return_type(z.as_word(), 2) | encode_ext_resource_return_type(
            w.as_word(),
            3,
        ) | morebit,
    }
}

/// The extension tokens of the first `n` entries of a chain.
pub open spec fn opcode_exs_words(s: Seq<OpcodeEx>, n: int) -> Seq<u32>
    decreases n,
{
    if n <= 0 || n > s.len() {
        Seq::empty()
    } else {
        opcode_exs_words(s, n - 1) + seq![opcode_ex_word(s[n - 1], n - 1 != s.len() - 1)]
    }
}

/// The full word image of one opcode write: the opcode token, then its
/// extension chain.
pub open spec fn opcode_words(op: u32, len: u32, test: Option<u32>, sat: bool, exts: Seq<OpcodeEx>) -> Seq<u32> {
    seq![opcode_word0(op, len, test, sat, exts.len() != 0)] + opcode_exs_words(
        exts,
        exts.len() as int,
    )
}

impl Operand {
    pub fn new(ty: OperandType, modifiers: Modifier, component_mode: NumComponent) -> (r: Self)
        ensures
            r.ty == ty && r.modifiers == modifiers && r.component_mode == component_mode,
    {
        Operand { ty, modifiers, component_mode }
    }

    /// A temporary-register operand.
    pub fn register(reg: u32, modifiers: Modifier, component_mode: NumComponent) -> (r: Self)
        ensures
            r.ty == OperandType::Register(reg) && r.modifiers == modifiers && r.component_mode
                == component_mode,
    {
        Self::new(OperandType::Register(reg), modifiers, component_mode)
    }

    /// An input-register operand.
    pub fn input(reg: u32, modifiers: Modifier, component_mode: NumComponent) -> (r: Self)
        ensures
            r.ty == OperandType::Input(reg) && r.modifiers == modifiers && r.component_mode
                == component_mode,
    {
        Self::new(OperandType::Input(reg), modifiers, component_mode)
    }

    /// An output-register operand.
    pub fn output(reg: u32, modifiers: Modifier, component_mode: NumComponent) -> (r: Self)
        ensures
            r.ty == OperandType::Output(reg) && r.modifiers == modifiers && r.component_mode
                == component_mode,
    {
        Self::new(OperandType::Output(reg), modifiers, component_mode)
    }

    /// The word tag of this operand's type.
    fn get_type(&self) -> (r: u32)
        ensures
            r == operand_type_word(self.ty),
    {
        match &self.ty {
            OperandType::Register(_) => OPERAND_TYPE_TEMP,
            OperandType::Input(_) => OPERAND_TYPE_INPUT,
            OperandType::Output(_) => OPERAND_TYPE_OUTPUT,
            _ => 100000,
        }
    }

    /// Appends this operand's words; types the builder cannot encode append
    /// nothing.
    fn encode(&self, module: &mut DxbcModule)
        ensures
            final(module).dwords@ == old(module).dwords@ + op_enc_words(*self),
    {
        match &self.ty {
            OperandType::Register(reg) => {
                let imms = [Immediate::U32(*reg)];
                module.write_operand(OPERAND_TYPE_TEMP, self.modifiers, self.component_mode, &imms);
                proof {
                    assert(imms@ =~= seq![Immediate::U32(*reg)]);
                }
            },
            OperandType::Input(reg) => {
                let imms = [Immediate::U32(*reg)];
                module.write_operand(
                    OPERAND_TYPE_INPUT,
                    self.modifiers,
                    self.component_mode,
                    &imms,
                );
                proof {
                    assert(imms@ =~= seq![Immediate::U32(*reg)]);
                }
            },
            OperandType::Output(reg) => {
                let imms = [Immediate::U32(*reg)];
                module.write_operand(
                    OPERAND_TYPE_OUTPUT,
                    self.modifiers,
                    self.component_mode,
                    &imms,
                );
                proof {
                    assert(imms@ =~= seq![Immediate::U32(*reg)]);
                }
            },
            _ => {
                proof {
                    assert(op_enc_words(*self) =~= Seq::<u32>::empty());
                    assert(old(module).dwords@ + op_enc_words(*self) =~= old(module).dwords@);
                }
            },
        }
    }
}

impl DxbcModule {
    /// Writes one opcode token and its extension chain; the chained bit of
    /// each extension token is set while more follow.
    pub fn write_opcode(
        &mut self,
        op: u32,
        instruction_len: u32,
        test: Option<u32>,
        saturated: bool,
        extended: &[OpcodeEx],
    )
        ensures
            final(self).dwords@ == old(self).dwords@ + opcode_words(
                op,
                instruction_len,
                test,
                saturated,
                extended@,
            ),
    {
        let mut opcode: u32 = (op & 0x7ff) | ((instruction_len & 0x7f) << 24) | ((if saturated {
            1u32
        } else {
            0u32
        } & 1) << 13);
        if extended.len() != 0 {
            opcode = opcode | ((1u32 & 1) << 31);
        }
        match test {
            Some(t) => {
                opcode = opcode | ((t & 1) << 18);
            },
            None => {},
        }
        self.write_u32(opcode);

        let mut idx: usize = 0;
        while idx < extended.len()
            invariant
                idx <= extended@.len(),
                self.dwords@ == old(self).dwords@ + seq![
                    opcode_word0(
                        op,
                        instruction_len,
                        test,
                        saturated,
                        extended@.len() != 0,
                    ),
                ] + opcode_exs_words(extended@, idx as int),
            decreases extended@.len() - idx,
        {
            let op_ex = extended[idx];
            let more = idx != extended.len() - 1;
            self.write_opcode_ex(op_ex, more);
            proof {
                assert(self.dwords@ =~= old(self).dwords@ + seq![
                    opcode_word0(
                        op,
                        instruction_len,
                        test,
                        saturated,
                        extended@.len() != 0,
                    ),
                ] + opcode_exs_words(extended@, idx as int + 1));
            }
            idx = idx + 1;
        }
        proof {
            assert(self.dwords@ =~= old(self).dwords@ + opcode_words(
                op,
                instruction_len,
                test,
                saturated,
                extended@,
            ));
        }
    }

    /// Writes one opcode extension token.
    pub fn write_opcode_ex(&mut self, opcode: OpcodeEx, more: bool)
        ensures
            final(self).dwords@ == old(self).dwords@.push(opcode_ex_word(opcode, more)),
    {
        let morebit: u32 = if more {
            (1u32 & 1) << 31
        } else {
            0
        };
        match opcode {
            OpcodeEx::UvOffset(u, v, w) => {
                self.write_u32(
                    (1u32 & 0x3f) | ((u & 0xf) << 9) | ((v & 0xf) << 13) | ((w & 0xf) << 17)
                        | morebit,
                );
            },
            OpcodeEx::Dimension(dim, stride) => {
                self.write_u32(
                    (2u32 & 0x3f) | ((dim.to_word() & 0x1f) << 6) | ((stride & 0xfff) << 11)
                        | morebit,
                );
            },
            OpcodeEx::ResourceReturnType(x, y, z, w) => {
                self.write_u32(
                    (3u32 & 0x3f) | ((x.to_word() & 0xf) << 6) | ((y.to_word() & 0xf) << 10) | ((
                    z.to_word() & 0xf) << 14) | ((w.to_word() & 0xf) << 18) | morebit,
                );
            },
        }
    }

    /// Writes one operand: the assembled token word, the modifier extension
    /// token when the operand is modified, then the trailing values, each
    /// relative one as a nested operand without further values.
    pub fn write_operand(
        &mut self,
        op: u32,
        modifier: Modifier,
        component_mode: NumComponent,
        immediates: &[Immediate],
    )
        requires
            immediates@.len() <= 3,
        ensures
            final(self).dwords@ == old(self).dwords@ + operand_words(
                op,
                modifier,
                component_mode,
                immediates@,
            ),
        decreases immediates@.len(),
    {
        let mut operand: u32 = (op & 0xff) << 12;
        match modifier {
            Modifier::NoModifier => {
                operand = operand | 0;
            },
            _ => {
                operand = operand | ((1u32 & 1) << 31);
            },
        }

        let mut rb: u32 = 0;
        let mut idx: usize = 0;
        while idx < immediates.len()
            invariant
                idx <= immediates@.len(),
                immediates@.len() <= 3,
                rb == repr_bits(immediates@, idx as int),
            decreases immediates@.len() - idx,
        {
            let repr: u32 = match &immediates[idx] {
                Immediate::U32(_) => 0,
                Immediate::U64(_) => 1,
                Immediate::Relative(_) => 2,
                Immediate::U32Relative(_, _) => 3,
                Immediate::U64Relative(_, _) => 4,
            };
            rb = rb | ((repr & 7) << (22 + 3 * (idx as u32)));
            idx = idx + 1;
        }
        operand = operand | rb;

        let cc: u32 = match component_mode {
            NumComponent::D0 => 0,
            NumComponent::D1 => 1,
            NumComponent::D4(_) => 2,
        };
        operand = operand | (cc & 3);

        let dim: u32 = immediates.len() as u32;
        operand = operand | ((dim & 3) << 20);

        let cm_bits: u32 = match component_mode {
            NumComponent::D0 => 0,
            NumComponent::D1 => 0,
            NumComponent::D4(mode) => match mode {
                ComponentMode::Mask(mask) => ((0u32 & 3) << 2) | (mask as u32),
                ComponentMode::Swizzle(x, y, z, w) => ((1u32 & 3) << 2) | (((((x as u32) >> 5) & 3)
                    << 4) | ((((y as u32) >> 5) & 3) << 6) | ((((z as u32) >> 5) & 3) << 8) | ((((
                w as u32) >> 5) & 3) << 10)),
                ComponentMode::Select(comp) => ((2u32 & 3) << 2) | ((((comp as u32) >> 5) & 3)
                    << 4),
            },
        };
        operand = operand | cm_bits;
        proof {
            assert(operand == operand_word0(op, modifier, component_mode, immediates@));
        }
        self.write_u32(operand);

        match modifier {
            Modifier::NoModifier => {},
            Modifier::Neg => {
                self.write_u32(((1u32 << 6) & 0x3fc0) | 1);
            },
            Modifier::Abs => {
                self.write_u32(((2u32 << 6) & 0x3fc0) | 1);
            },
            Modifier::AbsNeg => {
                self.write_u32(((3u32 << 6) & 0x3fc0) | 1);
            },
        }
        let ghost head = old(self).dwords@ + seq![
            operand_word0(op, modifier, component_mode, immediates@),
        ] + modifier_words(modifier);
        proof {
            assert(self.dwords@ =~= head);
        }

        let mut k: usize = 0;
        while k < immediates.len()
            invariant
                k <= immediates@.len(),
                immediates@.len() <= 3,
                self.dwords@ == head + imms_trail_words(immediates@, k as int),
            decreases immediates@.len() - k,
        {
            match &immediates[k] {
                Immediate::U32(val) => {
                    self.write_u32(*val);
                },
                Immediate::U64(val) => {
                    self.write_u32((*val & 0xffffffff) as u32);
                    self.write_u32(((*val >> 32) & 0xffffffff) as u32);
                },
                Immediate::Relative(rel) => {
                    let none_imms: [Immediate; 0] = [];
                    self.write_operand(rel.get_type(), rel.modifiers, rel.component_mode, &none_imms);
                    proof {
                        assert(none_imms@ =~= Seq::<Immediate>::empty());
                        assert(operand_words(
                            operand_type_word(rel.ty),
                            rel.modifiers,
                            rel.component_mode,
                            Seq::<Immediate>::empty(),
                        ) =~= nested_operand_words(*rel));
                    }
                },
                Immediate::U32Relative(val, rel) => {
                    self.write_u32(*val);
                    let none_imms: [Immediate; 0] = [];
                    self.write_operand(rel.get_type(), rel.modifiers, rel.component_mode, &none_imms);
                    proof {
                        assert(none_imms@ =~= Seq::<Immediate>::empty());
                        assert(operand_words(
                            operand_type_word(rel.ty),
                            rel.modifiers,
                            rel.component_mode,
                            Seq::<Immediate>::empty(),
                        ) =~= nested_operand_words(*rel));
                    }
                },
                Immediate::U64Relative(val, rel) => {
                    self.write_u32((*val & 0xffffffff) as u32);
                    self.write_u32(((*val >> 32) & 0xffffffff) as u32);
                    let none_imms: [Immediate; 0] = [];
                    self.write_operand(rel.get_type(), rel.modifiers, rel.component_mode, &none_imms);
                    proof {
                        assert(none_imms@ =~= Seq::<Immediate>::empty());
                        assert(operand_words(
                            operand_type_word(rel.ty),
                            rel.modifiers,
                            rel.component_mode,
                            Seq::<Immediate>::empty(),
                        ) =~= nested_operand_words(*rel));
                    }
                },
            }
            proof {
                assert(self.dwords@ =~= head + imms_trail_words(immediates@, k as int + 1));
            }
            k = k + 1;
        }
        proof {
            assert(self.dwords@ =~= old(self).dwords@ + operand_words(
                op,
                modifier,
                component_mode,
                immediates@,
            ));
        }
    }
}

/// The length of a packed string: one word per four bytes, always one more
/// for the partial or terminator word.
proof fn lemma_pack_str_words_len(b: Seq<u8>)
    ensures
        pack_str_words(b).len() == b.len() / 4 + 1,
    decreases b.len(),
{
    if b.len() >= 4 {
        lemma_pack_str_words_len(b.skip(4));
        assert(b.len() / 4 == (b.len() - 4) / 4 + 1) by (nonlinear_arith)
            requires b.len() >= 4;
    }
}

/// Name-word prefixes grow monotonically.
proof fn lemma_iosgn_name_words_mono(elems: Seq<crate::isgn::InputOutputElement>, a: int, b: int)
    requires
        a <= b <= elems.len(),
    ensures
        iosgn_name_words(elems, a).len() <= iosgn_name_words(elems, b).len(),
    decreases b - a,
{
    if a < b {
        lemma_iosgn_name_words_mono(elems, a, b - 1);
    }
}

/// Each signature record is six words.
proof fn lemma_iosgn_recs_words_len(elems: Seq<crate::isgn::InputOutputElement>, n: int)
    requires
        0 <= n,
    ensures
        iosgn_recs_words(elems, n).len() == 6 * n,
    decreases n,
{
    if n > 0 {
        lemma_iosgn_recs_words_len(elems, n - 1);
    }
}

impl Instruction {
    /// The word the encoder starts this instruction's opcode token from,
    /// before the length patch.
    pub open spec fn pre_patch_word(self) -> u32 {
        match self {
            Instruction::DclGlobalFlags { flags } => base_opcode_word(OPCODE_DCL_GLOBAL_FLAGS, false)
                | (flags.bits & 0xfff800),
            Instruction::DclTemps { .. } => base_opcode_word(OPCODE_DCL_TEMPS, false),
            Instruction::DclOutputSiv { .. } => base_opcode_word(OPCODE_DCL_OUTPUT_SIV, false),
            Instruction::DclInput { .. } => base_opcode_word(OPCODE_DCL_INPUT, false),
            Instruction::Add { saturated, .. } => base_opcode_word(OPCODE_ADD, saturated),
            Instruction::Mul { saturated, .. } => base_opcode_word(OPCODE_MUL, saturated),
            Instruction::Ret => base_opcode_word(OPCODE_RET, false),
        }
    }

    /// The opcode number this instruction encodes to.
    fn get_opcode(&self) -> (r: u32)
        ensures
            r == match *self {
                Instruction::DclGlobalFlags { .. } => OPCODE_DCL_GLOBAL_FLAGS,
                Instruction::DclTemps { .. } => OPCODE_DCL_TEMPS,
                Instruction::DclOutputSiv { .. } => OPCODE_DCL_OUTPUT_SIV,
                Instruction::DclInput { .. } => OPCODE_DCL_INPUT,
                Instruction::Add { .. } => OPCODE_ADD,
                Instruction::Mul { .. } => OPCODE_MUL,
                Instruction::Ret => OPCODE_RET,
            },
    {
        match self {
            Instruction::Add { .. } => OPCODE_ADD,
            Instruction::Mul { .. } => OPCODE_MUL,
            Instruction::DclGlobalFlags { .. } => OPCODE_DCL_GLOBAL_FLAGS,
            Instruction::DclOutputSiv { .. } => OPCODE_DCL_OUTPUT_SIV,
            Instruction::DclInput { .. } => OPCODE_DCL_INPUT,
            Instruction::DclTemps { .. } => OPCODE_DCL_TEMPS,
            Instruction::Ret => OPCODE_RET,
        }
    }

    /// Writes the opcode token with a zero length field, the global flags
    /// merged in for a global-flags declaration.
    fn encode_opcode(&self, module: &mut DxbcModule)
        ensures
            final(module).dwords@ == old(module).dwords@.push(self.pre_patch_word()),
    {
        let opcode = self.get_opcode();
        match self {
            Instruction::Add { saturated, .. } | Instruction::Mul { saturated, .. } => {
                let none_ex: [OpcodeEx; 0] = [];
                module.write_opcode(opcode, 0, None, *saturated, &none_ex);
                proof {
                    assert(none_ex@ =~= Seq::<OpcodeEx>::empty());
                    assert(old(module).dwords@ + opcode_words(
                        opcode,
                        0,
                        None,
                        *saturated,
                        Seq::<OpcodeEx>::empty(),
                    ) =~= old(module).dwords@.push(self.pre_patch_word()));
                }
            },
            Instruction::DclGlobalFlags { flags } => {
                let opcode_pos = module.position();
                let none_ex: [OpcodeEx; 0] = [];
                module.write_opcode(opcode, 0, None, false, &none_ex);
                let w = module.get_u32(opcode_pos);
                proof {
                    assert(none_ex@ =~= Seq::<OpcodeEx>::empty());
                    assert(opcode_exs_words(Seq::<OpcodeEx>::empty(), 0) =~= Seq::<u32>::empty());
                    assert(w == base_opcode_word(OPCODE_DCL_GLOBAL_FLAGS, false));
                }
                module.set_u32(opcode_pos, w | (flags.bits() & 0x00fff800));
                proof {
                    assert(final(module).dwords@ =~= old(module).dwords@.push(
                        self.pre_patch_word(),
                    ));
                }
            },
            Instruction::DclOutputSiv { .. } | Instruction::DclInput { .. } | Instruction::DclTemps {
                ..
            } | Instruction::Ret => {
                let none_ex: [OpcodeEx; 0] = [];
                module.write_opcode(opcode, 0, None, false, &none_ex);
                proof {
                    assert(none_ex@ =~= Seq::<OpcodeEx>::empty());
                    assert(old(module).dwords@ + opcode_words(
                        opcode,
                        0,
                        None,
                        false,
                        Seq::<OpcodeEx>::empty(),
                    ) =~= old(module).dwords@.push(self.pre_patch_word()));
                }
            },
        }
    }

    /// Writes this instruction: the opcode token, its operands in fixed
    /// order, then the declared length patched into the opcode token once
    /// the extent is known.
    pub fn encode(&self, module: &mut DxbcModule)
        requires
            instr_words(*self).len() <= 127,
        ensures
            final(module).dwords@ == old(module).dwords@ + instr_words(*self),
    {
        let start = module.position();
        self.encode_opcode(module);

        match self {
            Instruction::Add { dest, a, b, .. } | Instruction::Mul { dest, a, b, .. } => {
                dest.encode(module);
                a.encode(module);
                b.encode(module);
            },
            Instruction::DclTemps { count } => {
                module.write_u32(*count);
            },
            Instruction::DclOutputSiv { register, semantic } => {
                register.encode(module);
                let sem: u32 = match semantic {
                    Semantic::Undefined => 0,
                    Semantic::Position => 1,
                };
                module.write_u32(sem);
            },
            Instruction::DclInput { register } => {
                register.encode(module);
            },
            _ => {},
        }

        let end = module.position();
        let sz = end - start;
        proof {
            assert(sz == instr_words(*self).len());
        }
        let opcode = module.get_u32(start);
        module.set_u32(start, opcode | ((sz as u32 & 0x7f) << 24));
        proof {
            assert(final(module).dwords@ =~= old(module).dwords@ + instr_words(*self));
        }
    }
}

impl DxbcModule {
    /// Writes a signature chunk under the given tag: element count, one
    /// reserved word, six-word records whose name-offset fields point into
    /// the packed name region, then the names.
    #[verifier::rlimit(100)]
    pub fn write_iosgn(&mut self, chunk: &IOsgnChunk, magic: u32)
        requires
            iosgn_words(*chunk, magic).len() <= 0x7ffffff,
        ensures
            final(self).dwords@ == old(self).dwords@ + iosgn_words(*chunk, magic),
    {
        let ghost elems = chunk.elements@;
        let ghost n = elems.len() as int;
        proof {
            lemma_iosgn_recs_words_len(elems, n);
            lemma_iosgn_name_words_mono(elems, 0, n);
        }
        self.write_u32(magic);
        let chunk_sz_pos = self.position();
        self.write_u32(0);
        let chunk_start = self.position();
        let count = chunk.elements.len();
        proof {
            assert(iosgn_body_words(elems).len() >= 2 + 6 * n);
        }
        self.write_u32(count as u32);
        self.write_u32(0x8);

        let ghost head = old(self).dwords@ + seq![
            magic,
            (4 * iosgn_body_words(elems).len()) as u32,
        ];
        let ghost head0 = old(self).dwords@ + seq![magic, 0u32, count as u32, 8u32];

        let mut nw: usize = 0;
        let mut i: usize = 0;
        while i < count
            invariant
                i <= count,
                count == elems.len(),
                n == elems.len() as int,
                iosgn_words(*chunk, magic).len() <= 0x7ffffff,
                elems == chunk.elements@,
                nw == iosgn_name_words(elems, i as int).len(),
                self.dwords@ == head0 + iosgn_recs_words(elems, i as int),
                head0 == old(self).dwords@ + seq![magic, 0u32, count as u32, 8u32],
            decreases count - i,
        {
            proof {
                lemma_iosgn_recs_words_len(elems, i as int);
                lemma_iosgn_recs_words_len(elems, n);
                lemma_iosgn_name_words_mono(elems, i as int, n);
                assert(iosgn_body_words(elems).len() == 2 + 6 * n + iosgn_name_words(
                    elems,
                    n,
                ).len());
            }
            let e = &chunk.elements[i];
            let name_off: usize = 2 + 6 * count + nw;
            self.write_u32((4 * name_off) as u32);
            self.write_u32(e.semantic_index);
            let sem: u32 = match e.semantic_type {
                crate::isgn::SemanticName::Undefined => 0,
                crate::isgn::SemanticName::Position => 1,
                crate::isgn::SemanticName::ClipDistance => 2,
                crate::isgn::SemanticName::CullDistance => 3,
                crate::isgn::SemanticName::RenderTargetArrayIndex => 4,
                crate::isgn::SemanticName::ViewportArrayIndex => 5,
                crate::isgn::SemanticName::VertexId => 6,
                crate::isgn::SemanticName::PrimitiveId => 7,
                crate::isgn::SemanticName::InstanceId => 8,
                crate::isgn::SemanticName::IsFrontFace => 9,
                crate::isgn::SemanticName::SampleIndex => 10,
                crate::isgn::SemanticName::FinalQuadEdgeTessfactor => 11,
                crate::isgn::SemanticName::FinalQuadInsideTessfactor => 12,
                crate::isgn::SemanticName::FinalTriEdgeTessfactor => 13,
                crate::isgn::SemanticName::FinalTriInsideTessfactor => 14,
                crate::isgn::SemanticName::FinalLineDetailTessfactor => 15,
                crate::isgn::SemanticName::FinalLineDensityTessfactor => 16,
                crate::isgn::SemanticName::Target => 64,
                crate::isgn::SemanticName::Depth => 65,
                crate::isgn::SemanticName::Coverage => 66,
                crate::isgn::SemanticName::DepthGreaterEqual => 67,
                crate::isgn::SemanticName::DepthLessEqual => 68,
            };
            self.write_u32(sem);
            let comp: u32 = match e.component_type {
                crate::isgn::RegisterComponentType::Unknown => 0,
                crate::isgn::RegisterComponentType::Uint32 => 1,
                crate::isgn::RegisterComponentType::Int32 => 2,
                crate::isgn::RegisterComponentType::Float32 => 3,
            };
            self.write_u32(comp);
            self.write_u32(e.register);
            let mask_tok = ((e.rw_mask as u32) << 8) | (e.component_mask as u32);
            self.write_u32(mask_tok);
            proof {
                assert(self.dwords@ =~= head0 + iosgn_recs_words(elems, i as int + 1));
                lemma_pack_str_words_len(vstd::utf8::encode_utf8(elems[i as int].name@));
                assert(iosgn_name_words(elems, i as int + 1) == iosgn_name_words(elems, i as int)
                    + pack_str_words(vstd::utf8::encode_utf8(elems[i as int].name@)));
                lemma_iosgn_name_words_mono(elems, i as int + 1, n);
                assert(pack_str_words(vstd::utf8::encode_utf8(elems[i as int].name@)).len()
                    <= iosgn_name_words(elems, n).len());
                assert(vstd::utf8::encode_utf8(elems[i as int].name@).len() < 0x20000000);
            }
            let name_len = e.name.as_str().len();
            proof {
                assert(name_len == vstd::utf8::encode_utf8(elems[i as int].name@).len());
            }
            nw = nw + (name_len / 4 + 1);
            i = i + 1;
        }

        let mut j: usize = 0;
        while j < count
            invariant
                j <= count,
                count == elems.len(),
                n == elems.len() as int,
                iosgn_words(*chunk, magic).len() <= 0x7ffffff,
                elems == chunk.elements@,
                self.dwords@ == head0 + iosgn_recs_words(elems, n) + iosgn_name_words(
                    elems,
                    j as int,
                ),
                head0 == old(self).dwords@ + seq![magic, 0u32, count as u32, 8u32],
            decreases count - j,
        {
            proof {
                lemma_iosgn_recs_words_len(elems, n);
                lemma_iosgn_name_words_mono(elems, j as int, n);
                lemma_iosgn_name_words_mono(elems, j as int + 1, n);
                lemma_pack_str_words_len(vstd::utf8::encode_utf8(elems[j as int].name@));
                assert(iosgn_body_words(elems).len() == 2 + 6 * n + iosgn_name_words(
                    elems,
                    n,
                ).len());
            }
            let e = &chunk.elements[j];
            self.write_str(e.name.as_str());
            proof {
                assert(self.dwords@ =~= head0 + iosgn_recs_words(elems, n) + iosgn_name_words(
                    elems,
                    j as int + 1,
                ));
            }
            j = j + 1;
        }

        let end = self.position();
        let body_len = end - chunk_start;
        proof {
            lemma_iosgn_recs_words_len(elems, n);
            assert(body_len == iosgn_body_words(elems).len());
        }
        self.set_u32(chunk_sz_pos, (4 * body_len) as u32);
        proof {
            assert(final(self).dwords@ =~= old(self).dwords@ + iosgn_words(*chunk, magic));
        }
    }

    /// Writes an ISGN chunk.
    pub fn write_isgn(&mut self, chunk: &IOsgnChunk)
        requires
            iosgn_words(*chunk, ISGN_MAGIC).len() <= 0x7ffffff,
        ensures
            final(self).dwords@ == old(self).dwords@ + iosgn_words(*chunk, ISGN_MAGIC),
    {
        self.write_iosgn(chunk, ISGN_MAGIC);
    }

    /// Writes an OSGN chunk.
    pub fn write_osgn(&mut self, chunk: &IOsgnChunk)
        requires
            iosgn_words(*chunk, OSGN_MAGIC).len() <= 0x7ffffff,
        ensures
            final(self).dwords@ == old(self).dwords@ + iosgn_words(*chunk, OSGN_MAGIC),
    {
        self.write_iosgn(chunk, OSGN_MAGIC);
    }

    /// Writes an RDEF chunk: counts, both table offsets patched to the
    /// chunk-relative byte offset just past the fixed part (the table bodies
    /// are not re-emitted), version and flags, the author offset, the fixed
    /// extended sub-header for shader model 5, then the packed author
    /// string.
    pub fn write_rdef(&mut self, rdef: &RdefChunk<'_>)
        requires
            rdef_words(*rdef).len() <= 0x7ffffff,
            rdef.constant_buffers@.len() <= 0xffffffff,
            rdef.resource_bindings@.len() <= 0xffffffff,
        ensures
            final(self).dwords@ == old(self).dwords@ + rdef_words(*rdef),
    {
        proof {
            lemma_pack_str_words_len(rdef.author.spec_bytes());
        }
        self.write_u32(RDEF_MAGIC);
        let rdef_size_pos = self.position();
        self.write_u32(0);
        let chunk_start = self.position();
        self.write_u32(rdef.constant_buffers.len() as u32);
        let rd11_len: usize = if rdef.rd11.is_some() {
            8
        } else {
            0
        };
        let table_loc: usize = 7 + rd11_len;
        self.write_u32((4 * table_loc) as u32);
        self.write_u32(rdef.resource_bindings.len() as u32);
        self.write_u32((4 * table_loc) as u32);

        let version_tok = ((rdef.shader_ty as u32) << 16) | ((rdef.major as u32) << 8) | (
        rdef.minor as u32);
        self.write_u32(version_tok);
        self.write_u32(rdef.flags);
        self.write_u32((4 * table_loc) as u32);

        if rdef.rd11.is_some() {
            self.write_u32(RD11_MAGIC);
            self.write_u32(60);
            self.write_u32(24);
            self.write_u32(32);
            self.write_u32(40);
            self.write_u32(36);
            self.write_u32(12);
            self.write_u32(0);
            proof {
                assert(self.dwords@ =~= old(self).dwords@ + seq![RDEF_MAGIC, 0u32] + seq![
                    rdef.constant_buffers@.len() as u32,
                    (4 * (7 + rd11_words().len())) as u32,
                    rdef.resource_bindings@.len() as u32,
                    (4 * (7 + rd11_words().len())) as u32,
                    rdef_version_word(*rdef),
                    rdef.flags,
                    (4 * (7 + rd11_words().len())) as u32,
                ] + rd11_words());
            }
        }

        self.write_str(rdef.author);
        let end_pos = self.position();
        self.set_u32(rdef_size_pos, (4 * (end_pos - chunk_start)) as u32);
        proof {
            assert(final(self).dwords@ =~= old(self).dwords@ + rdef_words(*rdef));
        }
    }

    /// Writes a SHEX chunk: tag, a byte-length placeholder, the
    /// vertex-shader version token, a word-length placeholder, the encoded
    /// instructions, then both lengths patched.
    pub fn write_shex(&mut self, chunk: &ShexChunk)
        requires
            shex_words(*chunk).len() <= 0x7ffffff,
            forall|i: int|
                0 <= i < chunk.instructions@.len() ==> instr_words(
                    #[trigger] chunk.instructions@[i],
                ).len() <= 127,
        ensures
            final(self).dwords@ == old(self).dwords@ + shex_words(*chunk),
    {
        let ghost instrs = chunk.instructions@;
        let ghost n = instrs.len() as int;
        self.write_u32(SHEX_MAGIC);
        let chunk_sz_pos = self.position();
        self.write_u32(0);
        let chunk_start = self.position();

        self.write_u32(((1u32 & 0xffff) << 16) | ((5u32 & 0xf) << 4) | (0u32 & 0xf));
        let word_sz_pos = self.position();
        self.write_u32(0);

        let ghost head0 = old(self).dwords@ + seq![
            SHEX_MAGIC,
            0u32,
            encode_program_version(1, 5, 0),
            0u32,
        ];
        let mut i: usize = 0;
        while i < chunk.instructions.len()
            invariant
                i <= instrs.len(),
                instrs == chunk.instructions@,
                shex_words(*chunk).len() <= 0x7ffffff,
                forall|k: int|
                    0 <= k < instrs.len() ==> instr_words(#[trigger] instrs[k]).len() <= 127,
                self.dwords@ == head0 + instrs_words(instrs, i as int),
                head0 == old(self).dwords@ + seq![
                    SHEX_MAGIC,
                    0u32,
                    encode_program_version(1, 5, 0),
                    0u32,
                ],
            decreases instrs.len() - i,
        {
            let instr = &chunk.instructions[i];
            instr.encode(self);
            proof {
                assert(self.dwords@ =~= head0 + instrs_words(instrs, i as int + 1));
            }
            i = i + 1;
        }

        let end = self.position();
        let chunk_sz = end - chunk_start;
        proof {
            assert(chunk_sz == 2 + instrs_words(instrs, n).len());
            assert(shex_words(*chunk).len() == 4 + instrs_words(instrs, n).len());
        }
        self.set_u32(word_sz_pos, chunk_sz as u32);
        self.set_u32(chunk_sz_pos, (4 * chunk_sz) as u32);
        proof {
            assert(final(self).dwords@ =~= old(self).dwords@ + shex_words(*chunk));
        }
    }
}

/// Collects the chunks of a module and assembles them into bytes.
pub struct Builder<'a> {
    pub rdef: Option<RdefChunk<'a>>,
    pub isgn: Option<IOsgnChunk>,
    pub osgn: Option<IOsgnChunk>,
    pub stat: Option<IStatChunk>,
    pub shex: Option<ShexChunk>,
    pub code: Vec<u32>,
}

/// The finished word image of a module: the fixed header with a reserved
/// word of one and a four-slot directory, the supplied chunks in canonical
/// order (each patching its directory slot; an absent chunk leaves its slot
/// at the placeholder), then the total size and the checksum patched in.
pub open spec fn module_header_words() -> Seq<u32> {
    seq![DXBC_MAGIC, 0u32, 0u32, 0u32, 0u32, 1u32, 0u32, 4u32, 0u32, 0u32, 0u32, 0u32]
}

pub open spec fn module_words_rdef<'a>(b: Builder<'a>) -> Seq<u32> {
    let w0 = module_header_words();
    match b.rdef {
        Some(r) => w0.update(8, (4 * w0.len()) as u32) + rdef_words(r),
        None => w0,
    }
}

pub open spec fn module_words_isgn<'a>(b: Builder<'a>) -> Seq<u32> {
    let w1 = module_words_rdef(b);
    match b.isgn {
        Some(c) => w1.update(9, (4 * w1.len()) as u32) + iosgn_words(c, ISGN_MAGIC),
        None => w1,
    }
}

pub open spec fn module_words_osgn<'a>(b: Builder<'a>) -> Seq<u32> {
    let w2 = module_words_isgn(b);
    match b.osgn {
        Some(c) => w2.update(10, (4 * w2.len()) as u32) + iosgn_words(c, OSGN_MAGIC),
        None => w2,
    }
}

pub open spec fn module_words_shex<'a>(b: Builder<'a>) -> Seq<u32> {
    let w3 = module_words_osgn(b);
    match b.shex {
        Some(c) => w3.update(11, (4 * w3.len()) as u32) + shex_words(c),
        None => w3,
    }
}

pub open spec fn module_words<'a>(b: Builder<'a>) -> Seq<u32> {
    let w4 = module_words_shex(b);
    let sized = w4.update(6, (4 * w4.len()) as u32);
    let ck = dxbc_checksum(words_to_bytes(sized));
    sized.update(1, ck[0]).update(2, ck[1]).update(3, ck[2]).update(4, ck[3])
}

impl<'a> Builder<'a> {
    pub fn new() -> (r: Self)
        ensures
            r.rdef is None && r.isgn is None && r.osgn is None && r.stat is None && r.shex is None,
    {
        Builder { rdef: None, isgn: None, osgn: None, shex: None, stat: None, code: Vec::new() }
    }

    pub fn set_rdef(&mut self, rdef: RdefChunk<'a>)
        ensures
            final(self).rdef == Some(rdef),
            final(self).isgn == old(self).isgn && final(self).osgn == old(self).osgn && final(self).stat == old(self).stat && final(self).shex == old(self).shex,
    {
        self.rdef = Some(rdef);
    }

    pub fn set_isgn(&mut self, isgn: IOsgnChunk)
        ensures
            final(self).isgn == Some(isgn),
            final(self).rdef == old(self).rdef && final(self).osgn == old(self).osgn && final(self).stat == old(self).stat && final(self).shex == old(self).shex,
    {
        self.isgn = Some(isgn);
    }

    pub fn set_osgn(&mut self, osgn: IOsgnChunk)
        ensures
            final(self).osgn == Some(osgn),
            final(self).rdef == old(self).rdef && final(self).isgn == old(self).isgn && final(self).stat == old(self).stat && final(self).shex == old(self).shex,
    {
        self.osgn = Some(osgn);
    }

    pub fn set_shex(&mut self, shex: ShexChunk)
        ensures
            final(self).shex == Some(shex),
            final(self).rdef == old(self).rdef && final(self).isgn == old(self).isgn && final(self).osgn == old(self).osgn && final(self).stat == old(self).stat,
    {
        self.shex = Some(shex);
    }

    pub fn set_stat(&mut self, stat: IStatChunk)
        ensures
            final(self).stat == Some(stat),
            final(self).rdef == old(self).rdef && final(self).isgn == old(self).isgn && final(self).osgn == old(self).osgn && final(self).shex == old(self).shex,
    {
        self.stat = Some(stat);
    }

    pub fn set_profile(&mut self)
        ensures
            *final(self) == *old(self),
    {
    }

    /// Assembles the module image: header, directory, the supplied chunks in
    /// canonical order, then the patched total size and checksum. Never
    /// fails, whatever combination of chunks was supplied.
    #[verifier::rlimit(100)]
    pub fn module(&self) -> (r: Result<DxbcModule, ()>)
        requires
            4 * module_words(*self).len() < 0x100000000,
            self.rdef matches Some(c) ==> rdef_words(c).len() <= 0x7ffffff
                && c.constant_buffers@.len() <= 0xffffffff && c.resource_bindings@.len()
                <= 0xffffffff,
            self.isgn matches Some(c) ==> iosgn_words(c, ISGN_MAGIC).len() <= 0x7ffffff,
            self.osgn matches Some(c) ==> iosgn_words(c, OSGN_MAGIC).len() <= 0x7ffffff,
            self.shex matches Some(c) ==> shex_words(c).len() <= 0x7ffffff && (forall|i: int|
                0 <= i < c.instructions@.len() ==> instr_words(
                    #[trigger] c.instructions@[i],
                ).len() <= 127),
        ensures
            r matches Ok(m) && m.dwords@ == module_words(*self),
    {
        let ghost w0g = module_header_words();
        let ghost w1g = module_words_rdef(*self);
        let ghost w2g = module_words_isgn(*self);
        let ghost w3g = module_words_osgn(*self);
        let ghost w4g = module_words_shex(*self);
        proof {
            assert(module_words(*self).len() == w4g.len());
            assert(w0g.len() <= w1g.len() <= w2g.len() <= w3g.len() <= w4g.len());
        }

        let mut module = DxbcModule::new();
        module.write_u32(DXBC_MAGIC);
        let checksum_pos = module.position();
        module.write_u32(0);
        module.write_u32(0);
        module.write_u32(0);
        module.write_u32(0);
        module.write_u32(1);
        let size_pos = module.position();
        module.write_u32(0);
        let chunk_count: u32 = 4;
        module.write_u32(chunk_count);
        let chunk_count_pos = module.position();
        module.write_u32(0);
        module.write_u32(0);
        module.write_u32(0);
        module.write_u32(0);
        proof {
            assert(module.dwords@ =~= w0g);
        }

        match &self.rdef {
            Some(rdef) => {
                let pos = module.position() * 4;
                module.set_u32(chunk_count_pos, pos as u32);
                module.write_rdef(rdef);
                proof {
                    assert(module.dwords@ =~= w1g);
                }
            },
            None => {},
        }
        match &self.isgn {
            Some(isgn) => {
                let pos = module.position() * 4;
                module.set_u32(chunk_count_pos + 1, pos as u32);
                module.write_isgn(isgn);
                proof {
                    assert(module.dwords@ =~= w2g);
                }
            },
            None => {},
        }
        match &self.osgn {
            Some(osgn) => {
                let pos = module.position() * 4;
                module.set_u32(chunk_count_pos + 2, pos as u32);
                module.write_osgn(osgn);
                proof {
                    assert(module.dwords@ =~= w3g);
                }
            },
            None => {},
        }
        match &self.shex {
            Some(shex) => {
                let pos = module.position() * 4;
                module.set_u32(chunk_count_pos + 3, pos as u32);
                module.write_shex(shex);
                proof {
                    assert(module.dwords@ =~= w4g);
                }
            },
            None => {},
        }
        proof {
            assert(module.dwords@ == w4g);
        }

        let len = (4 * module.dwords.len()) as u32;
        module.set_u32(size_pos, len);
        let ghost sized = w4g.update(6, (4 * w4g.len()) as u32);
        proof {
            assert(module.dwords@ =~= sized);
        }
        let bytes = module.as_bytes();
        let ck = checksum(bytes.as_slice());
        module.set_u32(checksum_pos, ck[0]);
        module.set_u32(checksum_pos + 1, ck[1]);
        module.set_u32(checksum_pos + 2, ck[2]);
        module.set_u32(checksum_pos + 3, ck[3]);
        proof {
            assert(module.dwords@ =~= module_words(*self));
        }
        Ok(module)
    }
}

/// The four bytes of a packed word are the four bytes it packs.
proof fn lemma_word4_bytes(b0: u8, b1: u8, b2: u8, b3: u8)
    ensures
        word_byte(word4(b0, b1, b2, b3), 0) == b0,
        word_byte(word4(b0, b1, b2, b3), 1) == b1,
        word_byte(word4(b0, b1, b2, b3), 2) == b2,
        word_byte(word4(b0, b1, b2, b3), 3) == b3,
{
    let x0 = b0 as u32;
    let x1 = b1 as u32;
    let x2 = b2 as u32;
    let x3 = b3 as u32;
    let w = x0 | (x1 << 8) | (x2 << 16) | (x3 << 24);
    assert(((w >> 0u32) & 0xff == x0) && ((w >> 8u32) & 0xff == x1) && ((w >> 16u32) & 0xff == x2)
        && ((w >> 24u32) & 0xff == x3)) by (bit_vector)
        requires
            x0 < 0x100 && x1 < 0x100 && x2 < 0x100 && x3 < 0x100 && w == x0 | (x1 << 8) | (x2
                << 16) | (x3 << 24),
    ;
}

/// How many padding zeros the packing appends: up to the next word boundary,
/// a full zero word when the length is already a multiple of four.
pub open spec fn pack_pad(n: int) -> int {
    if n % 4 == 0 {
        4
    } else {
        4 - n % 4
    }
}

/// The byte image of a packed string is the string followed by its padding
/// zeros.
pub proof fn lemma_pack_str_bytes(b: Seq<u8>)
    ensures
        words_to_bytes(pack_str_words(b)) == b + zero_bytes(pack_pad(b.len() as int)),
    decreases b.len(),
{
    if b.len() >= 4 {
        let w = word4(b[0], b[1], b[2], b[3]);
        lemma_word4_bytes(b[0], b[1], b[2], b[3]);
        lemma_words_to_bytes_one(w);
        lemma_words_to_bytes_concat(seq![w], pack_str_words(b.skip(4)));
        lemma_pack_str_bytes(b.skip(4));
        assert(b.len() % 4 == (b.len() - 4) % 4) by (nonlinear_arith)
            requires b.len() >= 4;
        assert(words_to_bytes(pack_str_words(b)) =~= b + zero_bytes(pack_pad(b.len() as int)));
    } else if b.len() == 0 {
        lemma_words_to_bytes_one(0);
        let w = 0u32;
        assert((w >> 0u32) & 0xff == 0 && (w >> 8u32) & 0xff == 0 && (w >> 16u32) & 0xff == 0 && (w
            >> 24u32) & 0xff == 0) by (bit_vector)
            requires w == 0u32;
        assert(words_to_bytes(pack_str_words(b)) =~= b + zero_bytes(4));
    } else if b.len() == 1 {
        lemma_word4_bytes(b[0], 0, 0, 0);
        assert(word4(b[0], 0, 0, 0) == (b[0] as u32)) by (bit_vector);
        lemma_words_to_bytes_one(b[0] as u32);
        assert(words_to_bytes(pack_str_words(b)) =~= b + zero_bytes(3));
    } else if b.len() == 2 {
        lemma_word4_bytes(b[0], b[1], 0, 0);
        assert(word4(b[0], b[1], 0, 0) == ((b[0] as u32) | ((b[1] as u32) << 8))) by (bit_vector);
        lemma_words_to_bytes_one((b[0] as u32) | ((b[1] as u32) << 8));
        assert(words_to_bytes(pack_str_words(b)) =~= b + zero_bytes(2));
    } else {
        lemma_word4_bytes(b[0], b[1], b[2], 0);
        assert(word4(b[0], b[1], b[2], 0) == ((b[0] as u32) | ((b[1] as u32) << 8) | ((b[2] as u32)
            << 16))) by (bit_vector);
        lemma_words_to_bytes_one((b[0] as u32) | ((b[1] as u32) << 8) | ((b[2] as u32) << 16));
        assert(words_to_bytes(pack_str_words(b)) =~= b + zero_bytes(1));
    }
}

/// A packed string decodes back to the exact original: the packing always
/// appends at least one zero byte, so the null scan of the byte image stops
/// right at the string's end.
pub proof fn lemma_string_pack_round_trip(b: Seq<u8>)
    requires
        forall|i: int| 0 <= i < b.len() ==> b[i] != 0,
    ensures
        cstr_at(words_to_bytes(pack_str_words(b)), 0) == b,
{
    lemma_pack_str_bytes(b);
    let d = words_to_bytes(pack_str_words(b));
    assert(pack_pad(b.len() as int) >= 1);
    assert(d[b.len() as int] == 0);
    lemma_zero_scan_exact(d, 0, b.len() as int);
    assert(cstr_at(d, 0) =~= b);
}

/// A built STAT chunk decodes field for field: the nineteen counters read
/// back from the byte image of the chunk body are the counters written.
#[verifier::spinoff_prover]
#[verifier::rlimit(100)]
pub proof fn lemma_stat_round_trip(s: IStatChunk)
    ensures
        stat_at(words_to_bytes(stat_words(s).skip(2)), 0, s),
{
    let ws = stat_words(s).skip(2);
    assert(ws.len() == 37);
    assert forall|j: int| 0 <= j < 19 implies le32(words_to_bytes(ws), 4 * j) == #[trigger] ws[j] by {
        lemma_le32_of_words(ws, j);
    }
    assert(le32(words_to_bytes(ws), 0) == ws[0]);
    assert(le32(words_to_bytes(ws), 4) == ws[1]);
    assert(le32(words_to_bytes(ws), 8) == ws[2]);
    assert(le32(words_to_bytes(ws), 12) == ws[3]);
    assert(le32(words_to_bytes(ws), 16) == ws[4]);
    assert(le32(words_to_bytes(ws), 20) == ws[5]);
    assert(le32(words_to_bytes(ws), 24) == ws[6]);
    assert(le32(words_to_bytes(ws), 28) == ws[7]);
    assert(le32(words_to_bytes(ws), 32) == ws[8]);
    assert(le32(words_to_bytes(ws), 36) == ws[9]);
    assert(le32(words_to_bytes(ws), 40) == ws[10]);
    assert(le32(words_to_bytes(ws), 44) == ws[11]);
    assert(le32(words_to_bytes(ws), 48) == ws[12]);
    assert(le32(words_to_bytes(ws), 52) == ws[13]);
    assert(le32(words_to_bytes(ws), 56) == ws[14]);
    assert(le32(words_to_bytes(ws), 60) == ws[15]);
    assert(le32(words_to_bytes(ws), 64) == ws[16]);
    assert(le32(words_to_bytes(ws), 68) == ws[17]);
    assert(le32(words_to_bytes(ws), 72) == ws[18]);
}

/// A built SHEX chunk decodes to its header: minor version zero, major
/// version five, the vertex program type, and an instruction length of
/// exactly the encoded instruction words.
pub proof fn lemma_shex_header_round_trip(c: ShexChunk)
    requires
        shex_words(c).len() < 0x40000000,
    ensures
        shex_header_at(
            words_to_bytes(shex_words(c).skip(2)),
            0,
            ShexHeader {
                minor: 0,
                major: 5,
                program_type: 1,
                instruction_length: (shex_words(c).len() - 4) as u32,
            },
        ),
{
    let ws = shex_words(c).skip(2);
    let d = words_to_bytes(ws);
    assert(((1u32 & 0xffff) << 16) | ((5u32 & 0xf) << 4) | (0u32 & 0xf) == 0x10050u32)
        by (bit_vector);
    assert(ws[0] == 0x10050u32);
    let w = 0x10050u32;
    assert((w >> 0u32) & 0xff == 0x50 && (w >> 8u32) & 0xff == 0x00 && (w >> 16u32) & 0xff == 0x01
        && (w >> 24u32) & 0xff == 0x00) by (bit_vector)
        requires w == 0x10050u32;
    assert(d[0] == word_byte(ws[0], 0));
    assert(d[0] == 0x50u8);
    assert(0x50u8 & 0x0f == 0 && 0x50u8 >> 4 == 5) by (bit_vector);
    assert(d[2] == 0x01u8 && d[3] == 0x00u8);
    assert((0x01u8 as u16) | ((0x00u8 as u16) << 8) == 1) by (bit_vector);
    lemma_le32_of_words(ws, 1);
    assert(le32(d, 4) == ws[1]);
    let sz = shex_words(c).len() - 2;
    assert(ws[1] == sz as u32);
    assert((sz as u32).wrapping_sub(2) == (sz - 2) as u32);
}

/// The byte image of an aligned word window is the image of those words.
pub proof fn lemma_w2b_window(w: Seq<u32>, a: int, b: int)
    requires
        0 <= a <= b <= w.len(),
    ensures
        words_to_bytes(w).subrange(4 * a, 4 * b) == words_to_bytes(w.subrange(a, b)),
{
    let lhs = words_to_bytes(w).subrange(4 * a, 4 * b);
    let rhs = words_to_bytes(w.subrange(a, b));
    assert forall|j: int| 0 <= j < 4 * (b - a) implies lhs[j] == rhs[j] by {
        assert((4 * a + j) / 4 == a + j / 4 && (4 * a + j) % 4 == j % 4 && 0 <= j / 4 < b - a)
            by (nonlinear_arith)
            requires 0 <= j < 4 * (b - a);
        assert(w.subrange(a, b)[j / 4] == w[a + j / 4]);
    }
    assert(lhs =~= rhs);
}

/// Record `i` occupies words `6i..6i+6` of the record region.
proof fn lemma_iosgn_recs_slice(elems: Seq<crate::isgn::InputOutputElement>, i: int, n: int)
    requires
        0 <= i < n,
    ensures
        iosgn_recs_words(elems, n).subrange(6 * i, 6 * i + 6) == iosgn_rec_words(elems, i),
    decreases n,
{
    lemma_iosgn_recs_words_len(elems, n - 1);
    if i == n - 1 {
        assert(iosgn_recs_words(elems, n).subrange(6 * i, 6 * i + 6) =~= iosgn_rec_words(
            elems,
            i,
        ));
    } else {
        lemma_iosgn_recs_slice(elems, i, n - 1);
        assert(iosgn_recs_words(elems, n).subrange(6 * i, 6 * i + 6) =~= iosgn_recs_words(
            elems,
            n - 1,
        ).subrange(6 * i, 6 * i + 6));
    }
}

/// Name `i` occupies its own packed words inside the name region.
proof fn lemma_iosgn_names_slice(elems: Seq<crate::isgn::InputOutputElement>, i: int, n: int)
    requires
        0 <= i < n <= elems.len(),
    ensures
        iosgn_name_words(elems, n).subrange(
            iosgn_name_words(elems, i).len() as int,
            iosgn_name_words(elems, i + 1).len() as int,
        ) == pack_str_words(vstd::utf8::encode_utf8(elems[i].name@)),
    decreases n,
{
    lemma_iosgn_name_words_mono(elems, i + 1, n);
    if i == n - 1 {
        assert(iosgn_name_words(elems, n).subrange(
            iosgn_name_words(elems, i).len() as int,
            iosgn_name_words(elems, i + 1).len() as int,
        ) =~= pack_str_words(vstd::utf8::encode_utf8(elems[i].name@)));
    } else {
        lemma_iosgn_names_slice(elems, i, n - 1);
        lemma_iosgn_name_words_mono(elems, i + 1, n - 1);
        assert(iosgn_name_words(elems, n).subrange(
            iosgn_name_words(elems, i).len() as int,
            iosgn_name_words(elems, i + 1).len() as int,
        ) =~= iosgn_name_words(elems, n - 1).subrange(
            iosgn_name_words(elems, i).len() as int,
            iosgn_name_words(elems, i + 1).len() as int,
        ));
    }
}

/// The UTF-8 bytes of the element's name hold no zero byte, so a null scan
/// recovers the name exactly.
pub open spec fn name_has_no_nul(e: crate::isgn::InputOutputElement) -> bool {
    forall|j: int|
        0 <= j < vstd::utf8::encode_utf8(e.name@).len() ==> vstd::utf8::encode_utf8(e.name@)[j]
            != 0
}

/// Element `i` of a built signature chunk decodes field for field from the
/// byte image of the chunk body.
#[verifier::rlimit(100)]
#[verifier::spinoff_prover]
proof fn lemma_iosgn_element_round_trip(c: IOsgnChunk, i: int)
    requires
        0 <= i < c.elements@.len(),
        c.elements@.len() <= 0xffffffff,
        4 * iosgn_body_words(c.elements@).len() <= 0xffffffff,
        name_has_no_nul(c.elements@[i]),
    ensures
        crate::isgn::element_at(
            words_to_bytes(iosgn_body_words(c.elements@)),
            8 + 24 * i,
            c.elements@[i],
        ),
{
    let elems = c.elements@;
    let n = elems.len() as int;
    let body = iosgn_body_words(elems);
    let d = words_to_bytes(body);
    let recs = iosgn_recs_words(elems, n);
    let names = iosgn_name_words(elems, n);
    lemma_iosgn_recs_words_len(elems, n);
    let e = elems[i];
    let pos = 8 + 24 * i;
    lemma_iosgn_recs_slice(elems, i, n);
    let rec = iosgn_rec_words(elems, i);
    assert forall|k: int| 0 <= k < 6 implies body[2 + 6 * i + k] == #[trigger] rec[k] by {
        assert(recs.subrange(6 * i, 6 * i + 6)[k] == recs[6 * i + k]);
        assert(body[2 + 6 * i + k] == recs[6 * i + k]);
    }
    assert forall|k: int| 0 <= k < 6 implies le32(d, pos + 4 * k) == #[trigger] rec[k] by {
        lemma_le32_of_words(body, 2 + 6 * i + k);
        assert(4 * (2 + 6 * i + k) == pos + 4 * k);
    }
    // Fixed fields.
    assert(le32(d, pos + 4) == e.semantic_index);
    assert(le32(d, pos + 8) == e.semantic_type.as_word());
    assert(crate::isgn::semantic_word_known(e.semantic_type.as_word()));
    assert(le32(d, pos + 12) == e.component_type.as_word());
    assert(e.component_type.as_word() <= 3);
    assert(le32(d, pos + 16) == e.register);
    // Mask bytes: low byte the component mask, next the read/write mask.
    let rw = e.rw_mask as u32;
    let cm = e.component_mask as u32;
    assert((((rw << 8) | cm) >> 0u32) & 0xff == cm && (((rw << 8) | cm) >> 8u32) & 0xff == rw)
        by (bit_vector)
        requires rw < 0x100 && cm < 0x100;
    assert(d[pos + 20] == word_byte(body[2 + 6 * i + 5], 0));
    assert(d[pos + 21] == word_byte(body[2 + 6 * i + 5], 1));
    assert(e.component_mask == d[pos + 20]);
    assert(e.rw_mask == d[pos + 21]);
    // The name.
    let name_bytes = vstd::utf8::encode_utf8(e.name@);
    let base = 2 + 6 * n + iosgn_name_words(elems, i).len();
    let packlen = pack_str_words(name_bytes).len() as int;
    lemma_iosgn_names_slice(elems, i, n);
    lemma_iosgn_name_words_mono(elems, i, n);
    lemma_iosgn_name_words_mono(elems, i + 1, n);
    assert(iosgn_name_words(elems, i + 1).len() == iosgn_name_words(elems, i).len() + packlen);
    assert(body.subrange(base as int, base + packlen) =~= names.subrange(
        iosgn_name_words(elems, i).len() as int,
        iosgn_name_words(elems, i + 1).len() as int,
    ));
    lemma_w2b_window(body, base as int, base + packlen);
    lemma_pack_str_bytes(name_bytes);
    lemma_pack_str_words_len(name_bytes);
    let window = d.subrange(4 * base, 4 * (base + packlen));
    assert(window == words_to_bytes(pack_str_words(name_bytes)));
    assert(window == name_bytes + zero_bytes(pack_pad(name_bytes.len() as int)));
    assert((name_bytes.len() as int) < 4 * packlen);
    assert forall|j: int| 4 * base <= j < 4 * base + name_bytes.len() implies d[j] != 0 by {
        assert(window[j - 4 * base] == name_bytes[j - 4 * base]);
        assert(d[j] == name_bytes[j - 4 * base]);
    }
    assert(d[4 * base + name_bytes.len() as int] == window[name_bytes.len() as int]);
    assert(d[4 * base + name_bytes.len() as int] == 0);
    lemma_zero_scan_exact(d, 4 * base, 4 * base + name_bytes.len() as int);
    assert(cstr_at(d, 4 * base) =~= name_bytes);
    vstd::utf8::encode_utf8_valid_utf8(e.name@);
    vstd::utf8::encode_utf8_decode_utf8(e.name@);
    assert(le32(d, pos) == rec[0]);
    assert(rec[0] == (4 * base) as u32);
    assert(4 * base <= 4 * body.len());
    assert(le32(d, pos) as int == 4 * base);
    assert(vstd::utf8::valid_utf8(cstr_at(d, le32(d, pos) as int)));
    assert(e.name@ == vstd::utf8::decode_utf8(cstr_at(d, le32(d, pos) as int)));
}

/// A built signature chunk decodes element for element: every record field
/// and every name read back from the byte image of the chunk body equals
/// what was written.
pub proof fn lemma_iosgn_round_trip(c: IOsgnChunk)
    requires
        c.elements@.len() <= 0xffffffff,
        4 * iosgn_body_words(c.elements@).len() <= 0xffffffff,
        forall|i: int| 0 <= i < c.elements@.len() ==> name_has_no_nul(#[trigger] c.elements@[i]),
    ensures
        crate::isgn::iosgn_at(words_to_bytes(iosgn_body_words(c.elements@)), 0, c),
{
    let elems = c.elements@;
    let n = elems.len() as int;
    let body = iosgn_body_words(elems);
    let d = words_to_bytes(body);
    lemma_iosgn_recs_words_len(elems, n);
    lemma_le32_of_words(body, 0);
    assert(le32(d, 0) == body[0]);
    assert(body[0] == n as u32);
    assert forall|i: int| 0 <= i < n implies crate::isgn::element_at(
        d,
        8 + 24 * i,
        #[trigger] elems[i],
    ) by {
        lemma_iosgn_element_round_trip(c, i);
    }
}

/// The UTF-8 bytes of the author string hold no zero byte.
pub open spec fn author_has_no_nul(r: RdefChunk) -> bool {
    forall|j: int| 0 <= j < r.author.spec_bytes().len() ==> r.author.spec_bytes()[j] != 0
}

/// A built RDEF chunk decodes field for field: `back` is the record the
/// byte image of `write_rdef(r)`'s body decodes to. Every scalar field and
/// the author round-trip for every version; the two exceptions the builder
/// itself fixes are the table bodies (never re-emitted, so the law asks for
/// empty tables) and the extended sub-header, which is written with a fixed
/// word pattern whatever the record held, and reads back as that pattern.
/// The sub-header's presence round-trips when it matches the major version,
/// which is what decides it on the decode side.
#[verifier::rlimit(100)]
#[verifier::spinoff_prover]
pub proof fn lemma_rdef_round_trip(r: RdefChunk<'_>, back: RdefChunk<'_>)
    requires
        r.constant_buffers@.len() == 0,
        r.resource_bindings@.len() == 0,
        r.rd11 is Some <==> r.major >= 5,
        author_has_no_nul(r),
        4 * rdef_body_words(r).len() <= 0xffffffff,
        back.constant_buffers@.len() == 0,
        back.resource_bindings@.len() == 0,
        back.shader_ty == r.shader_ty,
        back.minor == r.minor,
        back.major == r.major,
        back.flags == r.flags,
        back.author@ == r.author@,
        match back.rd11 {
            Some(v) => r.major >= 5 && v@ =~= seq![60u32, 24u32, 32u32, 40u32, 36u32, 12u32, 0u32],
            None => r.major < 5,
        },
    ensures
        crate::rdef::rdef_at(words_to_bytes(rdef_body_words(r)), 0, back),
{
    let body = rdef_body_words(r);
    let d = words_to_bytes(body);
    let rd11 = if r.rd11 is Some {
        rd11_words()
    } else {
        Seq::<u32>::empty()
    };
    let tl = 7 + rd11.len() as int;
    lemma_pack_str_words_len(r.author.spec_bytes());
    assert(body.len() == tl + pack_str_words(r.author.spec_bytes()).len());
    lemma_le32_of_words(body, 0);
    lemma_le32_of_words(body, 2);
    lemma_le32_of_words(body, 5);
    lemma_le32_of_words(body, 6);
    assert(le32(d, 0) == 0 && le32(d, 8) == 0 && le32(d, 20) == r.flags && le32(d, 24) == (4
        * tl) as u32);

    // The version word: minor in byte 16, major in byte 17, the shader type
    // in bytes 18 and 19.
    let vt = rdef_version_word(r);
    let ty = r.shader_ty as u32;
    let mj = r.major as u32;
    let mn = r.minor as u32;
    assert(vt == (ty << 16) | (mj << 8) | mn);
    assert((((ty << 16) | (mj << 8) | mn) >> 0u32) & 0xff == mn && (((ty << 16) | (mj << 8) | mn)
        >> 8u32) & 0xff == mj && (((ty << 16) | (mj << 8) | mn) >> 16u32) & 0xff == (ty & 0xff)
        && (((ty << 16) | (mj << 8) | mn) >> 24u32) & 0xff == ((ty >> 8) & 0xff)) by (bit_vector)
        requires mn < 0x100 && mj < 0x100 && ty < 0x10000;
    assert(d[16] == word_byte(body[4], 0) && d[17] == word_byte(body[4], 1) && d[18] == word_byte(
        body[4],
        2,
    ) && d[19] == word_byte(body[4], 3));
    assert(back.minor == d[16]);
    assert(back.major == d[17]);
    let b2 = (ty & 0xff) as u8;
    let b3 = ((ty >> 8) & 0xff) as u8;
    assert(((b2 as u16) | ((b3 as u16) << 8)) as u32 == ty) by (bit_vector)
        requires ty < 0x10000 && b2 == (ty & 0xff) as u8 && b3 == ((ty >> 8) & 0xff) as u8;
    assert(back.shader_ty == crate::bytes::le16(d, 18));

    // The sub-header words read back as the fixed pattern.
    match back.rd11 {
        Some(v) => {
            assert(body.len() >= 16);
            lemma_le32_of_words(body, 8);
            lemma_le32_of_words(body, 9);
            lemma_le32_of_words(body, 10);
            lemma_le32_of_words(body, 11);
            lemma_le32_of_words(body, 12);
            lemma_le32_of_words(body, 13);
            lemma_le32_of_words(body, 14);
            assert(v@[0] == le32(d, 32) && v@[1] == le32(d, 36) && v@[2] == le32(d, 40) && v@[3]
                == le32(d, 44) && v@[4] == le32(d, 48) && v@[5] == le32(d, 52) && v@[6] == le32(
                d,
                56,
            ));
        },
        None => {},
    }

    // The author string right past the fixed part.
    let author_bytes = r.author.spec_bytes();
    let packlen = pack_str_words(author_bytes).len() as int;
    assert(body.subrange(tl, tl + packlen) =~= pack_str_words(author_bytes));
    lemma_w2b_window(body, tl, tl + packlen);
    lemma_pack_str_bytes(author_bytes);
    let base = 4 * tl;
    let window = d.subrange(base, 4 * (tl + packlen));
    assert(window == author_bytes + zero_bytes(pack_pad(author_bytes.len() as int)));
    assert forall|j: int| 0 <= j < author_bytes.len() implies d[base + j] == #[trigger] author_bytes[j] by {
        assert(window[j] == author_bytes[j]);
    }
    assert(d[base + author_bytes.len() as int] == window[author_bytes.len() as int]);
    assert(d[base + author_bytes.len() as int] == 0);
    assert forall|j: int| base <= j < base + author_bytes.len() implies d[j] != 0 by {
        assert(d[j] == author_bytes[j - base]);
    }
    lemma_zero_scan_exact(d, base, base + author_bytes.len() as int);
    assert(cstr_at(d, base) =~= author_bytes);
    vstd::utf8::encode_utf8_valid_utf8(r.author@);
    assert(back.author.spec_bytes() == author_bytes);
}

} // verus!
