//! Decode-side tests: the cursor, the chunk decoders, the instruction codec
//! and the error taxonomy.

use dxbc::decoder::Decoder;
use dxbc::error::Error;
use dxbc::isgn::{IOsgnChunk, RegisterComponentType, SemanticName};
use dxbc::rdef::RdefChunk;
use dxbc::shex::{
    Immediate, OpcodeToken0, OperandToken0, Operands, ShexHeader, SparseInstruction,
};
use dxbc::stat::IStatChunk;

fn le32(v: u32) -> [u8; 4] {
    [v as u8, (v >> 8) as u8, (v >> 16) as u8, (v >> 24) as u8]
}

fn push_u32(buf: &mut Vec<u8>, v: u32) {
    buf.extend_from_slice(&le32(v));
}

#[test]
fn cursor_reads_little_endian() {
    let bytes = [0x01u8, 0x02, 0x03, 0x04, 0x05, 0x06, 0x07, 0x08, 0x09];
    let mut d = Decoder::new(&bytes);
    assert_eq!(d.read_u8(), Ok(0x01));
    assert_eq!(d.read_u16(), Ok(0x0302));
    assert_eq!(d.read_u32(), Ok(0x07060504));
    assert_eq!(d.get_offset(), 7);
    assert!(!d.eof());
    assert_eq!(d.read_u16(), Ok(0x0908));
    assert!(d.eof());
}

#[test]
fn cursor_read_u64() {
    let bytes = [1u8, 0, 0, 0, 2, 0, 0, 0];
    let mut d = Decoder::new(&bytes);
    assert_eq!(d.read_u64(), Ok(0x0000000200000001));
}

#[test]
fn cursor_truncated_read_fails_and_keeps_position() {
    let bytes = [1u8, 2];
    let mut d = Decoder::new(&bytes);
    assert_eq!(d.read_u32(), Err(Error::StreamExpected(0)));
    assert_eq!(d.get_offset(), 0);
    assert_eq!(d.read_u16(), Ok(0x0201));
}

#[test]
fn scoped_cursor_bounds_reads() {
    let bytes = [1u8, 2, 3, 4, 5, 6, 7, 8];
    let mut d = Decoder::new(&bytes);
    d.skip(2).unwrap();
    // Scope four bytes: reads inside succeed, a fifth byte does not exist.
    let mut s = d.scoped_decoder(4).unwrap();
    assert_eq!(s.read_u32(), Ok(0x06050403));
    assert_eq!(s.read_u8(), Err(Error::StreamExpected(4)));
    // A scope longer than the remaining bytes is refused outright.
    assert!(matches!(d.scoped_decoder(7), Err(Error::LimitReached(2))));
}

#[test]
fn cursor_cstr_reads() {
    let bytes = [b'h', b'i', 0, b'x'];
    let mut d = Decoder::new(&bytes);
    assert_eq!(d.string(), Ok(String::from("hi")));
    assert_eq!(d.get_offset(), 3);
    // No terminator: runs to the end of the buffer.
    assert_eq!(d.str(), Ok("x"));
    assert_eq!(d.get_offset(), 4);
}

#[test]
fn cursor_invalid_utf8_fails_with_offset() {
    let bytes = [0xffu8, 0xfe, 0, 1];
    let mut d = Decoder::new(&bytes);
    assert_eq!(d.string(), Err(Error::DecodeStringFailed(0)));
    let mut d2 = Decoder::new(&bytes);
    assert_eq!(d2.str(), Err(Error::DecodeStrFailed(0)));
}

#[test]
fn stat_parse_reads_nineteen_counters() {
    let mut buf = Vec::new();
    for i in 0..19u32 {
        push_u32(&mut buf, i + 1);
    }
    let mut d = Decoder::new(&buf);
    let s = IStatChunk::parse(&mut d).unwrap();
    assert_eq!(s.instruction_count, 1);
    assert_eq!(s.temp_register_count, 2);
    assert_eq!(s.texture_gradient_instructions, 19);
    // A well-formed STAT decode consumes exactly its fixed extent.
    assert_eq!(d.get_offset(), 76);
}

#[test]
fn stat_parse_truncated_fails() {
    let buf = [0u8; 75];
    let mut d = Decoder::new(&buf);
    assert!(matches!(IStatChunk::parse(&mut d), Err(Error::StreamExpected(_))));
}

#[test]
fn shex_header_parse_unpacks_version() {
    let mut buf = Vec::new();
    buf.push(0x51); // minor 1, major 5
    buf.push(0);
    buf.extend_from_slice(&[0x01, 0x00]); // program type 1
    push_u32(&mut buf, 12); // total length in words, header included
    let mut d = Decoder::new(&buf);
    let h = ShexHeader::parse(&mut d).unwrap();
    assert_eq!(h.minor, 1);
    assert_eq!(h.major, 5);
    assert_eq!(h.program_type, 1);
    assert_eq!(h.instruction_length, 10);
}

#[test]
fn isgn_parse_resolves_names() {
    // Two elements; names live past the records, offsets are chunk-relative.
    let mut buf = Vec::new();
    push_u32(&mut buf, 2); // element count
    push_u32(&mut buf, 8); // reserved
    // Records start at 8, names at 8 + 2*24 = 56.
    push_u32(&mut buf, 56); // name offset
    push_u32(&mut buf, 0); // semantic index
    push_u32(&mut buf, 1); // Position
    push_u32(&mut buf, 3); // Float32
    push_u32(&mut buf, 0); // register
    push_u32(&mut buf, 0x0f | (0x0f << 8));
    push_u32(&mut buf, 65); // second name at 65
    push_u32(&mut buf, 2);
    push_u32(&mut buf, 0); // Undefined
    push_u32(&mut buf, 1); // Uint32
    push_u32(&mut buf, 3);
    push_u32(&mut buf, 0x03 | (0x00 << 8));
    buf.extend_from_slice(b"POSITION\0");
    buf.extend_from_slice(b"COLOR\0");
    let mut d = Decoder::new(&buf);
    let c = IOsgnChunk::parse(&mut d).unwrap();
    assert_eq!(c.elements.len(), 2);
    assert_eq!(c.elements[0].name, "POSITION");
    assert_eq!(c.elements[0].semantic_type, SemanticName::Position);
    assert_eq!(c.elements[0].component_type, RegisterComponentType::Float32);
    assert_eq!(c.elements[0].component_mask, 0x0f);
    assert_eq!(c.elements[0].rw_mask, 0x0f);
    assert_eq!(c.elements[1].name, "COLOR");
    assert_eq!(c.elements[1].semantic_index, 2);
    assert_eq!(c.elements[1].register, 3);
    // The cursor stands exactly past the records.
    assert_eq!(d.get_offset(), 8 + 2 * 24);
}

#[test]
fn isgn_unknown_semantic_tag_is_format_violation() {
    let mut buf = Vec::new();
    push_u32(&mut buf, 1);
    push_u32(&mut buf, 8);
    push_u32(&mut buf, 32);
    push_u32(&mut buf, 0);
    push_u32(&mut buf, 99); // outside both known ranges
    push_u32(&mut buf, 3);
    push_u32(&mut buf, 0);
    push_u32(&mut buf, 0);
    buf.extend_from_slice(b"X\0");
    let mut d = Decoder::new(&buf);
    assert!(matches!(IOsgnChunk::parse(&mut d), Err(Error::FormatViolation(_))));
}

#[test]
fn rdef_parse_reads_tables_and_author() {
    // One constant buffer, one binding, major version 5 with a sub-header.
    let mut buf = Vec::new();
    push_u32(&mut buf, 1); // cb count
    push_u32(&mut buf, 60); // cb offset
    push_u32(&mut buf, 1); // bind count
    push_u32(&mut buf, 84); // bind offset
    buf.push(0); // minor
    buf.push(5); // major
    buf.extend_from_slice(&[0xff, 0xfe]); // shader type
    push_u32(&mut buf, 0x1234); // flags
    push_u32(&mut buf, 116); // author offset
    push_u32(&mut buf, 0x31314452); // sub-header magic
    for _ in 0..7 {
        push_u32(&mut buf, 0);
    }
    // Constant buffer record at 60.
    push_u32(&mut buf, 120); // name offset
    push_u32(&mut buf, 0); // var count
    push_u32(&mut buf, 0); // var offset
    push_u32(&mut buf, 16); // byte size
    push_u32(&mut buf, 0); // flags
    push_u32(&mut buf, 0); // type
    // Resource binding record at 84.
    push_u32(&mut buf, 124); // name offset
    push_u32(&mut buf, 0);
    push_u32(&mut buf, 5);
    push_u32(&mut buf, 4);
    push_u32(&mut buf, 0);
    push_u32(&mut buf, 2);
    push_u32(&mut buf, 1);
    push_u32(&mut buf, 0);
    assert_eq!(buf.len(), 116);
    buf.extend_from_slice(b"me\0\0"); // author at 116
    buf.extend_from_slice(b"cb0\0"); // cb name at 120
    buf.extend_from_slice(b"tex\0"); // binding name at 124
    let mut d = Decoder::new(&buf);
    let r = RdefChunk::parse(&mut d).unwrap();
    assert_eq!(r.constant_buffers.len(), 1);
    assert_eq!(r.constant_buffers[0].name, "cb0");
    assert_eq!(r.constant_buffers[0].byte_size, 16);
    assert_eq!(r.resource_bindings.len(), 1);
    assert_eq!(r.resource_bindings[0].name, "tex");
    assert_eq!(r.resource_bindings[0].return_type, 5);
    assert_eq!(r.resource_bindings[0].bind_point, 2);
    assert_eq!(r.minor, 0);
    assert_eq!(r.major, 5);
    assert_eq!(r.shader_ty, 0xfeff);
    assert_eq!(r.flags, 0x1234);
    assert_eq!(r.author, "me");
    assert!(r.rd11.is_some());
}

#[test]
fn rdef_below_major_five_has_no_subheader() {
    let mut buf = Vec::new();
    push_u32(&mut buf, 0);
    push_u32(&mut buf, 28);
    push_u32(&mut buf, 0);
    push_u32(&mut buf, 28);
    buf.push(4);
    buf.push(4);
    buf.extend_from_slice(&[0, 0]);
    push_u32(&mut buf, 0);
    push_u32(&mut buf, 28); // author right after the fixed part
    buf.extend_from_slice(b"a\0");
    let mut d = Decoder::new(&buf);
    let r = RdefChunk::parse(&mut d).unwrap();
    assert!(r.rd11.is_none());
    assert_eq!(r.major, 4);
    assert_eq!(r.author, "a");
}

// ---- Instruction codec ----

fn opcode_word(ty: u32, len: u32) -> u32 {
    (ty & 0x7ff) | ((len & 0x7f) << 24)
}

#[test]
fn unknown_opcode_skips_declared_length() {
    // An opcode outside the dispatch table with declared length 3, then RET.
    let mut buf = Vec::new();
    push_u32(&mut buf, opcode_word(57, 3));
    push_u32(&mut buf, 0xdeadbeef);
    push_u32(&mut buf, 0xcafef00d);
    push_u32(&mut buf, opcode_word(61, 1));
    let mut d = Decoder::new(&buf);
    let i1 = SparseInstruction::parse(&mut d).unwrap();
    assert!(matches!(i1.operands, Operands::Unknown));
    // Advanced by exactly (declared length - 1) words past the opcode token.
    assert_eq!(d.get_offset(), 12);
    let i2 = SparseInstruction::parse(&mut d).unwrap();
    assert!(matches!(i2.operands, Operands::Ret));
    assert_eq!(d.get_offset(), 16);
}

#[test]
fn extension_chain_consumed_exactly() {
    // RET with two extension tokens: the first chained, the second final.
    let mut buf = Vec::new();
    push_u32(&mut buf, opcode_word(61, 3) | (1 << 31));
    push_u32(&mut buf, 1 | (1 << 31)); // chained bit set: one more follows
    push_u32(&mut buf, 2); // chained bit clear: chain ends here
    push_u32(&mut buf, opcode_word(61, 1));
    let mut d = Decoder::new(&buf);
    let i1 = SparseInstruction::parse(&mut d).unwrap();
    assert!(matches!(i1.operands, Operands::Ret));
    assert_eq!(d.get_offset(), 12);
    let i2 = SparseInstruction::parse(&mut d).unwrap();
    assert!(matches!(i2.operands, Operands::Ret));
}

#[test]
fn zero_extension_tokens_when_bit_clear() {
    let mut buf = Vec::new();
    push_u32(&mut buf, opcode_word(61, 1));
    let mut d = Decoder::new(&buf);
    let i = SparseInstruction::parse(&mut d).unwrap();
    assert!(matches!(i.operands, Operands::Ret));
    assert_eq!(d.get_offset(), 4);
}

fn operand_word(ty: u32, dim: u32) -> u32 {
    ((ty & 0xff) << 12) | ((dim & 3) << 20)
}

#[test]
fn dcl_temps_reads_count() {
    let mut buf = Vec::new();
    push_u32(&mut buf, opcode_word(103, 2));
    push_u32(&mut buf, 7);
    let mut d = Decoder::new(&buf);
    let i = SparseInstruction::parse(&mut d).unwrap();
    match i.operands {
        Operands::DclTemps(t) => assert_eq!(t.register_count, 7),
        _ => panic!("wrong operand group"),
    }
}

#[test]
fn mov_reads_two_operands() {
    // mov r0.x, i1[2]: dest is a dim-1 temp with one literal index, source a
    // dim-1 input.
    let mut buf = Vec::new();
    push_u32(&mut buf, opcode_word(53, 5));
    push_u32(&mut buf, operand_word(0, 1)); // temp, one index slot, literal
    push_u32(&mut buf, 0); // register 0
    push_u32(&mut buf, operand_word(1, 1)); // input, one index slot, literal
    push_u32(&mut buf, 2); // register 2
    let mut d = Decoder::new(&buf);
    let i = SparseInstruction::parse(&mut d).unwrap();
    match i.operands {
        Operands::Mov(m) => {
            assert_eq!(m.dst.immediates.len(), 1);
            assert!(matches!(m.dst.immediates[0], Immediate::U32(0)));
            assert!(matches!(m.src.immediates[0], Immediate::U32(2)));
        },
        _ => panic!("wrong operand group"),
    }
    assert_eq!(d.get_offset(), 20);
}

#[test]
fn relative_operand_decodes_recursively() {
    // A dim-1 constant buffer whose index slot is a nested relative operand.
    let mut buf = Vec::new();
    let outer = operand_word(8, 1) | (2 << 22); // slot 0: relative
    push_u32(&mut buf, outer);
    let nested = operand_word(0, 1); // temp with one literal index
    push_u32(&mut buf, nested);
    push_u32(&mut buf, 5);
    let mut d = Decoder::new(&buf);
    let op = OperandToken0::parse(&mut d).unwrap();
    assert_eq!(op.immediates.len(), 1);
    match &op.immediates[0] {
        Immediate::Relative(inner) => {
            assert_eq!(inner.word, nested);
            assert!(matches!(inner.immediates[0], Immediate::U32(5)));
        },
        _ => panic!("expected a nested operand"),
    }
    assert_eq!(d.get_offset(), 12);
    // Words following the leading token: the nested operand's two words.
    assert_eq!(op.len(), 2);
}

#[test]
fn immediate32_operand_carries_component_values() {
    // A dim-0 Immediate32 operand with four inline values.
    let mut buf = Vec::new();
    let w = ((4u32 & 0xff) << 12) | 2; // Immediate32, four components
    push_u32(&mut buf, w);
    for v in [10u32, 20, 30, 40] {
        push_u32(&mut buf, v);
    }
    let mut d = Decoder::new(&buf);
    let op = OperandToken0::parse(&mut d).unwrap();
    assert_eq!(op.immediates.len(), 4);
    assert!(matches!(op.immediates[3], Immediate::U32(40)));
    assert_eq!(d.get_offset(), 20);
}

#[test]
fn operand_bad_type_tag_is_format_violation() {
    let mut buf = Vec::new();
    push_u32(&mut buf, operand_word(50, 0)); // dim 0, type 50: unknown
    let mut d = Decoder::new(&buf);
    assert!(matches!(OperandToken0::parse(&mut d), Err(Error::FormatViolation(_))));
}

#[test]
fn operand_unsupported_component_count_is_format_violation() {
    let mut buf = Vec::new();
    push_u32(&mut buf, ((4u32 & 0xff) << 12) | 3); // Immediate32 with count N
    let mut d = Decoder::new(&buf);
    assert!(matches!(OperandToken0::parse(&mut d), Err(Error::FormatViolation(_))));
}

#[test]
fn operand_bad_representation_tag_is_format_violation() {
    let mut buf = Vec::new();
    push_u32(&mut buf, operand_word(0, 1) | (5 << 22)); // tag 5: unknown
    push_u32(&mut buf, 0);
    let mut d = Decoder::new(&buf);
    assert!(matches!(OperandToken0::parse(&mut d), Err(Error::FormatViolation(_))));
}

#[test]
fn opcode_token_fields_decode() {
    let w = opcode_word(50, 4) | (1 << 13) | (1 << 18) | (1 << 31);
    let t = OpcodeToken0::from_word(w);
    assert_eq!(t.get_opcode_type(), 50);
    assert_eq!(t.get_instruction_length(), 4);
    assert!(t.is_saturated());
    assert!(t.is_extended());
    assert_eq!(t.get_test_type(), dxbc::shex::TestBoolean::NonZero);
}

#[test]
fn operand_token_fields_decode() {
    // Swizzle yzwx, swizzle mode, temp type, dim 0.
    let w = 2u32 | (1 << 2) | (0x39 << 4);
    let t = OperandToken0 { word: w, extension: None, immediates: Vec::new() };
    assert_eq!(t.get_num_components(), dxbc::shex::NumComponents::Four);
    assert_eq!(
        t.get_component_select_mode(),
        Some(dxbc::shex::ComponentSelectMode::Swizzle)
    );
    let sw = t.get_component_swizzle();
    assert_eq!(sw.0, dxbc::shex::ComponentName::Y);
    assert_eq!(sw.1, dxbc::shex::ComponentName::Z);
    assert_eq!(sw.2, dxbc::shex::ComponentName::W);
    assert_eq!(sw.3, dxbc::shex::ComponentName::X);
    assert_eq!(t.get_operand_type(), Some(dxbc::shex::OperandType::Temp));
    assert_eq!(t.get_index_dimension(), dxbc::shex::IndexDimension::D0);
}

#[test]
fn component_mask_keeps_in_word_scale() {
    let t = OperandToken0 { word: 0xf0, extension: None, immediates: Vec::new() };
    assert_eq!(t.get_component_mask(), 0xf0);
}

#[test]
fn dcl_global_flags_reads_bits() {
    let mut buf = Vec::new();
    push_u32(&mut buf, opcode_word(105, 1) | 0x800 | 0x4000);
    let mut d = Decoder::new(&buf);
    let i = SparseInstruction::parse(&mut d).unwrap();
    match i.operands {
        Operands::DclGlobalFlags(g) => {
            assert!(g.is_refactoring_allowed());
            assert!(g.is_raw_and_structured_buffers_enabled());
            assert!(!g.is_skip_optimization_enabled());
        },
        _ => panic!("wrong operand group"),
    }
}

#[test]
fn dcl_input_register_getter() {
    let mut buf = Vec::new();
    push_u32(&mut buf, opcode_word(94, 3));
    push_u32(&mut buf, operand_word(1, 1));
    push_u32(&mut buf, 4);
    let mut d = Decoder::new(&buf);
    let i = SparseInstruction::parse(&mut d).unwrap();
    match i.operands {
        Operands::DclInput(x) => assert_eq!(x.get_input_register(), 4),
        _ => panic!("wrong operand group"),
    }
}

#[test]
fn cursor_words_and_bytes() {
    let buf = [1u8, 0, 0, 0, 2, 0, 0, 0, 0xaa, 0xbb];
    let mut d = Decoder::new(&buf);
    let ws = d.words(2).unwrap();
    assert_eq!(ws, vec![1, 2]);
    let rest = d.bytes(2).unwrap();
    assert_eq!(rest, &[0xaa, 0xbb]);
    assert!(d.eof());
    // Too many words: the cursor does not move.
    let mut d2 = Decoder::new(&buf);
    assert!(matches!(d2.words(3), Err(Error::StreamExpected(0))));
    assert_eq!(d2.get_offset(), 0);
}

#[test]
fn cursor_seek_is_independent() {
    let buf = [b'a', 0, b'b', 0];
    let mut d = Decoder::new(&buf);
    let mut side = d.seek(2);
    assert_eq!(side.string(), Ok(String::from("b")));
    // The main cursor did not move.
    assert_eq!(d.get_offset(), 0);
    d.seek_mut(2);
    assert_eq!(d.read_u8(), Ok(b'b'));
}

#[test]
fn operand_get_immediate_is_indexed() {
    let mut buf = Vec::new();
    push_u32(&mut buf, ((0u32 & 0xff) << 12) | (2 << 20)); // temp, two slots
    push_u32(&mut buf, 3);
    push_u32(&mut buf, 9);
    let mut d = Decoder::new(&buf);
    let op = OperandToken0::parse(&mut d).unwrap();
    assert!(matches!(op.get_immediate(0), Some(Immediate::U32(3))));
    assert!(matches!(op.get_immediate(1), Some(Immediate::U32(9))));
    assert!(op.get_immediate(2).is_none());
    assert_eq!(op.get_immediates().len(), 2);
    assert!(op.get_extended_operand().is_none());
    // Words following the leading token: the two index literals.
    assert_eq!(op.len(), 2);
}

#[test]
fn token_from_word_rejects_out_of_range() {
    assert!(dxbc::shex::OperandType::from_word(41).is_none());
    assert!(dxbc::shex::IndexRepresentation::from_word(5).is_none());
    assert!(dxbc::shex::NameToken::from_word(23).is_none());
    assert!(SemanticName::from_word(17).is_none());
    assert!(SemanticName::from_word(64).is_some());
    assert!(RegisterComponentType::from_word(4).is_none());
    assert!(dxbc::rdef::ResourceReturnType::from_word(9).is_none());
    assert!(dxbc::rdef::ResourceReturnType::from_word(8).is_some());
}
