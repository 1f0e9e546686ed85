//! Encode-side tests: string packing, the chunk writers, the checksum, the
//! module assembly, and the parse of what the builder emits.

use dxbc::builder::{
    Builder, ComponentMode, DxbcModule, GlobalFlags, Instruction, Modifier, NumComponent, Operand,
    Semantic, ShexChunk,
};
use dxbc::checksum::checksum;
use dxbc::isgn::{IOsgnChunk, InputOutputElement, RegisterComponentType, SemanticName};
use dxbc::decoder::Decoder;
use dxbc::parser::{Action, Consumer, DxbcHeader, Parser, State};
use dxbc::rdef::RdefChunk;
use dxbc::shex::{Operands, ShexHeader, SparseInstruction};
use dxbc::stat::IStatChunk;

fn zero_stat() -> IStatChunk {
    IStatChunk {
        instruction_count: 0,
        temp_register_count: 0,
        def_count: 0,
        dcl_count: 0,
        float_instruction_count: 0,
        int_instruction_count: 0,
        uint_instruction_count: 0,
        static_flow_control_count: 0,
        dynamic_flow_control_count: 0,
        macro_instruction_count: 0,
        temp_array_count: 0,
        array_instruction_count: 0,
        cut_instruction_count: 0,
        emit_instruction_count: 0,
        texture_normal_instructions: 0,
        texture_load_instructions: 0,
        texture_comp_instructions: 0,
        texture_bias_instructions: 0,
        texture_gradient_instructions: 0,
    }
}

#[test]
fn write_str_packs_four_bytes_per_word() {
    let mut m = DxbcModule::new();
    let n = m.write_str("abc");
    assert_eq!(n, 4);
    assert_eq!(m.dwords, vec![0x00636261]);
}

#[test]
fn write_str_aligned_gets_terminator_word() {
    let mut m = DxbcModule::new();
    let n = m.write_str("abcd");
    assert_eq!(n, 8);
    assert_eq!(m.dwords, vec![0x64636261, 0]);
}

#[test]
fn write_str_empty_is_one_zero_word() {
    let mut m = DxbcModule::new();
    assert_eq!(m.write_str(""), 4);
    assert_eq!(m.dwords, vec![0]);
}

#[test]
fn packed_string_round_trips() {
    // Aligned length: terminator word appended, decode stops at it.
    let mut m = DxbcModule::new();
    m.write_str("WXYZ");
    let bytes = m.as_bytes();
    let mut d = Decoder::new(&bytes);
    assert_eq!(d.string(), Ok(String::from("WXYZ")));
    // Partial tail: zero fill of the last word terminates the scan.
    let mut m2 = DxbcModule::new();
    m2.write_str("ab");
    let bytes2 = m2.as_bytes();
    let mut d2 = Decoder::new(&bytes2);
    assert_eq!(d2.string(), Ok(String::from("ab")));
}

#[test]
fn stat_chunk_round_trips() {
    let mut s = zero_stat();
    s.instruction_count = 42;
    s.dcl_count = 7;
    s.texture_gradient_instructions = 99;
    let mut m = DxbcModule::new();
    m.write_stat(&s);
    // Tag, byte length, 19 counters, 18 reserved words.
    assert_eq!(m.dwords.len(), 39);
    assert_eq!(m.dwords[0], 0x54415453);
    assert_eq!(m.dwords[1], 148);
    let bytes = m.as_bytes();
    let mut d = Decoder::new(&bytes[8..]);
    let back = IStatChunk::parse(&mut d).unwrap();
    assert_eq!(back, s);
}

#[test]
fn isgn_chunk_round_trips() {
    let c = IOsgnChunk {
        elements: vec![
            InputOutputElement {
                name: String::from("POSITION"),
                semantic_index: 0,
                semantic_type: SemanticName::Position,
                component_type: RegisterComponentType::Float32,
                register: 0,
                component_mask: 0x0f,
                rw_mask: 0x0f,
            },
            InputOutputElement {
                name: String::from("COLOR"),
                semantic_index: 1,
                semantic_type: SemanticName::Undefined,
                component_type: RegisterComponentType::Uint32,
                register: 2,
                component_mask: 0x03,
                rw_mask: 0x00,
            },
        ],
    };
    let mut m = DxbcModule::new();
    m.write_isgn(&c);
    assert_eq!(m.dwords[0], 0x4e475349);
    let bytes = m.as_bytes();
    let mut d = Decoder::new(&bytes[8..]);
    let back = IOsgnChunk::parse(&mut d).unwrap();
    assert_eq!(back, c);
}

#[test]
fn shex_chunk_round_trips_header() {
    let mut c = ShexChunk::new();
    c.add_instruction(Instruction::DclTemps { count: 2 });
    c.add_instruction(Instruction::Ret);
    let mut m = DxbcModule::new();
    m.write_shex(&c);
    assert_eq!(m.dwords[0], 0x58454853);
    // Two header words plus three instruction words.
    assert_eq!(m.dwords[1], 4 * 5);
    let bytes = m.as_bytes();
    let mut d = Decoder::new(&bytes[8..]);
    let h = ShexHeader::parse(&mut d).unwrap();
    assert_eq!(h.minor, 0);
    assert_eq!(h.major, 5);
    assert_eq!(h.program_type, 1);
    assert_eq!(h.instruction_length, 3);
    // The encoded instructions decode back in order.
    let i1 = SparseInstruction::parse(&mut d).unwrap();
    match i1.operands {
        Operands::DclTemps(t) => assert_eq!(t.register_count, 2),
        _ => panic!("wrong operand group"),
    }
    let i2 = SparseInstruction::parse(&mut d).unwrap();
    assert!(matches!(i2.operands, Operands::Ret));
}

#[test]
fn encoded_add_decodes_back() {
    let mut c = ShexChunk::new();
    c.add_instruction(Instruction::Add {
        dest: Operand::register(0, Modifier::NoModifier, NumComponent::D4(ComponentMode::Mask(0xf0))),
        a: Operand::input(1, Modifier::NoModifier, NumComponent::D4(ComponentMode::Mask(0xf0))),
        b: Operand::register(2, Modifier::Neg, NumComponent::D4(ComponentMode::Mask(0xf0))),
        saturated: true,
    });
    let mut m = DxbcModule::new();
    m.write_shex(&c);
    let bytes = m.as_bytes();
    let mut d = Decoder::new(&bytes[16..]); // skip tag, length, version, size
    let i = SparseInstruction::parse(&mut d).unwrap();
    assert!(i.opcode.is_saturated());
    match i.operands {
        Operands::Add(add) => {
            assert!(matches!(add.dst.immediates[0], dxbc::shex::Immediate::U32(0)));
            assert!(matches!(add.a.immediates[0], dxbc::shex::Immediate::U32(1)));
            assert!(matches!(add.b.immediates[0], dxbc::shex::Immediate::U32(2)));
            // The negated operand carries its modifier token.
            assert!(add.b.extension.is_some());
            assert_eq!(
                add.b.extension.unwrap().get_operand_modifier(),
                Some(dxbc::shex::OperandModifier::Neg)
            );
        },
        _ => panic!("wrong operand group"),
    }
}

#[test]
fn rdef_chunk_round_trips_fixed_fields() {
    let r = RdefChunk {
        constant_buffers: Vec::new(),
        resource_bindings: Vec::new(),
        shader_ty: 0xfffe,
        minor: 200,
        major: 4,
        flags: 0x100,
        author: "tester",
        rd11: None,
    };
    let mut m = DxbcModule::new();
    m.write_rdef(&r);
    let bytes = m.as_bytes();
    let mut d = Decoder::new(&bytes[8..]);
    let back = RdefChunk::parse(&mut d).unwrap();
    assert_eq!(back.constant_buffers.len(), 0);
    assert_eq!(back.resource_bindings.len(), 0);
    assert_eq!(back.shader_ty, 0xfffe);
    assert_eq!(back.minor, 200);
    assert_eq!(back.major, 4);
    assert_eq!(back.flags, 0x100);
    assert_eq!(back.author, "tester");
    assert!(back.rd11.is_none());
}

#[test]
fn rdef_chunk_round_trips_shader_model_five() {
    // The sub-header is written as a fixed word pattern whatever the record
    // held, and reads back as that pattern; every other field round-trips.
    let r = RdefChunk {
        constant_buffers: Vec::new(),
        resource_bindings: Vec::new(),
        shader_ty: 1,
        minor: 1,
        major: 5,
        flags: 0,
        author: "fxc",
        rd11: Some([9, 9, 9, 9, 9, 9, 9]),
    };
    let mut m = DxbcModule::new();
    m.write_rdef(&r);
    let bytes = m.as_bytes();
    let mut d = Decoder::new(&bytes[8..]);
    let back = RdefChunk::parse(&mut d).unwrap();
    assert_eq!(back.minor, 1);
    assert_eq!(back.major, 5);
    assert_eq!(back.shader_ty, 1);
    assert_eq!(back.author, "fxc");
    assert_eq!(back.rd11, Some([60, 24, 32, 40, 36, 12, 0]));
}

// ---- Checksum ----

#[test]
fn checksum_ignores_the_header() {
    let mut a = vec![0u8; 0x14];
    let mut b = vec![0xffu8; 0x14];
    let tail: Vec<u8> = (0..100u32).map(|i| i as u8).collect();
    a.extend_from_slice(&tail);
    b.extend_from_slice(&tail);
    assert_eq!(checksum(&a), checksum(&b));
}

#[test]
fn checksum_changes_on_payload_change() {
    let base: Vec<u8> = (0..200u32).map(|i| (i * 7) as u8).collect();
    let mut flipped = base.clone();
    flipped[0x20] ^= 1;
    assert_ne!(checksum(&base), checksum(&flipped));
}

#[test]
fn checksum_covers_both_tail_cases() {
    // A tail of at least 56 bytes takes the double-compression path; a short
    // tail shares its final block with the bit-length word.
    let long: Vec<u8> = vec![7u8; 0x14 + 60];
    let short: Vec<u8> = vec![7u8; 0x14 + 10];
    assert_ne!(checksum(&long), checksum(&short));
    assert_eq!(checksum(&long), checksum(&long));
}

// ---- Module assembly and end-to-end parses ----

#[derive(Default)]
struct Recording {
    headers: u32,
    rdefs: u32,
    isgns: u32,
    osgns: u32,
    shexes: u32,
    stats: u32,
    instructions: u32,
    finalized: u32,
    last_header: Option<DxbcHeader>,
    last_stat: Option<IStatChunk>,
    isgn_names: Vec<String>,
}

impl Consumer for Recording {
    fn initialize(&mut self) -> Action {
        Action::Continue
    }

    fn finalize(&mut self) -> Action {
        self.finalized += 1;
        Action::Continue
    }

    fn consume_header(&mut self, header: &DxbcHeader) -> Action {
        self.headers += 1;
        self.last_header = Some(*header);
        Action::Continue
    }

    fn consume_rdef(&mut self, _rdef: &RdefChunk<'_>) -> Action {
        self.rdefs += 1;
        Action::Continue
    }

    fn consume_isgn(&mut self, isgn: &IOsgnChunk) -> Action {
        self.isgns += 1;
        for e in &isgn.elements {
            self.isgn_names.push(e.name.clone());
        }
        Action::Continue
    }

    fn consume_osgn(&mut self, _osgn: &IOsgnChunk) -> Action {
        self.osgns += 1;
        Action::Continue
    }

    fn consume_shex(&mut self, _shex: &ShexHeader) -> Action {
        self.shexes += 1;
        Action::Continue
    }

    fn consume_stat(&mut self, stat: &IStatChunk) -> Action {
        self.stats += 1;
        self.last_stat = Some(*stat);
        Action::Continue
    }

    fn consume_instruction(&mut self, _offset: u32, _instruction: SparseInstruction) -> Action {
        self.instructions += 1;
        Action::Continue
    }
}

fn push_u32(buf: &mut Vec<u8>, v: u32) {
    buf.extend_from_slice(&[v as u8, (v >> 8) as u8, (v >> 16) as u8, (v >> 24) as u8]);
}

/// One STAT chunk of all-zero counters behind a well-formed header produces
/// exactly one header callback, one STAT callback with all fields zero, and
/// one finalize.
#[test]
fn end_to_end_single_stat_chunk() {
    let mut buf = Vec::new();
    buf.extend_from_slice(b"DXBC");
    for _ in 0..4 {
        push_u32(&mut buf, 0); // checksum words
    }
    push_u32(&mut buf, 1); // reserved
    push_u32(&mut buf, 192); // total size
    push_u32(&mut buf, 1); // chunk count
    push_u32(&mut buf, 36); // the single directory entry
    buf.extend_from_slice(b"STAT");
    push_u32(&mut buf, 148);
    buf.extend(std::iter::repeat(0u8).take(148));

    let mut rec = Recording::default();
    let mut p = Parser::new(&buf);
    assert!(p.parse(&mut rec).is_ok());
    assert_eq!(rec.headers, 1);
    assert_eq!(rec.stats, 1);
    assert_eq!(rec.finalized, 1);
    assert_eq!(rec.rdefs + rec.isgns + rec.osgns + rec.shexes + rec.instructions, 0);
    assert_eq!(rec.last_stat.unwrap(), zero_stat());
    let h = rec.last_header.unwrap();
    assert_eq!(h.chunk_count, 1);
    assert_eq!(&h.magic, b"DXBC");
}

#[test]
fn bad_magic_is_header_incorrect() {
    let buf = vec![b'X'; 64];
    let mut rec = Recording::default();
    let mut p = Parser::new(&buf);
    assert!(matches!(p.parse(&mut rec), Err(State::HeaderIncorrect)));
    assert_eq!(rec.headers, 0);
}

#[test]
fn truncated_header_is_decoder_error() {
    let buf = b"DXBC\x00\x00".to_vec();
    let mut rec = Recording::default();
    let mut p = Parser::new(&buf);
    assert!(matches!(p.parse(&mut rec), Err(State::DecoderError(_))));
}

#[test]
fn unknown_chunk_tags_are_skipped() {
    let mut buf = Vec::new();
    buf.extend_from_slice(b"DXBC");
    for _ in 0..4 {
        push_u32(&mut buf, 0);
    }
    push_u32(&mut buf, 1);
    push_u32(&mut buf, 52);
    push_u32(&mut buf, 1);
    push_u32(&mut buf, 36);
    buf.extend_from_slice(b"XYZW");
    push_u32(&mut buf, 8);
    buf.extend(std::iter::repeat(0u8).take(8));
    let mut rec = Recording::default();
    let mut p = Parser::new(&buf);
    assert!(p.parse(&mut rec).is_ok());
    assert_eq!(rec.finalized, 1);
    assert_eq!(rec.stats, 0);
}

#[test]
fn consumer_stop_aborts_parse() {
    struct Stopper;
    impl Consumer for Stopper {
        fn initialize(&mut self) -> Action {
            Action::Stop
        }

        fn finalize(&mut self) -> Action {
            Action::Continue
        }
    }
    let buf = vec![0u8; 8];
    let mut s = Stopper;
    let mut p = Parser::new(&buf);
    assert!(matches!(p.parse(&mut s), Err(State::ConsumerStopRequested)));
}

#[test]
fn built_module_parses_back() {
    // Every directory slot must be patched for the image to parse back:
    // a chunk that was never supplied leaves its slot at the placeholder.
    let mut b = Builder::new();
    b.set_rdef(RdefChunk {
        constant_buffers: Vec::new(),
        resource_bindings: Vec::new(),
        shader_ty: 1,
        minor: 0,
        major: 0,
        flags: 0,
        author: "tester",
        rd11: None,
    });
    b.set_osgn(IOsgnChunk { elements: Vec::new() });
    b.set_isgn(IOsgnChunk {
        elements: vec![InputOutputElement {
            name: String::from("POSITION"),
            semantic_index: 0,
            semantic_type: SemanticName::Position,
            component_type: RegisterComponentType::Float32,
            register: 0,
            component_mask: 0x0f,
            rw_mask: 0x0f,
        }],
    });
    let mut shex = ShexChunk::new();
    shex.add_instruction(Instruction::DclGlobalFlags { flags: GlobalFlags { bits: 0x800 } });
    shex.add_instruction(Instruction::DclTemps { count: 1 });
    shex.add_instruction(Instruction::DclOutputSiv {
        register: Operand::output(0, Modifier::NoModifier, NumComponent::D4(ComponentMode::Mask(0xf0))),
        semantic: Semantic::Position,
    });
    shex.add_instruction(Instruction::Ret);
    b.set_shex(shex);
    let module = b.module().unwrap();
    let bytes = module.as_bytes();

    // The patched checksum words are the checksum of the finished bytes.
    let ck = checksum(&bytes);
    assert_eq!(module.dwords[1], ck[0]);
    assert_eq!(module.dwords[2], ck[1]);
    assert_eq!(module.dwords[3], ck[2]);
    assert_eq!(module.dwords[4], ck[3]);
    // The patched size is the byte length.
    assert_eq!(module.dwords[6] as usize, bytes.len());

    let mut rec = Recording::default();
    let mut p = Parser::new(&bytes);
    assert!(p.parse(&mut rec).is_ok());
    assert_eq!(rec.headers, 1);
    assert_eq!(rec.rdefs, 1);
    assert_eq!(rec.isgns, 1);
    assert_eq!(rec.osgns, 1);
    assert_eq!(rec.shexes, 1);
    assert_eq!(rec.instructions, 4);
    assert_eq!(rec.finalized, 1);
    assert_eq!(rec.isgn_names, vec![String::from("POSITION")]);
}

#[test]
fn empty_builder_leaves_directory_placeholders() {
    let b = Builder::new();
    let module = b.module().unwrap();
    // Header, reserved word of one, a four-slot directory, nothing else.
    assert_eq!(module.dwords.len(), 12);
    assert_eq!(module.dwords[0], 0x43425844);
    assert_eq!(module.dwords[5], 1);
    assert_eq!(module.dwords[7], 4);
    assert_eq!(&module.dwords[8..12], &[0, 0, 0, 0]);
    assert_eq!(module.dwords[6], 48);
}

#[test]
fn write_opcode_encodes_fields() {
    let mut m = DxbcModule::new();
    m.write_opcode(0, 3, Some(1), true, &[]);
    assert_eq!(m.dwords, vec![(3 << 24) | (1 << 13) | (1 << 18)]);
}

#[test]
fn consumer_error_propagates() {
    struct Failing;
    impl Consumer for Failing {
        fn initialize(&mut self) -> Action {
            Action::Error(Box::new(dxbc::error::Error::FormatViolation(7)))
        }

        fn finalize(&mut self) -> Action {
            Action::Continue
        }
    }
    let buf = vec![0u8; 8];
    let mut c = Failing;
    let mut p = Parser::new(&buf);
    match p.parse(&mut c) {
        Err(State::ConsumerError(e)) => {
            assert_eq!(*e, dxbc::error::Error::FormatViolation(7));
        },
        _ => panic!("expected the consumer's error back"),
    }
}

#[test]
fn set_u32_slice_overwrites_tail() {
    let mut m = DxbcModule::new();
    for v in [1u32, 2, 3, 4] {
        m.write_u32(v);
    }
    m.set_u32_slice(2, &[30, 40]);
    assert_eq!(m.dwords, vec![1, 2, 30, 40]);
    assert_eq!(m.position(), 4);
    m.set_u32(0, 10);
    assert_eq!(m.get_u32(0), 10);
}

#[test]
fn encoded_u64_immediate_round_trips() {
    let mut m = DxbcModule::new();
    m.write_operand(0, Modifier::NoModifier, NumComponent::D1, &[
        dxbc::builder::Immediate::U64(0x1122334455667788),
    ]);
    // Token word plus the low and high words of the literal.
    assert_eq!(m.dwords.len(), 3);
    assert_eq!(m.dwords[1], 0x55667788);
    assert_eq!(m.dwords[2], 0x11223344);
    let bytes = m.as_bytes();
    let mut d = Decoder::new(&bytes);
    let op = dxbc::shex::OperandToken0::parse(&mut d).unwrap();
    assert!(matches!(
        op.immediates[0],
        dxbc::shex::Immediate::U64(0x1122334455667788)
    ));
}
