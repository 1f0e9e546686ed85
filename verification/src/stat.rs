//! The STAT chunk: nineteen fixed 32-bit shader-complexity counters.

use vstd::prelude::*;

use crate::bytes::le32;
use crate::decoder::Decoder;
use crate::error::Error;

verus! {

#[derive(Debug, Clone, Copy, PartialEq, Eq, Structural)]
pub struct IStatChunk {
    pub instruction_count: u32,
    pub temp_register_count: u32,
    pub def_count: u32,
    pub dcl_count: u32,
    pub float_instruction_count: u32,
    pub int_instruction_count: u32,
    pub uint_instruction_count: u32,
    pub static_flow_control_count: u32,
    pub dynamic_flow_control_count: u32,
    pub macro_instruction_count: u32,
    pub temp_array_count: u32,
    pub array_instruction_count: u32,
    pub cut_instruction_count: u32,
    pub emit_instruction_count: u32,
    pub texture_normal_instructions: u32,
    pub texture_load_instructions: u32,
    pub texture_comp_instructions: u32,
    pub texture_bias_instructions: u32,
    pub texture_gradient_instructions: u32,
}

/// The record's counters are exactly the nineteen consecutive little-endian
/// words starting at `pos` of `d`.
pub open spec fn stat_at(d: Seq<u8>, pos: int, s: IStatChunk) -> bool {
    &&& 0 <= pos
    &&& pos + 76 <= d.len()
    &&& s.instruction_count == le32(d, pos)
    &&& s.temp_register_count == le32(d, pos + 4)
    &&& s.def_count == le32(d, pos + 8)
    &&& s.dcl_count == le32(d, pos + 12)
    &&& s.float_instruction_count == le32(d, pos + 16)
    &&& s.int_instruction_count == le32(d, pos + 20)
    &&& s.uint_instruction_count == le32(d, pos + 24)
    &&& s.static_flow_control_count == le32(d, pos + 28)
    &&& s.dynamic_flow_control_count == le32(d, pos + 32)
    &&& s.macro_instruction_count == le32(d, pos + 36)
    &&& s.temp_array_count == le32(d, pos + 40)
    &&& s.array_instruction_count == le32(d, pos + 44)
    &&& s.cut_instruction_count == le32(d, pos + 48)
    &&& s.emit_instruction_count == le32(d, pos + 52)
    &&& s.texture_normal_instructions == le32(d, pos + 56)
    &&& s.texture_load_instructions == le32(d, pos + 60)
    &&& s.texture_comp_instructions == le32(d, pos + 64)
    &&& s.texture_bias_instructions == le32(d, pos + 68)
    &&& s.texture_gradient_instructions == le32(d, pos + 72)
}

impl IStatChunk {
    /// Reads the nineteen counters in fixed order. Succeeds exactly when 76
    /// bytes remain at the cursor position.
    #[verifier::rlimit(60)]
    pub fn parse(decoder: &mut Decoder) -> (r: Result<IStatChunk, Error>)
        ensures
            final(decoder).data() == old(decoder).data(),
            match r {
                Ok(s) => {
                    &&& stat_at(old(decoder).data(), old(decoder).off(), s)
                    &&& final(decoder).off() == old(decoder).off() + 76
                },
                Err(e) => {
                    &&& old(decoder).off() + 76 > old(decoder).data().len()
                    &&& e is StreamExpected
                },
            },
    {
        let instruction_count = decoder.read_u32()?;
        let temp_register_count = decoder.read_u32()?;
        let def_count = decoder.read_u32()?;
        let dcl_count = decoder.read_u32()?;
        let float_instruction_count = decoder.read_u32()?;
        let int_instruction_count = decoder.read_u32()?;
        let uint_instruction_count = decoder.read_u32()?;
        let static_flow_control_count = decoder.read_u32()?;
        let dynamic_flow_control_count = decoder.read_u32()?;
        let macro_instruction_count = decoder.read_u32()?;
        let temp_array_count = decoder.read_u32()?;
        let array_instruction_count = decoder.read_u32()?;
        let cut_instruction_count = decoder.read_u32()?;
        let emit_instruction_count = decoder.read_u32()?;
        let texture_normal_instructions = decoder.read_u32()?;
        let texture_load_instructions = decoder.read_u32()?;
        let texture_comp_instructions = decoder.read_u32()?;
        let texture_bias_instructions = decoder.read_u32()?;
        let texture_gradient_instructions = decoder.read_u32()?;
        Ok(IStatChunk {
            instruction_count,
            temp_register_count,
            def_count,
            dcl_count,
            float_instruction_count,
            int_instruction_count,
            uint_instruction_count,
            static_flow_control_count,
            dynamic_flow_control_count,
            macro_instruction_count,
            temp_array_count,
            array_instruction_count,
            cut_instruction_count,
            emit_instruction_count,
            texture_normal_instructions,
            texture_load_instructions,
            texture_comp_instructions,
            texture_bias_instructions,
            texture_gradient_instructions,
        })
    }
}

} // verus!
