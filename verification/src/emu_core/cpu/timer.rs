use vstd::prelude::*;
use crate::emu_core::cpu::cpu::CPU;
use crate::emu_core::cpu::prelude::CyclesType;
use crate::emu_core::error::{Error, InstructionError};

verus! {

/// Dispatches a timer opcode: 0x04, 0x05 and 0x06 take 4 cycles, any other opcode is
/// invalid; nothing changes.
pub fn dispatch(cpu: &mut CPU, opcode: u8) -> (r: Result<CyclesType, Error>)
    ensures
        *final(cpu) == *old(cpu),
        r == (if opcode == 0x04 || opcode == 0x05 || opcode == 0x06 {
            Ok::<CyclesType, Error>(4)
        } else {
            Err(Error::Instruction(InstructionError::InvalidOpcode(opcode)))
        }),
{
    match opcode {
        0x04 | 0x05 | 0x06 => Ok(4),
        _ => Err(Error::Instruction(InstructionError::InvalidOpcode(opcode))),
    }
}

} // verus!
