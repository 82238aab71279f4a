use vstd::prelude::*;
use crate::emu_core::cpu::cpu::CPU;
use crate::emu_core::cpu::prelude::CyclesType;
use crate::emu_core::error::{Error, InstructionError};

verus! {

/// The jump, call and return opcodes: JP nn, JP cc,nn, JP (HL), JR n, JR cc,n, CALL nn,
/// CALL cc,nn, RET, RET cc and RETI.
pub open spec fn is_jump_opcode(op: u8) -> bool {
    ||| op == 0xC3 || op == 0xC2 || op == 0xCA || op == 0xD2 || op == 0xDA || op == 0xE9
    ||| op == 0x18 || op == 0x20 || op == 0x28 || op == 0x30 || op == 0x38
    ||| op == 0xCD || op == 0xC4 || op == 0xCC || op == 0xD4 || op == 0xDC
    ||| op == 0xC9 || op == 0xC0 || op == 0xC8 || op == 0xD0 || op == 0xD8 || op == 0xD9
}

/// Dispatches a jump-group opcode. The jump, call and return handlers of this CPU are not
/// implemented and stop the program, so those opcodes are excluded here; every other opcode is
/// invalid and changes nothing.
pub fn dispatch(cpu: &mut CPU, opcode: u8) -> (r: Result<CyclesType, Error>)
    requires
        !is_jump_opcode(opcode),
    ensures
        r == Err::<CyclesType, Error>(Error::Instruction(InstructionError::InvalidOpcode(opcode))),
        *final(cpu) == *old(cpu),
{
    Err(Error::Instruction(InstructionError::InvalidOpcode(opcode)))
}

} // verus!
