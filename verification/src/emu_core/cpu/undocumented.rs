use vstd::prelude::*;
use crate::emu_core::cpu::control::flags_cleared;
use crate::emu_core::cpu::cpu::CPU;
use crate::emu_core::cpu::prelude::CyclesType;
use crate::emu_core::error::{Error, InstructionError};

verus! {

/// Dispatches an undocumented opcode: the SGB opcode 0xFC, the undefined 0xDD, 0xED and 0xFD,
/// and HALT with its bug (0x76) clear all flags and take 4 cycles; any other opcode is
/// invalid and changes nothing.
pub fn dispatch(cpu: &mut CPU, opcode: u8) -> (r: Result<CyclesType, Error>)
    ensures
        opcode == 0xFC || opcode == 0xDD || opcode == 0xED || opcode == 0xFD || opcode == 0x76
            ==> r == Ok::<CyclesType, Error>(4) && flags_cleared(*old(cpu), *final(cpu)),
        !(opcode == 0xFC || opcode == 0xDD || opcode == 0xED || opcode == 0xFD || opcode == 0x76)
            ==> r == Err::<CyclesType, Error>(
            Error::Instruction(InstructionError::InvalidOpcode(opcode)),
        ) && *final(cpu) == *old(cpu),
{
    match opcode {
        0xFC => Ok(undocumented_sgb(cpu)),
        0xDD | 0xED | 0xFD => Ok(undocumented_nop(cpu)),
        0x76 => Ok(undocumented_halt_bug(cpu)),
        _ => Err(Error::Instruction(InstructionError::InvalidOpcode(opcode))),
    }
}

/// An SGB command opcode: clears all flags; 4 cycles.
pub fn undocumented_sgb(cpu: &mut CPU) -> (r: CyclesType)
    ensures
        r == 4,
        flags_cleared(*old(cpu), *final(cpu)),
{
    cpu.registers.update_flags(false, false, false, false);
    4
}

/// An undefined opcode run as NOP: clears all flags; 4 cycles.
pub fn undocumented_nop(cpu: &mut CPU) -> (r: CyclesType)
    ensures
        r == 4,
        flags_cleared(*old(cpu), *final(cpu)),
{
    cpu.registers.update_flags(false, false, false, false);
    4
}

/// HALT with the halt bug: clears all flags; 4 cycles.
pub fn undocumented_halt_bug(cpu: &mut CPU) -> (r: CyclesType)
    ensures
        r == 4,
        flags_cleared(*old(cpu), *final(cpu)),
{
    cpu.registers.update_flags(false, false, false, false);
    4
}

} // verus!
