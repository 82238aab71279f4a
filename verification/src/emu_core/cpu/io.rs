use vstd::prelude::*;
use crate::emu_core::cpu::cpu::CPU;
use crate::emu_core::cpu::prelude::CyclesType;
use crate::emu_core::error::Error;

verus! {

/// Dispatches an I/O opcode: every opcode takes 4 cycles and changes nothing.
pub fn dispatch(cpu: &mut CPU, opcode: u8) -> (r: Result<CyclesType, Error>)
    ensures
        r == Ok::<CyclesType, Error>(4),
        *final(cpu) == *old(cpu),
{
    Ok(4)
}

/// Reading the joypad is left to the front end: 8 cycles, nothing changes.
pub fn read_joypad(cpu: &mut CPU) -> (r: CyclesType)
    ensures
        r == 8,
        *final(cpu) == *old(cpu),
{
    8
}

/// Writing the joypad: 8 cycles, nothing changes.
pub fn write_joypad(cpu: &mut CPU) -> (r: CyclesType)
    ensures
        r == 8,
        *final(cpu) == *old(cpu),
{
    8
}

/// Reading the serial port: 8 cycles, nothing changes.
pub fn read_serial(cpu: &mut CPU) -> (r: CyclesType)
    ensures
        r == 8,
        *final(cpu) == *old(cpu),
{
    8
}

/// Writing the serial port: 8 cycles, nothing changes.
pub fn write_serial(cpu: &mut CPU) -> (r: CyclesType)
    ensures
        r == 8,
        *final(cpu) == *old(cpu),
{
    8
}

} // verus!
