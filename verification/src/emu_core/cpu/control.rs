use vstd::prelude::*;
use crate::emu_core::cpu::arithmetic::regs_now;
use crate::emu_core::cpu::cpu::{CPU, with_flags};
use crate::emu_core::cpu::prelude::CyclesType;
use crate::emu_core::error::Error;

verus! {

/// `c` is `c0` with all four flags cleared and nothing else changed.
pub open spec fn flags_cleared(c0: CPU, c: CPU) -> bool {
    regs_now(c0, c, with_flags(c0.registers, false, false, false, false))
}

/// Dispatches a control opcode: every opcode takes 4 cycles and changes nothing.
pub fn dispatch(cpu: &mut CPU, opcode: u8) -> (r: Result<CyclesType, Error>)
    ensures
        r == Ok::<CyclesType, Error>(4),
        *final(cpu) == *old(cpu),
{
    Ok(4)
}

impl CPU {
    /// NOP: clears all flags; 4 cycles.
    pub fn nop(&mut self) -> (r: CyclesType)
        ensures
            r == 4,
            flags_cleared(*old(self), *final(self)),
    {
        self.registers.update_flags(false, false, false, false);
        4
    }

    /// STOP: clears all flags; 4 cycles.
    pub fn stop(&mut self) -> (r: CyclesType)
        ensures
            r == 4,
            flags_cleared(*old(self), *final(self)),
    {
        self.registers.update_flags(false, false, false, false);
        4
    }

    /// HALT: clears all flags; 4 cycles.
    pub fn halt(&mut self) -> (r: CyclesType)
        ensures
            r == 4,
            flags_cleared(*old(self), *final(self)),
    {
        self.registers.update_flags(false, false, false, false);
        4
    }

    /// DI: clears all flags; 4 cycles.
    pub fn di(&mut self) -> (r: CyclesType)
        ensures
            r == 4,
            flags_cleared(*old(self), *final(self)),
    {
        self.registers.update_flags(false, false, false, false);
        4
    }

    /// EI: clears all flags; 4 cycles.
    pub fn ei(&mut self) -> (r: CyclesType)
        ensures
            r == 4,
            flags_cleared(*old(self), *final(self)),
    {
        self.registers.update_flags(false, false, false, false);
        4
    }
}

} // verus!
