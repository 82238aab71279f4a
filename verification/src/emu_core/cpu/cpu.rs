use vstd::prelude::*;
use crate::emu_core::cpu::flags::{Flags, with_bits};
use crate::emu_core::cpu::prelude::{CyclesType, FlagUtils};
use crate::emu_core::cpu::register_utils::{FlagOperations, RegTarget};
use crate::emu_core::cpu::registers::{Registers, flags_with, word};
use crate::emu_core::error::Error;
use crate::emu_core::mmu::mmu::{MMU, write_rel};

verus! {

/// The CPU of the emulator core: interrupt and power state, the registers, and the memory map
/// it runs on.
pub struct CPU {
    pub ime: bool,
    pub ime_scheduled: bool,
    pub halted: bool,
    pub stopped: bool,
    pub registers: Registers,
    pub mmu: MMU,
}

/// HL as a 16-bit address.
pub open spec fn hl_of(r: Registers) -> u16 {
    word(r.h, r.l)
}

/// Whether the carry flag is set.
pub open spec fn carry_of(r: Registers) -> bool {
    r.flags@ & 0x10 != 0
}

/// The value of operand `t`: a register, the byte at (HL) through the memory map, or 0 for an
/// immediate.
pub open spec fn target_value(r: Registers, m: MMU, t: RegTarget) -> u8 {
    match t {
        RegTarget::A => r.a,
        RegTarget::B => r.b,
        RegTarget::C => r.c,
        RegTarget::D => r.d,
        RegTarget::E => r.e,
        RegTarget::H => r.h,
        RegTarget::L => r.l,
        RegTarget::HL => m.read_spec(hl_of(r)),
        RegTarget::Immediate => 0,
    }
}

/// The registers with register operand `t` set to `v`; (HL) and immediates leave them as
/// they are.
pub open spec fn target_set(r: Registers, t: RegTarget, v: u8) -> Registers {
    match t {
        RegTarget::A => Registers { a: v, ..r },
        RegTarget::B => Registers { b: v, ..r },
        RegTarget::C => Registers { c: v, ..r },
        RegTarget::D => Registers { d: v, ..r },
        RegTarget::E => Registers { e: v, ..r },
        RegTarget::H => Registers { h: v, ..r },
        RegTarget::L => Registers { l: v, ..r },
        _ => r,
    }
}

/// `m` is `m0` after operand `t` receives `v`: the byte at (HL) is written through the memory
/// map; for any other operand the memory map is unchanged.
pub open spec fn target_mem(m0: MMU, m: MMU, r0: Registers, t: RegTarget, v: u8) -> bool {
    if t is HL {
        write_rel(m0, m, hl_of(r0), v)
    } else {
        m == m0
    }
}

/// The registers with Z, N, H and C as given.
pub open spec fn with_flags(r: Registers, z: bool, n: bool, h: bool, c: bool) -> Registers {
    Registers { flags: Flags { value: flags_with(r.flags@, z, n, h, c) }, ..r }
}

/// `c` keeps the interrupt and power state of `c0`.
pub open spec fn same_state(c0: CPU, c: CPU) -> bool {
    &&& c.ime == c0.ime
    &&& c.ime_scheduled == c0.ime_scheduled
    &&& c.halted == c0.halted
    &&& c.stopped == c0.stopped
}

/// The length in bytes of an instruction, by its opcode.
pub open spec fn opcode_length(opcode: u8) -> usize {
    if opcode == 0x06 || opcode == 0x0E || opcode == 0x16 || opcode == 0x1E || opcode == 0x26
        || opcode == 0x2E || opcode == 0x36 || opcode == 0x3E || opcode == 0xC3 || opcode == 0xCD
        || opcode == 0xEA || opcode == 0xFA || opcode == 0x21 || opcode == 0x31 || opcode == 0x01
        || opcode == 0x11 {
        3
    } else if opcode == 0xF8 || opcode == 0x18 || opcode == 0x20 || opcode == 0x28 || opcode
        == 0x30 || opcode == 0xE0 || opcode == 0xE2 || opcode == 0xF0 || opcode == 0xF2 || opcode
        == 0xCB {
        2
    } else {
        1
    }
}

impl CPU {
    /// The memory map is well formed.
    pub open spec fn wf(&self) -> bool {
        self.mmu.wf()
    }

    /// A CPU on `mmu` with the register values after the boot ROM, interrupts disabled, neither
    /// halted nor stopped.
    pub fn new(mmu: MMU) -> (r: CPU)
        ensures
            r.mmu == mmu,
            r.registers.a == 0x01 && r.registers.flags@ == 0xB0 && r.registers.b == 0x00,
            r.registers.c == 0x13 && r.registers.d == 0x00 && r.registers.e == 0xD8,
            r.registers.h == 0x01 && r.registers.l == 0x4D,
            r.registers.sp == 0xFFFE && r.registers.pc == 0x0100,
            !r.ime && !r.ime_scheduled && !r.halted && !r.stopped,
    {
        CPU {
            ime: false,
            ime_scheduled: false,
            halted: false,
            stopped: false,
            registers: Registers::new(),
            mmu,
        }
    }

    /// The registers.
    pub fn registers(&self) -> (r: &Registers)
        ensures
            *r == self.registers,
    {
        &self.registers
    }

    /// Reads the byte at `addr` through the memory map; always succeeds.
    pub fn read_byte(&self, addr: u16) -> (r: Result<u8, Error>)
        requires
            self.wf(),
        ensures
            r == Ok::<u8, Error>(self.mmu.read_spec(addr)),
    {
        self.mmu.read_byte(addr)
    }

    /// Writes `value` to `addr` through the memory map; always succeeds.
    pub fn write_byte(&mut self, addr: u16, value: u8) -> (r: Result<(), Error>)
        requires
            old(self).wf(),
        ensures
            r is Ok,
            final(self).wf(),
            write_rel(old(self).mmu, final(self).mmu, addr, value),
            final(self).registers == old(self).registers,
            same_state(*old(self), *final(self)),
    {
        self.mmu.write_byte(addr, value)
    }

    /// Reads the byte at PC through the memory map and advances PC (wrapping); always
    /// succeeds.
    pub fn fetch_byte(&mut self) -> (r: Result<u8, Error>)
        requires
            old(self).wf(),
        ensures
            r == Ok::<u8, Error>(old(self).mmu.read_spec(old(self).registers.pc)),
            final(self).registers == (Registers {
                pc: ((old(self).registers.pc + 1) % 0x10000) as u16,
                ..old(self).registers
            }),
            final(self).mmu == old(self).mmu,
            same_state(*old(self), *final(self)),
    {
        let byte = self.mmu.read_byte(self.registers.pc);
        self.registers.pc = self.registers.pc.wrapping_add(1);
        byte
    }

    /// Reads the little-endian word at PC through the memory map and advances PC by two
    /// (wrapping); always succeeds.
    pub fn fetch_word(&mut self) -> (r: Result<u16, Error>)
        requires
            old(self).wf(),
        ensures
            r == Ok::<u16, Error>(
                word(
                    old(self).mmu.read_spec(((old(self).registers.pc + 1) % 0x10000) as u16),
                    old(self).mmu.read_spec(old(self).registers.pc),
                ),
            ),
            final(self).registers == (Registers {
                pc: ((old(self).registers.pc + 2) % 0x10000) as u16,
                ..old(self).registers
            }),
            final(self).mmu == old(self).mmu,
            same_state(*old(self), *final(self)),
    {
        let low = match self.fetch_byte() {
            Ok(b) => b,
            Err(e) => {
                return Err(e);
            },
        };
        let high = match self.fetch_byte() {
            Ok(b) => b,
            Err(e) => {
                return Err(e);
            },
        };
        proof {
            crate::bits::lemma_u16_join(high, low);
        }
        Ok(((high as u16) << 8) | (low as u16))
    }

    /// The value of operand `target` (0 for an immediate).
    pub(crate) fn target_read(&self, target: RegTarget) -> (r: u8)
        requires
            self.wf(),
        ensures
            r == target_value(self.registers, self.mmu, target),
    {
        match target {
            RegTarget::A => self.registers.a,
            RegTarget::B => self.registers.b,
            RegTarget::C => self.registers.c,
            RegTarget::D => self.registers.d,
            RegTarget::E => self.registers.e,
            RegTarget::H => self.registers.h,
            RegTarget::L => self.registers.l,
            RegTarget::HL => {
                let addr = self.registers.get_hl();
                match self.mmu.read_byte(addr) {
                    Ok(b) => b,
                    Err(_) => 0,
                }
            },
            RegTarget::Immediate => 0,
        }
    }

    /// Stores `value` in operand `reg`: a register, or the byte at (HL) through the memory
    /// map; an immediate operand takes nothing.
    pub fn set_reg_value(&mut self, reg: RegTarget, value: u8)
        requires
            old(self).wf(),
        ensures
            final(self).wf(),
            final(self).registers == target_set(old(self).registers, reg, value),
            target_mem(old(self).mmu, final(self).mmu, old(self).registers, reg, value),
            same_state(*old(self), *final(self)),
    {
        match reg {
            RegTarget::A => self.registers.a = value,
            RegTarget::B => self.registers.b = value,
            RegTarget::C => self.registers.c = value,
            RegTarget::D => self.registers.d = value,
            RegTarget::E => self.registers.e = value,
            RegTarget::H => self.registers.h = value,
            RegTarget::L => self.registers.l = value,
            RegTarget::HL => {
                let addr = self.registers.get_hl();
                let _ = self.write_byte(addr, value);
            },
            RegTarget::Immediate => {},
        }
    }

    /// BIT b,r as dispatched from the CB table: 8 cycles, nothing changes.
    pub fn bit_b_r(&mut self, bit: u8, target: RegTarget) -> (r: CyclesType)
        ensures
            r == 8,
            *final(self) == *old(self),
    {
        8
    }

    /// RES b,r as dispatched from the CB table: 8 cycles, nothing changes.
    pub fn res_b_r(&mut self, bit: u8, target: RegTarget) -> (r: CyclesType)
        ensures
            r == 8,
            *final(self) == *old(self),
    {
        8
    }

    /// SET b,r as dispatched from the CB table: 8 cycles, nothing changes.
    pub fn set_b_r(&mut self, bit: u8, target: RegTarget) -> (r: CyclesType)
        ensures
            r == 8,
            *final(self) == *old(self),
    {
        8
    }

    /// The remaining rotates and shifts as dispatched from the CB table: 0 cycles, nothing
    /// changes.
    pub fn cb_misc(&mut self, target: RegTarget) -> (r: CyclesType)
        ensures
            r == 0,
            *final(self) == *old(self),
    {
        0
    }

    /// The length in bytes of an instruction, by its opcode (CB-prefixed count two).
    pub fn opcode_len(opcode: u8) -> (r: usize)
        ensures
            r == opcode_length(opcode),
    {
        match opcode {
            0x06 | 0x0E | 0x16 | 0x1E | 0x26 | 0x2E | 0x36 | 0x3E | 0xC3 | 0xCD | 0xEA | 0xFA => 3,
            0xF8 => 2,
            0x21 | 0x31 | 0x01 | 0x11 => 3,
            0x18 | 0x20 | 0x28 | 0x30 | 0xE0 | 0xE2 | 0xF0 | 0xF2 => 2,
            0xCB => 2,
            _ => 1,
        }
    }
}

impl FlagUtils for CPU {
    fn update_zero_flag(&mut self, value: u8)
        ensures
            final(self).registers == (Registers {
                flags: Flags { value: with_bits(old(self).registers.flags@, 0x80, value == 0) },
                ..old(self).registers
            }),
            final(self).mmu == old(self).mmu,
            same_state(*old(self), *final(self)),
    {
        self.registers.set_zero(value == 0);
    }

    fn update_carry_flag(&mut self, value: bool)
        ensures
            final(self).registers == (Registers {
                flags: Flags { value: with_bits(old(self).registers.flags@, 0x10, value) },
                ..old(self).registers
            }),
            final(self).mmu == old(self).mmu,
            same_state(*old(self), *final(self)),
    {
        self.registers.set_carry(value);
    }

    fn update_half_carry_flag(&mut self, value: bool)
        ensures
            final(self).registers == (Registers {
                flags: Flags { value: with_bits(old(self).registers.flags@, 0x20, value) },
                ..old(self).registers
            }),
            final(self).mmu == old(self).mmu,
            same_state(*old(self), *final(self)),
    {
        self.registers.set_half_carry(value);
    }

    fn update_subtract_flag(&mut self, value: bool)
        ensures
            final(self).registers == (Registers {
                flags: Flags { value: with_bits(old(self).registers.flags@, 0x40, value) },
                ..old(self).registers
            }),
            final(self).mmu == old(self).mmu,
            same_state(*old(self), *final(self)),
    {
        self.registers.set_subtract(value);
    }
}

} // verus!
