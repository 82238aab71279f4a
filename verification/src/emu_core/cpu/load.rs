use vstd::prelude::*;
use crate::emu_core::cpu::cpu::{CPU, hl_of, same_state, target_mem, target_set};
use crate::emu_core::cpu::cycles::{CYCLES_2, CYCLES_3, CYCLES_4};
use crate::emu_core::cpu::prelude::CyclesType;
use crate::emu_core::cpu::register_utils::RegTarget;
use crate::emu_core::cpu::registers::{Registers, word};
use crate::emu_core::error::Error;
use crate::emu_core::mmu::mmu::{MMU, write_rel};

verus! {

/// PC advanced by `n` bytes (wrapping).
pub open spec fn pc_plus(r: Registers, n: int) -> Registers {
    Registers { pc: ((r.pc + n) % 0x10000) as u16, ..r }
}

/// The byte at PC + `k` (wrapping) through the memory map.
pub open spec fn code_byte(r: Registers, m: MMU, k: int) -> u8 {
    m.read_spec(((r.pc + k) % 0x10000) as u16)
}

/// The little-endian word at PC through the memory map (high byte at PC + 1, wrapping).
pub open spec fn code_word(r: Registers, m: MMU) -> u16 {
    word(code_byte(r, m, 1), code_byte(r, m, 0))
}

/// `sp` plus the signed byte `n`, modulo 2^16.
pub open spec fn sp_offset(sp: u16, n: u8) -> u16 {
    if n < 128 {
        ((sp + n) % 0x10000) as u16
    } else {
        ((sp + n - 256 + 0x10000) % 0x10000) as u16
    }
}

impl CPU {
    /// LD r,n: the byte at PC (PC advancing) stored in operand `target`; 2 cycles.
    pub fn ld_r_n(&mut self, target: RegTarget) -> (r: Result<CyclesType, Error>)
        requires
            old(self).wf(),
        ensures
            r == Ok::<CyclesType, Error>(2),
            final(self).wf(),
            same_state(*old(self), *final(self)),
            final(self).registers == target_set(
                pc_plus(old(self).registers, 1),
                target,
                code_byte(old(self).registers, old(self).mmu, 0),
            ),
            target_mem(
                old(self).mmu,
                final(self).mmu,
                pc_plus(old(self).registers, 1),
                target,
                code_byte(old(self).registers, old(self).mmu, 0),
            ),
    {
        let value = match self.fetch_byte() {
            Ok(b) => b,
            Err(e) => {
                return Err(e);
            },
        };
        self.set_reg_value(target, value);
        Ok(CYCLES_2)
    }

    /// LD (HL+),A: A stored at HL, then HL incremented (wrapping); 2 cycles.
    pub fn ld_hli_a(&mut self) -> (r: Result<CyclesType, Error>)
        requires
            old(self).wf(),
        ensures
            r == Ok::<CyclesType, Error>(2),
            final(self).wf(),
            same_state(*old(self), *final(self)),
            write_rel(old(self).mmu, final(self).mmu, hl_of(old(self).registers), old(self).registers.a),
            final(self).registers == (Registers {
                h: (((hl_of(old(self).registers) + 1) % 0x10000) / 256) as u8,
                l: (((hl_of(old(self).registers) + 1) % 0x10000) % 256) as u8,
                ..old(self).registers
            }),
    {
        let hl = self.registers.get_hl();
        let value = self.registers.a;
        let _ = self.write_byte(hl, value);
        let next = hl.wrapping_add(1);
        self.registers.set_hl(next);
        proof {
            crate::bits::lemma_u16_bits(next);
        }
        Ok(CYCLES_2)
    }

    /// LD HL,SP+r8: HL set to SP plus the signed byte at PC (PC advancing); flags unchanged; 3
    /// cycles.
    pub fn ld_hl_sp_r8(&mut self) -> (r: Result<CyclesType, Error>)
        requires
            old(self).wf(),
        ensures
            r == Ok::<CyclesType, Error>(3),
            final(self).mmu == old(self).mmu,
            same_state(*old(self), *final(self)),
            word(final(self).registers.h, final(self).registers.l) == sp_offset(
                old(self).registers.sp,
                code_byte(old(self).registers, old(self).mmu, 0),
            ),
            final(self).registers == (Registers {
                h: final(self).registers.h,
                l: final(self).registers.l,
                ..pc_plus(old(self).registers, 1)
            }),
    {
        let sp = self.registers.sp;
        let n = match self.fetch_byte() {
            Ok(b) => b,
            Err(e) => {
                return Err(e);
            },
        };
        let hl = if n < 128 {
            sp.wrapping_add(n as u16)
        } else {
            sp.wrapping_sub(256 - n as u16)
        };
        self.registers.set_hl(hl);
        Ok(CYCLES_3)
    }

    /// LD (nn),SP: SP stored little-endian at the address read at PC (PC advancing by two); 4
    /// cycles. The address 0xFFFF is excluded: its high byte would fall past the address space.
    pub fn ld_nn_sp(&mut self) -> (r: Result<CyclesType, Error>)
        requires
            old(self).wf(),
            code_word(old(self).registers, old(self).mmu) < 0xFFFF,
        ensures
            r == Ok::<CyclesType, Error>(4),
            final(self).wf(),
            same_state(*old(self), *final(self)),
            final(self).registers == pc_plus(old(self).registers, 2),
            exists|mid: MMU|
                #[trigger] write_rel(
                    old(self).mmu,
                    mid,
                    code_word(old(self).registers, old(self).mmu),
                    (old(self).registers.sp % 256) as u8,
                ) && write_rel(
                    mid,
                    final(self).mmu,
                    (code_word(old(self).registers, old(self).mmu) + 1) as u16,
                    (old(self).registers.sp / 256) as u8,
                ),
    {
        let addr = match self.fetch_word() {
            Ok(w) => w,
            Err(e) => {
                return Err(e);
            },
        };
        let sp = self.registers.sp;
        proof {
            crate::bits::lemma_u16_bits(sp);
        }
        let _ = self.write_byte(addr, (sp & 0xFF) as u8);
        let ghost mid = self.mmu;
        let _ = self.write_byte(addr + 1, (sp >> 8) as u8);
        Ok(CYCLES_4)
    }

    /// LD (HL),n: the byte at PC (PC advancing) stored at HL; 3 cycles.
    pub fn ld_hl_n(&mut self) -> (r: Result<CyclesType, Error>)
        requires
            old(self).wf(),
        ensures
            r == Ok::<CyclesType, Error>(3),
            final(self).wf(),
            same_state(*old(self), *final(self)),
            final(self).registers == pc_plus(old(self).registers, 1),
            write_rel(
                old(self).mmu,
                final(self).mmu,
                hl_of(old(self).registers),
                code_byte(old(self).registers, old(self).mmu, 0),
            ),
    {
        let hl = self.registers.get_hl();
        let n = match self.fetch_byte() {
            Ok(b) => b,
            Err(e) => {
                return Err(e);
            },
        };
        match self.write_byte(hl, n) {
            Ok(_) => {},
            Err(e) => {
                return Err(e);
            },
        }
        Ok(CYCLES_3)
    }

    /// LD (HL),r: register operand `r` stored at HL ((HL) and immediates store 0); 2 cycles.
    pub fn ld_hl_r(&mut self, r: RegTarget) -> (res: Result<CyclesType, Error>)
        requires
            old(self).wf(),
        ensures
            res == Ok::<CyclesType, Error>(2),
            final(self).wf(),
            same_state(*old(self), *final(self)),
            final(self).registers == old(self).registers,
            write_rel(
                old(self).mmu,
                final(self).mmu,
                hl_of(old(self).registers),
                old(self).registers.get_reg_spec(r),
            ),
    {
        let hl = self.registers.get_hl();
        let value = self.registers.get_reg(r);
        match self.write_byte(hl, value) {
            Ok(_) => {},
            Err(e) => {
                return Err(e);
            },
        }
        Ok(CYCLES_2)
    }

    /// LD (a16),A: A stored at the address read at PC (PC advancing by two); 4 cycles.
    pub fn ld_a16_a(&mut self) -> (r: Result<CyclesType, Error>)
        requires
            old(self).wf(),
        ensures
            r == Ok::<CyclesType, Error>(4),
            final(self).wf(),
            same_state(*old(self), *final(self)),
            final(self).registers == pc_plus(old(self).registers, 2),
            write_rel(
                old(self).mmu,
                final(self).mmu,
                code_word(old(self).registers, old(self).mmu),
                old(self).registers.a,
            ),
    {
        let addr = match self.fetch_word() {
            Ok(w) => w,
            Err(e) => {
                return Err(e);
            },
        };
        let value = self.registers.a;
        match self.write_byte(addr, value) {
            Ok(_) => {},
            Err(e) => {
                return Err(e);
            },
        }
        Ok(CYCLES_4)
    }
}

} // verus!
