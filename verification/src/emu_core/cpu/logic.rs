use vstd::prelude::*;
use crate::emu_core::cpu::arithmetic::{add8, alu_regs, regs_now, sub8};
use crate::emu_core::cpu::cpu::{CPU, carry_of, target_value, with_flags};
use crate::emu_core::cpu::cycles::{CYCLES_1, CYCLES_2};
use crate::emu_core::cpu::decode_and_execute::alu_exec;
use crate::emu_core::cpu::prelude::CyclesType;
use crate::emu_core::cpu::register_utils::{FlagOperations, RegTarget};
use crate::emu_core::cpu::registers::Registers;
use crate::emu_core::error::{Error, InstructionError};

verus! {

/// The registers after PC moved past an immediate byte (wrapping).
pub open spec fn past_immediate(r: Registers) -> Registers {
    Registers { pc: ((r.pc + 1) % 0x10000) as u16, ..r }
}

/// The outcome of an ALU operation of `kind` on a register-or-(HL) operand: an immediate
/// operand is an invalid register (8) and changes nothing; otherwise 2 cycles on (HL), 1 on a
/// register.
pub open spec fn alu_on_target(c0: CPU, c: CPU, kind: u8, t: RegTarget, r: Result<CyclesType, Error>) -> bool {
    if t is Immediate {
        &&& r == Err::<CyclesType, Error>(Error::Instruction(InstructionError::InvalidRegister(8)))
        &&& c == c0
    } else {
        &&& r == Ok::<CyclesType, Error>(if t is HL { 2 } else { 1 })
        &&& regs_now(c0, c, alu_regs(c0.registers, kind, target_value(c0.registers, c0.mmu, t)))
    }
}

impl CPU {
    /// OR A,n: the byte at PC (PC advancing) ORed into A; Z from A, N, H and C cleared; 2
    /// cycles.
    pub fn or_a_n(&mut self) -> (r: Result<CyclesType, Error>)
        requires
            old(self).wf(),
        ensures
            r == Ok::<CyclesType, Error>(2),
            regs_now(
                *old(self),
                *final(self),
                alu_regs(past_immediate(old(self).registers), 6, old(self).mmu.read_spec(old(self).registers.pc)),
            ),
    {
        let value = match self.fetch_byte() {
            Ok(b) => b,
            Err(e) => {
                return Err(e);
            },
        };
        self.registers.a = self.registers.a | value;
        self.update_logic_flags(self.registers.a, false);
        Ok(CYCLES_2)
    }

    /// XOR A,r: the operand XORed into A; Z from A, N, H and C cleared; 2 cycles on (HL), 1 on
    /// a register; an immediate operand is an invalid register.
    pub fn xor_a_r(&mut self, reg: RegTarget) -> (r: Result<CyclesType, Error>)
        requires
            old(self).wf(),
        ensures
            alu_on_target(*old(self), *final(self), 5, reg, r),
    {
        if reg == RegTarget::Immediate {
            return Err(Error::Instruction(InstructionError::InvalidRegister(8)));
        }
        let value = self.target_read(reg);
        self.registers.a = self.registers.a ^ value;
        self.update_logic_flags(self.registers.a, false);
        Ok(if reg == RegTarget::HL {
            CYCLES_2
        } else {
            CYCLES_1
        })
    }

    /// XOR A,n: the byte at PC (PC advancing) XORed into A; Z from A, N, H and C cleared; 2
    /// cycles.
    pub fn xor_a_n(&mut self) -> (r: Result<CyclesType, Error>)
        requires
            old(self).wf(),
        ensures
            r == Ok::<CyclesType, Error>(2),
            regs_now(
                *old(self),
                *final(self),
                alu_regs(past_immediate(old(self).registers), 5, old(self).mmu.read_spec(old(self).registers.pc)),
            ),
    {
        let value = match self.fetch_byte() {
            Ok(b) => b,
            Err(e) => {
                return Err(e);
            },
        };
        self.registers.a = self.registers.a ^ value;
        self.update_logic_flags(self.registers.a, false);
        Ok(CYCLES_2)
    }

    /// CP A,r: A compared with the operand (flags as for SUB, A kept); 2 cycles on (HL), 1 on a
    /// register; an immediate operand is an invalid register.
    pub fn cp_a_r(&mut self, reg: RegTarget) -> (r: Result<CyclesType, Error>)
        requires
            old(self).wf(),
        ensures
            alu_on_target(*old(self), *final(self), 7, reg, r),
    {
        if reg == RegTarget::Immediate {
            return Err(Error::Instruction(InstructionError::InvalidRegister(8)));
        }
        let value = self.target_read(reg);
        self.cp_a(value);
        Ok(if reg == RegTarget::HL {
            CYCLES_2
        } else {
            CYCLES_1
        })
    }

    /// CP A,n: A compared with the byte at PC (PC advancing); 2 cycles.
    pub fn cp_a_n(&mut self) -> (r: Result<CyclesType, Error>)
        requires
            old(self).wf(),
        ensures
            r == Ok::<CyclesType, Error>(2),
            regs_now(
                *old(self),
                *final(self),
                alu_regs(past_immediate(old(self).registers), 7, old(self).mmu.read_spec(old(self).registers.pc)),
            ),
    {
        let value = match self.fetch_byte() {
            Ok(b) => b,
            Err(e) => {
                return Err(e);
            },
        };
        self.cp_a(value);
        Ok(CYCLES_2)
    }

    fn cp_a(&mut self, value: u8)
        ensures
            regs_now(*old(self), *final(self), alu_regs(old(self).registers, 7, value)),
    {
        alu_exec(&mut self.registers, 7, value);
    }

    fn update_logic_flags(&mut self, result: u8, half_carry: bool)
        ensures
            regs_now(*old(self), *final(self), with_flags(old(self).registers, result == 0, false, half_carry, false)),
    {
        self.registers.update_flags(result == 0, false, half_carry, false);
    }
}

/// ADD A,B with Z, N, H and C; 1 cycle.
pub fn add_a_b(cpu: &mut CPU) -> (r: CyclesType)
    ensures
        r == 1,
        regs_now(*old(cpu), *final(cpu), alu_regs(old(cpu).registers, 0, old(cpu).registers.b)),
{
    let b = cpu.registers.b;
    alu_exec(&mut cpu.registers, 0, b);
    1
}

/// SUB A,C with Z, N, H and C; 1 cycle.
pub fn sub_a_c(cpu: &mut CPU) -> (r: CyclesType)
    ensures
        r == 1,
        regs_now(*old(cpu), *final(cpu), alu_regs(old(cpu).registers, 2, old(cpu).registers.c)),
{
    let c = cpu.registers.c;
    alu_exec(&mut cpu.registers, 2, c);
    1
}

/// AND A,D with Z, N, H and C; 1 cycle.
pub fn and_a_d(cpu: &mut CPU) -> (r: CyclesType)
    ensures
        r == 1,
        regs_now(*old(cpu), *final(cpu), alu_regs(old(cpu).registers, 4, old(cpu).registers.d)),
{
    let d = cpu.registers.d;
    alu_exec(&mut cpu.registers, 4, d);
    1
}

/// OR A,E with Z, N, H and C; 1 cycle.
pub fn or_a_e(cpu: &mut CPU) -> (r: CyclesType)
    ensures
        r == 1,
        regs_now(*old(cpu), *final(cpu), alu_regs(old(cpu).registers, 6, old(cpu).registers.e)),
{
    let e = cpu.registers.e;
    alu_exec(&mut cpu.registers, 6, e);
    1
}

/// XOR A,H with Z, N, H and C; 1 cycle.
pub fn xor_a_h(cpu: &mut CPU) -> (r: CyclesType)
    ensures
        r == 1,
        regs_now(*old(cpu), *final(cpu), alu_regs(old(cpu).registers, 5, old(cpu).registers.h)),
{
    let h = cpu.registers.h;
    alu_exec(&mut cpu.registers, 5, h);
    1
}

/// CP A,L with Z, N, H and C, A kept; 1 cycle.
pub fn cp_a_l(cpu: &mut CPU) -> (r: CyclesType)
    ensures
        r == 1,
        regs_now(*old(cpu), *final(cpu), alu_regs(old(cpu).registers, 7, old(cpu).registers.l)),
{
    let l = cpu.registers.l;
    alu_exec(&mut cpu.registers, 7, l);
    1
}

/// INC B: B plus one (wrapping); Z from B, N cleared, H from the carry out of bit 3, C kept;
/// 1 cycle.
pub fn inc_b(cpu: &mut CPU) -> (r: CyclesType)
    ensures
        r == 1,
        regs_now(
            *old(cpu),
            *final(cpu),
            with_flags(
                Registers { b: add8(old(cpu).registers.b, 1, 0), ..old(cpu).registers },
                add8(old(cpu).registers.b, 1, 0) == 0,
                false,
                old(cpu).registers.b % 16 == 15,
                carry_of(old(cpu).registers),
            ),
        ),
{
    let b = cpu.registers.b;
    let result = b.wrapping_add(1);
    proof {
        crate::bits::lemma_low_nibble(b);
    }
    let h = (b & 0xF) + 1 > 0xF;
    let c = cpu.registers.get_carry();
    cpu.registers.b = result;
    cpu.registers.update_flags(result == 0, false, h, c);
    1
}

/// DEC C: C minus one (wrapping); Z from C, N set, H from the borrow out of bit 4, C kept; 1
/// cycle.
pub fn dec_c(cpu: &mut CPU) -> (r: CyclesType)
    ensures
        r == 1,
        regs_now(
            *old(cpu),
            *final(cpu),
            with_flags(
                Registers { c: sub8(old(cpu).registers.c, 1, 0), ..old(cpu).registers },
                sub8(old(cpu).registers.c, 1, 0) == 0,
                true,
                old(cpu).registers.c % 16 == 0,
                carry_of(old(cpu).registers),
            ),
        ),
{
    let c = cpu.registers.c;
    let result = c.wrapping_sub(1);
    proof {
        crate::bits::lemma_low_nibble(c);
    }
    let h = (c & 0xF) == 0;
    let carry = cpu.registers.get_carry();
    cpu.registers.c = result;
    cpu.registers.update_flags(result == 0, true, h, carry);
    1
}

/// AND A,r as listed in the logic group: 4 cycles, nothing changes.
pub fn and_a_r(cpu: &mut CPU, src: RegTarget) -> (r: CyclesType)
    ensures
        r == 4,
        *final(cpu) == *old(cpu),
{
    4
}

/// OR A,r as listed in the logic group: 4 cycles, nothing changes.
pub fn or_a_r(cpu: &mut CPU, src: RegTarget) -> (r: CyclesType)
    ensures
        r == 4,
        *final(cpu) == *old(cpu),
{
    4
}

/// XOR A,r as listed in the logic group: 4 cycles, nothing changes.
pub fn xor_a_r(cpu: &mut CPU, src: RegTarget) -> (r: CyclesType)
    ensures
        r == 4,
        *final(cpu) == *old(cpu),
{
    4
}

/// CP A,r as listed in the logic group: 4 cycles, nothing changes.
pub fn cp_a_r(cpu: &mut CPU, src: RegTarget) -> (r: CyclesType)
    ensures
        r == 4,
        *final(cpu) == *old(cpu),
{
    4
}

/// CPL as listed in the logic group: 4 cycles, nothing changes.
pub fn cpl(cpu: &mut CPU) -> (r: CyclesType)
    ensures
        r == 4,
        *final(cpu) == *old(cpu),
{
    4
}

/// SCF as listed in the logic group: 4 cycles, nothing changes.
pub fn scf(cpu: &mut CPU) -> (r: CyclesType)
    ensures
        r == 4,
        *final(cpu) == *old(cpu),
{
    4
}

/// CCF as listed in the logic group: 4 cycles, nothing changes.
pub fn ccf(cpu: &mut CPU) -> (r: CyclesType)
    ensures
        r == 4,
        *final(cpu) == *old(cpu),
{
    4
}

/// DAA as listed in the logic group: 4 cycles, nothing changes.
pub fn daa(cpu: &mut CPU) -> (r: CyclesType)
    ensures
        r == 4,
        *final(cpu) == *old(cpu),
{
    4
}

/// Dispatches a logic-group opcode: every opcode takes 4 cycles and changes nothing.
pub fn dispatch(cpu: &mut CPU, opcode: u8) -> (r: Result<CyclesType, Error>)
    ensures
        r == Ok::<CyclesType, Error>(4),
        *final(cpu) == *old(cpu),
{
    Ok(4)
}

} // verus!
