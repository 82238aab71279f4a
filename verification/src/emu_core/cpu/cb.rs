use vstd::prelude::*;
use crate::emu_core::cpu::cpu::{CPU, carry_of, hl_of, same_state, with_flags};
use crate::emu_core::cpu::prelude::CyclesType;
use crate::emu_core::cpu::register_utils::{FlagOperations, RegTarget};
use crate::emu_core::error::{Error, InstructionError};
use crate::emu_core::mmu::mmu::write_rel;

verus! {

/// The position of an operand in the register field order (B, C, D, E, H, L, (HL), A, then
/// the immediate).
pub open spec fn target_code(t: RegTarget) -> u8 {
    match t {
        RegTarget::B => 0,
        RegTarget::C => 1,
        RegTarget::D => 2,
        RegTarget::E => 3,
        RegTarget::H => 4,
        RegTarget::L => 5,
        RegTarget::HL => 6,
        RegTarget::A => 7,
        RegTarget::Immediate => 8,
    }
}

fn code_of(t: RegTarget) -> (r: u8)
    ensures
        r == target_code(t),
{
    match t {
        RegTarget::B => 0,
        RegTarget::C => 1,
        RegTarget::D => 2,
        RegTarget::E => 3,
        RegTarget::H => 4,
        RegTarget::L => 5,
        RegTarget::HL => 6,
        RegTarget::A => 7,
        RegTarget::Immediate => 8,
    }
}

/// `c` is `c0` after the byte at (HL) became `v` and all four flags were cleared.
pub open spec fn hl_rewritten(c0: CPU, c: CPU, v: u8) -> bool {
    &&& c.wf()
    &&& same_state(c0, c)
    &&& c.registers == with_flags(c0.registers, false, false, false, false)
    &&& write_rel(c0.mmu, c.mmu, hl_of(c0.registers), v)
}

/// Dispatches a CB-prefixed opcode: the BIT, SET, RES and rotate/shift blocks take the whole
/// opcode as a register field, which is out of range, so they end in an invalid-register
/// error carrying the opcode; opcodes below 0x10 are invalid. Nothing changes.
pub fn dispatch(cpu: &mut CPU, opcode: u8) -> (r: Result<CyclesType, Error>)
    ensures
        *final(cpu) == *old(cpu),
        opcode >= 0x10 ==> r == Err::<CyclesType, Error>(
            Error::Instruction(InstructionError::InvalidRegister(opcode)),
        ),
        opcode < 0x10 ==> r == Err::<CyclesType, Error>(
            Error::Instruction(InstructionError::InvalidOpcode(opcode)),
        ),
{
    if opcode < 0x10 {
        return Err(Error::Instruction(InstructionError::InvalidOpcode(opcode)));
    }
    let target = match RegTarget::from_bits(opcode) {
        Ok(t) => t,
        Err(e) => {
            return Err(e);
        },
    };
    if 0x40 <= opcode && opcode <= 0x7F {
        Ok(cpu.bit_b_r(0, target))
    } else if 0xC0 <= opcode {
        Ok(cpu.set_b_r(0, target))
    } else if 0x80 <= opcode && opcode <= 0xBF {
        Ok(cpu.res_b_r(0, target))
    } else {
        Ok(cpu.cb_misc(target))
    }
}

/// Tests the bit of the byte at (HL) that the operand's field position selects: Z set when it
/// is 0, N cleared, H set, C kept; 8 cycles.
pub fn bit(cpu: &mut CPU, reg: RegTarget) -> (r: CyclesType)
    requires
        old(cpu).wf(),
    ensures
        r == 8,
        final(cpu).mmu == old(cpu).mmu,
        same_state(*old(cpu), *final(cpu)),
        final(cpu).registers == with_flags(
            old(cpu).registers,
            (old(cpu).mmu.read_spec(hl_of(old(cpu).registers)) >> (target_code(reg) & 0x07))
                & 0x01 == 0,
            false,
            true,
            carry_of(old(cpu).registers),
        ),
{
    let addr = cpu.registers.get_hl();
    let value = match cpu.read_byte(addr) {
        Ok(b) => b,
        Err(_) => 0,
    };
    let code = code_of(reg);
    proof {
        crate::bits::lemma_u8_bits(code);
    }
    let b = (value >> (code & 0x07)) & 0x01;
    let c = cpu.registers.get_carry();
    cpu.registers.update_flags(b == 0, false, true, c);
    8
}

/// Sets the bit of the byte at (HL) that the operand's field position selects and clears all
/// flags; 16 cycles.
pub fn set(cpu: &mut CPU, reg: RegTarget) -> (r: CyclesType)
    requires
        old(cpu).wf(),
    ensures
        r == 16,
        hl_rewritten(
            *old(cpu),
            *final(cpu),
            old(cpu).mmu.read_spec(hl_of(old(cpu).registers)) | (1u8 << (target_code(reg) & 0x07)),
        ),
{
    let addr = cpu.registers.get_hl();
    let mut value = match cpu.read_byte(addr) {
        Ok(b) => b,
        Err(_) => 0,
    };
    let code = code_of(reg);
    let shift = code & 0x07;
    proof {
        crate::bits::lemma_u8_bits(code);
    }
    value = value | (1u8 << shift);
    let _ = cpu.write_byte(addr, value);
    cpu.registers.update_flags(false, false, false, false);
    16
}

/// Clears the bit of the byte at (HL) that the operand's field position selects and clears
/// all flags; 16 cycles.
pub fn res(cpu: &mut CPU, reg: RegTarget) -> (r: CyclesType)
    requires
        old(cpu).wf(),
    ensures
        r == 16,
        hl_rewritten(
            *old(cpu),
            *final(cpu),
            old(cpu).mmu.read_spec(hl_of(old(cpu).registers)) & !(1u8 << (target_code(reg) & 0x07)),
        ),
{
    let addr = cpu.registers.get_hl();
    let mut value = match cpu.read_byte(addr) {
        Ok(b) => b,
        Err(_) => 0,
    };
    let code = code_of(reg);
    let shift = code & 0x07;
    proof {
        crate::bits::lemma_u8_bits(code);
    }
    value = value & !(1u8 << shift);
    let _ = cpu.write_byte(addr, value);
    cpu.registers.update_flags(false, false, false, false);
    16
}

/// Rotates the byte at (HL) left (bit 7 into bit 0 and the carry), Z from the result, N and H
/// cleared; 16 cycles.
pub fn cb_misc(cpu: &mut CPU, reg: RegTarget) -> (r: CyclesType)
    requires
        old(cpu).wf(),
    ensures
        r == 16,
        ({
            let v = old(cpu).mmu.read_spec(hl_of(old(cpu).registers));
            let res = (v << 1u8) | (if v & 0x80 != 0 {
                1u8
            } else {
                0u8
            });
            &&& final(cpu).wf()
            &&& same_state(*old(cpu), *final(cpu))
            &&& final(cpu).registers == with_flags(old(cpu).registers, res == 0, false, false, v & 0x80 != 0)
            &&& write_rel(old(cpu).mmu, final(cpu).mmu, hl_of(old(cpu).registers), res)
        }),
{
    let addr = cpu.registers.get_hl();
    let mut value = match cpu.read_byte(addr) {
        Ok(b) => b,
        Err(_) => 0,
    };
    let carry = (value & 0x80) != 0;
    value = (value << 1) | (if carry {
        1
    } else {
        0
    });
    let _ = cpu.write_byte(addr, value);
    cpu.registers.update_flags(value == 0, false, false, carry);
    16
}

} // verus!
