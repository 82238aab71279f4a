use vstd::prelude::*;
use crate::emu_core::cpu::cpu::{
    CPU, carry_of, same_state, target_mem, target_set, target_value, with_flags,
};
use crate::emu_core::cpu::prelude::CyclesType;
use crate::emu_core::cpu::register_utils::{FlagOperations, RegTarget};
use crate::emu_core::cpu::registers::Registers;
use crate::emu_core::error::Error;

verus! {

/// RL: shift left through the carry.
pub open spec fn rl_result(v: u8, c: bool) -> u8 {
    (v << 1u8) | (if c {
        1u8
    } else {
        0u8
    })
}

/// RR: shift right through the carry.
pub open spec fn rr_result(v: u8, c: bool) -> u8 {
    (v >> 1u8) | (if c {
        0x80u8
    } else {
        0u8
    })
}

/// SRA: shift right keeping bit 7.
pub open spec fn sra_result(v: u8) -> u8 {
    (v >> 1u8) | (v & 0x80)
}

/// SWAP: exchange the nibbles.
pub open spec fn swap_result(v: u8) -> u8 {
    (v >> 4u8) | (v << 4u8)
}

/// `c` is `c0` after a shift or rotate stored `res` in operand `t` and set Z from `res`, N and
/// H clear, C to `carry`.
pub open spec fn shift_done(c0: CPU, c: CPU, t: RegTarget, res: u8, carry: bool) -> bool {
    &&& c.wf()
    &&& same_state(c0, c)
    &&& c.registers == with_flags(target_set(c0.registers, t, res), res == 0, false, false, carry)
    &&& target_mem(c0.mmu, c.mmu, c0.registers, t, res)
}

/// `c` is `c0` after only the register operation `r` and nothing else.
pub open spec fn regs_only(c0: CPU, c: CPU, r: Registers) -> bool {
    &&& c.registers == r
    &&& c.mmu == c0.mmu
    &&& same_state(c0, c)
}

/// Cycles of a CB operation: `slow` on (HL), 2 otherwise.
pub open spec fn cb_cycles(t: RegTarget, slow: CyclesType) -> CyclesType {
    if t is HL {
        slow
    } else {
        2
    }
}

fn shift_store(cpu: &mut CPU, target: RegTarget, result: u8, carry: bool)
    requires
        old(cpu).wf(),
    ensures
        shift_done(*old(cpu), *final(cpu), target, result, carry),
{
    cpu.set_reg_value(target, result);
    cpu.registers.update_flags(result == 0, false, false, carry);
}

/// Dispatches a bit-group opcode: every opcode takes 4 cycles and changes nothing.
pub fn dispatch(cpu: &mut CPU, opcode: u8) -> (r: Result<CyclesType, Error>)
    ensures
        *final(cpu) == *old(cpu),
        r == Ok::<CyclesType, Error>(4),
{
    Ok(4)
}

/// RL B: B shifted left through the carry.
pub fn op_cb_10(cpu: &mut CPU) -> (r: CyclesType)
    ensures
        r == 2,
        regs_only(
            *old(cpu),
            *final(cpu),
            with_flags(
                Registers { b: rl_result(old(cpu).registers.b, carry_of(old(cpu).registers)), ..old(cpu).registers },
                rl_result(old(cpu).registers.b, carry_of(old(cpu).registers)) == 0,
                false,
                false,
                old(cpu).registers.b & 0x80 != 0,
            ),
        ),
{
    let b = cpu.registers.b;
    let carry_in: u8 = if cpu.registers.get_carry() {
        1
    } else {
        0
    };
    let result = (b << 1) | carry_in;
    cpu.registers.b = result;
    cpu.registers.update_flags(result == 0, false, false, (b & 0x80) != 0);
    2
}

/// RL C: C shifted left through the carry.
pub fn op_cb_11(cpu: &mut CPU) -> (r: CyclesType)
    ensures
        r == 2,
        regs_only(
            *old(cpu),
            *final(cpu),
            with_flags(
                Registers { c: rl_result(old(cpu).registers.c, carry_of(old(cpu).registers)), ..old(cpu).registers },
                rl_result(old(cpu).registers.c, carry_of(old(cpu).registers)) == 0,
                false,
                false,
                old(cpu).registers.c & 0x80 != 0,
            ),
        ),
{
    let c = cpu.registers.c;
    let carry_in: u8 = if cpu.registers.get_carry() {
        1
    } else {
        0
    };
    let result = (c << 1) | carry_in;
    cpu.registers.c = result;
    cpu.registers.update_flags(result == 0, false, false, (c & 0x80) != 0);
    2
}

/// RR D: D shifted right through the carry.
pub fn op_cb_1_a(cpu: &mut CPU) -> (r: CyclesType)
    ensures
        r == 2,
        regs_only(
            *old(cpu),
            *final(cpu),
            with_flags(
                Registers { d: rr_result(old(cpu).registers.d, carry_of(old(cpu).registers)), ..old(cpu).registers },
                rr_result(old(cpu).registers.d, carry_of(old(cpu).registers)) == 0,
                false,
                false,
                old(cpu).registers.d & 0x01 != 0,
            ),
        ),
{
    let d = cpu.registers.d;
    let carry_in: u8 = if cpu.registers.get_carry() {
        0x80
    } else {
        0
    };
    let result = (d >> 1) | carry_in;
    cpu.registers.d = result;
    cpu.registers.update_flags(result == 0, false, false, (d & 0x01) != 0);
    2
}

/// SLA E: E shifted left, bit 7 to the carry.
pub fn op_cb_23(cpu: &mut CPU) -> (r: CyclesType)
    ensures
        r == 2,
        regs_only(
            *old(cpu),
            *final(cpu),
            with_flags(
                Registers { e: old(cpu).registers.e << 1u8, ..old(cpu).registers },
                old(cpu).registers.e << 1u8 == 0,
                false,
                false,
                old(cpu).registers.e & 0x80 != 0,
            ),
        ),
{
    let e = cpu.registers.e;
    let result = e << 1;
    cpu.registers.e = result;
    cpu.registers.update_flags(result == 0, false, false, (e & 0x80) != 0);
    2
}

/// SRA H: H shifted right keeping bit 7, bit 0 to the carry.
pub fn op_cb_2_c(cpu: &mut CPU) -> (r: CyclesType)
    ensures
        r == 2,
        regs_only(
            *old(cpu),
            *final(cpu),
            with_flags(
                Registers { h: sra_result(old(cpu).registers.h), ..old(cpu).registers },
                sra_result(old(cpu).registers.h) == 0,
                false,
                false,
                old(cpu).registers.h & 0x01 != 0,
            ),
        ),
{
    let h = cpu.registers.h;
    let result = (h >> 1) | (h & 0x80);
    cpu.registers.h = result;
    cpu.registers.update_flags(result == 0, false, false, (h & 0x01) != 0);
    2
}

/// SWAP L: the nibbles of L exchanged, carry cleared.
pub fn op_cb_35(cpu: &mut CPU) -> (r: CyclesType)
    ensures
        r == 2,
        regs_only(
            *old(cpu),
            *final(cpu),
            with_flags(
                Registers { l: swap_result(old(cpu).registers.l), ..old(cpu).registers },
                swap_result(old(cpu).registers.l) == 0,
                false,
                false,
                false,
            ),
        ),
{
    let l = cpu.registers.l;
    let result = (l >> 4) | (l << 4);
    cpu.registers.l = result;
    cpu.registers.update_flags(result == 0, false, false, false);
    2
}

/// SRL A: A shifted right, bit 0 to the carry.
pub fn op_cb_3_f(cpu: &mut CPU) -> (r: CyclesType)
    ensures
        r == 2,
        regs_only(
            *old(cpu),
            *final(cpu),
            with_flags(
                Registers { a: old(cpu).registers.a >> 1u8, ..old(cpu).registers },
                old(cpu).registers.a >> 1u8 == 0,
                false,
                false,
                old(cpu).registers.a & 0x01 != 0,
            ),
        ),
{
    let a = cpu.registers.a;
    let result = a >> 1;
    cpu.registers.a = result;
    cpu.registers.update_flags(result == 0, false, false, (a & 0x01) != 0);
    2
}

/// BIT b,r: Z set when bit `index` of the operand is 0, N cleared, H set, C kept; 3 cycles on
/// (HL), 2 otherwise.
pub fn bit(cpu: &mut CPU, index: u8, target: RegTarget) -> (r: CyclesType)
    requires
        old(cpu).wf(),
        index < 8,
    ensures
        r == cb_cycles(target, 3),
        regs_only(
            *old(cpu),
            *final(cpu),
            with_flags(
                old(cpu).registers,
                target_value(old(cpu).registers, old(cpu).mmu, target) & (1u8 << index) == 0,
                false,
                true,
                carry_of(old(cpu).registers),
            ),
        ),
{
    let value = cpu.target_read(target);
    let z = (value & (1u8 << index)) == 0;
    let c = cpu.registers.get_carry();
    cpu.registers.update_flags(z, false, true, c);
    if target == RegTarget::HL {
        3
    } else {
        2
    }
}

/// SET b,r: bit `bit` of the operand set; flags unchanged; 4 cycles on (HL), 2 otherwise.
pub fn set(cpu: &mut CPU, bit: u8, target: RegTarget) -> (r: CyclesType)
    requires
        old(cpu).wf(),
        bit < 8,
    ensures
        r == cb_cycles(target, 4),
        final(cpu).wf(),
        same_state(*old(cpu), *final(cpu)),
        final(cpu).registers == target_set(
            old(cpu).registers,
            target,
            target_value(old(cpu).registers, old(cpu).mmu, target) | (1u8 << bit),
        ),
        target_mem(
            old(cpu).mmu,
            final(cpu).mmu,
            old(cpu).registers,
            target,
            target_value(old(cpu).registers, old(cpu).mmu, target) | (1u8 << bit),
        ),
{
    let value = cpu.target_read(target);
    cpu.set_reg_value(target, value | (1u8 << bit));
    if target == RegTarget::HL {
        4
    } else {
        2
    }
}

/// RL r: the operand shifted left through the carry; 4 cycles on (HL), 2 otherwise.
pub fn rl(cpu: &mut CPU, target: RegTarget) -> (r: CyclesType)
    requires
        old(cpu).wf(),
    ensures
        r == cb_cycles(target, 4),
        shift_done(
            *old(cpu),
            *final(cpu),
            target,
            rl_result(target_value(old(cpu).registers, old(cpu).mmu, target), carry_of(old(cpu).registers)),
            target_value(old(cpu).registers, old(cpu).mmu, target) & 0x80 != 0,
        ),
{
    let val = cpu.target_read(target);
    let carry_in: u8 = if cpu.registers.get_carry() {
        1
    } else {
        0
    };
    let result = (val << 1) | carry_in;
    shift_store(cpu, target, result, (val & 0x80) != 0);
    if target == RegTarget::HL {
        4
    } else {
        2
    }
}

/// RR r: the operand shifted right through the carry; 4 cycles on (HL), 2 otherwise.
pub fn rr(cpu: &mut CPU, target: RegTarget) -> (r: CyclesType)
    requires
        old(cpu).wf(),
    ensures
        r == cb_cycles(target, 4),
        shift_done(
            *old(cpu),
            *final(cpu),
            target,
            rr_result(target_value(old(cpu).registers, old(cpu).mmu, target), carry_of(old(cpu).registers)),
            target_value(old(cpu).registers, old(cpu).mmu, target) & 0x01 != 0,
        ),
{
    let val = cpu.target_read(target);
    let carry_in: u8 = if cpu.registers.get_carry() {
        0x80
    } else {
        0
    };
    let result = (val >> 1) | carry_in;
    shift_store(cpu, target, result, (val & 0x01) != 0);
    if target == RegTarget::HL {
        4
    } else {
        2
    }
}

/// SLA r: the operand shifted left, bit 7 to the carry; 4 cycles on (HL), 2 otherwise.
pub fn sla(cpu: &mut CPU, target: RegTarget) -> (r: CyclesType)
    requires
        old(cpu).wf(),
    ensures
        r == cb_cycles(target, 4),
        shift_done(
            *old(cpu),
            *final(cpu),
            target,
            target_value(old(cpu).registers, old(cpu).mmu, target) << 1u8,
            target_value(old(cpu).registers, old(cpu).mmu, target) & 0x80 != 0,
        ),
{
    let val = cpu.target_read(target);
    let result = val << 1;
    shift_store(cpu, target, result, (val & 0x80) != 0);
    if target == RegTarget::HL {
        4
    } else {
        2
    }
}

/// SRA r: the operand shifted right keeping bit 7, bit 0 to the carry; 4 cycles on (HL), 2
/// otherwise.
pub fn sra(cpu: &mut CPU, target: RegTarget) -> (r: CyclesType)
    requires
        old(cpu).wf(),
    ensures
        r == cb_cycles(target, 4),
        shift_done(
            *old(cpu),
            *final(cpu),
            target,
            sra_result(target_value(old(cpu).registers, old(cpu).mmu, target)),
            target_value(old(cpu).registers, old(cpu).mmu, target) & 0x01 != 0,
        ),
{
    let val = cpu.target_read(target);
    let result = (val >> 1) | (val & 0x80);
    shift_store(cpu, target, result, (val & 0x01) != 0);
    if target == RegTarget::HL {
        4
    } else {
        2
    }
}

/// SRL r: the operand shifted right, bit 0 to the carry; 4 cycles on (HL), 2 otherwise.
pub fn srl(cpu: &mut CPU, target: RegTarget) -> (r: CyclesType)
    requires
        old(cpu).wf(),
    ensures
        r == cb_cycles(target, 4),
        shift_done(
            *old(cpu),
            *final(cpu),
            target,
            target_value(old(cpu).registers, old(cpu).mmu, target) >> 1u8,
            target_value(old(cpu).registers, old(cpu).mmu, target) & 0x01 != 0,
        ),
{
    let val = cpu.target_read(target);
    let result = val >> 1;
    shift_store(cpu, target, result, (val & 0x01) != 0);
    if target == RegTarget::HL {
        4
    } else {
        2
    }
}

/// RR undoes RL: rotating an operand left through the carry, then right through the carry
/// that came out, gives back the operand, and the carry that comes out is the first one.
pub proof fn law_rr_undoes_rl(v: u8, c: bool)
    by (bit_vector)
    ensures
        rr_result(rl_result(v, c), v & 0x80 != 0) == v,
        (rl_result(v, c) & 0x01 != 0) == c,
{
}

/// SWAP twice gives back the operand.
pub proof fn law_swap_twice(v: u8)
    by (bit_vector)
    ensures
        swap_result(swap_result(v)) == v,
{
}

} // verus!
