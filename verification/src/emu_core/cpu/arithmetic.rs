use vstd::prelude::*;
use crate::emu_core::cpu::cpu::{
    CPU, carry_of, same_state, target_mem, target_set, target_value, with_flags,
};
use crate::emu_core::cpu::decode_and_execute::{alu_exec, alu_flags, alu_result};
use crate::emu_core::cpu::flags::{Flags, with_bits};
use crate::emu_core::cpu::prelude::CyclesType;
use crate::emu_core::cpu::register_utils::{FlagOperations, RegTarget, target_of_bits};
use crate::emu_core::cpu::registers::Registers;
use crate::emu_core::cpu::instruction::{AluRegOp, SimpleAluInstruction};
use crate::emu_core::error::{Error, InstructionError};
use crate::emu_core::mmu::mmu::MMU;

verus! {

/// The carry flag as a number.
pub open spec fn carry_in(r: Registers) -> int {
    if carry_of(r) {
        1
    } else {
        0
    }
}

/// `(a + v + c) mod 256`.
pub open spec fn add8(a: u8, v: u8, c: int) -> u8 {
    ((a + v + c) % 256) as u8
}

/// `(a - v - c) mod 256`.
pub open spec fn sub8(a: u8, v: u8, c: int) -> u8 {
    ((a - v - c + 512) % 256) as u8
}

/// The registers after an ALU operation of `kind` (0 ADD, 2 SUB, 4 AND, 5 XOR, 6 OR, 7 CP)
/// with operand `v`; CP keeps A.
pub open spec fn alu_regs(r: Registers, kind: u8, v: u8) -> Registers {
    Registers {
        a: if kind == 7 {
            r.a
        } else {
            alu_result(kind, r.a, v)
        },
        flags: Flags { value: alu_flags(kind, r.a, v, r.flags@) },
        ..r
    }
}

/// The registers after ADC A,v: A + v + carry; H from the carry out of bit 3 (or, with
/// `xor_half`, from bit 4 of `a ^ v ^ result`), C from the carry out of bit 7.
pub open spec fn adc_regs(r: Registers, v: u8, xor_half: bool) -> Registers {
    let res = add8(r.a, v, carry_in(r));
    let h = if xor_half {
        (r.a ^ v ^ res) & 0x10 != 0
    } else {
        r.a % 16 + v % 16 + carry_in(r) > 15
    };
    with_flags(Registers { a: res, ..r }, res == 0, false, h, r.a + v + carry_in(r) > 255)
}

/// The registers after SBC A,v: A - v - carry; H from the borrow out of bit 4 (or, with
/// `xor_half`, from bit 4 of `a ^ v ^ result`), C from the borrow.
pub open spec fn sbc_regs(r: Registers, v: u8, xor_half: bool) -> Registers {
    let res = sub8(r.a, v, carry_in(r));
    let h = if xor_half {
        (r.a ^ v ^ res) & 0x10 != 0
    } else {
        r.a % 16 < v % 16 + carry_in(r)
    };
    with_flags(Registers { a: res, ..r }, res == 0, true, h, r.a < v + carry_in(r))
}

/// Whether DAA adds or subtracts 0x60 (and sets C).
pub open spec fn daa_high(r: Registers) -> bool {
    if r.flags@ & 0x40 == 0 {
        carry_of(r) || r.a > 0x99
    } else {
        carry_of(r)
    }
}

/// Whether DAA adds or subtracts 0x06.
pub open spec fn daa_low(r: Registers) -> bool {
    if r.flags@ & 0x40 == 0 {
        r.flags@ & 0x20 != 0 || r.a % 16 > 9
    } else {
        r.flags@ & 0x20 != 0
    }
}

/// The DAA correction.
pub open spec fn daa_adjust(r: Registers) -> u8 {
    (if daa_high(r) {
        0x60u8
    } else {
        0u8
    }) | (if daa_low(r) {
        0x06u8
    } else {
        0u8
    })
}

/// The registers after DAA: A corrected to BCD after an addition (N clear) or a subtraction
/// (N set); Z from A, H cleared, C set when 0x60 was added (or kept after a subtraction), N
/// kept.
pub open spec fn daa_regs(r: Registers) -> Registers {
    let a = if r.flags@ & 0x40 == 0 {
        add8(r.a, daa_adjust(r), 0)
    } else {
        sub8(r.a, daa_adjust(r), 0)
    };
    let c = if r.flags@ & 0x40 == 0 {
        daa_high(r)
    } else {
        carry_of(r)
    };
    with_flags(Registers { a, ..r }, a == 0, r.flags@ & 0x40 != 0, false, c)
}

/// Whether the arithmetic dispatcher reads an immediate byte for `op`.
pub open spec fn takes_immediate(op: u8) -> bool {
    op == 0xC6 || op == 0xCE || op == 0xD6 || op == 0xDE || op == 0xE6
}

/// What the arithmetic dispatcher does with `op`: the registers afterwards and its result.
/// Register operands follow the field order B, C, D, E, H, L, (HL), A; the immediate of the
/// 0xC6..0xE6 forms is the byte after the opcode in the flat memory array, and PC moves past
/// it. Opcodes outside the arithmetic groups are invalid.
pub open spec fn arith_step(r: Registers, m: MMU, op: u8) -> (Registers, Result<CyclesType, Error>) {
    let src = op % 8;
    let v = target_value(r, m, target_of_bits(src));
    let slow: CyclesType = if src == 6 {
        8
    } else {
        4
    };
    let f = r.flags@;
    let r1 = Registers { pc: (r.pc + 1) as u16, ..r };
    let n = m.memory@[r.pc + 1];
    if 0x80 <= op <= 0x87 {
        (alu_regs(r, 0, v), Ok(4))
    } else if 0x90 <= op <= 0x97 {
        (alu_regs(r, 2, v), Ok(4))
    } else if 0xA0 <= op <= 0xA7 {
        (alu_regs(r, 4, v), Ok(4))
    } else if 0xB0 <= op <= 0xB7 {
        (alu_regs(r, 6, v), Ok(4))
    } else if 0xA8 <= op <= 0xAF {
        (alu_regs(r, 5, v), Ok(4))
    } else if 0xB8 <= op <= 0xBF {
        (alu_regs(r, 7, v), Ok(4))
    } else if 0x88 <= op <= 0x8F {
        (adc_regs(r, v, false), Ok(slow))
    } else if 0x98 <= op <= 0x9F {
        (sbc_regs(r, v, true), Ok(slow))
    } else if op == 0x27 {
        (daa_regs(r), Ok(4))
    } else if op == 0x2F {
        (
            Registers {
                a: !r.a,
                flags: Flags { value: with_bits(with_bits(f, 0x40, true), 0x20, true) },
                ..r
            },
            Ok(4),
        )
    } else if op == 0x37 {
        (
            Registers {
                flags: Flags { value: with_bits(with_bits(with_bits(f, 0x10, true), 0x40, false), 0x20, false) },
                ..r
            },
            Ok(4),
        )
    } else if op == 0x3F {
        (
            Registers {
                flags: Flags {
                    value: with_bits(with_bits(with_bits(f, 0x10, !carry_of(r)), 0x40, false), 0x20, false),
                },
                ..r
            },
            Ok(4),
        )
    } else if op == 0xC6 {
        (alu_regs(r1, 0, n), Ok(8))
    } else if op == 0xCE {
        (adc_regs(r1, n, true), Ok(8))
    } else if op == 0xD6 {
        (alu_regs(r1, 2, n), Ok(8))
    } else if op == 0xDE {
        (sbc_regs(r1, n, false), Ok(8))
    } else if op == 0xE6 {
        (alu_regs(r1, 4, n), Ok(8))
    } else {
        (r, Err(Error::Instruction(InstructionError::InvalidOpcode(op))))
    }
}

/// `c` is `c0` with only the registers changed, to `r`.
pub open spec fn regs_now(c0: CPU, c: CPU, r: Registers) -> bool {
    &&& c.registers == r
    &&& c.mmu == c0.mmu
    &&& same_state(c0, c)
}

fn src_operand(cpu: &CPU, src: u8) -> (r: u8)
    requires
        cpu.wf(),
        src < 8,
    ensures
        r == target_value(cpu.registers, cpu.mmu, target_of_bits(src)),
{
    let t = match src {
        0 => RegTarget::B,
        1 => RegTarget::C,
        2 => RegTarget::D,
        3 => RegTarget::E,
        4 => RegTarget::H,
        5 => RegTarget::L,
        6 => RegTarget::HL,
        _ => RegTarget::A,
    };
    cpu.target_read(t)
}

pub(crate) fn adc_exec(registers: &mut Registers, value: u8, xor_half: bool)
    ensures
        *final(registers) == adc_regs(*old(registers), value, xor_half),
{
    let carry: u8 = if registers.get_carry() {
        1
    } else {
        0
    };
    let a = registers.a;
    let result = a.wrapping_add(value).wrapping_add(carry);
    proof {
        crate::bits::lemma_low_nibble(a);
        crate::bits::lemma_low_nibble(value);
    }
    let h = if xor_half {
        ((a ^ value ^ result) & 0x10) != 0
    } else {
        ((a & 0x0F) + (value & 0x0F) + carry) > 0x0F
    };
    let c = (a as u16 + value as u16 + carry as u16) > 0xFF;
    registers.a = result;
    registers.update_flags(result == 0, false, h, c);
}

pub(crate) fn sbc_exec(registers: &mut Registers, value: u8, xor_half: bool)
    ensures
        *final(registers) == sbc_regs(*old(registers), value, xor_half),
{
    let carry: u8 = if registers.get_carry() {
        1
    } else {
        0
    };
    let a = registers.a;
    let result = a.wrapping_sub(value).wrapping_sub(carry);
    proof {
        crate::bits::lemma_low_nibble(a);
        crate::bits::lemma_low_nibble(value);
    }
    let h = if xor_half {
        ((a ^ value ^ result) & 0x10) != 0
    } else {
        (a & 0x0F) < ((value & 0x0F) + carry)
    };
    let c = (a as u16) < (value as u16 + carry as u16);
    registers.a = result;
    registers.update_flags(result == 0, true, h, c);
}

/// DEC r: the operand minus one (wrapping), written back; flags unchanged; 4 cycles.
pub fn dec_r(cpu: &mut CPU, target: RegTarget) -> (r: CyclesType)
    requires
        old(cpu).wf(),
    ensures
        r == 4,
        final(cpu).wf(),
        same_state(*old(cpu), *final(cpu)),
        final(cpu).registers == target_set(
            old(cpu).registers,
            target,
            sub8(target_value(old(cpu).registers, old(cpu).mmu, target), 1, 0),
        ),
        target_mem(
            old(cpu).mmu,
            final(cpu).mmu,
            old(cpu).registers,
            target,
            sub8(target_value(old(cpu).registers, old(cpu).mmu, target), 1, 0),
        ),
{
    let v = cpu.target_read(target);
    cpu.set_reg_value(target, v.wrapping_sub(1));
    4
}

/// ADD A,r: A plus the operand (wrapping); flags unchanged; 4 cycles.
pub fn add_a_r(cpu: &mut CPU, target: RegTarget, use_carry: bool) -> (r: CyclesType)
    requires
        old(cpu).wf(),
    ensures
        r == 4,
        regs_now(
            *old(cpu),
            *final(cpu),
            Registers {
                a: add8(old(cpu).registers.a, target_value(old(cpu).registers, old(cpu).mmu, target), 0),
                ..old(cpu).registers
            },
        ),
{
    let value = cpu.target_read(target);
    cpu.registers.a = cpu.registers.a.wrapping_add(value);
    4
}

/// ADC A,r: A plus the operand plus the carry, with Z, N, H and C; 4 cycles.
pub fn adc_a_r(cpu: &mut CPU, target: RegTarget) -> (r: CyclesType)
    requires
        old(cpu).wf(),
    ensures
        r == 4,
        regs_now(
            *old(cpu),
            *final(cpu),
            adc_regs(old(cpu).registers, target_value(old(cpu).registers, old(cpu).mmu, target), false),
        ),
{
    let value = cpu.target_read(target);
    adc_exec(&mut cpu.registers, value, false);
    4
}

/// SBC A,r: A minus the operand minus the carry, with Z, N, H and C; 4 cycles.
pub fn sbc_a_r(cpu: &mut CPU, target: RegTarget) -> (r: CyclesType)
    requires
        old(cpu).wf(),
    ensures
        r == 4,
        regs_now(
            *old(cpu),
            *final(cpu),
            sbc_regs(old(cpu).registers, target_value(old(cpu).registers, old(cpu).mmu, target), false),
        ),
{
    let value = cpu.target_read(target);
    sbc_exec(&mut cpu.registers, value, false);
    4
}

#[verifier::rlimit(80)]
fn daa_exec(registers: &mut Registers)
    ensures
        *final(registers) == daa_regs(*old(registers)),
{
    let a = registers.a;
    let c = registers.get_carry();
    let n = registers.get_subtract();
    let h = registers.get_half_carry();
    proof {
        crate::bits::lemma_low_nibble(a);
    }
    let (high, low) = if !n {
        (c || a > 0x99, h || (a & 0x0F) > 0x09)
    } else {
        (c, h)
    };
    let adjust: u8 = (if high {
        0x60u8
    } else {
        0u8
    }) | (if low {
        0x06u8
    } else {
        0u8
    });
    let result = if !n {
        a.wrapping_add(adjust)
    } else {
        a.wrapping_sub(adjust)
    };
    let carry = if !n {
        high
    } else {
        c
    };
    registers.a = result;
    registers.update_flags(result == 0, n, false, carry);
}

/// DAA: A corrected to BCD as `daa_regs` describes; 4 cycles.
pub fn daa(cpu: &mut CPU) -> (r: CyclesType)
    ensures
        r == 4,
        regs_now(*old(cpu), *final(cpu), daa_regs(old(cpu).registers)),
{
    daa_exec(&mut cpu.registers);
    4
}

/// SUB A,r: A minus the operand (wrapping); flags unchanged; 4 cycles.
pub fn sub_a_r(cpu: &mut CPU, target: RegTarget, use_carry: bool) -> (r: CyclesType)
    requires
        old(cpu).wf(),
    ensures
        r == 4,
        regs_now(
            *old(cpu),
            *final(cpu),
            Registers {
                a: sub8(old(cpu).registers.a, target_value(old(cpu).registers, old(cpu).mmu, target), 0),
                ..old(cpu).registers
            },
        ),
{
    let value = cpu.target_read(target);
    cpu.registers.a = cpu.registers.a.wrapping_sub(value);
    4
}

/// ADD A,n: the byte at PC (PC advancing, wrapping) added to A, with Z, N, H and C; 4 cycles.
pub fn add_a_n(cpu: &mut CPU, use_carry: bool) -> (r: CyclesType)
    requires
        old(cpu).wf(),
    ensures
        r == 4,
        regs_now(
            *old(cpu),
            *final(cpu),
            alu_regs(
                Registers {
                    pc: ((old(cpu).registers.pc + 1) % 0x10000) as u16,
                    ..old(cpu).registers
                },
                0,
                old(cpu).mmu.read_spec(old(cpu).registers.pc),
            ),
        ),
{
    let n = match cpu.fetch_byte() {
        Ok(b) => b,
        Err(_) => 0,
    };
    alu_exec(&mut cpu.registers, 0, n);
    4
}

/// SUB A,n: the byte at PC (PC advancing, wrapping) subtracted from A, with Z, N, H and C; 4
/// cycles.
pub fn sub_a_n(cpu: &mut CPU, use_carry: bool) -> (r: CyclesType)
    requires
        old(cpu).wf(),
    ensures
        r == 4,
        regs_now(
            *old(cpu),
            *final(cpu),
            alu_regs(
                Registers {
                    pc: ((old(cpu).registers.pc + 1) % 0x10000) as u16,
                    ..old(cpu).registers
                },
                2,
                old(cpu).mmu.read_spec(old(cpu).registers.pc),
            ),
        ),
{
    let n = match cpu.fetch_byte() {
        Ok(b) => b,
        Err(_) => 0,
    };
    alu_exec(&mut cpu.registers, 2, n);
    4
}

fn imm_operand(cpu: &mut CPU) -> (r: u8)
    requires
        old(cpu).wf(),
        old(cpu).registers.pc < 0xFFFF,
    ensures
        r == old(cpu).mmu.memory@[old(cpu).registers.pc + 1],
        regs_now(*old(cpu), *final(cpu), Registers { pc: (old(cpu).registers.pc + 1) as u16, ..old(cpu).registers }),
{
    let value = cpu.mmu.memory[(cpu.registers.pc + 1) as usize];
    cpu.registers.pc = cpu.registers.pc + 1;
    value
}

/// Dispatches an arithmetic or logic opcode as `arith_step` describes: the register forms of
/// ADD, SUB, AND, OR, XOR, CP, ADC and SBC, DAA, CPL, SCF, CCF, and the immediate forms of
/// ADD, ADC, SUB, SBC and AND; any other opcode is invalid. Memory is only read.
#[verifier::spinoff_prover]
#[verifier::rlimit(60)]
pub fn dispatch(cpu: &mut CPU, opcode: u8) -> (r: Result<CyclesType, Error>)
    requires
        old(cpu).wf(),
        takes_immediate(opcode) ==> old(cpu).registers.pc < 0xFFFF,
    ensures
        final(cpu).wf(),
        final(cpu).mmu == old(cpu).mmu,
        same_state(*old(cpu), *final(cpu)),
        (final(cpu).registers, r) == arith_step(old(cpu).registers, old(cpu).mmu, opcode),
{
    let src = opcode & 0x07;
    proof {
        crate::bits::lemma_u8_bits(opcode);
    }
    let alu_kind: u8 = if 0x80 <= opcode && opcode <= 0x87 {
        0
    } else if 0x90 <= opcode && opcode <= 0x97 {
        2
    } else if 0xA0 <= opcode && opcode <= 0xA7 {
        4
    } else if 0xB0 <= opcode && opcode <= 0xB7 {
        6
    } else if 0xA8 <= opcode && opcode <= 0xAF {
        5
    } else if 0xB8 <= opcode && opcode <= 0xBF {
        7
    } else {
        1
    };
    if alu_kind != 1 {
        let value = src_operand(cpu, src);
        alu_exec(&mut cpu.registers, alu_kind, value);
        return Ok(4);
    }
    if 0x88 <= opcode && opcode <= 0x8F {
        let value = src_operand(cpu, src);
        adc_exec(&mut cpu.registers, value, false);
        return Ok(if src == 6 { 8 } else { 4 });
    }
    if 0x98 <= opcode && opcode <= 0x9F {
        let value = src_operand(cpu, src);
        sbc_exec(&mut cpu.registers, value, true);
        return Ok(if src == 6 { 8 } else { 4 });
    }
    if opcode == 0x27 {
        daa_exec(&mut cpu.registers);
        return Ok(4);
    }
    if opcode == 0x2F {
        cpu.registers.a = !cpu.registers.a;
        cpu.registers.set_subtract(true);
        cpu.registers.set_half_carry(true);
        return Ok(4);
    }
    if opcode == 0x37 {
        cpu.registers.set_carry(true);
        cpu.registers.set_subtract(false);
        cpu.registers.set_half_carry(false);
        return Ok(4);
    }
    if opcode == 0x3F {
        let carry = cpu.registers.get_carry();
        cpu.registers.set_carry(!carry);
        cpu.registers.set_subtract(false);
        cpu.registers.set_half_carry(false);
        return Ok(4);
    }
    if opcode == 0xC6 {
        let value = imm_operand(cpu);
        alu_exec(&mut cpu.registers, 0, value);
        return Ok(8);
    }
    if opcode == 0xCE {
        let value = imm_operand(cpu);
        adc_exec(&mut cpu.registers, value, true);
        return Ok(8);
    }
    if opcode == 0xD6 {
        let value = imm_operand(cpu);
        alu_exec(&mut cpu.registers, 2, value);
        return Ok(8);
    }
    if opcode == 0xDE {
        let value = imm_operand(cpu);
        sbc_exec(&mut cpu.registers, value, false);
        return Ok(8);
    }
    if opcode == 0xE6 {
        let value = imm_operand(cpu);
        alu_exec(&mut cpu.registers, 4, value);
        return Ok(8);
    }
    Err(Error::Instruction(InstructionError::InvalidOpcode(opcode)))
}

/// The decimal value of a BCD byte.
pub open spec fn bcd_value(x: u8) -> int {
    (x / 16) * 10 + x % 16
}

/// Whether both nibbles of a byte are decimal digits.
pub open spec fn is_bcd(x: u8) -> bool {
    x / 16 <= 9 && x % 16 <= 9
}

proof fn lemma_split16(x: int, q: int, rr: int)
    requires
        x == q * 16 + rr,
        0 <= rr < 16,
    ensures
        x / 16 == q,
        x % 16 == rr,
{
    vstd::arithmetic::div_mod::lemma_fundamental_div_mod_converse(x, 16, q, rr);
}

proof fn lemma_wrap100(x: int, q: int, rr: int)
    requires
        x == q * 100 + rr,
        0 <= rr < 100,
    ensures
        x % 100 == rr,
{
    vstd::arithmetic::div_mod::lemma_fundamental_div_mod_converse(x, 100, q, rr);
}

proof fn lemma_wrap256(x: int, q: int, rr: int)
    requires
        x == q * 256 + rr,
        0 <= rr < 256,
    ensures
        x % 256 == rr,
{
    vstd::arithmetic::div_mod::lemma_fundamental_div_mod_converse(x, 256, q, rr);
}

/// The decimal digits and the DAA decision for a sum of two BCD bytes with digit sums `hd`
/// (tens) and `ld` (units): the corrected byte has tens `t` and units `u`.
proof fn lemma_daa_digits(r: Registers, hd: int, ld: int, t: int, u: int, wrap: int)
    requires
        0 <= hd <= 18,
        0 <= ld <= 18,
        0 <= t <= 9,
        0 <= u <= 9,
        0 <= wrap <= 1,
        t * 16 + u + 256 * wrap == (r.a as int) + (daa_adjust(r) as int),
    ensures
        add8(r.a, daa_adjust(r), 0) / 16 == t,
        add8(r.a, daa_adjust(r), 0) % 16 == u,
{
    lemma_wrap256(r.a + daa_adjust(r), wrap, t * 16 + u);
    lemma_split16(t * 16 + u, t, u);
}

/// DAA after an addition of two BCD bytes gives their decimal sum: with A holding the binary
/// sum of BCD bytes `a` and `b` (mod 256), N clear, and H and C as that addition set them, DAA
/// leaves in A the BCD form of the decimal sum modulo 100 and sets C exactly when the decimal
/// sum is 100 or more.
#[verifier::rlimit(40)]
pub proof fn law_daa_after_bcd_add(r: Registers, a: u8, b: u8)
    requires
        is_bcd(a),
        is_bcd(b),
        r.a == add8(a, b, 0),
        r.flags@ & 0x40 == 0,
        (r.flags@ & 0x20 != 0) == (a % 16 + b % 16 > 15),
        (r.flags@ & 0x10 != 0) == (a + b > 255),
    ensures
        is_bcd(daa_regs(r).a),
        bcd_value(daa_regs(r).a) == (bcd_value(a) + bcd_value(b)) % 100,
        carry_of(daa_regs(r)) == (bcd_value(a) + bcd_value(b) >= 100),
{
    let f = r.flags@;
    let z = daa_regs(r).a == 0;
    let f1 = crate::emu_core::cpu::flags::with_bits(f, 0x80, z);
    let f2 = crate::emu_core::cpu::flags::with_bits(f1, 0x40, false);
    let f3 = crate::emu_core::cpu::flags::with_bits(f2, 0x20, false);
    crate::bits::lemma_low_nibble(f3);
    let al = a % 16;
    let bl = b % 16;
    let ah = a / 16;
    let bh = b / 16;
    let hd = ah + bh;
    let ld = al + bl;
    let sum = a + b;
    assert(sum == hd * 16 + ld);
    let dsum = bcd_value(a) + bcd_value(b);
    assert(dsum == hd * 10 + ld);
    if hd <= 9 && ld <= 9 {
        lemma_wrap256(sum, 0, sum);
        lemma_split16(sum, hd, ld);
        assert(!daa_high(r) && !daa_low(r));
        assert(daa_adjust(r) == 0);
        lemma_daa_digits(r, hd, ld, hd, ld, 0);
        lemma_wrap100(dsum, 0, dsum);
    } else if ld >= 10 && hd <= 8 {
        lemma_wrap256(sum, 0, sum);
        if ld <= 15 {
            lemma_split16(sum, hd, ld);
        } else {
            lemma_split16(sum, hd + 1, ld - 16);
        }
        assert(!daa_high(r) && daa_low(r));
        assert(daa_adjust(r) == 6);
        lemma_daa_digits(r, hd, ld, hd + 1, ld - 10, 0);
        lemma_wrap100(dsum, 0, dsum);
    } else if ld <= 9 {
        if sum >= 256 {
            lemma_wrap256(sum, 1, sum - 256);
            lemma_split16(sum - 256, hd - 16, ld);
        } else {
            lemma_wrap256(sum, 0, sum);
            lemma_split16(sum, hd, ld);
        }
        assert(daa_high(r) && !daa_low(r));
        assert(daa_adjust(r) == 0x60);
        lemma_daa_digits(r, hd, ld, hd - 10, ld, if sum >= 256 { 0 } else { 1 });
        lemma_wrap100(dsum, 1, dsum - 100);
    } else {
        if sum >= 256 {
            lemma_wrap256(sum, 1, sum - 256);
            if ld <= 15 {
                lemma_split16(sum - 256, hd - 16, ld);
            } else {
                lemma_split16(sum - 256, hd - 15, ld - 16);
            }
        } else {
            lemma_wrap256(sum, 0, sum);
            if ld <= 15 {
                lemma_split16(sum, hd, ld);
            } else {
                lemma_split16(sum, hd + 1, ld - 16);
            }
        }
        assert(daa_high(r) && daa_low(r));
        assert(daa_adjust(r) == 0x66);
        lemma_daa_digits(r, hd, ld, hd - 9, ld - 10, if sum >= 256 { 0 } else { 1 });
        lemma_wrap100(dsum, 1, dsum - 100);
    }
}


/// The registers after ALU operation `op` on A with operand `v` (INC and DEC excluded).
pub open spec fn op_regs(r: Registers, op: AluRegOp, v: u8) -> Registers {
    match op {
        AluRegOp::Add => alu_regs(r, 0, v),
        AluRegOp::Adc => adc_regs(r, v, false),
        AluRegOp::Sub => alu_regs(r, 2, v),
        AluRegOp::Sbc => sbc_regs(r, v, false),
        AluRegOp::And => alu_regs(r, 4, v),
        AluRegOp::Xor => alu_regs(r, 5, v),
        AluRegOp::Or => alu_regs(r, 6, v),
        _ => alu_regs(r, 7, v),
    }
}

/// What an ALU instruction does. On an operand (a register, or (HL) through the memory map):
/// INC and DEC change the operand by one and set Z, N, H and clear C; the other operations
/// combine A with the operand; PC then moves past the one-byte opcode. On an immediate: the
/// operand is the byte after the opcode and PC moves past both.
pub open spec fn simple_alu_effect(
    r0: Registers,
    m0: MMU,
    r: Registers,
    m: MMU,
    instr: SimpleAluInstruction,
) -> bool {
    match instr {
        SimpleAluInstruction::RegOp(op, t) => {
            let v = target_value(r0, m0, t);
            let pc = ((r0.pc + 1) % 0x10000) as u16;
            if op is Inc {
                let res = add8(v, 1, 0);
                &&& r == Registers {
                    pc,
                    ..with_flags(target_set(r0, t, res), res == 0, false, v % 16 == 15, false)
                }
                &&& target_mem(m0, m, r0, t, res)
            } else if op is Dec {
                let res = sub8(v, 1, 0);
                &&& r == Registers {
                    pc,
                    ..with_flags(target_set(r0, t, res), res == 0, true, v % 16 == 0, false)
                }
                &&& target_mem(m0, m, r0, t, res)
            } else {
                &&& r == Registers { pc, ..op_regs(r0, op, v) }
                &&& m == m0
            }
        },
        SimpleAluInstruction::ImmOp(op) => {
            let v = m0.read_spec(((r0.pc + 1) % 0x10000) as u16);
            &&& r == Registers { pc: ((r0.pc + 2) % 0x10000) as u16, ..op_regs(r0, op, v) }
            &&& m == m0
        },
    }
}

impl CPU {
    /// Executes an 8-bit ALU instruction, as `simple_alu_effect` describes.
    #[verifier::rlimit(80)]
    pub fn execute_simple_alu(&mut self, instr: SimpleAluInstruction)
        requires
            old(self).wf(),
            !(instr matches SimpleAluInstruction::ImmOp(op) && (op is Inc || op is Dec)),
        ensures
            final(self).wf(),
            same_state(*old(self), *final(self)),
            simple_alu_effect(
                old(self).registers,
                old(self).mmu,
                final(self).registers,
                final(self).mmu,
                instr,
            ),
    {
        match instr {
            SimpleAluInstruction::RegOp(op, target) => {
                let val = self.target_read(target);
                if op == AluRegOp::Inc || op == AluRegOp::Dec {
                    self.step_target(target, val, op == AluRegOp::Dec);
                } else {
                    Self::alu_apply(&mut self.registers, op, val);
                }
                self.registers.pc = self.registers.pc.wrapping_add(1);
            },
            SimpleAluInstruction::ImmOp(op) => {
                let val = match self.mmu.read_byte(self.registers.pc.wrapping_add(1)) {
                    Ok(b) => b,
                    Err(_) => 0,
                };
                Self::alu_apply(&mut self.registers, op, val);
                self.registers.pc = self.registers.pc.wrapping_add(2);
            },
        }
    }

    fn step_target(&mut self, target: RegTarget, val: u8, dec: bool)
        requires
            old(self).wf(),
            val == target_value(old(self).registers, old(self).mmu, target),
        ensures
            final(self).wf(),
            same_state(*old(self), *final(self)),
            ({
                let res = if dec {
                    sub8(val, 1, 0)
                } else {
                    add8(val, 1, 0)
                };
                let h = if dec {
                    val % 16 == 0
                } else {
                    val % 16 == 15
                };
                &&& final(self).registers == with_flags(
                    target_set(old(self).registers, target, res),
                    res == 0,
                    dec,
                    h,
                    false,
                )
                &&& target_mem(old(self).mmu, final(self).mmu, old(self).registers, target, res)
            }),
    {
        proof {
            crate::bits::lemma_low_nibble(val);
        }
        let result = if dec {
            val.wrapping_sub(1)
        } else {
            val.wrapping_add(1)
        };
        let half = if dec {
            (val & 0x0F) == 0
        } else {
            (val & 0x0F) == 0x0F
        };
        self.set_reg_value(target, result);
        self.registers.update_flags(result == 0, dec, half, false);
    }

    fn alu_apply(registers: &mut Registers, op: AluRegOp, val: u8)
        requires
            !(op is Inc || op is Dec),
        ensures
            *final(registers) == op_regs(*old(registers), op, val),
    {
        match op {
            AluRegOp::Adc => adc_exec(registers, val, false),
            AluRegOp::Sbc => sbc_exec(registers, val, false),
            _ => {
                let kind: u8 = match op {
                    AluRegOp::Add => 0,
                    AluRegOp::Sub => 2,
                    AluRegOp::And => 4,
                    AluRegOp::Xor => 5,
                    AluRegOp::Or => 6,
                    _ => 7,
                };
                alu_exec(registers, kind, val);
            },
        }
    }
}

} // verus!
