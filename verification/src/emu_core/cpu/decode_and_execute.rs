use vstd::prelude::*;
use crate::emu_core::cpu::flags::Flag;
use crate::emu_core::cpu::flags::{Flags, with_bits};
use crate::emu_core::cpu::registers::{Registers, reg_at, set_index, flags_with, word};
use crate::emu_core::mmu::mmu::{MMU, write_rel};
use crate::gb::instructions::{cb_shift_res, cb_shift_c, cb_rotate};

verus! {

/// What a CB-prefixed opcode does to the registers and the memory map: bits 7..3 select a
/// rotate/shift (0x00..=0x3F), BIT, RES or SET; bits 2..0 name the operand by register index
/// (0:A 1:B 2:C 3:D 4:E 5:H 6:L 7:F), where index 6 uses (HL) instead: the byte read through
/// the memory map at HL, and written back there.
pub open spec fn cb_effect(r0: Registers, m0: MMU, r: Registers, m: MMU, cb: u8) -> bool {
    let idx = cb % 8;
    let y = (cb / 8) % 8;
    let x = cb / 64;
    let hl = (r0.h as int * 256 + r0.l as int) as u16;
    if x == 0 && idx == 6 {
        let v = m0.read_spec(hl);
        let res = cb_shift_res(y, v, r0.flags@);
        &&& r == (Registers { flags: r.flags, ..r0 })
        &&& r.flags@ == flags_with(r0.flags@, res == 0, false, false, cb_shift_c(y, v))
        &&& write_rel(m0, m, hl, res)
    } else if x == 0 {
        let v = reg_at(r0, idx);
        let res = cb_shift_res(y, v, r0.flags@);
        let mid = set_index(r0, idx, res);
        &&& r == (Registers { flags: r.flags, ..mid })
        &&& r.flags@ == flags_with(mid.flags@, res == 0, false, false, cb_shift_c(y, v))
        &&& m == m0
    } else if x == 1 {
        let v = if idx == 6 {
            m0.read_spec(hl)
        } else {
            reg_at(r0, idx)
        };
        &&& r == (Registers { flags: r.flags, ..r0 })
        &&& r.flags@ == flags_with(
            r0.flags@,
            v & (1u8 << y) == 0,
            false,
            true,
            r0.flags@ & 0x10 != 0,
        )
        &&& m == m0
    } else {
        let op = |v: u8|
            if x == 2 {
                v & !(1u8 << y)
            } else {
                v | (1u8 << y)
            };
        if idx == 6 {
            r == r0 && write_rel(m0, m, hl, op(m0.read_spec(hl)))
        } else {
            r == set_index(r0, idx, op(reg_at(r0, idx))) && m == m0
        }
    }
}

/// Executes a CB-prefixed opcode on the registers and the memory map.
pub fn decode_and_execute_cb(registers: &mut Registers, mmu: &mut MMU, cb_opcode: u8)
    requires
        old(mmu).wf(),
    ensures
        final(mmu).wf(),
        cb_effect(*old(registers), *old(mmu), *final(registers), *final(mmu), cb_opcode),
{
    let reg_idx = cb_opcode & 0x07;
    let bit_idx = (cb_opcode >> 3) & 0x07;
    proof {
        crate::bits::lemma_u8_bits(cb_opcode);
    }
    if cb_opcode <= 0x3F && reg_idx == 6 {
        let hl = registers.get_hl();
        let val = match mmu.read_byte(hl) {
            Ok(b) => b,
            Err(_) => 0,
        };
        let old_carry = registers.get_flag(Flag::C);
        let (res, carry) = cb_rotate(bit_idx, val, old_carry);
        let _ = mmu.write_byte(hl, res);
        registers.update_flags(res == 0, false, false, carry);
    } else if cb_opcode <= 0x07 {
        let val = registers.get_by_index(reg_idx);
        let carry = (val & 0x80) != 0;
        let res = (val << 1) | (if carry { 1 } else { 0 });
        proof {
            crate::bits::lemma_u8_bits(val);
        }
        registers.set_by_index(reg_idx, res);
        registers.update_flags(res == 0, false, false, carry);
    } else if cb_opcode <= 0x0F {
        let val = registers.get_by_index(reg_idx);
        let carry = (val & 0x01) != 0;
        let res = (val >> 1) | (if carry { 0x80 } else { 0 });
        proof {
            crate::bits::lemma_u8_bits(val);
        }
        registers.set_by_index(reg_idx, res);
        registers.update_flags(res == 0, false, false, carry);
    } else if cb_opcode <= 0x17 {
        let val = registers.get_by_index(reg_idx);
        let old_carry = registers.get_flag(Flag::C);
        let carry = (val & 0x80) != 0;
        let res = (val << 1) | (if old_carry { 1 } else { 0 });
        registers.set_by_index(reg_idx, res);
        registers.update_flags(res == 0, false, false, carry);
    } else if cb_opcode <= 0x1F {
        let val = registers.get_by_index(reg_idx);
        let old_carry = registers.get_flag(Flag::C);
        let carry = (val & 0x01) != 0;
        let res = (val >> 1) | (if old_carry { 0x80 } else { 0 });
        proof {
            crate::bits::lemma_u8_bits(val);
        }
        registers.set_by_index(reg_idx, res);
        registers.update_flags(res == 0, false, false, carry);
    } else if cb_opcode <= 0x27 {
        let val = registers.get_by_index(reg_idx);
        let carry = (val & 0x80) != 0;
        let res = val << 1;
        registers.set_by_index(reg_idx, res);
        registers.update_flags(res == 0, false, false, carry);
    } else if cb_opcode <= 0x2F {
        let val = registers.get_by_index(reg_idx);
        let carry = (val & 0x01) != 0;
        let res = (val >> 1) | (val & 0x80);
        registers.set_by_index(reg_idx, res);
        registers.update_flags(res == 0, false, false, carry);
    } else if cb_opcode <= 0x37 {
        let val = registers.get_by_index(reg_idx);
        let res = (val >> 4) | (val << 4);
        proof {
            crate::bits::lemma_u8_bits(val);
        }
        registers.set_by_index(reg_idx, res);
        registers.update_flags(res == 0, false, false, false);
    } else if cb_opcode <= 0x3F {
        let val = registers.get_by_index(reg_idx);
        let carry = (val & 0x01) != 0;
        let res = val >> 1;
        registers.set_by_index(reg_idx, res);
        registers.update_flags(res == 0, false, false, carry);
    } else if cb_opcode <= 0x7F {
        let val = if reg_idx == 6 {
            let hl = registers.get_hl();
            match mmu.read_byte(hl) {
                Ok(b) => b,
                Err(_) => 0,
            }
        } else {
            registers.get_by_index(reg_idx)
        };
        let z = (val & (1u8 << bit_idx)) == 0;
        let c = registers.get_flag(Flag::C);
        registers.update_flags(z, false, true, c);
    } else if cb_opcode <= 0xBF {
        if reg_idx == 6 {
            let hl = registers.get_hl();
            let val = match mmu.read_byte(hl) {
                Ok(b) => b,
                Err(_) => 0,
            };
            let res = val & !(1u8 << bit_idx);
            let _ = mmu.write_byte(hl, res);
        } else {
            let val = registers.get_by_index(reg_idx);
            let res = val & !(1u8 << bit_idx);
            registers.set_by_index(reg_idx, res);
        }
    } else {
        if reg_idx == 6 {
            let hl = registers.get_hl();
            let val = match mmu.read_byte(hl) {
                Ok(b) => b,
                Err(_) => 0,
            };
            let res = val | (1u8 << bit_idx);
            let _ = mmu.write_byte(hl, res);
        } else {
            let val = registers.get_by_index(reg_idx);
            let res = val | (1u8 << bit_idx);
            registers.set_by_index(reg_idx, res);
        }
    }
}

/// The byte after the opcode, read from the flat memory array.
pub open spec fn next_byte(r: Registers, m: MMU) -> u8 {
    m.memory@[r.pc + 1]
}

/// The little-endian word after the opcode, read from the flat memory array.
pub open spec fn next_word(r: Registers, m: MMU) -> u16 {
    word(m.memory@[r.pc + 2], m.memory@[r.pc + 1])
}

/// The word read through the memory map at `addr`, low byte first.
pub open spec fn word_at(m: MMU, addr: u16) -> u16 {
    (m.read_spec(((addr + 1) % 0x10000) as u16) as int * 256 + m.read_spec(addr) as int) as u16
}

/// `n` is `o` after the word `v` is written at `addr` through the memory map, low byte first.
pub open spec fn word_written(o: MMU, n: MMU, addr: u16, v: u16) -> bool {
    exists|mid: MMU|
        #[trigger] write_rel(o, mid, addr, (v % 256) as u8) && write_rel(
            mid,
            n,
            ((addr + 1) % 0x10000) as u16,
            (v / 256) as u8,
        )
}

/// The accumulator after an 8-bit ALU operation: kind 0 ADD, 2 SUB and 7 CP (subtraction),
/// 4 AND, 5 XOR, 6 OR.
pub open spec fn alu_result(kind: u8, a: u8, v: u8) -> u8 {
    if kind == 0 {
        ((a + v) % 256) as u8
    } else if kind == 2 || kind == 7 {
        ((a - v + 256) % 256) as u8
    } else if kind == 4 {
        a & v
    } else if kind == 5 {
        a ^ v
    } else {
        a | v
    }
}

/// The flags after an 8-bit ALU operation: Z from the result; ADD sets H and C from the
/// carries out of bits 3 and 7, SUB and CP set N and the borrows, AND sets H, XOR and OR clear
/// N, H and C.
pub open spec fn alu_flags(kind: u8, a: u8, v: u8, f: u8) -> u8 {
    let res = alu_result(kind, a, v);
    if kind == 0 {
        flags_with(f, res == 0, false, (a & 0xF) + (v & 0xF) > 0xF, a + v > 0xFF)
    } else if kind == 2 || kind == 7 {
        flags_with(f, res == 0, true, (a & 0xF) < (v & 0xF), a < v)
    } else if kind == 4 {
        flags_with(f, res == 0, false, true, false)
    } else {
        flags_with(f, res == 0, false, false, false)
    }
}

/// The registers after an ALU operation of `kind` with operand `v`; CP keeps A.
pub open spec fn alu_applied(r0: Registers, r: Registers, kind: u8, v: u8) -> bool {
    &&& r == (Registers {
        a: if kind == 7 {
            r0.a
        } else {
            alu_result(kind, r0.a, v)
        },
        flags: r.flags,
        ..r0
    })
    &&& r.flags@ == alu_flags(kind, r0.a, v, r0.flags@)
}

/// The ALU kind of an opcode of the 0x80..=0xBF block or of an immediate ALU opcode:
/// (opcode / 8) % 8.
pub open spec fn is_alu(op: u8) -> bool {
    ||| 0x80 <= op <= 0x87
    ||| 0x90 <= op <= 0x97
    ||| 0xA0 <= op <= 0xBF
    ||| op == 0xC6 || op == 0xD6 || op == 0xE6 || op == 0xEE || op == 0xF6 || op == 0xFE
}

/// The operand of an ALU opcode: the immediate byte, or the register its low three bits name.
pub open spec fn alu_operand(r: Registers, m: MMU, op: u8) -> u8 {
    if op >= 0xC0 {
        next_byte(r, m)
    } else {
        reg_at(r, op % 8)
    }
}

/// The register pair that ADD HL,rr adds (0x09 BC, 0x19 DE, 0x29 HL, 0x39 SP).
pub open spec fn add_hl_operand(r: Registers, op: u8) -> u16 {
    if op == 0x09 {
        word(r.b, r.c)
    } else if op == 0x19 {
        word(r.d, r.e)
    } else if op == 0x29 {
        word(r.h, r.l)
    } else {
        r.sp
    }
}

/// The registers after ADD HL,rr: HL plus the pair modulo 2^16, N cleared, H and C from the
/// carries out of bits 11 and 15, Z kept, PC past the opcode.
pub open spec fn add_hl_applied(r0: Registers, r: Registers, rr: u16) -> bool {
    let hl = word(r0.h, r0.l);
    let res = ((hl + rr) % 0x10000) as u16;
    &&& r == (Registers {
        h: (res >> 8) as u8,
        l: res as u8,
        flags: r.flags,
        pc: (r0.pc + 1) as u16,
        ..r0
    })
    &&& r.flags@ == with_bits(
        with_bits(with_bits(r0.flags@, 0x40, false), 0x20, (hl & 0x0FFF) + (rr & 0x0FFF) > 0x0FFF),
        0x10,
        hl + rr > 0xFFFF,
    )
}

/// Whether a CALL opcode calls: CALL always, CALL NZ/Z/NC/C by the flag.
pub open spec fn call_taken(r: Registers, op: u8) -> bool {
    if op == 0xC4 {
        r.flags@ & 0x80 == 0
    } else if op == 0xCC {
        r.flags@ & 0x80 != 0
    } else if op == 0xD4 {
        r.flags@ & 0x10 == 0
    } else if op == 0xDC {
        r.flags@ & 0x10 != 0
    } else {
        true
    }
}

/// The pair a PUSH opcode pushes (0xC5 BC, 0xD5 DE, 0xE5 HL, 0xF5 AF).
pub open spec fn push_value(r: Registers, op: u8) -> u16 {
    if op == 0xC5 {
        word(r.b, r.c)
    } else if op == 0xD5 {
        word(r.d, r.e)
    } else if op == 0xE5 {
        word(r.h, r.l)
    } else {
        word(r.a, r.flags@)
    }
}

/// The registers after a POP opcode loads `v` into its pair (0xC1 BC, 0xD1 DE, 0xE1 HL,
/// 0xF1 AF with F keeping its upper nibble) and SP moves up by 2.
pub open spec fn pop_applied(r0: Registers, r: Registers, op: u8, v: u16) -> bool {
    let sp = ((r0.sp + 2) % 0x10000) as u16;
    let hi = (v >> 8) as u8;
    let lo = v as u8;
    if op == 0xC1 {
        r == Registers { b: hi, c: lo, sp: sp, ..r0 }
    } else if op == 0xD1 {
        r == Registers { d: hi, e: lo, sp: sp, ..r0 }
    } else if op == 0xE1 {
        r == Registers { h: hi, l: lo, sp: sp, ..r0 }
    } else {
        r == Registers { a: hi, flags: Flags { value: lo & 0xF0 }, sp: sp, ..r0 }
    }
}

/// What `decode_and_execute` does with an opcode of the main table to the registers and the
/// memory map. Immediates come from the flat memory array after PC; loads and stores go
/// through the memory map. Opcodes it does not implement change nothing; ALU, PUSH, POP, RET
/// and CALL leave PC where the caller put it (a call sets it to the target).
pub open spec fn core_effect(r0: Registers, m0: MMU, r: Registers, m: MMU, op: u8) -> bool {
    let pc = r0.pc;
    let n8 = next_byte(r0, m0);
    let n16 = next_word(r0, m0);
    let sp_down = ((r0.sp - 2 + 0x10000) % 0x10000) as u16;
    if op == 0xEA {
        r == (Registers { pc: (pc + 3) as u16, ..r0 }) && write_rel(m0, m, n16, r0.a)
    } else if op == 0xFA {
        r == (Registers { a: m0.read_spec(n16), pc: (pc + 3) as u16, ..r0 }) && m == m0
    } else if op == 0xE0 {
        r == (Registers { pc: (pc + 2) as u16, ..r0 }) && write_rel(
            m0,
            m,
            0xFF00u16 | (n8 as u16),
            r0.a,
        )
    } else if op == 0xF0 {
        r == (Registers { a: m0.read_spec(0xFF00u16 | (n8 as u16)), pc: (pc + 2) as u16, ..r0 })
            && m == m0
    } else if op == 0x08 {
        r == (Registers { pc: (pc + 3) as u16, ..r0 }) && word_written(m0, m, n16, r0.sp)
    } else if op == 0xF9 {
        r == (Registers { sp: word(r0.h, r0.l), pc: (pc + 1) as u16, ..r0 }) && m == m0
    } else if op == 0x09 || op == 0x19 || op == 0x29 || op == 0x39 {
        add_hl_applied(r0, r, add_hl_operand(r0, op)) && m == m0
    } else if op == 0xE2 {
        r == (Registers { pc: (pc + 1) as u16, ..r0 }) && write_rel(
            m0,
            m,
            0xFF00u16 | (r0.c as u16),
            r0.a,
        )
    } else if op == 0xF2 {
        r == (Registers { a: m0.read_spec(0xFF00u16 | (r0.c as u16)), pc: (pc + 1) as u16, ..r0 })
            && m == m0
    } else if op == 0xDA {
        r == (if r0.flags@ & 0x10 != 0 {
            Registers { pc: n16, ..r0 }
        } else {
            r0
        }) && m == m0
    } else if op == 0xCD || op == 0xC4 || op == 0xCC || op == 0xD4 || op == 0xDC {
        if call_taken(r0, op) {
            r == (Registers { sp: sp_down, pc: n16, ..r0 }) && word_written(
                m0,
                m,
                sp_down,
                (pc + 3) as u16,
            )
        } else {
            r == r0 && m == m0
        }
    } else if op == 0xC9 {
        r == (Registers {
            sp: ((r0.sp + 2) % 0x10000) as u16,
            pc: word_at(m0, r0.sp),
            ..r0
        }) && m == m0
    } else if op == 0xC5 || op == 0xD5 || op == 0xE5 || op == 0xF5 {
        r == (Registers { sp: sp_down, ..r0 }) && word_written(m0, m, sp_down, push_value(r0, op))
    } else if op == 0xC1 || op == 0xD1 || op == 0xE1 || op == 0xF1 {
        pop_applied(r0, r, op, word_at(m0, r0.sp)) && m == m0
    } else if is_alu(op) {
        alu_applied(r0, r, (op / 8) % 8, alu_operand(r0, m0, op)) && m == m0
    } else {
        r == r0 && m == m0
    }
}

/// The inputs on which `decode_and_execute` runs without overflow: a well-formed memory map,
/// and PC far enough below 0xFFFF for the immediates it reads and the address it computes
/// (LD (a16),SP also needs a target below 0xFFFF).
pub open spec fn core_step_ok(r: Registers, m: MMU, op: u8) -> bool {
    let pc = r.pc;
    &&& m.wf()
    &&& (op == 0xEA || op == 0xFA || op == 0x08) ==> pc + 3 <= 0xFFFF
    &&& op == 0x08 ==> next_word(r, m) != 0xFFFF
    &&& (op == 0xE0 || op == 0xF0) ==> pc + 2 <= 0xFFFF
    &&& (op == 0xF9 || op == 0x09 || op == 0x19 || op == 0x29 || op == 0x39 || op == 0xE2 || op
        == 0xF2) ==> pc + 1 <= 0xFFFF
    &&& op == 0xDA ==> pc + 2 <= 0xFFFF
    &&& (op == 0xCD || op == 0xC4 || op == 0xCC || op == 0xD4 || op == 0xDC) ==> (pc + 2 <= 0xFFFF
        && (call_taken(r, op) ==> pc + 3 <= 0xFFFF))
    &&& (is_alu(op) && op >= 0xC0) ==> pc + 1 <= 0xFFFF
}

pub(crate) fn alu_exec(registers: &mut Registers, kind: u8, value: u8)
    requires
        kind == 0 || kind == 2 || kind == 4 || kind == 5 || kind == 6 || kind == 7,
    ensures
        alu_applied(*old(registers), *final(registers), kind, value),
{
    let a = registers.get_a();
    if kind == 0 {
        let result = a.wrapping_add(value);
        let carry = (a as u16 + value as u16) > 0xFF;
        let half_carry = ((a & 0xF) as u16 + (value & 0xF) as u16) > 0xF;
        registers.set_a(result);
        registers.update_flags(result == 0, false, half_carry, carry);
    } else if kind == 2 || kind == 7 {
        let result = a.wrapping_sub(value);
        let borrow = a < value;
        let half_carry = (a & 0xF) < (value & 0xF);
        if kind == 2 {
            registers.set_a(result);
        }
        registers.update_flags(result == 0, true, half_carry, borrow);
    } else if kind == 4 {
        let result = a & value;
        registers.set_a(result);
        registers.update_flags(result == 0, false, true, false);
    } else if kind == 5 {
        let result = a ^ value;
        registers.set_a(result);
        registers.update_flags(result == 0, false, false, false);
    } else {
        let result = a | value;
        registers.set_a(result);
        registers.update_flags(result == 0, false, false, false);
    }
}

fn add_hl_exec(registers: &mut Registers, rr: u16)
    requires
        old(registers).pc + 1 <= 0xFFFF,
    ensures
        add_hl_applied(*old(registers), *final(registers), rr),
{
    let hl = registers.get_hl();
    let result = hl.wrapping_add(rr);
    let h = ((hl & 0x0FFF) as u32 + (rr & 0x0FFF) as u32) > 0x0FFF;
    let c = (hl as u32 + rr as u32) > 0xFFFF;
    registers.flags.set_subtract(false);
    registers.flags.set_half_carry(h);
    registers.flags.set_carry(c);
    registers.set_hl(result);
    registers.pc = registers.pc + 1;
}

fn imm_word(registers: &Registers, mmu: &MMU) -> (r: u16)
    requires
        mmu.wf(),
        registers.pc + 2 <= 0xFFFF,
    ensures
        r == next_word(*registers, *mmu),
{
    let lo = mmu.memory[(registers.pc + 1) as usize];
    let hi = mmu.memory[(registers.pc + 2) as usize];
    proof {
        crate::bits::lemma_u16_join(hi, lo);
    }
    ((hi as u16) << 8) | (lo as u16)
}

fn push_exec(registers: &mut Registers, mmu: &mut MMU, value: u16)
    requires
        old(mmu).wf(),
    ensures
        final(mmu).wf(),
        *final(registers) == (Registers {
            sp: ((old(registers).sp - 2 + 0x10000) % 0x10000) as u16,
            ..*old(registers)
        }),
        word_written(
            *old(mmu),
            *final(mmu),
            ((old(registers).sp - 2 + 0x10000) % 0x10000) as u16,
            value,
        ),
{
    registers.sp = registers.sp.wrapping_sub(2);
    mmu.write_word(registers.sp, value);
}

/// Executes one opcode of the main table on the CPU registers and the memory map, as
/// `core_effect` describes.
#[verifier::rlimit(60)]
pub fn decode_and_execute(registers: &mut Registers, mmu: &mut MMU, opcode: u8)
    requires
        core_step_ok(*old(registers), *old(mmu), opcode),
    ensures
        final(mmu).wf(),
        core_effect(*old(registers), *old(mmu), *final(registers), *final(mmu), opcode),
{
    proof {
        crate::bits::lemma_u8_bits(opcode);
    }
    let ghost r0 = *registers;
    let ghost m0 = *mmu;
    if opcode == 0xEA {
        let addr = imm_word(registers, mmu);
        let a = registers.get_a();
        let _ = mmu.write_byte(addr, a);
        registers.pc = registers.pc + 3;
    } else if opcode == 0xFA {
        let addr = imm_word(registers, mmu);
        let val = match mmu.read_byte(addr) {
            Ok(b) => b,
            Err(_) => 0,
        };
        registers.set_a(val);
        registers.pc = registers.pc + 3;
    } else if opcode == 0xE0 {
        let n = mmu.memory[(registers.pc + 1) as usize];
        let addr = 0xFF00u16 | (n as u16);
        let a = registers.get_a();
        let _ = mmu.write_byte(addr, a);
        registers.pc = registers.pc + 2;
    } else if opcode == 0xF0 {
        let n = mmu.memory[(registers.pc + 1) as usize];
        let addr = 0xFF00u16 | (n as u16);
        let val = match mmu.read_byte(addr) {
            Ok(b) => b,
            Err(_) => 0,
        };
        registers.set_a(val);
        registers.pc = registers.pc + 2;
    } else if opcode == 0x08 {
        let addr = imm_word(registers, mmu);
        let sp = registers.sp;
        proof {
            crate::bits::lemma_u16_bits(sp);
        }
        let _ = mmu.write_byte(addr, (sp & 0xFF) as u8);
        let ghost mid = *mmu;
        let _ = mmu.write_byte(addr + 1, (sp >> 8) as u8);
        proof {
            assert(write_rel(m0, mid, addr, (sp % 256) as u8));
        }
        registers.pc = registers.pc + 3;
    } else if opcode == 0xF9 {
        registers.sp = registers.get_hl();
        registers.pc = registers.pc + 1;
    } else if opcode == 0x09 {
        let bc = registers.get_bc();
        add_hl_exec(registers, bc);
    } else if opcode == 0x19 {
        let de = registers.get_de();
        add_hl_exec(registers, de);
    } else if opcode == 0x29 {
        let hl = registers.get_hl();
        add_hl_exec(registers, hl);
    } else if opcode == 0x39 {
        let sp = registers.sp;
        add_hl_exec(registers, sp);
    } else if opcode == 0xE2 {
        let addr = 0xFF00u16 | (registers.get_c() as u16);
        let a = registers.get_a();
        let _ = mmu.write_byte(addr, a);
        registers.pc = registers.pc + 1;
    } else if opcode == 0xF2 {
        let addr = 0xFF00u16 | (registers.get_c() as u16);
        let val = match mmu.read_byte(addr) {
            Ok(b) => b,
            Err(_) => 0,
        };
        registers.set_a(val);
        registers.pc = registers.pc + 1;
    } else if opcode == 0xDA {
        let addr = imm_word(registers, mmu);
        if registers.get_flag(Flag::C) {
            registers.pc = addr;
        }
    } else if opcode == 0xCD || opcode == 0xC4 || opcode == 0xCC || opcode == 0xD4 || opcode
        == 0xDC {
        let addr = imm_word(registers, mmu);
        let taken = if opcode == 0xC4 {
            !registers.get_flag(Flag::Z)
        } else if opcode == 0xCC {
            registers.get_flag(Flag::Z)
        } else if opcode == 0xD4 {
            !registers.get_flag(Flag::C)
        } else if opcode == 0xDC {
            registers.get_flag(Flag::C)
        } else {
            true
        };
        if taken {
            let ret = registers.pc + 3;
            push_exec(registers, mmu, ret);
            registers.pc = addr;
        }
    } else if opcode == 0xC9 {
        let ret = mmu.read_word(registers.sp);
        registers.sp = registers.sp.wrapping_add(2);
        registers.pc = ret;
    } else if opcode == 0xC5 {
        let v = registers.get_bc();
        push_exec(registers, mmu, v);
    } else if opcode == 0xD5 {
        let v = registers.get_de();
        push_exec(registers, mmu, v);
    } else if opcode == 0xE5 {
        let v = registers.get_hl();
        push_exec(registers, mmu, v);
    } else if opcode == 0xF5 {
        let v = registers.get_af();
        push_exec(registers, mmu, v);
    } else if opcode == 0xC1 || opcode == 0xD1 || opcode == 0xE1 || opcode == 0xF1 {
        let value = mmu.read_word(registers.sp);
        if opcode == 0xC1 {
            registers.set_bc(value);
        } else if opcode == 0xD1 {
            registers.set_de(value);
        } else if opcode == 0xE1 {
            registers.set_hl(value);
        } else {
            registers.set_af(value);
        }
        registers.sp = registers.sp.wrapping_add(2);
    } else if (0x80 <= opcode && opcode <= 0x87) || (0x90 <= opcode && opcode <= 0x97) || (0xA0
        <= opcode && opcode <= 0xBF) {
        let src = opcode & 0x07;
        let value = registers.get_by_index(src);
        alu_exec(registers, (opcode >> 3) & 0x07, value);
    } else if opcode == 0xC6 || opcode == 0xD6 || opcode == 0xE6 || opcode == 0xEE || opcode
        == 0xF6 || opcode == 0xFE {
        let value = mmu.memory[(registers.pc + 1) as usize];
        alu_exec(registers, (opcode >> 3) & 0x07, value);
    }
}

} // verus!
