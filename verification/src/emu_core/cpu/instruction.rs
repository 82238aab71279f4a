use vstd::prelude::*;
use crate::emu_core::cpu::register_utils::{RegTarget, target_of_bits};

verus! {

/// An 8-bit ALU operation.
#[derive(Clone, Copy, PartialEq, Eq, Structural, Debug)]
pub enum AluRegOp {
    Add,
    Adc,
    Sub,
    Sbc,
    And,
    Or,
    Xor,
    Cp,
    Inc,
    Dec,
}

/// An 8-bit ALU instruction: on a register operand or on an immediate byte.
#[derive(Clone, Copy, PartialEq, Eq, Structural, Debug)]
pub enum SimpleAluInstruction {
    RegOp(AluRegOp, RegTarget),
    ImmOp(AluRegOp),
}

/// The ALU operation that bits 5..3 of an ALU opcode select
/// (ADD, ADC, SUB, SBC, AND, XOR, OR, CP).
pub open spec fn alu_op_of(y: u8) -> AluRegOp {
    if y == 0 {
        AluRegOp::Add
    } else if y == 1 {
        AluRegOp::Adc
    } else if y == 2 {
        AluRegOp::Sub
    } else if y == 3 {
        AluRegOp::Sbc
    } else if y == 4 {
        AluRegOp::And
    } else if y == 5 {
        AluRegOp::Xor
    } else if y == 6 {
        AluRegOp::Or
    } else {
        AluRegOp::Cp
    }
}

/// The ALU instruction an opcode encodes: 0x80..=0xBF on registers, INC r / DEC r, and the
/// immediate forms 11yyy110.
pub open spec fn alu_decode(op: u8) -> Option<SimpleAluInstruction> {
    if 0x80 <= op <= 0xBF {
        Some(SimpleAluInstruction::RegOp(alu_op_of((op / 8) % 8), target_of_bits(op % 8)))
    } else if op <= 0x3F && op % 8 == 4 {
        Some(SimpleAluInstruction::RegOp(AluRegOp::Inc, target_of_bits(op / 8)))
    } else if op <= 0x3F && op % 8 == 5 {
        Some(SimpleAluInstruction::RegOp(AluRegOp::Dec, target_of_bits(op / 8)))
    } else if op >= 0xC0 && op % 8 == 6 {
        Some(SimpleAluInstruction::ImmOp(alu_op_of((op / 8) % 8)))
    } else {
        None
    }
}

fn alu_op_from(y: u8) -> (r: AluRegOp)
    ensures
        r == alu_op_of(y),
{
    match y {
        0 => AluRegOp::Add,
        1 => AluRegOp::Adc,
        2 => AluRegOp::Sub,
        3 => AluRegOp::Sbc,
        4 => AluRegOp::And,
        5 => AluRegOp::Xor,
        6 => AluRegOp::Or,
        _ => AluRegOp::Cp,
    }
}

fn reg_from(bits: u8) -> (r: RegTarget)
    requires
        bits <= 7,
    ensures
        r == target_of_bits(bits),
{
    match RegTarget::from_bits(bits) {
        Ok(t) => t,
        Err(_) => RegTarget::A,
    }
}

impl SimpleAluInstruction {
    /// Decodes an 8-bit ALU opcode.
    pub fn decode(opcode: u8) -> (r: Option<SimpleAluInstruction>)
        ensures
            r == alu_decode(opcode),
    {
        proof {
            crate::bits::lemma_u8_bits(opcode);
        }
        if 0x80 <= opcode && opcode <= 0xBF {
            Some(
                SimpleAluInstruction::RegOp(
                    alu_op_from((opcode >> 3) & 0x07),
                    reg_from(opcode & 0x07),
                ),
            )
        } else if opcode <= 0x3F && opcode & 0x07 == 4 {
            Some(SimpleAluInstruction::RegOp(AluRegOp::Inc, reg_from(opcode >> 3)))
        } else if opcode <= 0x3F && opcode & 0x07 == 5 {
            Some(SimpleAluInstruction::RegOp(AluRegOp::Dec, reg_from(opcode >> 3)))
        } else if opcode >= 0xC0 && opcode & 0x07 == 6 {
            Some(SimpleAluInstruction::ImmOp(alu_op_from((opcode >> 3) & 0x07)))
        } else {
            None
        }
    }
}

/// A decoded CPU instruction.
#[derive(Clone, Copy, PartialEq, Eq, Structural, Debug)]
pub enum Instruction {
    LD(LDTarget, LDSource),
    ADD(ArithTarget, ArithSource),
    ADC(ArithTarget, ArithSource),
    SUB(ArithSource),
    SBC(ArithSource),
    AND(ArithSource),
    OR(ArithSource),
    XOR(ArithSource),
    CP(ArithSource),
    INC(IncDecTarget),
    DEC(IncDecTarget),
    RLCA,
    RRCA,
    RLA,
    RRA,
    RLC(RegTarget),
    RRC(RegTarget),
    RL(RegTarget),
    RR(RegTarget),
    SLA(RegTarget),
    SRA(RegTarget),
    SRL(RegTarget),
    BIT(u8, RegTarget),
    SET(u8, RegTarget),
    RES(u8, RegTarget),
    JP(JumpCondition, JumpTarget),
    JR(JumpCondition, i8),
    CALL(JumpCondition, u16),
    RET(JumpCondition),
    RETI,
    RST(u8),
    PUSH(StackTarget),
    POP(StackTarget),
    CPL,
    CCF,
    SCF,
    DAA,
    HALT,
    STOP,
    DI,
    EI,
    NOP,
}

/// The destination of a load.
#[derive(Clone, Copy, PartialEq, Eq, Structural, Debug)]
pub enum LDTarget {
    Reg(RegTarget),
    Addr16(u16),
    AddrReg(RegTarget),
    AddrFF00(u8),
    AddrFF00C,
}

/// The source of a load.
#[derive(Clone, Copy, PartialEq, Eq, Structural, Debug)]
pub enum LDSource {
    Reg(RegTarget),
    Imm8(u8),
    Imm16(u16),
    Addr16(u16),
    AddrReg(RegTarget),
    AddrFF00(u8),
    AddrFF00C,
}

/// The destination of an addition: A, or HL for ADD HL,rr.
#[derive(Clone, Copy, PartialEq, Eq, Structural, Debug)]
pub enum ArithTarget {
    A,
    HL,
}

/// The source operand of an arithmetic instruction.
#[derive(Clone, Copy, PartialEq, Eq, Structural, Debug)]
pub enum ArithSource {
    Reg(RegTarget),
    Imm8(u8),
    AddrHL,
}

/// The operand of INC/DEC: an 8-bit or a 16-bit register.
#[derive(Clone, Copy, PartialEq, Eq, Structural, Debug)]
pub enum IncDecTarget {
    Reg8(RegTarget),
    Reg16(Reg16Target),
}

/// A 16-bit register.
#[derive(Clone, Copy, PartialEq, Eq, Structural, Debug)]
pub enum Reg16Target {
    BC,
    DE,
    HL,
    SP,
    AF,
}

/// A branch condition.
#[derive(Clone, Copy, PartialEq, Eq, Structural, Debug)]
pub enum JumpCondition {
    Unconditional,
    NZ,
    Z,
    NC,
    C,
}

/// The target of an absolute jump.
#[derive(Clone, Copy, PartialEq, Eq, Structural, Debug)]
pub enum JumpTarget {
    Imm16(u16),
    HL,
}

/// A register pair that PUSH and POP move.
#[derive(Clone, Copy, PartialEq, Eq, Structural, Debug)]
pub enum StackTarget {
    BC,
    DE,
    HL,
    AF,
}

/// The instruction and its length that the instruction decoder knows for an opcode: NOP, and
/// the LD r,r' block with HALT at 0x76.
pub open spec fn decoded(opcode: u8) -> Option<(Instruction, usize)> {
    if opcode == 0x00 {
        Some((Instruction::NOP, 1usize))
    } else if opcode == 0x76 {
        Some((Instruction::HALT, 1usize))
    } else if 0x40 <= opcode <= 0x7F {
        Some(
            (
                Instruction::LD(
                    LDTarget::Reg(target_of_bits((opcode / 8) % 8)),
                    LDSource::Reg(target_of_bits(opcode % 8)),
                ),
                1usize,
            ),
        )
    } else {
        None
    }
}

/// Decodes an opcode (the bytes after it are not needed by the opcodes it knows).
pub fn decode_instruction(opcode: u8, immediate: &[u8]) -> (r: Option<(Instruction, usize)>)
    ensures
        r == decoded(opcode),
{
    if opcode == 0x00 {
        Some((Instruction::NOP, 1))
    } else if 0x40 <= opcode && opcode <= 0x7F {
        decode_ld_reg_reg(opcode)
    } else {
        None
    }
}

/// Decodes LD r,r' (0x40..=0x7F), where 0x76 is HALT.
fn decode_ld_reg_reg(opcode: u8) -> (r: Option<(Instruction, usize)>)
    requires
        0x40 <= opcode <= 0x7F,
    ensures
        r == decoded(opcode),
{
    if opcode == 0x76 {
        return Some((Instruction::HALT, 1));
    }
    let dst = (opcode >> 3) & 0x07;
    let src = opcode & 0x07;
    proof {
        crate::bits::lemma_u8_bits(opcode);
    }
    let dst_reg = reg_from(dst);
    let src_reg = reg_from(src);
    Some((Instruction::LD(LDTarget::Reg(dst_reg), LDSource::Reg(src_reg)), 1))
}

/// An INC or DEC instruction.
#[derive(Clone, Copy, PartialEq, Eq, Structural, Debug)]
pub enum IncDecInstruction {
    Inc(IncDecTarget),
    Dec(IncDecTarget),
}

/// The 16-bit register that bits 5..4 of INC rr / DEC rr / ADD HL,rr name.
pub open spec fn pair_of(p: u8) -> Reg16Target {
    if p == 0 {
        Reg16Target::BC
    } else if p == 1 {
        Reg16Target::DE
    } else if p == 2 {
        Reg16Target::HL
    } else {
        Reg16Target::SP
    }
}

fn pair_from(p: u8) -> (r: Reg16Target)
    ensures
        r == pair_of(p),
{
    match p {
        0 => Reg16Target::BC,
        1 => Reg16Target::DE,
        2 => Reg16Target::HL,
        _ => Reg16Target::SP,
    }
}

/// The INC/DEC instruction an opcode encodes: 00rrr100, 00rrr101, 00pp0011, 00pp1011.
pub open spec fn incdec_decode(op: u8) -> Option<IncDecInstruction> {
    if op <= 0x3F && op % 8 == 4 {
        Some(IncDecInstruction::Inc(IncDecTarget::Reg8(target_of_bits(op / 8))))
    } else if op <= 0x3F && op % 8 == 5 {
        Some(IncDecInstruction::Dec(IncDecTarget::Reg8(target_of_bits(op / 8))))
    } else if op <= 0x3F && op % 16 == 3 {
        Some(IncDecInstruction::Inc(IncDecTarget::Reg16(pair_of(op / 16))))
    } else if op <= 0x3F && op % 16 == 0x0B {
        Some(IncDecInstruction::Dec(IncDecTarget::Reg16(pair_of(op / 16))))
    } else {
        None
    }
}

impl IncDecInstruction {
    /// Decodes an INC/DEC opcode.
    pub fn decode(opcode: u8) -> (r: Option<IncDecInstruction>)
        ensures
            r == incdec_decode(opcode),
    {
        proof {
            crate::bits::lemma_u8_bits(opcode);
        }
        if opcode <= 0x3F && opcode & 0x07 == 4 {
            Some(IncDecInstruction::Inc(IncDecTarget::Reg8(reg_from(opcode >> 3))))
        } else if opcode <= 0x3F && opcode & 0x07 == 5 {
            Some(IncDecInstruction::Dec(IncDecTarget::Reg8(reg_from(opcode >> 3))))
        } else if opcode <= 0x3F && opcode & 0x0F == 3 {
            Some(IncDecInstruction::Inc(IncDecTarget::Reg16(pair_from(opcode >> 4))))
        } else if opcode <= 0x3F && opcode & 0x0F == 0x0B {
            Some(IncDecInstruction::Dec(IncDecTarget::Reg16(pair_from(opcode >> 4))))
        } else {
            None
        }
    }
}

/// A 16-bit arithmetic operation.
#[derive(Clone, Copy, PartialEq, Eq, Structural, Debug)]
pub enum SixteenBitOp {
    AddHl,
    Inc,
    Dec,
    AddSp,
}

/// A 16-bit arithmetic instruction.
#[derive(Clone, Copy, PartialEq, Eq, Structural, Debug)]
pub enum SixteenBitInstruction {
    Op(SixteenBitOp, Reg16Target),
    AddSpImm(i8),
}

/// The 16-bit instruction an opcode encodes: ADD HL,rr (00pp1001), INC rr, DEC rr.
pub open spec fn sixteen_decode(op: u8) -> Option<SixteenBitInstruction> {
    if op <= 0x3F && op % 16 == 9 {
        Some(SixteenBitInstruction::Op(SixteenBitOp::AddHl, pair_of(op / 16)))
    } else if op <= 0x3F && op % 16 == 3 {
        Some(SixteenBitInstruction::Op(SixteenBitOp::Inc, pair_of(op / 16)))
    } else if op <= 0x3F && op % 16 == 0x0B {
        Some(SixteenBitInstruction::Op(SixteenBitOp::Dec, pair_of(op / 16)))
    } else {
        None
    }
}

impl SixteenBitInstruction {
    /// Decodes a 16-bit arithmetic opcode.
    pub fn decode(opcode: u8) -> (r: Option<SixteenBitInstruction>)
        ensures
            r == sixteen_decode(opcode),
    {
        proof {
            crate::bits::lemma_u8_bits(opcode);
        }
        let p = pair_from(opcode >> 4);
        if opcode <= 0x3F && opcode & 0x0F == 9 {
            Some(SixteenBitInstruction::Op(SixteenBitOp::AddHl, p))
        } else if opcode <= 0x3F && opcode & 0x0F == 3 {
            Some(SixteenBitInstruction::Op(SixteenBitOp::Inc, p))
        } else if opcode <= 0x3F && opcode & 0x0F == 0x0B {
            Some(SixteenBitInstruction::Op(SixteenBitOp::Dec, p))
        } else {
            None
        }
    }
}

/// A CB-prefixed operation.
#[derive(Clone, Copy, PartialEq, Eq, Structural, Debug)]
pub enum CbOp {
    Rlc,
    Rrc,
    Rl,
    Rr,
    Sla,
    Sra,
    Swap,
    Srl,
    Bit(u8),
    Res(u8),
    SetBit(u8),
}

/// A CB-prefixed instruction: an operation on a register operand.
#[derive(Clone, Copy, PartialEq, Eq, Structural, Debug)]
pub enum CbInstruction {
    Op(CbOp, RegTarget),
}

/// The CB operation bits 7..3 of a CB opcode select.
pub open spec fn cb_op_of(h: u8) -> CbOp {
    if h == 0 {
        CbOp::Rlc
    } else if h == 1 {
        CbOp::Rrc
    } else if h == 2 {
        CbOp::Rl
    } else if h == 3 {
        CbOp::Rr
    } else if h == 4 {
        CbOp::Sla
    } else if h == 5 {
        CbOp::Sra
    } else if h == 6 {
        CbOp::Swap
    } else if h == 7 {
        CbOp::Srl
    } else if h < 16 {
        CbOp::Bit((h - 8) as u8)
    } else if h < 24 {
        CbOp::Res((h - 16) as u8)
    } else {
        CbOp::SetBit((h - 24) as u8)
    }
}

impl CbInstruction {
    /// Decodes a CB opcode: bits 7..3 select the operation, bits 2..0 the operand.
    pub fn decode(cb_opcode: u8) -> (r: Option<CbInstruction>)
        ensures
            r == Some(CbInstruction::Op(cb_op_of(cb_opcode / 8), target_of_bits(cb_opcode % 8))),
    {
        proof {
            crate::bits::lemma_u8_bits(cb_opcode);
        }
        let reg = reg_from(cb_opcode & 0x07);
        let op_high = cb_opcode >> 3;
        let op = if op_high == 0 {
            CbOp::Rlc
        } else if op_high == 1 {
            CbOp::Rrc
        } else if op_high == 2 {
            CbOp::Rl
        } else if op_high == 3 {
            CbOp::Rr
        } else if op_high == 4 {
            CbOp::Sla
        } else if op_high == 5 {
            CbOp::Sra
        } else if op_high == 6 {
            CbOp::Swap
        } else if op_high == 7 {
            CbOp::Srl
        } else if op_high < 16 {
            CbOp::Bit(op_high - 8)
        } else if op_high < 24 {
            CbOp::Res(op_high - 16)
        } else {
            CbOp::SetBit(op_high - 24)
        };
        Some(CbInstruction::Op(op, reg))
    }
}

/// EI or DI.
#[derive(Clone, Copy, PartialEq, Eq, Structural, Debug)]
pub enum InterruptOp {
    Enable,
    Disable,
}

/// An interrupt-control instruction.
#[derive(Clone, Copy, PartialEq, Eq, Structural, Debug)]
pub enum InterruptInstruction {
    Control(InterruptOp),
}

impl InterruptInstruction {
    /// Decodes DI (0xF3) and EI (0xFB).
    pub fn decode(opcode: u8) -> (r: Option<InterruptInstruction>)
        ensures
            r == (if opcode == 0xF3 {
                Some(InterruptInstruction::Control(InterruptOp::Disable))
            } else if opcode == 0xFB {
                Some(InterruptInstruction::Control(InterruptOp::Enable))
            } else {
                None
            }),
    {
        match opcode {
            0xF3 => Some(InterruptInstruction::Control(InterruptOp::Disable)),
            0xFB => Some(InterruptInstruction::Control(InterruptOp::Enable)),
            _ => None,
        }
    }
}

/// An interrupt source.
#[derive(Clone, Copy, PartialEq, Eq, Structural, Debug)]
pub enum InterruptType {
    VBlank,
    LcdStat,
    Timer,
    Serial,
    Joypad,
}

/// The bit of an interrupt source in IE and IF.
pub open spec fn type_bit(t: InterruptType) -> u8 {
    match t {
        InterruptType::VBlank => 0,
        InterruptType::LcdStat => 1,
        InterruptType::Timer => 2,
        InterruptType::Serial => 3,
        InterruptType::Joypad => 4,
    }
}

impl InterruptType {
    /// The address the CPU jumps to when servicing the interrupt.
    pub fn vector_address(&self) -> (r: u16)
        ensures
            r == 0x40 + 8 * type_bit(*self),
    {
        match self {
            InterruptType::VBlank => 0x40,
            InterruptType::LcdStat => 0x48,
            InterruptType::Timer => 0x50,
            InterruptType::Serial => 0x58,
            InterruptType::Joypad => 0x60,
        }
    }

    /// The mask of the interrupt in IE and IF.
    pub fn bit_mask(&self) -> (r: u8)
        ensures
            r == 1u8 << type_bit(*self),
    {
        let bit: u8 = match self {
            InterruptType::VBlank => 0,
            InterruptType::LcdStat => 1,
            InterruptType::Timer => 2,
            InterruptType::Serial => 3,
            InterruptType::Joypad => 4,
        };
        1u8 << bit
    }
}

/// A request to service an interrupt.
#[derive(Clone, Copy, PartialEq, Eq, Structural, Debug)]
pub enum InterruptService {
    Service(InterruptType),
}

/// HALT or STOP.
#[derive(Clone, Copy, PartialEq, Eq, Structural, Debug)]
pub enum ControlInstruction {
    Halt,
    Stop,
}

impl ControlInstruction {
    /// Decodes HALT (0x76) and STOP (0x10).
    pub fn decode(opcode: u8) -> (r: Option<ControlInstruction>)
        ensures
            r == (if opcode == 0x76 {
                Some(ControlInstruction::Halt)
            } else if opcode == 0x10 {
                Some(ControlInstruction::Stop)
            } else {
                None
            }),
    {
        match opcode {
            0x76 => Some(ControlInstruction::Halt),
            0x10 => Some(ControlInstruction::Stop),
            _ => None,
        }
    }
}

} // verus!
