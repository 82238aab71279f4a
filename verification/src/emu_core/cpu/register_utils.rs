use vstd::prelude::*;
use crate::emu_core::error::{Error, InstructionError};

verus! {

/// An 8-bit operand of an instruction: a register, (HL) or an immediate byte.
#[derive(Clone, Copy, PartialEq, Eq, Structural, Debug)]
pub enum RegTarget {
    B,
    C,
    D,
    E,
    H,
    L,
    HL,
    A,
    Immediate,
}

/// The operand that a 3-bit register field names (B, C, D, E, H, L, (HL), A).
pub open spec fn target_of_bits(bits: u8) -> RegTarget {
    if bits == 0 {
        RegTarget::B
    } else if bits == 1 {
        RegTarget::C
    } else if bits == 2 {
        RegTarget::D
    } else if bits == 3 {
        RegTarget::E
    } else if bits == 4 {
        RegTarget::H
    } else if bits == 5 {
        RegTarget::L
    } else if bits == 6 {
        RegTarget::HL
    } else {
        RegTarget::A
    }
}

/// The printed name of an operand ("Imm" for an immediate).
pub open spec fn target_name(t: RegTarget) -> Seq<char> {
    match t {
        RegTarget::B => "B"@,
        RegTarget::C => "C"@,
        RegTarget::D => "D"@,
        RegTarget::E => "E"@,
        RegTarget::H => "H"@,
        RegTarget::L => "L"@,
        RegTarget::HL => "HL"@,
        RegTarget::A => "A"@,
        RegTarget::Immediate => "Imm"@,
    }
}

impl RegTarget {
    /// The operand that a register field names; values above 7 are invalid registers.
    pub fn from_bits(bits: u8) -> (r: Result<RegTarget, Error>)
        ensures
            bits <= 7 ==> r == Ok::<RegTarget, Error>(target_of_bits(bits)),
            bits > 7 ==> (r matches Err(Error::Instruction(InstructionError::InvalidRegister(b)))
                && b == bits),
    {
        match bits {
            0 => Ok(RegTarget::B),
            1 => Ok(RegTarget::C),
            2 => Ok(RegTarget::D),
            3 => Ok(RegTarget::E),
            4 => Ok(RegTarget::H),
            5 => Ok(RegTarget::L),
            6 => Ok(RegTarget::HL),
            7 => Ok(RegTarget::A),
            _ => Err(Error::Instruction(InstructionError::InvalidRegister(bits))),
        }
    }

    /// The name of the operand.
    pub fn name(&self) -> (r: &'static str)
        ensures
            r@ == target_name(*self),
    {
        match self {
            RegTarget::B => "B",
            RegTarget::C => "C",
            RegTarget::D => "D",
            RegTarget::E => "E",
            RegTarget::H => "H",
            RegTarget::L => "L",
            RegTarget::HL => "HL",
            RegTarget::A => "A",
            RegTarget::Immediate => "Imm",
        }
    }
}

/// The register pair that the low nibble names (BC, DE, HL); others name none.
pub fn get_reg_pair(bits: u8) -> (r: Option<(RegTarget, RegTarget)>)
    ensures
        r == (if bits % 16 == 0 {
            Some((RegTarget::B, RegTarget::C))
        } else if bits % 16 == 1 {
            Some((RegTarget::D, RegTarget::E))
        } else if bits % 16 == 2 {
            Some((RegTarget::H, RegTarget::L))
        } else {
            None
        }),
{
    proof {
        crate::bits::lemma_u8_bits(bits);
    }
    match bits & 0x0F {
        0x00 => Some((RegTarget::B, RegTarget::C)),
        0x01 => Some((RegTarget::D, RegTarget::E)),
        0x02 => Some((RegTarget::H, RegTarget::L)),
        _ => None,
    }
}

/// The operand that the low three bits name.
pub fn get_reg_target(bits: u8) -> (r: Option<RegTarget>)
    ensures
        r == Some(target_of_bits(bits % 8)),
{
    proof {
        crate::bits::lemma_u8_bits(bits);
    }
    match bits & 0x07 {
        0x00 => Some(RegTarget::B),
        0x01 => Some(RegTarget::C),
        0x02 => Some(RegTarget::D),
        0x03 => Some(RegTarget::E),
        0x04 => Some(RegTarget::H),
        0x05 => Some(RegTarget::L),
        0x06 => Some(RegTarget::HL),
        _ => Some(RegTarget::A),
    }
}

/// Setting and reading the four CPU flags.
pub trait FlagOperations {
    fn set_zero(&mut self, value: bool);

    fn set_subtract(&mut self, value: bool);

    fn set_half_carry(&mut self, value: bool);

    fn set_carry(&mut self, value: bool);

    fn get_zero(&self) -> bool;

    fn get_subtract(&self) -> bool;

    fn get_half_carry(&self) -> bool;

    fn get_carry(&self) -> bool;
}

/// Whether the 16-bit sum `a + b + c` carries out of bit 15.
pub fn calc_16bit_carry(a: u16, b: u16, c: bool) -> (r: bool)
    ensures
        r == (a + b + (if c {
            1int
        } else {
            0int
        }) > 0xFFFF),
{
    let c_in: u32 = if c {
        1
    } else {
        0
    };
    let result = (a as u32) + (b as u32) + c_in;
    result > 0xFFFF
}

/// Whether the 8-bit sum `a + b + c` carries out of bit 3.
pub fn calc_half_carry(a: u8, b: u8, c: bool) -> (r: bool)
    ensures
        r == (a % 16 + b % 16 + (if c {
            1int
        } else {
            0int
        }) > 0x0F),
{
    let c_in: u8 = if c {
        1
    } else {
        0
    };
    proof {
        crate::bits::lemma_u8_bits(a);
        crate::bits::lemma_u8_bits(b);
    }
    let result = (a & 0x0F) + (b & 0x0F) + c_in;
    result > 0x0F
}

/// Whether the 16-bit sum `a + b` carries out of bit 11.
pub fn calc_16bit_half_carry(a: u16, b: u16) -> (r: bool)
    ensures
        r == (a % 4096 + b % 4096 > 0x0FFF),
{
    proof {
        crate::bits::lemma_u16_bits(a);
        crate::bits::lemma_u16_bits(b);
    }
    ((a & 0x0FFF) + (b & 0x0FFF)) > 0x0FFF
}

} // verus!
