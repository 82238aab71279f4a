use vstd::prelude::*;

verus! {

/// An error of the emulator core.
#[derive(Debug)]
pub enum Error {
    Unknown,
    Instruction(InstructionError),
    Hardware(HardwareError),
}

/// A hardware fault.
#[derive(Debug)]
pub enum HardwareError {
    Unknown,
    MemoryWrite(u16),
    PPU(String),
}

/// A fault while decoding or executing an instruction.
#[derive(Debug)]
pub enum InstructionError {
    Unknown,
    InvalidOpcode(u8),
    InvalidRegister(u8),
    InvalidCondition(u8),
    Custom(String),
}

/// A CPU register, single or paired.
#[derive(Clone, Copy, PartialEq, Eq, Debug)]
pub enum RegTarget {
    A,
    B,
    C,
    D,
    E,
    H,
    L,
    F,
    HL,
    BC,
    DE,
    SP,
    PC,
}

/// The single register that a 3-bit index names (A, B, C, D, E, H, L, F).
pub open spec fn reg_of_bits(bits: u8) -> RegTarget {
    if bits == 0 {
        RegTarget::A
    } else if bits == 1 {
        RegTarget::B
    } else if bits == 2 {
        RegTarget::C
    } else if bits == 3 {
        RegTarget::D
    } else if bits == 4 {
        RegTarget::E
    } else if bits == 5 {
        RegTarget::H
    } else if bits == 6 {
        RegTarget::L
    } else {
        RegTarget::F
    }
}

impl RegTarget {
    /// The single register that `bits` names (0..=7: A, B, C, D, E, H, L, F); any larger value
    /// is an invalid register.
    pub fn from_bits(bits: u8) -> (r: Result<RegTarget, Error>)
        ensures
            bits <= 7 ==> r == Ok::<RegTarget, Error>(reg_of_bits(bits)),
            bits > 7 ==> (r matches Err(Error::Instruction(InstructionError::InvalidRegister(b)))
                && b == bits),
    {
        match bits {
            0 => Ok(RegTarget::A),
            1 => Ok(RegTarget::B),
            2 => Ok(RegTarget::C),
            3 => Ok(RegTarget::D),
            4 => Ok(RegTarget::E),
            5 => Ok(RegTarget::H),
            6 => Ok(RegTarget::L),
            7 => Ok(RegTarget::F),
            _ => Err(Error::Instruction(InstructionError::InvalidRegister(bits))),
        }
    }
}

} // verus!
