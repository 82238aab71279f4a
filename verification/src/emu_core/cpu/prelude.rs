use vstd::prelude::*;

verus! {

/// The number of t-cycles an instruction takes.
pub type CyclesType = u32;

/// Something that executes as one CPU instruction and reports the cycles it took.
pub trait Instruction {
    fn execute(&mut self) -> CyclesType;
}

/// Updating single flags from an instruction's result.
pub trait FlagUtils {
    fn update_zero_flag(&mut self, value: u8);

    fn update_carry_flag(&mut self, value: bool);

    fn update_half_carry_flag(&mut self, value: bool);

    fn update_subtract_flag(&mut self, value: bool);
}

/// Packs two bytes into a big-endian 16-bit word.
pub fn to_u16(high: u8, low: u8) -> (r: u16)
    ensures
        r == high as int * 256 + low as int,
{
    let r = ((high as u16) << 8) | (low as u16);
    proof {
        crate::bits::lemma_u16_join(high, low);
    }
    r
}

/// Splits a 16-bit word into its (high, low) bytes.
pub fn to_u8(val: u16) -> (r: (u8, u8))
    ensures
        r.0 == val as int / 256,
        r.1 == val as int % 256,
{
    let r = ((val >> 8) as u8, (val & 0xFF) as u8);
    proof {
        crate::bits::lemma_u16_bits(val);
    }
    r
}

} // verus!
