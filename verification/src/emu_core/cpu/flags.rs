use vstd::prelude::*;

verus! {

/// One CPU flag.
#[derive(Clone, Copy, PartialEq, Eq, Debug)]
pub enum Flag {
    Z,
    N,
    H,
    C,
}

/// The bit of a flag in register F.
pub open spec fn flag_mask(f: Flag) -> u8 {
    match f {
        Flag::Z => 0x80u8,
        Flag::N => 0x40u8,
        Flag::H => 0x20u8,
        Flag::C => 0x10u8,
    }
}

impl Flag {
    /// The bit of the flag in register F.
    pub fn mask(self) -> (r: u8)
        ensures
            r == flag_mask(self),
    {
        match self {
            Flag::Z => 0x80,
            Flag::N => 0x40,
            Flag::H => 0x20,
            Flag::C => 0x10,
        }
    }
}

/// Register F as a byte of flag bits.
#[derive(Clone, Copy, Debug)]
pub struct Flags {
    pub value: u8,
}

impl View for Flags {
    type V = u8;

    open spec fn view(&self) -> u8 {
        self.value
    }
}

/// `v` with the bits of `mask` set or cleared.
pub open spec fn with_bits(v: u8, mask: u8, on: bool) -> u8 {
    if on {
        v | mask
    } else {
        v & !mask
    }
}

impl Flags {
    /// Flags holding the byte `value`.
    pub fn new(value: u8) -> (r: Flags)
        ensures
            r@ == value,
    {
        Flags { value }
    }

    /// The flag byte.
    pub fn value(&self) -> (r: u8)
        ensures
            r == self@,
    {
        self.value
    }

    /// Whether any bit of `mask` is set.
    pub fn get(&self, mask: u8) -> (r: bool)
        ensures
            r == (self@ & mask != 0),
    {
        self.value & mask != 0
    }

    /// Sets or clears the bits of `mask`.
    pub fn set(&mut self, mask: u8, on: bool)
        ensures
            final(self)@ == with_bits(old(self)@, mask, on),
    {
        if on {
            self.value = self.value | mask;
        } else {
            self.value = self.value & !mask;
        }
    }

    /// Sets or clears Z.
    pub fn set_zero(&mut self, on: bool)
        ensures
            final(self)@ == with_bits(old(self)@, 0x80, on),
    {
        self.set(0x80, on);
    }

    /// Sets or clears N.
    pub fn set_subtract(&mut self, on: bool)
        ensures
            final(self)@ == with_bits(old(self)@, 0x40, on),
    {
        self.set(0x40, on);
    }

    /// Sets or clears H.
    pub fn set_half_carry(&mut self, on: bool)
        ensures
            final(self)@ == with_bits(old(self)@, 0x20, on),
    {
        self.set(0x20, on);
    }

    /// Sets or clears C.
    pub fn set_carry(&mut self, on: bool)
        ensures
            final(self)@ == with_bits(old(self)@, 0x10, on),
    {
        self.set(0x10, on);
    }
}

} // verus!
