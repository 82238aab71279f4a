use vstd::prelude::*;
use crate::emu_core::cpu::flags::{Flag, Flags, flag_mask, with_bits};
use crate::emu_core::cpu::register_utils::{FlagOperations, RegTarget};

verus! {

/// The CPU registers of the emulator core.
pub struct Registers {
    pub a: u8,
    pub flags: Flags,
    pub b: u8,
    pub c: u8,
    pub d: u8,
    pub e: u8,
    pub h: u8,
    pub l: u8,
    pub sp: u16,
    pub pc: u16,
}

/// The 16-bit value of a register pair (`hi` is the high byte).
pub open spec fn word(hi: u8, lo: u8) -> u16 {
    (hi as int * 256 + lo as int) as u16
}

/// The register that an index names (0:A, 1:B, 2:C, 3:D, 4:E, 5:H, 6:L, 7:F); 0 for others.
pub open spec fn reg_at(r: Registers, idx: u8) -> u8 {
    if idx == 0 {
        r.a
    } else if idx == 1 {
        r.b
    } else if idx == 2 {
        r.c
    } else if idx == 3 {
        r.d
    } else if idx == 4 {
        r.e
    } else if idx == 5 {
        r.h
    } else if idx == 6 {
        r.l
    } else if idx == 7 {
        r.flags@
    } else {
        0
    }
}

/// The registers after `set_by_index(idx, v)`: index 7 sets F to the upper nibble of `v`,
/// indices above 7 change nothing.
pub open spec fn set_index(r: Registers, idx: u8, v: u8) -> Registers {
    if idx == 0 {
        Registers { a: v, ..r }
    } else if idx == 1 {
        Registers { b: v, ..r }
    } else if idx == 2 {
        Registers { c: v, ..r }
    } else if idx == 3 {
        Registers { d: v, ..r }
    } else if idx == 4 {
        Registers { e: v, ..r }
    } else if idx == 5 {
        Registers { h: v, ..r }
    } else if idx == 6 {
        Registers { l: v, ..r }
    } else if idx == 7 {
        Registers { flags: Flags { value: v & 0xF0 }, ..r }
    } else {
        r
    }
}

/// The flag byte with Z, N, H and C as given and the rest of `f` kept.
pub open spec fn flags_with(f: u8, z: bool, n: bool, h: bool, c: bool) -> u8 {
    with_bits(with_bits(with_bits(with_bits(f, 0x80, z), 0x40, n), 0x20, h), 0x10, c)
}

proof fn lemma_word(hi: u8, lo: u8)
    ensures
        word(hi, lo) == ((hi as u16) << 8) | (lo as u16),
        (word(hi, lo) >> 8) as u8 == hi,
        word(hi, lo) as u8 == lo,
{
    crate::bits::lemma_u16_join(hi, lo);
}

proof fn lemma_split(v: u16)
    ensures
        word((v >> 8) as u8, v as u8) == v,
{
    crate::bits::lemma_u16_bits(v);
}

impl Registers {
    /// The register that an index names (0:A, 1:B, 2:C, 3:D, 4:E, 5:H, 6:L, 7:F); 0 for others.
    pub fn get_by_index(&self, idx: u8) -> (r: u8)
        ensures
            r == reg_at(*self, idx),
    {
        match idx {
            0 => self.get_a(),
            1 => self.get_b(),
            2 => self.get_c(),
            3 => self.get_d(),
            4 => self.get_e(),
            5 => self.get_h(),
            6 => self.get_l(),
            7 => self.get_f(),
            _ => 0,
        }
    }

    /// Sets the register that an index names (7 sets F to the upper nibble of `value`);
    /// other indices change nothing.
    pub fn set_by_index(&mut self, idx: u8, value: u8)
        ensures
            *final(self) == set_index(*old(self), idx, value),
    {
        match idx {
            0 => self.set_a(value),
            1 => self.set_b(value),
            2 => self.set_c(value),
            3 => self.set_d(value),
            4 => self.set_e(value),
            5 => self.set_h(value),
            6 => self.set_l(value),
            7 => self.flags = Flags::new(value & 0xF0),
            _ => {},
        }
    }

    /// The register values after the boot ROM.
    pub fn new() -> (r: Registers)
        ensures
            r.a == 0x01 && r.flags@ == 0xB0 && r.b == 0x00 && r.c == 0x13 && r.d == 0x00 && r.e
                == 0xD8 && r.h == 0x01 && r.l == 0x4D && r.sp == 0xFFFE && r.pc == 0x0100,
    {
        Registers {
            a: 0x01,
            flags: Flags::new(0xB0),
            b: 0x00,
            c: 0x13,
            d: 0x00,
            e: 0xD8,
            h: 0x01,
            l: 0x4D,
            sp: 0xFFFE,
            pc: 0x0100,
        }
    }

    /// Sets or clears one flag.
    pub fn set_flag(&mut self, flag: Flag, value: bool)
        ensures
            *final(self) == (Registers { flags: final(self).flags, ..*old(self) }),
            final(self).flags@ == with_bits(old(self).flags@, flag_mask(flag), value),
    {
        self.flags.set(flag.mask(), value);
    }

    /// Whether one flag is set.
    pub fn get_flag(&self, flag: Flag) -> (r: bool)
        ensures
            r == (self.flags@ & flag_mask(flag) != 0),
    {
        self.flags.get(flag.mask())
    }

    /// The pair AF.
    pub fn get_af(&self) -> (r: u16)
        ensures
            r == word(self.a, self.flags@),
    {
        proof {
            lemma_word(self.a, self.flags@);
        }
        ((self.a as u16) << 8) | (self.flags.value() as u16)
    }

    /// Sets AF; F keeps only its upper nibble.
    pub fn set_af(&mut self, value: u16)
        ensures
            *final(self) == (Registers { a: (value >> 8) as u8, flags: final(self).flags, ..*old(self) }),
            final(self).flags@ == (value as u8) & 0xF0,
    {
        self.a = (value >> 8) as u8;
        self.flags = Flags::new(value as u8 & 0xF0);
    }

    /// The pair BC.
    pub fn get_bc(&self) -> (r: u16)
        ensures
            r == word(self.b, self.c),
    {
        proof {
            lemma_word(self.b, self.c);
        }
        ((self.b as u16) << 8) | (self.c as u16)
    }

    /// Sets the pair BC.
    pub fn set_bc(&mut self, value: u16)
        ensures
            *final(self) == (Registers { b: (value >> 8) as u8, c: value as u8, ..*old(self) }),
            word(final(self).b, final(self).c) == value,
    {
        proof {
            lemma_split(value);
        }
        self.b = (value >> 8) as u8;
        self.c = value as u8;
    }

    /// The pair DE.
    pub fn get_de(&self) -> (r: u16)
        ensures
            r == word(self.d, self.e),
    {
        proof {
            lemma_word(self.d, self.e);
        }
        ((self.d as u16) << 8) | (self.e as u16)
    }

    /// Sets the pair DE.
    pub fn set_de(&mut self, value: u16)
        ensures
            *final(self) == (Registers { d: (value >> 8) as u8, e: value as u8, ..*old(self) }),
            word(final(self).d, final(self).e) == value,
    {
        proof {
            lemma_split(value);
        }
        self.d = (value >> 8) as u8;
        self.e = value as u8;
    }

    /// The pair HL.
    pub fn get_hl(&self) -> (r: u16)
        ensures
            r == word(self.h, self.l),
    {
        proof {
            lemma_word(self.h, self.l);
        }
        ((self.h as u16) << 8) | (self.l as u16)
    }

    /// Sets the pair HL.
    pub fn set_hl(&mut self, value: u16)
        ensures
            *final(self) == (Registers { h: (value >> 8) as u8, l: value as u8, ..*old(self) }),
            word(final(self).h, final(self).l) == value,
    {
        proof {
            lemma_split(value);
        }
        self.h = (value >> 8) as u8;
        self.l = value as u8;
    }

    /// The program counter.
    pub fn get_pc(&self) -> (r: u16)
        ensures
            r == self.pc,
    {
        self.pc
    }

    /// Sets the program counter.
    pub fn set_pc(&mut self, value: u16)
        ensures
            *final(self) == (Registers { pc: value, ..*old(self) }),
    {
        self.pc = value;
    }

    /// Sets the stack pointer.
    pub fn set_sp(&mut self, value: u16)
        ensures
            *final(self) == (Registers { sp: value, ..*old(self) }),
    {
        self.sp = value;
    }

    /// Sets A.
    pub fn set_a(&mut self, value: u8)
        ensures
            *final(self) == (Registers { a: value, ..*old(self) }),
    {
        self.a = value;
    }

    /// The value of A.
    pub fn get_a(&self) -> (r: u8)
        ensures
            r == self.a,
    {
        self.a
    }

    /// Sets B.
    pub fn set_b(&mut self, value: u8)
        ensures
            *final(self) == (Registers { b: value, ..*old(self) }),
    {
        self.b = value;
    }

    /// The value of B.
    pub fn get_b(&self) -> (r: u8)
        ensures
            r == self.b,
    {
        self.b
    }

    /// Sets C.
    pub fn set_c(&mut self, value: u8)
        ensures
            *final(self) == (Registers { c: value, ..*old(self) }),
    {
        self.c = value;
    }

    /// The value of C.
    pub fn get_c(&self) -> (r: u8)
        ensures
            r == self.c,
    {
        self.c
    }

    /// Sets D.
    pub fn set_d(&mut self, value: u8)
        ensures
            *final(self) == (Registers { d: value, ..*old(self) }),
    {
        self.d = value;
    }

    /// The value of D.
    pub fn get_d(&self) -> (r: u8)
        ensures
            r == self.d,
    {
        self.d
    }

    /// Sets E.
    pub fn set_e(&mut self, value: u8)
        ensures
            *final(self) == (Registers { e: value, ..*old(self) }),
    {
        self.e = value;
    }

    /// The value of E.
    pub fn get_e(&self) -> (r: u8)
        ensures
            r == self.e,
    {
        self.e
    }

    /// Sets H.
    pub fn set_h(&mut self, value: u8)
        ensures
            *final(self) == (Registers { h: value, ..*old(self) }),
    {
        self.h = value;
    }

    /// The value of H.
    pub fn get_h(&self) -> (r: u8)
        ensures
            r == self.h,
    {
        self.h
    }

    /// Sets L.
    pub fn set_l(&mut self, value: u8)
        ensures
            *final(self) == (Registers { l: value, ..*old(self) }),
    {
        self.l = value;
    }

    /// The value of L.
    pub fn get_l(&self) -> (r: u8)
        ensures
            r == self.l,
    {
        self.l
    }

    /// Sets Z, N, H and C as given; the low nibble of F is kept.
    pub fn update_flags(&mut self, z: bool, n: bool, h: bool, c: bool)
        ensures
            *final(self) == (Registers { flags: final(self).flags, ..*old(self) }),
            final(self).flags@ == flags_with(old(self).flags@, z, n, h, c),
    {
        self.flags.set_zero(z);
        self.flags.set_subtract(n);
        self.flags.set_half_carry(h);
        self.flags.set_carry(c);
    }

    /// Sets Z and C as given; N and H keep their values.
    pub fn update_zero_and_carry(&mut self, z: bool, c: bool)
        ensures
            *final(self) == (Registers { flags: final(self).flags, ..*old(self) }),
            final(self).flags@ == flags_with(
                old(self).flags@,
                z,
                old(self).flags@ & 0x40 != 0,
                old(self).flags@ & 0x20 != 0,
                c,
            ),
    {
        let n = self.get_flag(Flag::N);
        let h = self.get_flag(Flag::H);
        self.update_flags(z, n, h, c);
    }

    /// The flag byte F.
    pub fn get_f(&self) -> (r: u8)
        ensures
            r == self.flags@,
    {
        self.flags.value()
    }

    /// The value of an 8-bit register operand; 0 for (HL) and immediates.
    pub open spec fn get_reg_spec(&self, reg: RegTarget) -> u8 {
        match reg {
            RegTarget::A => self.a,
            RegTarget::B => self.b,
            RegTarget::C => self.c,
            RegTarget::D => self.d,
            RegTarget::E => self.e,
            RegTarget::H => self.h,
            RegTarget::L => self.l,
            _ => 0,
        }
    }

    /// The value of an 8-bit register operand; 0 for (HL) and immediates.
    pub fn get_reg(&self, reg: RegTarget) -> (r: u8)
        ensures
            r == self.get_reg_spec(reg),
            r == match reg {
                RegTarget::A => self.a,
                RegTarget::B => self.b,
                RegTarget::C => self.c,
                RegTarget::D => self.d,
                RegTarget::E => self.e,
                RegTarget::H => self.h,
                RegTarget::L => self.l,
                _ => 0,
            },
    {
        match reg {
            RegTarget::A => self.a,
            RegTarget::B => self.b,
            RegTarget::C => self.c,
            RegTarget::D => self.d,
            RegTarget::E => self.e,
            RegTarget::H => self.h,
            RegTarget::L => self.l,
            _ => 0,
        }
    }
}

impl FlagOperations for Registers {
    fn set_zero(&mut self, value: bool)
        ensures
            *final(self) == (Registers { flags: final(self).flags, ..*old(self) }),
            final(self).flags@ == with_bits(old(self).flags@, 0x80, value),
    {
        self.set_flag(Flag::Z, value);
    }

    fn set_subtract(&mut self, value: bool)
        ensures
            *final(self) == (Registers { flags: final(self).flags, ..*old(self) }),
            final(self).flags@ == with_bits(old(self).flags@, 0x40, value),
    {
        self.set_flag(Flag::N, value);
    }

    fn set_half_carry(&mut self, value: bool)
        ensures
            *final(self) == (Registers { flags: final(self).flags, ..*old(self) }),
            final(self).flags@ == with_bits(old(self).flags@, 0x20, value),
    {
        self.set_flag(Flag::H, value);
    }

    fn set_carry(&mut self, value: bool)
        ensures
            *final(self) == (Registers { flags: final(self).flags, ..*old(self) }),
            final(self).flags@ == with_bits(old(self).flags@, 0x10, value),
    {
        self.set_flag(Flag::C, value);
    }

    fn get_zero(&self) -> (r: bool)
        ensures
            r == (self.flags@ & 0x80 != 0),
    {
        self.get_flag(Flag::Z)
    }

    fn get_subtract(&self) -> (r: bool)
        ensures
            r == (self.flags@ & 0x40 != 0),
    {
        self.get_flag(Flag::N)
    }

    fn get_half_carry(&self) -> (r: bool)
        ensures
            r == (self.flags@ & 0x20 != 0),
    {
        self.get_flag(Flag::H)
    }

    fn get_carry(&self) -> (r: bool)
        ensures
            r == (self.flags@ & 0x10 != 0),
    {
        self.get_flag(Flag::C)
    }
}

impl Default for Registers {
    /// All registers and flags zero.
    fn default() -> (r: Registers)
        ensures
            r.a == 0 && r.flags@ == 0 && r.b == 0 && r.c == 0 && r.d == 0 && r.e == 0 && r.h == 0
                && r.l == 0 && r.sp == 0 && r.pc == 0,
    {
        Registers { a: 0, flags: Flags { value: 0 }, b: 0, c: 0, d: 0, e: 0, h: 0, l: 0, sp: 0, pc: 0 }
    }
}

} // verus!
