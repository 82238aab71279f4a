use vstd::prelude::*;

verus! {

/// The byte that the four CPU flags occupy in register F (Z=bit7, N=bit6, H=bit5, C=bit4).
pub open spec fn flags_byte(z: bool, n: bool, h: bool, c: bool) -> u8 {
    ((if z { 0x80int } else { 0 }) + (if n { 0x40int } else { 0 }) + (if h { 0x20int } else { 0 })
        + (if c { 0x10int } else { 0 })) as u8
}

/// Flag Z of a flag byte.
pub open spec fn fz(f: u8) -> bool {
    f & 0x80 != 0
}

/// Flag N of a flag byte.
pub open spec fn fnn(f: u8) -> bool {
    f & 0x40 != 0
}

/// Flag H of a flag byte.
pub open spec fn fh(f: u8) -> bool {
    f & 0x20 != 0
}

/// Flag C of a flag byte.
pub open spec fn fc(f: u8) -> bool {
    f & 0x10 != 0
}

/// Decoding a composed flag byte gives back each flag, and the low nibble is clear.
pub proof fn lemma_flags_byte(z: bool, n: bool, h: bool, c: bool)
    ensures
        fz(flags_byte(z, n, h, c)) == z,
        fnn(flags_byte(z, n, h, c)) == n,
        fh(flags_byte(z, n, h, c)) == h,
        fc(flags_byte(z, n, h, c)) == c,
        flags_byte(z, n, h, c) & 0x0F == 0,
{
    let zb: u8 = if z { 0x80u8 } else { 0u8 };
    let nb: u8 = if n { 0x40u8 } else { 0u8 };
    let hb: u8 = if h { 0x20u8 } else { 0u8 };
    let cb: u8 = if c { 0x10u8 } else { 0u8 };
    let s: u8 = (zb + nb + hb + cb) as u8;
    assert(s == flags_byte(z, n, h, c));
    assert((s & 0x80 != 0) == (zb == 0x80) && (s & 0x40 != 0) == (nb == 0x40) && (s & 0x20 != 0)
        == (hb == 0x20) && (s & 0x10 != 0) == (cb == 0x10) && s & 0x0F == 0) by (bit_vector)
        requires
            zb == 0x80 || zb == 0,
            nb == 0x40 || nb == 0,
            hb == 0x20 || hb == 0,
            cb == 0x10 || cb == 0,
            s == zb + nb + hb + cb,
    ;
}

/// Composing the decoded flags of any byte gives the byte with its low nibble cleared.
pub proof fn lemma_flags_decode(v: u8)
    ensures
        flags_byte(fz(v), fnn(v), fh(v), fc(v)) == v & 0xF0,
{
    let zb: u8 = if v & 0x80 != 0 { 0x80u8 } else { 0u8 };
    let nb: u8 = if v & 0x40 != 0 { 0x40u8 } else { 0u8 };
    let hb: u8 = if v & 0x20 != 0 { 0x20u8 } else { 0u8 };
    let cb: u8 = if v & 0x10 != 0 { 0x10u8 } else { 0u8 };
    assert((zb + nb + hb + cb) == v & 0xF0) by (bit_vector)
        requires
            zb == (if v & 0x80 != 0 { 0x80u8 } else { 0u8 }),
            nb == (if v & 0x40 != 0 { 0x40u8 } else { 0u8 }),
            hb == (if v & 0x20 != 0 { 0x20u8 } else { 0u8 }),
            cb == (if v & 0x10 != 0 { 0x10u8 } else { 0u8 }),
    ;
}

/// The CPU flag set: Zero, Subtract, Half-carry and Carry.
#[derive(Clone, Copy)]
pub struct Flags {
    z: bool,
    n: bool,
    h: bool,
    c: bool,
}

impl View for Flags {
    type V = u8;

    closed spec fn view(&self) -> u8 {
        flags_byte(self.z, self.n, self.h, self.c)
    }
}

/// The low nibble of a flag byte is always clear.
pub proof fn lemma_flags_wf(f: Flags)
    ensures
        f@ & 0x0F == 0,
{
    lemma_flags_byte(f.z, f.n, f.h, f.c);
}

/// Every flag set is determined by its byte.
pub proof fn lemma_flags_view_injective(a: Flags, b: Flags)
    requires
        a@ == b@,
    ensures
        a == b,
{
    lemma_flags_byte(a.z, a.n, a.h, a.c);
    lemma_flags_byte(b.z, b.n, b.h, b.c);
}

impl Flags {
    /// The zero flag alone.
    pub fn z() -> (r: Flags)
        ensures
            r@ == 0x80,
    {
        proof {
            lemma_flags_byte(true, false, false, false);
        }
        Flags { z: true, n: false, h: false, c: false }
    }

    /// The subtract flag alone.
    pub fn n() -> (r: Flags)
        ensures
            r@ == 0x40,
    {
        proof {
            lemma_flags_byte(false, true, false, false);
        }
        Flags { z: false, n: true, h: false, c: false }
    }

    /// The half-carry flag alone.
    pub fn h() -> (r: Flags)
        ensures
            r@ == 0x20,
    {
        proof {
            lemma_flags_byte(false, false, true, false);
        }
        Flags { z: false, n: false, h: true, c: false }
    }

    /// The carry flag alone.
    pub fn c() -> (r: Flags)
        ensures
            r@ == 0x10,
    {
        proof {
            lemma_flags_byte(false, false, false, true);
        }
        Flags { z: false, n: false, h: false, c: true }
    }

    /// No flag set.
    pub fn empty() -> (r: Flags)
        ensures
            r@ == 0,
    {
        proof {
            lemma_flags_byte(false, false, false, false);
        }
        Flags { z: false, n: false, h: false, c: false }
    }

    /// The flags whose bits are set in `v`; the low nibble is ignored.
    pub fn from_bits_truncate(v: u8) -> (r: Flags)
        ensures
            r@ == v & 0xF0,
    {
        proof {
            lemma_flags_decode(v);
        }
        Flags { z: v & 0x80 != 0, n: v & 0x40 != 0, h: v & 0x20 != 0, c: v & 0x10 != 0 }
    }

    /// The flag byte.
    pub fn bits(&self) -> (r: u8)
        ensures
            r == self@,
            r & 0x0F == 0,
    {
        proof {
            lemma_flags_byte(self.z, self.n, self.h, self.c);
        }
        let zb: u8 = if self.z { 0x80 } else { 0 };
        let nb: u8 = if self.n { 0x40 } else { 0 };
        let hb: u8 = if self.h { 0x20 } else { 0 };
        let cb: u8 = if self.c { 0x10 } else { 0 };
        zb + nb + hb + cb
    }

    /// Whether every flag of `other` is set in `self`.
    pub fn contains(&self, other: Flags) -> (r: bool)
        ensures
            r == (self@ & other@ == other@),
    {
        proof {
            lemma_flags_byte(self.z, self.n, self.h, self.c);
            lemma_flags_byte(other.z, other.n, other.h, other.c);
            let s = self@;
            let o = other@;
            assert(((s & o) == o) == ((o & 0x80 != 0 ==> s & 0x80 != 0) && (o & 0x40 != 0 ==> s
                & 0x40 != 0) && (o & 0x20 != 0 ==> s & 0x20 != 0) && (o & 0x10 != 0 ==> s & 0x10
                != 0))) by (bit_vector)
                requires
                    s & 0x0F == 0,
                    o & 0x0F == 0,
            ;
        }
        (!other.z || self.z) && (!other.n || self.n) && (!other.h || self.h) && (!other.c
            || self.c)
    }

    /// Sets every flag of `other`.
    pub fn insert(&mut self, other: Flags)
        ensures
            final(self)@ == old(self)@ | other@,
    {
        proof {
            lemma_or_flags(*old(self), other);
        }
        self.z = self.z || other.z;
        self.n = self.n || other.n;
        self.h = self.h || other.h;
        self.c = self.c || other.c;
    }

    /// Clears every flag of `other`.
    pub fn remove(&mut self, other: Flags)
        ensures
            final(self)@ == old(self)@ & !other@,
    {
        proof {
            lemma_andnot_flags(*old(self), other);
        }
        self.z = self.z && !other.z;
        self.n = self.n && !other.n;
        self.h = self.h && !other.h;
        self.c = self.c && !other.c;
    }

    /// Sets (`value`) or clears (`!value`) every flag of `other`.
    pub fn set(&mut self, other: Flags, value: bool)
        ensures
            final(self)@ == (if value { old(self)@ | other@ } else { old(self)@ & !other@ }),
    {
        if value {
            self.insert(other);
        } else {
            self.remove(other);
        }
    }

    /// The flag set with exactly the given flags.
    pub fn from_parts(z: bool, n: bool, h: bool, c: bool) -> (r: Flags)
        ensures
            r@ == flags_byte(z, n, h, c),
    {
        Flags { z, n, h, c }
    }

    /// Whether the zero flag is set.
    pub fn zero(&self) -> (r: bool)
        ensures
            r == fz(self@),
    {
        proof {
            lemma_flags_byte(self.z, self.n, self.h, self.c);
        }
        self.z
    }

    /// Whether the subtract flag is set.
    pub fn subtract(&self) -> (r: bool)
        ensures
            r == fnn(self@),
    {
        proof {
            lemma_flags_byte(self.z, self.n, self.h, self.c);
        }
        self.n
    }

    /// Whether the half-carry flag is set.
    pub fn half_carry(&self) -> (r: bool)
        ensures
            r == fh(self@),
    {
        proof {
            lemma_flags_byte(self.z, self.n, self.h, self.c);
        }
        self.h
    }

    /// Whether the carry flag is set.
    pub fn carry(&self) -> (r: bool)
        ensures
            r == fc(self@),
    {
        proof {
            lemma_flags_byte(self.z, self.n, self.h, self.c);
        }
        self.c
    }

    /// The flags set in either operand.
    pub fn union(self, other: Flags) -> (r: Flags)
        ensures
            r@ == self@ | other@,
    {
        let mut r = self;
        r.insert(other);
        r
    }
}

proof fn lemma_or_flags(a: Flags, b: Flags)
    ensures
        flags_byte(a.z || b.z, a.n || b.n, a.h || b.h, a.c || b.c) == a@ | b@,
{
    lemma_flags_byte(a.z, a.n, a.h, a.c);
    lemma_flags_byte(b.z, b.n, b.h, b.c);
    lemma_flags_byte(a.z || b.z, a.n || b.n, a.h || b.h, a.c || b.c);
    let x = a@;
    let y = b@;
    let r = flags_byte(a.z || b.z, a.n || b.n, a.h || b.h, a.c || b.c);
    assert(r == x | y) by (bit_vector)
        requires
            x & 0x0F == 0,
            y & 0x0F == 0,
            r & 0x0F == 0,
            (r & 0x80 != 0) == (x & 0x80 != 0 || y & 0x80 != 0),
            (r & 0x40 != 0) == (x & 0x40 != 0 || y & 0x40 != 0),
            (r & 0x20 != 0) == (x & 0x20 != 0 || y & 0x20 != 0),
            (r & 0x10 != 0) == (x & 0x10 != 0 || y & 0x10 != 0),
    ;
}

proof fn lemma_andnot_flags(a: Flags, b: Flags)
    ensures
        flags_byte(a.z && !b.z, a.n && !b.n, a.h && !b.h, a.c && !b.c) == a@ & !b@,
{
    lemma_flags_byte(a.z, a.n, a.h, a.c);
    lemma_flags_byte(b.z, b.n, b.h, b.c);
    lemma_flags_byte(a.z && !b.z, a.n && !b.n, a.h && !b.h, a.c && !b.c);
    let x = a@;
    let y = b@;
    let r = flags_byte(a.z && !b.z, a.n && !b.n, a.h && !b.h, a.c && !b.c);
    assert(r == x & !y) by (bit_vector)
        requires
            x & 0x0F == 0,
            y & 0x0F == 0,
            r & 0x0F == 0,
            (r & 0x80 != 0) == (x & 0x80 != 0 && y & 0x80 == 0),
            (r & 0x40 != 0) == (x & 0x40 != 0 && y & 0x40 == 0),
            (r & 0x20 != 0) == (x & 0x20 != 0 && y & 0x20 == 0),
            (r & 0x10 != 0) == (x & 0x10 != 0 && y & 0x10 == 0),
    ;
}

} // verus!

verus! {

/// The register file as plain values; `f` is the flag byte.
pub struct RegsView {
    pub a: u8,
    pub b: u8,
    pub c: u8,
    pub d: u8,
    pub e: u8,
    pub f: u8,
    pub h: u8,
    pub l: u8,
    pub sp: u16,
    pub pc: u16,
}

/// The 16-bit value of a register pair (`hi` is the high byte).
pub open spec fn pair(hi: u8, lo: u8) -> u16 {
    (hi as int * 256 + lo as int) as u16
}

/// The high byte of a 16-bit word.
pub open spec fn hi_byte(v: u16) -> u8 {
    (v / 256) as u8
}

/// The low byte of a 16-bit word.
pub open spec fn lo_byte(v: u16) -> u8 {
    (v % 256) as u8
}

impl RegsView {
    pub open spec fn bc(self) -> u16 {
        pair(self.b, self.c)
    }

    pub open spec fn de(self) -> u16 {
        pair(self.d, self.e)
    }

    pub open spec fn hl(self) -> u16 {
        pair(self.h, self.l)
    }

    pub open spec fn af(self) -> u16 {
        pair(self.a, self.f)
    }

    /// Whether the flag register is well formed (low nibble clear).
    pub open spec fn wf(self) -> bool {
        self.f & 0x0F == 0
    }
}

/// Splitting a word into bytes and joining them gives the word back.
pub proof fn lemma_pair_split(v: u16)
    ensures
        pair(hi_byte(v), lo_byte(v)) == v,
        hi_byte(v) == (v >> 8) as u8,
        lo_byte(v) == v as u8,
        lo_byte(v) == v & 0xFF,
{
    crate::bits::lemma_u16_bits(v);
}

/// Joining two bytes into a word and splitting it gives the bytes back.
pub proof fn lemma_pair_join(hi: u8, lo: u8)
    ensures
        hi_byte(pair(hi, lo)) == hi,
        lo_byte(pair(hi, lo)) == lo,
        pair(hi, lo) == ((hi as u16) << 8) | (lo as u16),
{
    let p = pair(hi, lo);
    crate::bits::lemma_u16_join(hi, lo);
}

/// The CPU registers A, B, C, D, E, F, H, L, SP and PC.
pub struct Registers {
    a: u8,
    b: u8,
    c: u8,
    d: u8,
    e: u8,
    f: Flags,
    h: u8,
    l: u8,
    sp: u16,
    pc: u16,
}

impl View for Registers {
    type V = RegsView;

    closed spec fn view(&self) -> RegsView {
        RegsView {
            a: self.a,
            b: self.b,
            c: self.c,
            d: self.d,
            e: self.e,
            f: self.f@,
            h: self.h,
            l: self.l,
            sp: self.sp,
            pc: self.pc,
        }
    }
}

/// The flag register of any register file is well formed.
pub proof fn lemma_registers_wf(r: &Registers)
    ensures
        r@.wf(),
{
    lemma_flags_wf(r.f);
}

impl Registers {
    /// Whether the flag register is well formed.
    pub open spec fn wf(&self) -> bool {
        self@.wf()
    }

    /// All registers zero, no flag set.
    pub fn new() -> (r: Registers)
        ensures
            r@ == (RegsView { a: 0, b: 0, c: 0, d: 0, e: 0, f: 0, h: 0, l: 0, sp: 0, pc: 0 }),
            r.wf(),
    {
        proof {
            lemma_flags_byte(false, false, false, false);
        }
        Registers { a: 0, b: 0, c: 0, d: 0, e: 0, f: Flags::empty(), h: 0, l: 0, sp: 0, pc: 0 }
    }

    pub fn get_a(&self) -> (r: u8)
        ensures
            r == self@.a,
    {
        self.a
    }

    pub fn set_a(&mut self, val: u8)
        ensures
            final(self)@ == (RegsView { a: val, ..old(self)@ }),
    {
        self.a = val;
    }

    pub fn get_b(&self) -> (r: u8)
        ensures
            r == self@.b,
    {
        self.b
    }

    pub fn set_b(&mut self, val: u8)
        ensures
            final(self)@ == (RegsView { b: val, ..old(self)@ }),
    {
        self.b = val;
    }

    pub fn get_c(&self) -> (r: u8)
        ensures
            r == self@.c,
    {
        self.c
    }

    pub fn set_c(&mut self, val: u8)
        ensures
            final(self)@ == (RegsView { c: val, ..old(self)@ }),
    {
        self.c = val;
    }

    pub fn get_d(&self) -> (r: u8)
        ensures
            r == self@.d,
    {
        self.d
    }

    pub fn set_d(&mut self, val: u8)
        ensures
            final(self)@ == (RegsView { d: val, ..old(self)@ }),
    {
        self.d = val;
    }

    pub fn get_e(&self) -> (r: u8)
        ensures
            r == self@.e,
    {
        self.e
    }

    pub fn set_e(&mut self, val: u8)
        ensures
            final(self)@ == (RegsView { e: val, ..old(self)@ }),
    {
        self.e = val;
    }

    pub fn get_h(&self) -> (r: u8)
        ensures
            r == self@.h,
    {
        self.h
    }

    pub fn set_h(&mut self, val: u8)
        ensures
            final(self)@ == (RegsView { h: val, ..old(self)@ }),
    {
        self.h = val;
    }

    pub fn get_l(&self) -> (r: u8)
        ensures
            r == self@.l,
    {
        self.l
    }

    pub fn set_l(&mut self, val: u8)
        ensures
            final(self)@ == (RegsView { l: val, ..old(self)@ }),
    {
        self.l = val;
    }

    pub fn get_sp(&self) -> (r: u16)
        ensures
            r == self@.sp,
    {
        self.sp
    }

    pub fn set_sp(&mut self, val: u16)
        ensures
            final(self)@ == (RegsView { sp: val, ..old(self)@ }),
    {
        self.sp = val;
    }

    pub fn get_pc(&self) -> (r: u16)
        ensures
            r == self@.pc,
    {
        self.pc
    }

    pub fn set_pc(&mut self, val: u16)
        ensures
            final(self)@ == (RegsView { pc: val, ..old(self)@ }),
    {
        self.pc = val;
    }

    pub fn get_bc(&self) -> (r: u16)
        ensures
            r == self@.bc(),
    {
        proof {
            lemma_pair_join(self.b, self.c);
        }
        (self.b as u16) << 8 | self.c as u16
    }

    pub fn set_bc(&mut self, val: u16)
        ensures
            final(self)@ == (RegsView { b: hi_byte(val), c: lo_byte(val), ..old(self)@ }),
            final(self)@.bc() == val,
    {
        proof {
            lemma_pair_split(val);
        }
        self.b = (val >> 8) as u8;
        self.c = val as u8;
    }

    pub fn get_de(&self) -> (r: u16)
        ensures
            r == self@.de(),
    {
        proof {
            lemma_pair_join(self.d, self.e);
        }
        (self.d as u16) << 8 | self.e as u16
    }

    pub fn set_de(&mut self, val: u16)
        ensures
            final(self)@ == (RegsView { d: hi_byte(val), e: lo_byte(val), ..old(self)@ }),
            final(self)@.de() == val,
    {
        proof {
            lemma_pair_split(val);
        }
        self.d = (val >> 8) as u8;
        self.e = val as u8;
    }

    pub fn get_hl(&self) -> (r: u16)
        ensures
            r == self@.hl(),
    {
        proof {
            lemma_pair_join(self.h, self.l);
        }
        (self.h as u16) << 8 | self.l as u16
    }

    pub fn set_hl(&mut self, val: u16)
        ensures
            final(self)@ == (RegsView { h: hi_byte(val), l: lo_byte(val), ..old(self)@ }),
            final(self)@.hl() == val,
    {
        proof {
            lemma_pair_split(val);
        }
        self.h = (val >> 8) as u8;
        self.l = val as u8;
    }

    /// The flag byte F.
    pub fn get_f(&self) -> (r: u8)
        ensures
            r == self@.f,
            r & 0x0F == 0,
    {
        self.f.bits()
    }

    /// Sets F; only the upper nibble is kept.
    pub fn set_f(&mut self, val: u8)
        ensures
            final(self)@ == (RegsView { f: val & 0xF0, ..old(self)@ }),
            final(self).wf(),
    {
        self.f = Flags::from_bits_truncate(val & 0xF0);
        proof {
            crate::bits::lemma_u8_bits(val);
        }
    }

    /// The flag set.
    pub fn flags(&self) -> (r: Flags)
        ensures
            r@ == self@.f,
    {
        self.f
    }

    /// Replaces the flag set.
    pub fn set_flags(&mut self, flags: Flags)
        ensures
            final(self)@ == (RegsView { f: flags@, ..old(self)@ }),
            final(self).wf(),
    {
        self.f = flags;
        proof {
            lemma_flags_byte(flags.z, flags.n, flags.h, flags.c);
        }
    }

    /// Sets or clears the flags of `flag`.
    pub fn set_flag(&mut self, flag: Flags, on: bool)
        ensures
            final(self)@ == (RegsView {
                f: if on { old(self)@.f | flag@ } else { old(self)@.f & !flag@ },
                ..old(self)@
            }),
            final(self).wf(),
    {
        self.f.set(flag, on);
        proof {
            lemma_flags_byte(self.f.z, self.f.n, self.f.h, self.f.c);
        }
    }

    /// The pair AF.
    pub fn get_af(&self) -> (r: u16)
        ensures
            r == self@.af(),
    {
        let f = self.f.bits();
        proof {
            lemma_pair_join(self.a, f);
        }
        (self.a as u16) << 8 | f as u16
    }

    /// Sets AF; the low nibble of F is cleared.
    pub fn set_af(&mut self, val: u16)
        ensures
            final(self)@ == (RegsView { a: hi_byte(val), f: lo_byte(val) & 0xF0, ..old(self)@ }),
            final(self).wf(),
    {
        proof {
            lemma_pair_split(val);
            crate::bits::lemma_u16_bits(val);
        }
        self.a = (val >> 8) as u8;
        self.f = Flags::from_bits_truncate((val & 0x00F0) as u8);
    }
}

} // verus!
