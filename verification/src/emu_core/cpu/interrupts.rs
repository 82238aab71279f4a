use vstd::prelude::*;

verus! {

/// An interrupt source, in priority order.
#[derive(Clone, Copy, PartialEq, Eq, Debug)]
pub enum Interrupt {
    VBlank,
    LcdStat,
    Timer,
    Serial,
    Joypad,
}

/// The bit of an interrupt in IE and IF.
pub open spec fn int_bit(i: Interrupt) -> u8 {
    match i {
        Interrupt::VBlank => 0,
        Interrupt::LcdStat => 1,
        Interrupt::Timer => 2,
        Interrupt::Serial => 3,
        Interrupt::Joypad => 4,
    }
}

/// The interrupt whose bit is `bit`.
pub open spec fn int_of_bit(bit: u8) -> Option<Interrupt> {
    if bit == 0 {
        Some(Interrupt::VBlank)
    } else if bit == 1 {
        Some(Interrupt::LcdStat)
    } else if bit == 2 {
        Some(Interrupt::Timer)
    } else if bit == 3 {
        Some(Interrupt::Serial)
    } else if bit == 4 {
        Some(Interrupt::Joypad)
    } else {
        None
    }
}

/// Whether bit `b` of `v` is set.
pub open spec fn bit_set(v: u8, b: u8) -> bool {
    v & (1u8 << b) != 0
}

impl Interrupt {
    /// The bit of the interrupt in IE and IF.
    pub fn to_bit(&self) -> (r: u8)
        ensures
            r == int_bit(*self),
    {
        match self {
            Interrupt::VBlank => 0,
            Interrupt::LcdStat => 1,
            Interrupt::Timer => 2,
            Interrupt::Serial => 3,
            Interrupt::Joypad => 4,
        }
    }

    /// The interrupt whose bit is `bit` (0..=4).
    pub fn from_bit(bit: u8) -> (r: Option<Interrupt>)
        ensures
            r == int_of_bit(bit),
    {
        match bit {
            0 => Some(Interrupt::VBlank),
            1 => Some(Interrupt::LcdStat),
            2 => Some(Interrupt::Timer),
            3 => Some(Interrupt::Serial),
            4 => Some(Interrupt::Joypad),
            _ => None,
        }
    }
}

/// The interrupt enable (IE) and request (IF) registers.
pub struct InterruptRegisters {
    pub enable: u8,
    pub flag: u8,
}

/// The highest-priority interrupt among the bits set in `active`.
pub open spec fn highest(active: u8) -> Option<Interrupt> {
    if bit_set(active, 0) {
        Some(Interrupt::VBlank)
    } else if bit_set(active, 1) {
        Some(Interrupt::LcdStat)
    } else if bit_set(active, 2) {
        Some(Interrupt::Timer)
    } else if bit_set(active, 3) {
        Some(Interrupt::Serial)
    } else if bit_set(active, 4) {
        Some(Interrupt::Joypad)
    } else {
        None
    }
}

impl InterruptRegisters {
    /// No interrupt enabled or requested.
    pub fn new() -> (r: InterruptRegisters)
        ensures
            r.enable == 0 && r.flag == 0,
    {
        InterruptRegisters { enable: 0, flag: 0 }
    }

    /// Whether the interrupt is enabled.
    pub fn is_interrupt_enabled(&self, interrupt: Interrupt) -> (r: bool)
        ensures
            r == bit_set(self.enable, int_bit(interrupt)),
    {
        let bit = interrupt.to_bit();
        (self.enable & (1u8 << bit)) != 0
    }

    /// Enables or disables the interrupt.
    pub fn set_interrupt_enable(&mut self, interrupt: Interrupt, enabled: bool)
        ensures
            final(self).flag == old(self).flag,
            final(self).enable == (if enabled {
                old(self).enable | (1u8 << int_bit(interrupt))
            } else {
                old(self).enable & !(1u8 << int_bit(interrupt))
            }),
    {
        let bit = interrupt.to_bit();
        if enabled {
            self.enable = self.enable | (1u8 << bit);
        } else {
            self.enable = self.enable & !(1u8 << bit);
        }
    }

    /// Whether the interrupt is requested.
    pub fn is_interrupt_requested(&self, interrupt: Interrupt) -> (r: bool)
        ensures
            r == bit_set(self.flag, int_bit(interrupt)),
    {
        let bit = interrupt.to_bit();
        (self.flag & (1u8 << bit)) != 0
    }

    /// Requests the interrupt.
    pub fn request_interrupt(&mut self, interrupt: Interrupt)
        ensures
            final(self).enable == old(self).enable,
            final(self).flag == old(self).flag | (1u8 << int_bit(interrupt)),
    {
        let bit = interrupt.to_bit();
        self.flag = self.flag | (1u8 << bit);
    }

    /// Withdraws the request of the interrupt.
    pub fn clear_interrupt_flag(&mut self, interrupt: Interrupt)
        ensures
            final(self).enable == old(self).enable,
            final(self).flag == old(self).flag & !(1u8 << int_bit(interrupt)),
    {
        let bit = interrupt.to_bit();
        self.flag = self.flag & !(1u8 << bit);
    }

    /// Whether some interrupt is both enabled and requested.
    pub fn has_pending_enabled_interrupts(&self) -> (r: bool)
        ensures
            r == (self.enable & self.flag != 0),
    {
        (self.enable & self.flag) != 0
    }

    /// The highest-priority interrupt that is enabled and requested
    /// (V-Blank, LCD STAT, Timer, Serial, Joypad).
    pub fn get_highest_priority_interrupt(&self) -> (r: Option<Interrupt>)
        ensures
            r == highest(self.enable & self.flag),
    {
        let active = self.enable & self.flag;
        if active == 0 {
            proof {
                assert(active == 0 ==> !bit_set(active, 0) && !bit_set(active, 1) && !bit_set(
                    active,
                    2,
                ) && !bit_set(active, 3) && !bit_set(active, 4)) by (bit_vector);
            }
            return None;
        }
        let mut i: u8 = 0;
        while i <= 4
            invariant
                i <= 5,
                active == self.enable & self.flag,
                forall|j: u8| j < i ==> !bit_set(active, j),
            decreases 5 - i,
        {
            if (active & (1u8 << i)) != 0 {
                proof {
                    assert(bit_set(active, i));
                    if i > 0 {
                        assert(!bit_set(active, 0));
                    }
                    if i > 1 {
                        assert(!bit_set(active, 1));
                    }
                    if i > 2 {
                        assert(!bit_set(active, 2));
                    }
                    if i > 3 {
                        assert(!bit_set(active, 3));
                    }
                }
                return Interrupt::from_bit(i);
            }
            i = i + 1;
        }
        None
    }
}

/// Enables the interrupt.
pub fn enable_interrupt(registers: &mut InterruptRegisters, interrupt: Interrupt)
    ensures
        final(registers).flag == old(registers).flag,
        final(registers).enable == old(registers).enable | (1u8 << int_bit(interrupt)),
{
    registers.set_interrupt_enable(interrupt, true);
}

/// Disables the interrupt.
pub fn disable_interrupt(registers: &mut InterruptRegisters, interrupt: Interrupt)
    ensures
        final(registers).flag == old(registers).flag,
        final(registers).enable == old(registers).enable & !(1u8 << int_bit(interrupt)),
{
    registers.set_interrupt_enable(interrupt, false);
}

/// Requests the interrupt.
pub fn request_interrupt(registers: &mut InterruptRegisters, interrupt: Interrupt)
    ensures
        final(registers).enable == old(registers).enable,
        final(registers).flag == old(registers).flag | (1u8 << int_bit(interrupt)),
{
    registers.request_interrupt(interrupt);
}

/// Withdraws the request of the interrupt.
pub fn clear_interrupt(registers: &mut InterruptRegisters, interrupt: Interrupt)
    ensures
        final(registers).enable == old(registers).enable,
        final(registers).flag == old(registers).flag & !(1u8 << int_bit(interrupt)),
{
    registers.clear_interrupt_flag(interrupt);
}

/// Whether the interrupt is enabled.
pub fn is_interrupt_enabled(registers: &InterruptRegisters, interrupt: Interrupt) -> (r: bool)
    ensures
        r == bit_set(registers.enable, int_bit(interrupt)),
{
    registers.is_interrupt_enabled(interrupt)
}

/// Whether the interrupt is requested.
pub fn is_interrupt_requested(registers: &InterruptRegisters, interrupt: Interrupt) -> (r: bool)
    ensures
        r == bit_set(registers.flag, int_bit(interrupt)),
{
    registers.is_interrupt_requested(interrupt)
}

/// Whether some interrupt is both enabled and requested.
pub fn has_pending_enabled_interrupts(registers: &InterruptRegisters) -> (r: bool)
    ensures
        r == (registers.enable & registers.flag != 0),
{
    registers.has_pending_enabled_interrupts()
}

/// The highest-priority interrupt that is enabled and requested.
pub fn get_highest_priority_interrupt(registers: &InterruptRegisters) -> (r: Option<Interrupt>)
    ensures
        r == highest(registers.enable & registers.flag),
{
    registers.get_highest_priority_interrupt()
}

/// Enabling an interrupt makes it read back as enabled, disabling as disabled, and neither
/// touches the other interrupts' enables.
pub proof fn law_enable_read_back(e: u8, i: Interrupt, j: Interrupt, on: bool)
    ensures
        bit_set(
            if on {
                e | (1u8 << int_bit(i))
            } else {
                e & !(1u8 << int_bit(i))
            },
            int_bit(i),
        ) == on,
        int_bit(j) != int_bit(i) ==> bit_set(
            if on {
                e | (1u8 << int_bit(i))
            } else {
                e & !(1u8 << int_bit(i))
            },
            int_bit(j),
        ) == bit_set(e, int_bit(j)),
{
    let bi = int_bit(i);
    let bj = int_bit(j);
    assert(bi < 5 && bj < 5);
    assert(bit_set(e | (1u8 << bi), bi) && !bit_set(e & !(1u8 << bi), bi)) by (bit_vector)
        requires
            bi < 5,
    ;
    assert(bj != bi ==> (bit_set(e | (1u8 << bi), bj) == bit_set(e, bj) && bit_set(
        e & !(1u8 << bi),
        bj,
    ) == bit_set(e, bj))) by (bit_vector)
        requires
            bi < 5,
            bj < 5,
    ;
}

/// A requested interrupt reads back as requested until it is cleared, and clearing it makes
/// it read back as not requested.
pub proof fn law_request_clear(f: u8, i: Interrupt)
    ensures
        bit_set(f | (1u8 << int_bit(i)), int_bit(i)),
        !bit_set(f & !(1u8 << int_bit(i)), int_bit(i)),
{
    let b = int_bit(i);
    assert(b < 5);
    assert(bit_set(f | (1u8 << b), b) && !bit_set(f & !(1u8 << b), b)) by (bit_vector)
        requires
            b < 5,
    ;
}

} // verus!
