use vstd::prelude::*;
use crate::emu_core::mmu::mbc::rom_at;
use crate::gb::types::MbcType;

verus! {

/// A cartridge memory bank controller: how the ROM area maps onto the ROM image, and the
/// registers that cartridge writes set.
pub trait MBC: Sized {
    /// The byte that `read_rom` gives at `addr` from `rom`, an image of `rom_banks` 16 KiB
    /// banks (0xFF past its end).
    spec fn rom_view(&self, addr: u16, rom: Seq<u8>, rom_banks: nat) -> u8;

    /// Whether `read_rom` can map `addr` with `rom_banks` banks: a bank number is taken
    /// modulo the bank count, which must then be nonzero.
    spec fn read_ok(&self, addr: u16, rom_banks: nat) -> bool;

    /// The controller after `val` is written to `addr`.
    spec fn after_write(&self, addr: u16, val: u8) -> Self;

    /// Whether cartridge RAM is enabled.
    spec fn ram_enabled_view(&self) -> bool;

    /// The selected RAM bank.
    spec fn ram_bank_view(&self) -> u8;

    /// The selected ROM bank.
    spec fn rom_bank_view(&self) -> u16;

    /// Reads the ROM area at `addr`.
    fn read_rom(&self, addr: u16, rom: &[u8], rom_banks: usize) -> (r: u8)
        requires
            self.read_ok(addr, rom_banks as nat),
            rom_banks * 0x4000 + 0x10000 <= usize::MAX,
        ensures
            r == self.rom_view(addr, rom@, rom_banks as nat),
    ;

    /// Writes a controller register.
    fn write(&mut self, addr: u16, val: u8)
        ensures
            *final(self) == old(self).after_write(addr, val),
    ;

    /// Whether cartridge RAM is enabled.
    fn ram_enabled(&self) -> (r: bool)
        ensures
            r == self.ram_enabled_view(),
    ;

    /// The selected RAM bank.
    fn ram_bank(&self) -> (r: u8)
        ensures
            r == self.ram_bank_view(),
    ;

    /// The selected ROM bank.
    fn rom_bank(&self) -> (r: u16)
        ensures
            r == self.rom_bank_view(),
    ;
}

/// The byte at bank `bank` (taken modulo `banks`), offset `offset` of the image.
pub open spec fn banked(rom: Seq<u8>, bank: nat, banks: nat, offset: int) -> u8 {
    rom_at(rom, (bank % banks) * 0x4000 + offset)
}

proof fn lemma_bank_offset(b: usize, banks: usize, offset: usize)
    requires
        b < banks,
        offset < 0x10000,
        banks * 0x4000 + 0x10000 <= usize::MAX,
    ensures
        b * 0x4000 + offset <= usize::MAX,
{
    assert(b * 0x4000 <= (banks - 1) * 0x4000) by (nonlinear_arith)
        requires
            b < banks,
    ;
}

/// The image byte at bank `bank` (modulo `banks`) and `offset`, or 0xFF past the image.
fn banked_byte(rom: &[u8], bank: usize, banks: usize, offset: u16) -> (r: u8)
    requires
        banks > 0,
        banks * 0x4000 + 0x10000 <= usize::MAX,
    ensures
        r == banked(rom@, bank as nat, banks as nat, offset as int),
{
    let b = bank % banks;
    proof {
        lemma_bank_offset(b, banks, offset as usize);
    }
    let i = b * 0x4000 + offset as usize;
    if i < rom.len() {
        rom[i]
    } else {
        0xFF
    }
}

/// A ROM-only cartridge: the image maps straight onto 0x0000..=0x7FFF.
#[derive(Debug)]
pub struct MBCNone;

impl MBCNone {
    /// The controller of a ROM-only cartridge.
    pub fn new() -> (r: MBCNone)
        ensures
            r == MBCNone,
    {
        MBCNone
    }
}

impl MBC for MBCNone {
    open spec fn rom_view(&self, addr: u16, rom: Seq<u8>, rom_banks: nat) -> u8 {
        rom_at(rom, addr as int)
    }

    open spec fn read_ok(&self, addr: u16, rom_banks: nat) -> bool {
        true
    }

    open spec fn after_write(&self, addr: u16, val: u8) -> MBCNone {
        *self
    }

    open spec fn ram_enabled_view(&self) -> bool {
        false
    }

    open spec fn ram_bank_view(&self) -> u8 {
        0
    }

    open spec fn rom_bank_view(&self) -> u16 {
        0
    }

    fn read_rom(&self, addr: u16, rom: &[u8], _rom_banks: usize) -> (r: u8) {
        let i = addr as usize;
        if i < rom.len() {
            rom[i]
        } else {
            0xFF
        }
    }

    fn write(&mut self, _addr: u16, _val: u8) {
    }

    fn ram_enabled(&self) -> (r: bool) {
        false
    }

    fn ram_bank(&self) -> (r: u8) {
        0
    }

    fn rom_bank(&self) -> (r: u16) {
        0
    }
}

/// The MBC1 controller: a 5-bit low bank register, a 2-bit high register that selects the
/// upper ROM bits or the RAM bank, and the banking mode.
#[derive(Debug)]
pub struct MBC1 {
    ram_enable: bool,
    rom_bank: u16,
    ram_bank: u8,
    bank_low5: u8,
    bank_high2: u8,
    mode: u8,
}

impl MBC1 {
    /// The bank mapped at 0x0000..=0x3FFF: 0 in ROM banking mode, the high register times
    /// 32 in RAM banking mode.
    pub closed spec fn bank0(&self) -> u16 {
        if self.mode & 1 == 0 {
            0
        } else {
            ((self.bank_high2 & 0x03) as int * 32) as u16
        }
    }

    /// The bank mapped at 0x4000..=0x7FFF: the low five bits (0 counts as 1), plus the high
    /// register times 32 in ROM banking mode.
    pub closed spec fn bankx(&self) -> u16 {
        let low5 = (self.bank_low5 & 0x1F) as int;
        let bank = if self.mode & 1 == 0 {
            low5 + (self.bank_high2 & 0x03) as int * 32
        } else {
            low5
        };
        (if low5 == 0 {
            bank + 1
        } else {
            bank
        }) as u16
    }

    /// Whether the controller is in its power-on state: RAM disabled, bank registers 1 and
    /// 0, ROM banking mode.
    pub closed spec fn is_reset(&self) -> bool {
        &&& !self.ram_enable
        &&& self.rom_bank == 1
        &&& self.ram_bank == 0
        &&& self.bank_low5 == 1
        &&& self.bank_high2 == 0
        &&& self.mode == 0
    }

    /// The power-on controller.
    pub fn new() -> (r: MBC1)
        ensures
            r.is_reset(),
    {
        MBC1 { ram_enable: false, rom_bank: 1, ram_bank: 0, bank_low5: 1, bank_high2: 0, mode: 0 }
    }

    fn calc_bank0(&self) -> (r: u16)
        ensures
            r == self.bank0(),
    {
        if self.mode & 1 == 0 {
            0
        } else {
            ((self.bank_high2 & 0x03) as u16) * 32
        }
    }

    fn calc_bankx(&self) -> (r: u16)
        ensures
            r == self.bankx(),
    {
        let low5 = (self.bank_low5 & 0x1F) as u16;
        let bank = if self.mode & 1 == 0 {
            low5 + ((self.bank_high2 & 0x03) as u16) * 32
        } else {
            low5
        };
        if low5 == 0 {
            bank + 1
        } else {
            bank
        }
    }
}

impl MBC for MBC1 {
    closed spec fn rom_view(&self, addr: u16, rom: Seq<u8>, rom_banks: nat) -> u8 {
        if addr < 0x4000 {
            banked(rom, self.bank0() as nat, rom_banks, addr as int)
        } else {
            banked(rom, self.bankx() as nat, rom_banks, addr - 0x4000)
        }
    }

    closed spec fn read_ok(&self, addr: u16, rom_banks: nat) -> bool {
        rom_banks > 0
    }

    closed spec fn after_write(&self, addr: u16, val: u8) -> MBC1 {
        if addr <= 0x1FFF {
            MBC1 { ram_enable: val & 0x0F == 0x0A, ..*self }
        } else if addr <= 0x3FFF {
            MBC1 {
                bank_low5: if val & 0x1F == 0 {
                    1
                } else {
                    val & 0x1F
                },
                ..*self
            }
        } else if addr <= 0x5FFF {
            MBC1 {
                bank_high2: val & 0x03,
                ram_bank: if self.mode & 1 == 1 {
                    (val & 0x03) & 0x03
                } else {
                    self.ram_bank
                },
                ..*self
            }
        } else if addr <= 0x7FFF {
            MBC1 { mode: val & 0x01, ..*self }
        } else {
            *self
        }
    }

    closed spec fn ram_enabled_view(&self) -> bool {
        self.ram_enable
    }

    closed spec fn ram_bank_view(&self) -> u8 {
        if self.mode & 1 == 0 {
            0
        } else {
            self.ram_bank
        }
    }

    closed spec fn rom_bank_view(&self) -> u16 {
        self.bankx()
    }

    fn read_rom(&self, addr: u16, rom: &[u8], rom_banks: usize) -> (r: u8) {
        if addr < 0x4000 {
            banked_byte(rom, self.calc_bank0() as usize, rom_banks, addr)
        } else {
            banked_byte(rom, self.calc_bankx() as usize, rom_banks, addr - 0x4000)
        }
    }

    fn write(&mut self, addr: u16, val: u8) {
        if addr <= 0x1FFF {
            self.ram_enable = (val & 0x0F) == 0x0A;
        } else if addr <= 0x3FFF {
            let mut low5 = val & 0x1F;
            if low5 == 0 {
                low5 = 1;
            }
            self.bank_low5 = low5;
        } else if addr <= 0x5FFF {
            self.bank_high2 = val & 0x03;
            if self.mode & 1 == 1 {
                self.ram_bank = self.bank_high2 & 0x03;
            }
        } else if addr <= 0x7FFF {
            self.mode = val & 0x01;
        }
    }

    fn ram_enabled(&self) -> (r: bool) {
        self.ram_enable
    }

    fn ram_bank(&self) -> (r: u8) {
        if self.mode & 1 == 0 {
            0
        } else {
            self.ram_bank
        }
    }

    fn rom_bank(&self) -> (r: u16) {
        self.calc_bankx()
    }
}

/// The MBC3 controller: a 7-bit ROM bank, a RAM bank 0..=3 or a clock register 0x08..=0x0C.
#[derive(Debug)]
pub struct MBC3 {
    ram_enable: bool,
    rom_bank: u16,
    ram_bank: u8,
    rtc_sel: Option<u8>,
    rtc_regs: [u8; 5],
}

impl MBC3 {
    /// Whether the controller is in its power-on state: RAM disabled, ROM bank 1, RAM bank
    /// 0, no clock register selected.
    pub closed spec fn is_reset(&self) -> bool {
        &&& !self.ram_enable
        &&& self.rom_bank == 1
        &&& self.ram_bank == 0
        &&& self.rtc_sel.is_none()
    }

    /// The power-on controller.
    pub fn new() -> (r: MBC3)
        ensures
            r.is_reset(),
    {
        MBC3 { ram_enable: false, rom_bank: 1, ram_bank: 0, rtc_sel: None, rtc_regs: [0u8; 5] }
    }
}

impl MBC for MBC3 {
    closed spec fn rom_view(&self, addr: u16, rom: Seq<u8>, rom_banks: nat) -> u8 {
        if addr < 0x4000 {
            rom_at(rom, addr as int)
        } else {
            let b = (self.rom_bank & 0x7F) as nat;
            banked(
                rom,
                if b == 0 {
                    1
                } else {
                    b
                },
                rom_banks,
                addr - 0x4000,
            )
        }
    }

    closed spec fn read_ok(&self, addr: u16, rom_banks: nat) -> bool {
        addr < 0x4000 || rom_banks > 0
    }

    closed spec fn after_write(&self, addr: u16, val: u8) -> MBC3 {
        if addr <= 0x1FFF {
            MBC3 { ram_enable: val & 0x0F == 0x0A, ..*self }
        } else if addr <= 0x3FFF {
            MBC3 {
                rom_bank: if val & 0x7F == 0 {
                    1
                } else {
                    (val & 0x7F) as u16
                },
                ..*self
            }
        } else if addr <= 0x5FFF {
            let v = val & 0x0F;
            if v <= 0x03 {
                MBC3 { ram_bank: v, rtc_sel: None, ..*self }
            } else if 0x08 <= v <= 0x0C {
                MBC3 { rtc_sel: Some(v), ..*self }
            } else {
                *self
            }
        } else {
            *self
        }
    }

    closed spec fn ram_enabled_view(&self) -> bool {
        self.ram_enable
    }

    closed spec fn ram_bank_view(&self) -> u8 {
        self.ram_bank
    }

    closed spec fn rom_bank_view(&self) -> u16 {
        self.rom_bank
    }

    fn read_rom(&self, addr: u16, rom: &[u8], rom_banks: usize) -> (r: u8) {
        if addr < 0x4000 {
            let i = addr as usize;
            if i < rom.len() {
                rom[i]
            } else {
                0xFF
            }
        } else {
            let mut bank = (self.rom_bank as usize) & 0x7F;
            if bank == 0 {
                bank = 1;
            }
            banked_byte(rom, bank, rom_banks, addr - 0x4000)
        }
    }

    fn write(&mut self, addr: u16, val: u8) {
        if addr <= 0x1FFF {
            self.ram_enable = (val & 0x0F) == 0x0A;
        } else if addr <= 0x3FFF {
            let mut b = (val & 0x7F) as u16;
            if b == 0 {
                b = 1;
            }
            self.rom_bank = b;
        } else if addr <= 0x5FFF {
            let v = val & 0x0F;
            if v <= 0x03 {
                self.ram_bank = v;
                self.rtc_sel = None;
            } else if 0x08 <= v && v <= 0x0C {
                self.rtc_sel = Some(v);
            }
        }
    }

    fn ram_enabled(&self) -> (r: bool) {
        self.ram_enable
    }

    fn ram_bank(&self) -> (r: u8) {
        self.ram_bank
    }

    fn rom_bank(&self) -> (r: u16) {
        self.rom_bank
    }
}

/// The MBC5 controller: a 9-bit ROM bank written in two parts and a 4-bit RAM bank.
#[derive(Debug)]
pub struct MBC5 {
    ram_enable: bool,
    rom_bank: u16,
    ram_bank: u8,
}

impl MBC5 {
    /// Whether the controller is in its power-on state: RAM disabled, ROM bank 1, RAM bank 0.
    pub closed spec fn is_reset(&self) -> bool {
        !self.ram_enable && self.rom_bank == 1 && self.ram_bank == 0
    }

    /// The power-on controller.
    pub fn new() -> (r: MBC5)
        ensures
            r.is_reset(),
    {
        MBC5 { ram_enable: false, rom_bank: 1, ram_bank: 0 }
    }
}

impl MBC for MBC5 {
    closed spec fn rom_view(&self, addr: u16, rom: Seq<u8>, rom_banks: nat) -> u8 {
        if addr < 0x4000 {
            rom_at(rom, addr as int)
        } else {
            banked(rom, self.rom_bank as nat, rom_banks, addr - 0x4000)
        }
    }

    closed spec fn read_ok(&self, addr: u16, rom_banks: nat) -> bool {
        addr < 0x4000 || rom_banks > 0
    }

    closed spec fn after_write(&self, addr: u16, val: u8) -> MBC5 {
        if addr <= 0x1FFF {
            MBC5 { ram_enable: val & 0x0F == 0x0A, ..*self }
        } else if addr <= 0x2FFF {
            MBC5 { rom_bank: (self.rom_bank & 0x100) | (val as u16), ..*self }
        } else if addr <= 0x3FFF {
            MBC5 { rom_bank: (self.rom_bank & 0x0FF) | (((val as u16) & 0x01) << 8u16), ..*self }
        } else if addr <= 0x5FFF {
            MBC5 { ram_bank: val & 0x0F, ..*self }
        } else {
            *self
        }
    }

    closed spec fn ram_enabled_view(&self) -> bool {
        self.ram_enable
    }

    closed spec fn ram_bank_view(&self) -> u8 {
        self.ram_bank
    }

    closed spec fn rom_bank_view(&self) -> u16 {
        self.rom_bank
    }

    fn read_rom(&self, addr: u16, rom: &[u8], rom_banks: usize) -> (r: u8) {
        if addr < 0x4000 {
            let i = addr as usize;
            if i < rom.len() {
                rom[i]
            } else {
                0xFF
            }
        } else {
            banked_byte(rom, self.rom_bank as usize, rom_banks, addr - 0x4000)
        }
    }

    fn write(&mut self, addr: u16, val: u8) {
        if addr <= 0x1FFF {
            self.ram_enable = (val & 0x0F) == 0x0A;
        } else if addr <= 0x2FFF {
            self.rom_bank = (self.rom_bank & 0x100) | (val as u16);
        } else if addr <= 0x3FFF {
            self.rom_bank = (self.rom_bank & 0x0FF) | (((val as u16) & 0x01) << 8);
        } else if addr <= 0x5FFF {
            self.ram_bank = val & 0x0F;
        }
    }

    fn ram_enabled(&self) -> (r: bool) {
        self.ram_enable
    }

    fn ram_bank(&self) -> (r: u8) {
        self.ram_bank
    }

    fn rom_bank(&self) -> (r: u16) {
        self.rom_bank
    }
}

/// The controller of the inserted cartridge.
#[derive(Debug)]
pub enum MBCImpl {
    RomOnly(MBCNone),
    MBC1(MBC1),
    MBC3(MBC3),
    MBC5(MBC5),
}

impl MBCImpl {
    /// The power-on controller of a cartridge family.
    pub fn new(mbc_type: MbcType) -> (r: MBCImpl)
        ensures
            match mbc_type {
                MbcType::RomOnly => r is RomOnly,
                MbcType::Mbc1 => r matches MBCImpl::MBC1(m) && m.is_reset(),
                MbcType::Mbc3 => r matches MBCImpl::MBC3(m) && m.is_reset(),
                MbcType::Mbc5 => r matches MBCImpl::MBC5(m) && m.is_reset(),
            },
    {
        match mbc_type {
            MbcType::RomOnly => MBCImpl::RomOnly(MBCNone::new()),
            MbcType::Mbc1 => MBCImpl::MBC1(MBC1::new()),
            MbcType::Mbc3 => MBCImpl::MBC3(MBC3::new()),
            MbcType::Mbc5 => MBCImpl::MBC5(MBC5::new()),
        }
    }
}

impl MBC for MBCImpl {
    open spec fn rom_view(&self, addr: u16, rom: Seq<u8>, rom_banks: nat) -> u8 {
        match self {
            MBCImpl::RomOnly(m) => m.rom_view(addr, rom, rom_banks),
            MBCImpl::MBC1(m) => m.rom_view(addr, rom, rom_banks),
            MBCImpl::MBC3(m) => m.rom_view(addr, rom, rom_banks),
            MBCImpl::MBC5(m) => m.rom_view(addr, rom, rom_banks),
        }
    }

    open spec fn read_ok(&self, addr: u16, rom_banks: nat) -> bool {
        match self {
            MBCImpl::RomOnly(m) => m.read_ok(addr, rom_banks),
            MBCImpl::MBC1(m) => m.read_ok(addr, rom_banks),
            MBCImpl::MBC3(m) => m.read_ok(addr, rom_banks),
            MBCImpl::MBC5(m) => m.read_ok(addr, rom_banks),
        }
    }

    open spec fn after_write(&self, addr: u16, val: u8) -> MBCImpl {
        match self {
            MBCImpl::RomOnly(m) => MBCImpl::RomOnly(m.after_write(addr, val)),
            MBCImpl::MBC1(m) => MBCImpl::MBC1(m.after_write(addr, val)),
            MBCImpl::MBC3(m) => MBCImpl::MBC3(m.after_write(addr, val)),
            MBCImpl::MBC5(m) => MBCImpl::MBC5(m.after_write(addr, val)),
        }
    }

    open spec fn ram_enabled_view(&self) -> bool {
        match self {
            MBCImpl::RomOnly(m) => m.ram_enabled_view(),
            MBCImpl::MBC1(m) => m.ram_enabled_view(),
            MBCImpl::MBC3(m) => m.ram_enabled_view(),
            MBCImpl::MBC5(m) => m.ram_enabled_view(),
        }
    }

    open spec fn ram_bank_view(&self) -> u8 {
        match self {
            MBCImpl::RomOnly(m) => m.ram_bank_view(),
            MBCImpl::MBC1(m) => m.ram_bank_view(),
            MBCImpl::MBC3(m) => m.ram_bank_view(),
            MBCImpl::MBC5(m) => m.ram_bank_view(),
        }
    }

    open spec fn rom_bank_view(&self) -> u16 {
        match self {
            MBCImpl::RomOnly(m) => m.rom_bank_view(),
            MBCImpl::MBC1(m) => m.rom_bank_view(),
            MBCImpl::MBC3(m) => m.rom_bank_view(),
            MBCImpl::MBC5(m) => m.rom_bank_view(),
        }
    }

    fn read_rom(&self, addr: u16, rom: &[u8], rom_banks: usize) -> (r: u8) {
        match self {
            MBCImpl::RomOnly(m) => m.read_rom(addr, rom, rom_banks),
            MBCImpl::MBC1(m) => m.read_rom(addr, rom, rom_banks),
            MBCImpl::MBC3(m) => m.read_rom(addr, rom, rom_banks),
            MBCImpl::MBC5(m) => m.read_rom(addr, rom, rom_banks),
        }
    }

    fn write(&mut self, addr: u16, val: u8) {
        match self {
            MBCImpl::RomOnly(m) => m.write(addr, val),
            MBCImpl::MBC1(m) => m.write(addr, val),
            MBCImpl::MBC3(m) => m.write(addr, val),
            MBCImpl::MBC5(m) => m.write(addr, val),
        }
    }

    fn ram_enabled(&self) -> (r: bool) {
        match self {
            MBCImpl::RomOnly(m) => m.ram_enabled(),
            MBCImpl::MBC1(m) => m.ram_enabled(),
            MBCImpl::MBC3(m) => m.ram_enabled(),
            MBCImpl::MBC5(m) => m.ram_enabled(),
        }
    }

    fn ram_bank(&self) -> (r: u8) {
        match self {
            MBCImpl::RomOnly(m) => m.ram_bank(),
            MBCImpl::MBC1(m) => m.ram_bank(),
            MBCImpl::MBC3(m) => m.ram_bank(),
            MBCImpl::MBC5(m) => m.ram_bank(),
        }
    }

    fn rom_bank(&self) -> (r: u16) {
        match self {
            MBCImpl::RomOnly(m) => m.rom_bank(),
            MBCImpl::MBC1(m) => m.rom_bank(),
            MBCImpl::MBC3(m) => m.rom_bank(),
            MBCImpl::MBC5(m) => m.rom_bank(),
        }
    }
}

/// With a nonzero bank count every controller can map every address of the ROM area.
pub proof fn lemma_read_ok_with_banks(m: MBCImpl, addr: u16, banks: nat)
    requires
        banks > 0,
    ensures
        m.read_ok(addr, banks),
{
}

/// On every controller with RAM, a write below 0x2000 enables cartridge RAM exactly when
/// the low nibble of the value is 0xA, and leaves the selected ROM bank as it was.
pub proof fn law_ram_enable_write(m: MBCImpl, addr: u16, val: u8)
    requires
        addr <= 0x1FFF,
        !(m is RomOnly),
    ensures
        m.after_write(addr, val).ram_enabled_view() == (val & 0x0F == 0x0A),
        m.after_write(addr, val).rom_bank_view() == m.rom_bank_view(),
{
}

/// The MBC1 bank mapped at 0x4000..=0x7FFF never has zero low bits: bank 0 (and 0x20,
/// 0x40, 0x60) cannot be selected there.
pub proof fn law_mbc1_switchable_bank_nonzero(m: MBC1)
    ensures
        m.rom_bank_view() % 32 != 0,
{
    crate::bits::lemma_u8_bits(m.bank_low5);
    crate::bits::lemma_u8_bits(m.bank_high2);
}

/// After a write to the MBC3 ROM bank register the selected bank is the value's low seven
/// bits, with 0 selecting bank 1.
pub proof fn law_mbc3_rom_bank_write(m: MBC3, addr: u16, val: u8)
    requires
        0x2000 <= addr <= 0x3FFF,
    ensures
        1 <= m.after_write(addr, val).rom_bank_view() <= 0x7F,
        val & 0x7F != 0 ==> m.after_write(addr, val).rom_bank_view() == (val & 0x7F) as u16,
{
    crate::bits::lemma_u8_bits(val);
    assert(val & 0x7F <= 0x7F) by (bit_vector);
}

/// A ROM-only cartridge reads the image straight: byte `addr` of the image, 0xFF past it.
pub proof fn law_rom_only_reads_image(m: MBCNone, addr: u16, rom: Seq<u8>, banks: nat)
    ensures
        m.rom_view(addr, rom, banks) == if (addr as int) < rom.len() {
            rom[addr as int]
        } else {
            0xFFu8
        },
{
}

} // verus!
