use vstd::prelude::*;
use crate::hardware::apu::{OldApu, apu_initial, register_read, register_written};

verus! {

/// The sound side of the bus: the sound unit behind registers 0xFF10..=0xFF3F.
pub struct BusAPU {
    pub apu_dbg_printed: bool,
    pub apu_regs: [u8; 0x30],
    pub apu: OldApu,
    pub dbg_timer: bool,
}

impl BusAPU {
    /// The sound unit's invariant.
    pub open spec fn wf(&self) -> bool {
        self.apu.wf()
    }

    /// A powered-off sound unit with a zeroed register mirror and timer tracing off.
    pub fn new() -> (r: BusAPU)
        ensures
            r.wf(),
            r.apu@ == apu_initial(),
            !r.apu_dbg_printed,
            !r.dbg_timer,
            r.apu_regs@ == Seq::new(0x30, |i: int| 0u8),
    {
        let r = BusAPU {
            apu_dbg_printed: false,
            apu_regs: [0u8; 0x30],
            apu: OldApu::new(),
            dbg_timer: false,
        };
        proof {
            assert(r.apu_regs@ =~= Seq::new(0x30, |i: int| 0u8));
        }
        r
    }

    /// Reads sound register `addr` (0xFF10..=0xFF3F) from the sound unit; unmapped addresses
    /// read 0xFF.
    pub fn read_apu_reg(&self, addr: u16) -> (r: u8)
        requires
            self.wf(),
        ensures
            r == register_read(self.apu@, addr),
    {
        if addr == 0xFF10 {
            self.apu.read_nr10()
        } else if addr == 0xFF11 {
            self.apu.read_nr11()
        } else if addr == 0xFF12 {
            self.apu.read_nr12()
        } else if addr == 0xFF13 {
            self.apu.read_nr13()
        } else if addr == 0xFF14 {
            self.apu.read_nr14()
        } else if addr == 0xFF16 {
            self.apu.read_nr21()
        } else if addr == 0xFF17 {
            self.apu.read_nr22()
        } else if addr == 0xFF18 {
            self.apu.read_nr23()
        } else if addr == 0xFF19 {
            self.apu.read_nr24()
        } else if addr == 0xFF1A {
            self.apu.read_nr30()
        } else if addr == 0xFF1B {
            self.apu.read_nr31()
        } else if addr == 0xFF1C {
            self.apu.read_nr32()
        } else if addr == 0xFF1D {
            self.apu.read_nr33()
        } else if addr == 0xFF1E {
            self.apu.read_nr34()
        } else if addr == 0xFF20 {
            self.apu.read_nr41()
        } else if addr == 0xFF21 {
            self.apu.read_nr42()
        } else if addr == 0xFF22 {
            self.apu.read_nr43()
        } else if addr == 0xFF23 {
            self.apu.read_nr44()
        } else if addr == 0xFF24 {
            self.apu.read_nr50()
        } else if addr == 0xFF25 {
            self.apu.read_nr51()
        } else if addr == 0xFF26 {
            self.apu.read_nr52()
        } else if 0xFF30 <= addr && addr <= 0xFF3F {
            self.apu.read_wave_ram(addr)
        } else {
            0xFF
        }
    }

    /// Writes sound register `addr` of the sound unit; unmapped addresses are ignored.
    #[verifier::spinoff_prover]
    #[verifier::rlimit(60)]
    pub fn write_apu_reg(&mut self, addr: u16, value: u8)
        requires
            old(self).wf(),
        ensures
            final(self).wf(),
            final(self).apu@ == register_written(old(self).apu@, addr, value),
            final(self).apu_regs == old(self).apu_regs,
            final(self).apu_dbg_printed == old(self).apu_dbg_printed,
            final(self).dbg_timer == old(self).dbg_timer,
    {
        if addr == 0xFF10 {
            self.apu.write_nr10(value);
        } else if addr == 0xFF11 {
            self.apu.write_nr11(value);
        } else if addr == 0xFF12 {
            self.apu.write_nr12(value);
        } else if addr == 0xFF13 {
            self.apu.write_nr13(value);
        } else if addr == 0xFF14 {
            self.apu.write_nr14(value);
        } else if addr == 0xFF16 {
            self.apu.write_nr21(value);
        } else if addr == 0xFF17 {
            self.apu.write_nr22(value);
        } else if addr == 0xFF18 {
            self.apu.write_nr23(value);
        } else if addr == 0xFF19 {
            self.apu.write_nr24(value);
        } else if addr == 0xFF1A {
            self.apu.write_nr30(value);
        } else if addr == 0xFF1B {
            self.apu.write_nr31(value);
        } else if addr == 0xFF1C {
            self.apu.write_nr32(value);
        } else if addr == 0xFF1D {
            self.apu.write_nr33(value);
        } else if addr == 0xFF1E {
            self.apu.write_nr34(value);
        } else if addr == 0xFF20 {
            self.apu.write_nr41(value);
        } else if addr == 0xFF21 {
            self.apu.write_nr42(value);
        } else if addr == 0xFF22 {
            self.apu.write_nr43(value);
        } else if addr == 0xFF23 {
            self.apu.write_nr44(value);
        } else if addr == 0xFF24 {
            self.apu.write_nr50(value);
        } else if addr == 0xFF25 {
            self.apu.write_nr51(value);
        } else if addr == 0xFF26 {
            self.apu.write_nr52(value);
        } else if 0xFF30 <= addr && addr <= 0xFF3F {
            self.apu.write_wave_ram(addr, value);
        }
    }
}

} // verus!
