use vstd::prelude::*;
use crate::emu_core::cpu::cpu::CPU;
use crate::emu_core::cpu::prelude::CyclesType;

verus! {

/// One machine cycle.
pub const CYCLES_1: CyclesType = 1;

/// Two machine cycles.
pub const CYCLES_2: CyclesType = 2;

/// Three machine cycles.
pub const CYCLES_3: CyclesType = 3;

/// Four machine cycles.
pub const CYCLES_4: CyclesType = 4;

/// NOP.
pub const NOP: CyclesType = 4;

/// LD r,r.
pub const LD_R_R: CyclesType = 4;

/// LD r,n.
pub const LD_R_N: CyclesType = 8;

/// LD r,(HL).
pub const LD_R_HL: CyclesType = 8;

/// LD (HL),r.
pub const LD_HL_R: CyclesType = 8;

/// LD (HL),n.
pub const LD_HL_N: CyclesType = 12;

/// LD A,(BC).
pub const LD_A_BC: CyclesType = 8;

/// LD A,(DE).
pub const LD_A_DE: CyclesType = 8;

/// LD A,(nn).
pub const LD_A_NN: CyclesType = 16;

/// LD (nn),A.
pub const LD_NN_A: CyclesType = 16;

/// LDH A,(n).
pub const LD_A_FF00_N: CyclesType = 12;

/// LDH (n),A.
pub const LD_FF00_N_A: CyclesType = 12;

/// LD A,(C).
pub const LD_A_FF00_C: CyclesType = 8;

/// LD (C),A.
pub const LD_FF00_C_A: CyclesType = 8;

/// LD (HL+),A.
pub const LDI_HL_A: CyclesType = 8;

/// LD A,(HL+).
pub const LDI_A_HL: CyclesType = 8;

/// LD (HL-),A.
pub const LDD_HL_A: CyclesType = 8;

/// LD A,(HL-).
pub const LDD_A_HL: CyclesType = 8;

/// LD rr,nn.
pub const LD_RR_NN: CyclesType = 12;

/// LD SP,nn.
pub const LD_SP_NN: CyclesType = 12;

/// LD HL,SP+n.
pub const LD_HL_SP_N: CyclesType = 12;

/// LD SP,HL.
pub const LD_SP_HL: CyclesType = 8;

/// The cycles of the current instruction, as tracked here: always 4.
pub fn get_cycles(cpu: &CPU) -> (r: CyclesType)
    ensures
        r == 4,
{
    4
}

/// Setting the cycle count keeps no state: nothing changes.
pub fn set_cycles(cpu: &mut CPU, cycles: CyclesType)
    ensures
        *final(cpu) == *old(cpu),
{
}

/// Resetting the cycle count keeps no state: nothing changes.
pub fn reset_cycles(cpu: &mut CPU)
    ensures
        *final(cpu) == *old(cpu),
{
}

} // verus!
