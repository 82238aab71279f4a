use vstd::prelude::*;
use crate::gb::cpu::{CPU, BusAccess, acc_val, add16, add8, pc_after_fetch, log_grows};
use crate::gb::registers::{
    Flags,
    RegsView,
    flags_byte,
    fz,
    fnn,
    fh,
    fc,
    pair,
    hi_byte,
    lo_byte,
    lemma_pair_split,
    lemma_pair_join,
    lemma_registers_wf,
};

verus! {

/// A flag bit of register F.
pub enum FlagBits {
    Z,
    N,
    H,
    C,
}

impl FlagBits {
    /// The bit mask of the flag in register F.
    pub fn mask(&self) -> (r: u8)
        ensures
            r == match self {
                FlagBits::Z => 0x80u8,
                FlagBits::N => 0x40u8,
                FlagBits::H => 0x20u8,
                FlagBits::C => 0x10u8,
            },
    {
        match self {
            FlagBits::Z => 0b1000_0000,
            FlagBits::N => 0b0100_0000,
            FlagBits::H => 0b0010_0000,
            FlagBits::C => 0b0001_0000,
        }
    }
}

/// The executor that carries out an instruction.
#[derive(Clone, Copy, PartialEq, Eq)]
pub enum ExecKind {
    Nop,
    LdRR,
    LdAN,
    IncA,
    XorA,
    DecA,
    Halt,
    OrAN,
    Ret,
    Rlca,
    Rrca,
    Rla,
    Rra,
    JpNN,
    LdRN,
    JrR8,
    IncR,
    DecR,
    JpHl,
    Rst,
    Reti,
    CallNN,
    PushRrAf,
    PopRrAf,
    AluAddR,
    AluAdcR,
    AluSubR,
    AluSbcR,
    AluAndR,
    AluXorR,
    AluOrR,
    AluCpR,
    AluAddN,
    AluAdcN,
    AluSubN,
    AluSbcN,
    AluAndN,
    AluXorN,
    AluCpN,
    LdHlIncA,
    LdAHlInc,
    LdHlDecA,
    LdAHlDec,
    LdABc,
    LdADe,
    LdBcA,
    LdDeA,
    LdHlN,
    AddSpE8,
    LdHlSpE8,
    LdSpHl,
    LdA16A,
    LdAA16,
    LdA16Sp,
    LdhA8A,
    LdhAA8,
    LdCA,
    LdAC,
    CbGeneric,
    LdRrNN,
    IncRr,
    DecRr,
    AddHlRr,
    JrCc,
    JpCc,
    CallCc,
    RetCc,
    Ei,
    Di,
    Ccf,
    Scf,
    Cpl,
    Daa,
    Stop,
}

/// An instruction table entry: opcode, mnemonic, nominal cycles, length and executor.
pub struct Instruction {
    pub opcode: u8,
    pub name: &'static str,
    pub cycles: u8,
    pub size: u8,
    pub flags: Vec<FlagBits>,
    pub execute: ExecKind,
}

// ---------------------------------------------------------------------------------------
// Specification helpers
// ---------------------------------------------------------------------------------------

/// The register that an encoding index 0..=7 (B,C,D,E,H,L,(HL),A) names; (HL) is memory.
pub open spec fn r8(r: RegsView, idx: u8) -> u8 {
    let i = idx % 8;
    if i == 0 {
        r.b
    } else if i == 1 {
        r.c
    } else if i == 2 {
        r.d
    } else if i == 3 {
        r.e
    } else if i == 4 {
        r.h
    } else if i == 5 {
        r.l
    } else if i == 7 {
        r.a
    } else {
        0
    }
}

/// The registers with the one named by `idx` replaced ((HL) leaves them unchanged).
pub open spec fn with_r8(r: RegsView, idx: u8, v: u8) -> RegsView {
    let i = idx % 8;
    if i == 0 {
        RegsView { b: v, ..r }
    } else if i == 1 {
        RegsView { c: v, ..r }
    } else if i == 2 {
        RegsView { d: v, ..r }
    } else if i == 3 {
        RegsView { e: v, ..r }
    } else if i == 4 {
        RegsView { h: v, ..r }
    } else if i == 5 {
        RegsView { l: v, ..r }
    } else if i == 7 {
        RegsView { a: v, ..r }
    } else {
        r
    }
}

/// The register pair that an encoding index 0..=3 (BC,DE,HL,SP) names.
pub open spec fn rr(r: RegsView, idx: u8) -> u16 {
    let i = idx % 4;
    if i == 0 {
        r.bc()
    } else if i == 1 {
        r.de()
    } else if i == 2 {
        r.hl()
    } else {
        r.sp
    }
}

/// The registers with the pair named by `idx` (BC,DE,HL,SP) replaced.
pub open spec fn with_rr(r: RegsView, idx: u8, v: u16) -> RegsView {
    let i = idx % 4;
    if i == 0 {
        RegsView { b: hi_byte(v), c: lo_byte(v), ..r }
    } else if i == 1 {
        RegsView { d: hi_byte(v), e: lo_byte(v), ..r }
    } else if i == 2 {
        RegsView { h: hi_byte(v), l: lo_byte(v), ..r }
    } else {
        RegsView { sp: v, ..r }
    }
}

/// The stack pair that an encoding index 0..=3 (BC,DE,HL,AF) names.
pub open spec fn rr_af(r: RegsView, idx: u8) -> u16 {
    if idx % 4 == 3 {
        r.af()
    } else {
        rr(r, idx)
    }
}

/// The registers with the stack pair named by `idx` (BC,DE,HL,AF) replaced; F keeps its
/// upper nibble only.
pub open spec fn with_rr_af(r: RegsView, idx: u8, v: u16) -> RegsView {
    if idx % 4 == 3 {
        RegsView { a: hi_byte(v), f: lo_byte(v) & 0xF0, ..r }
    } else {
        with_rr(r, idx, v)
    }
}

/// A byte sign-extended to a displacement.
pub open spec fn sext(e: u8) -> int {
    if e < 128 {
        e as int
    } else {
        e as int - 256
    }
}

/// Result of an 8-bit addition with carry-in.
pub open spec fn add_res(a: u8, b: u8, ci: int) -> u8 {
    add8(a, b + ci)
}

/// Flags of an 8-bit addition with carry-in: Z, N=0, H from bit 3, C from bit 7.
pub open spec fn add_flags(a: u8, b: u8, ci: int) -> u8 {
    flags_byte(add_res(a, b, ci) == 0, false, a % 16 + b % 16 + ci > 15, a + b + ci > 255)
}

/// Result of an 8-bit subtraction with borrow-in.
pub open spec fn sub_res(a: u8, b: u8, ci: int) -> u8 {
    ((a - b - ci + 512) % 256) as u8
}

/// Flags of an 8-bit subtraction with borrow-in: Z, N=1, H on borrow from bit 4, C on borrow.
pub open spec fn sub_flags(a: u8, b: u8, ci: int) -> u8 {
    flags_byte(sub_res(a, b, ci) == 0, true, a % 16 < b % 16 + ci, a < b + ci)
}

/// The carry flag of a flag byte as a number.
pub open spec fn cbit(f: u8) -> int {
    if fc(f) {
        1
    } else {
        0
    }
}

/// Whether a branch condition (NZ, Z, NC, C) holds for a flag byte.
pub open spec fn cond_holds(f: u8, cc: u8) -> bool {
    let k = cc % 4;
    if k == 0 {
        !fz(f)
    } else if k == 1 {
        fz(f)
    } else if k == 2 {
        !fc(f)
    } else {
        fc(f)
    }
}

/// The CPU after an instruction is well formed and its control state is unchanged.
pub open spec fn same_ctrl(old: CPU, new: CPU) -> bool {
    new.wf() && new.same_control(&old)
}

/// As `same_ctrl`, for instructions that fetch operands: the HALT bug is consumed.
pub open spec fn ctrl_fetch(old: CPU, new: CPU) -> bool {
    &&& new.wf()
    &&& new.ime == old.ime
    &&& new.ime_enable_armed == old.ime_enable_armed
    &&& new.ime_enable_pending == old.ime_enable_pending
    &&& new.opcode == old.opcode
    &&& new.cycles == old.cycles
    &&& new.halted == old.halted
    &&& !new.halt_bug
    &&& log_grows(old, new)
}

/// The value of access number `i` after the accesses of `old` (0 = first new access).
pub open spec fn nth_new(old: CPU, new: CPU, i: int) -> u8 {
    acc_val(new.tr()[old.tr().len() + i])
}

/// The operand named by `idx`: a register, or for (HL) the first byte read by the instruction.
pub open spec fn operand(old: CPU, new: CPU, idx: u8) -> u8 {
    if idx % 8 == 6 {
        nth_new(old, new, 0)
    } else {
        r8(old.regs(), idx)
    }
}

/// The accesses of reading operand `idx` (a read of (HL) or none).
pub open spec fn operand_reads(old: CPU, idx: u8, v: u8) -> Seq<BusAccess> {
    if idx % 8 == 6 {
        seq![BusAccess::Read(old.regs().hl(), v)]
    } else {
        seq![]
    }
}

// ---------------------------------------------------------------------------------------
// Register and operand helpers
// ---------------------------------------------------------------------------------------

/// The low nibble of a byte.
fn lo4(x: u8) -> (r: u8)
    ensures
        r == x % 16,
        r == x & 0x0F,
{
    proof {
        crate::bits::lemma_u8_bits(x);
    }
    x & 0x0F
}

/// Reads the register named by `idx` (B,C,D,E,H,L,(HL),A); (HL) reads memory.
fn read_r(cpu: &mut CPU, idx: u8) -> (r: u8)
    requires
        old(cpu).wf(),
    ensures
        same_ctrl(*old(cpu), *final(cpu)),
        final(cpu).regs() == old(cpu).regs(),
        idx % 8 != 6 ==> r == r8(old(cpu).regs(), idx),
        final(cpu).tr() == old(cpu).tr() + operand_reads(*old(cpu), idx, r),
{
    let i = idx & 0x07;
    proof {
        crate::bits::lemma_u8_bits(idx);
    }
    if i == 0 {
        cpu.registers.get_b()
    } else if i == 1 {
        cpu.registers.get_c()
    } else if i == 2 {
        cpu.registers.get_d()
    } else if i == 3 {
        cpu.registers.get_e()
    } else if i == 4 {
        cpu.registers.get_h()
    } else if i == 5 {
        cpu.registers.get_l()
    } else if i == 6 {
        let hl = cpu.registers.get_hl();
        let v = cpu.read8(hl);
        proof {
            assert(final(cpu).tr() == old(cpu).tr() + seq![BusAccess::Read(hl, v)]);
        }
        v
    } else {
        cpu.registers.get_a()
    }
}

/// Writes the register named by `idx`; (HL) writes memory.
fn write_r(cpu: &mut CPU, idx: u8, val: u8)
    requires
        old(cpu).wf(),
    ensures
        same_ctrl(*old(cpu), *final(cpu)),
        final(cpu).regs() == with_r8(old(cpu).regs(), idx, val),
        final(cpu).tr() == (if idx % 8 == 6 {
            old(cpu).tr().push(BusAccess::Write(old(cpu).regs().hl(), val))
        } else {
            old(cpu).tr()
        }),
{
    let i = idx & 0x07;
    proof {
        crate::bits::lemma_u8_bits(idx);
    }
    if i == 0 {
        cpu.registers.set_b(val);
    } else if i == 1 {
        cpu.registers.set_c(val);
    } else if i == 2 {
        cpu.registers.set_d(val);
    } else if i == 3 {
        cpu.registers.set_e(val);
    } else if i == 4 {
        cpu.registers.set_h(val);
    } else if i == 5 {
        cpu.registers.set_l(val);
    } else if i == 6 {
        let hl = cpu.registers.get_hl();
        cpu.write8(hl, val);
    } else {
        cpu.registers.set_a(val);
    }
}

/// Reads the register named by `idx`; for (HL) the bus first advances one machine cycle so
/// the memory read lands on the instruction's second cycle.
fn read_r_timed(cpu: &mut CPU, idx: u8) -> (r: u8)
    requires
        old(cpu).wf(),
    ensures
        same_ctrl(*old(cpu), *final(cpu)),
        final(cpu).regs() == old(cpu).regs(),
        idx % 8 != 6 ==> r == r8(old(cpu).regs(), idx),
        final(cpu).tr() == old(cpu).tr() + operand_reads(*old(cpu), idx, r),
{
    proof {
        crate::bits::lemma_u8_bits(idx);
    }
    if idx & 0x07 == 6 {
        let hl = cpu.registers.get_hl();
        cpu.step_mem(4);
        let v = cpu.read8(hl);
        proof {
            assert(final(cpu).tr() == old(cpu).tr() + seq![BusAccess::Read(hl, v)]);
        }
        v
    } else {
        read_r(cpu, idx)
    }
}

/// Replaces the flags with exactly Z, N, H, C as given.
fn set_flags_zhnc(cpu: &mut CPU, z: bool, n: bool, h: bool, c: bool)
    requires
        old(cpu).wf(),
    ensures
        same_ctrl(*old(cpu), *final(cpu)),
        final(cpu).regs() == (RegsView { f: flags_byte(z, n, h, c), ..old(cpu).regs() }),
        final(cpu).tr() == old(cpu).tr(),
        final(cpu).memory == old(cpu).memory,
        final(cpu).bus_log == old(cpu).bus_log,
{
    cpu.registers.set_flags(Flags::from_parts(z, n, h, c));
}

/// Whether the carry flag is set.
fn carry_set(cpu: &CPU) -> (r: bool)
    ensures
        r == fc(cpu.regs().f),
{
    cpu.registers.flags().carry()
}


// ---------------------------------------------------------------------------------------
// Specifications of the executors
// ---------------------------------------------------------------------------------------

/// The PC after an instruction fetched one operand byte.
pub open spec fn pc1(o: CPU) -> u16 {
    pc_after_fetch(o.regs().pc, o.halt_bug)
}

/// The PC after an instruction fetched two operand bytes.
pub open spec fn pc2(o: CPU) -> u16 {
    add16(pc1(o), 1)
}

/// The one-byte immediate operand that the instruction fetched.
pub open spec fn imm8(o: CPU, n: CPU) -> u8 {
    nth_new(o, n, 0)
}

/// The two-byte immediate operand (little endian) that the instruction fetched.
pub open spec fn imm16(o: CPU, n: CPU) -> u16 {
    pair(nth_new(o, n, 1), nth_new(o, n, 0))
}

/// The accesses of fetching a one-byte immediate.
pub open spec fn fetch1(o: CPU, v: u8) -> Seq<BusAccess> {
    seq![BusAccess::Read(o.regs().pc, v)]
}

/// The accesses of fetching a two-byte immediate.
pub open spec fn fetch2(o: CPU, w: u16) -> Seq<BusAccess> {
    seq![BusAccess::Read(o.regs().pc, lo_byte(w)), BusAccess::Read(pc1(o), hi_byte(w))]
}

/// The accesses of pushing a word below `sp`: high byte first.
pub open spec fn push_writes(sp: u16, w: u16) -> Seq<BusAccess> {
    seq![BusAccess::Write(add16(sp, -1), hi_byte(w)), BusAccess::Write(add16(sp, -2), lo_byte(w))]
}

/// The accesses of popping a word at `sp`: low byte first.
pub open spec fn pop_reads(sp: u16, w: u16) -> Seq<BusAccess> {
    seq![BusAccess::Read(sp, lo_byte(w)), BusAccess::Read(add16(sp, 1), hi_byte(w))]
}

/// The word that a pop read: the first new access is the low byte, the second the high byte.
pub open spec fn popped(o: CPU, n: CPU) -> u16 {
    pair(nth_new(o, n, 1), nth_new(o, n, 0))
}

/// Rotate left circular.
pub open spec fn rlc8(v: u8) -> u8 {
    (v << 1u8) | (v >> 7u8)
}

/// Rotate right circular.
pub open spec fn rrc8(v: u8) -> u8 {
    (v >> 1u8) | (v << 7u8)
}

/// Rotate left through a carry bit `c` (0 or 1).
pub open spec fn rl8(v: u8, c: u8) -> u8 {
    (v << 1u8) | c
}

/// Rotate right through a carry bit `c` (0 or 1).
pub open spec fn rr8(v: u8, c: u8) -> u8 {
    (v >> 1u8) | (c << 7u8)
}

/// The carry flag of a flag byte as a bit.
pub open spec fn cbit8(f: u8) -> u8 {
    if fc(f) {
        1
    } else {
        0
    }
}

/// An instruction that touches neither the bus nor the control state.
pub open spec fn plain(o: CPU, n: CPU, regs: RegsView) -> bool {
    &&& same_ctrl(o, n)
    &&& n.regs() == regs
    &&& n.tr() == o.tr()
    &&& n.memory == o.memory
}

/// An instruction whose only bus accesses are `acc`, with the control state kept.
pub open spec fn accesses(o: CPU, n: CPU, regs: RegsView, acc: Seq<BusAccess>) -> bool {
    &&& same_ctrl(o, n)
    &&& n.regs() == regs
    &&& n.tr() == o.tr() + acc
}

/// An instruction that fetched operands and then made the accesses `acc`.
pub open spec fn fetching(o: CPU, n: CPU, regs: RegsView, acc: Seq<BusAccess>) -> bool {
    &&& ctrl_fetch(o, n)
    &&& n.regs() == regs
    &&& n.tr() == o.tr() + acc
}

/// NOP: nothing changes.
pub open spec fn post_nop(o: CPU, n: CPU, r: u64) -> bool {
    plain(o, n, o.regs()) && r == 4
}

/// LD r,r': the destination register (or (HL)) receives the source register (or (HL)).
pub open spec fn post_ld_r_r(o: CPU, n: CPU, r: u64) -> bool {
    let dst = o.opcode / 8;
    let src = o.opcode;
    let v = operand(o, n, src);
    let wr = if dst % 8 == 6 {
        seq![BusAccess::Write(o.regs().hl(), v)]
    } else {
        seq![]
    };
    &&& accesses(o, n, with_r8(o.regs(), dst, v), operand_reads(o, src, v) + wr)
    &&& r == (if src % 8 == 6 || dst % 8 == 6 {
        8u64
    } else {
        4u64
    })
}

/// LD A,n.
pub open spec fn post_ld_a_n(o: CPU, n: CPU, r: u64) -> bool {
    let v = imm8(o, n);
    fetching(o, n, RegsView { a: v, pc: pc1(o), ..o.regs() }, fetch1(o, v)) && r == 8
}

/// INC A: Z, N=0, H from bit 3; C kept.
pub open spec fn post_inc_a(o: CPU, n: CPU, r: u64) -> bool {
    let a = o.regs().a;
    let res = add8(a, 1);
    let f = flags_byte(res == 0, false, a % 16 + 1 > 15, fc(o.regs().f));
    plain(o, n, RegsView { a: res, f, ..o.regs() }) && r == 4
}

/// XOR A: A and F become 0 except Z.
pub open spec fn post_xor_a(o: CPU, n: CPU, r: u64) -> bool {
    plain(o, n, RegsView { a: 0, f: 0x80, ..o.regs() }) && r == 4
}

/// DEC A: Z, N=1, H on borrow from bit 4; C kept.
pub open spec fn post_dec_a(o: CPU, n: CPU, r: u64) -> bool {
    let a = o.regs().a;
    let res = add8(a, -1);
    let f = flags_byte(res == 0, true, a % 16 == 0, fc(o.regs().f));
    plain(o, n, RegsView { a: res, f, ..o.regs() }) && r == 4
}

/// HALT: reads IE and IF; with IME clear and an enabled interrupt pending the HALT bug is
/// armed, otherwise the CPU halts.
pub open spec fn post_halt(o: CPU, n: CPU, r: u64) -> bool {
    let ie = nth_new(o, n, 0);
    let ifl = nth_new(o, n, 1);
    let bug = !o.ime && (ie & ifl) & 0x1F != 0;
    &&& n.wf()
    &&& n.regs() == o.regs()
    &&& n.tr() == o.tr() + seq![BusAccess::Read(0xFFFF, ie), BusAccess::Read(0xFF0F, ifl)]
    &&& n.ime == o.ime && n.ime_enable_armed == o.ime_enable_armed
    &&& n.ime_enable_pending == o.ime_enable_pending && n.opcode == o.opcode
    &&& n.cycles == o.cycles
    &&& n.halt_bug == (o.halt_bug || bug)
    &&& n.halted == (o.halted || !bug)
    &&& log_grows(o, n)
    &&& r == 4
}

/// OR n.
pub open spec fn post_or_a_n(o: CPU, n: CPU, r: u64) -> bool {
    let v = imm8(o, n);
    let res = o.regs().a | v;
    fetching(
        o,
        n,
        RegsView { a: res, f: flags_byte(res == 0, false, false, false), pc: pc1(o), ..o.regs() },
        fetch1(o, v),
    ) && r == 8
}

/// RLCA, RRCA, RLA, RRA: A rotates; Z=N=H=0, C the bit shifted out.
pub open spec fn post_rot_a(o: CPU, n: CPU, r: u64, res: u8, c: bool) -> bool {
    plain(o, n, RegsView { a: res, f: flags_byte(false, false, false, c), ..o.regs() }) && r == 4
}

/// JP nn.
pub open spec fn post_jp_nn(o: CPU, n: CPU, r: u64) -> bool {
    let w = imm16(o, n);
    fetching(o, n, RegsView { pc: w, ..o.regs() }, fetch2(o, w)) && r == 16
}

/// LD r,n: the register (or (HL)) named by bits 5..3 receives the immediate.
pub open spec fn post_ld_r_n(o: CPU, n: CPU, r: u64) -> bool {
    let dst = o.opcode / 8;
    let v = imm8(o, n);
    let wr = if dst % 8 == 6 {
        seq![BusAccess::Write(o.regs().hl(), v)]
    } else {
        seq![]
    };
    &&& fetching(o, n, with_r8(RegsView { pc: pc1(o), ..o.regs() }, dst, v), fetch1(o, v) + wr)
    &&& r == (if dst % 8 == 6 {
        12u64
    } else {
        8u64
    })
}

/// JR e: PC moves by the signed displacement from the next instruction.
pub open spec fn post_jr_r8(o: CPU, n: CPU, r: u64) -> bool {
    let e = imm8(o, n);
    fetching(o, n, RegsView { pc: add16(pc1(o), sext(e)), ..o.regs() }, fetch1(o, e)) && r == 12
}

/// INC r: Z, N=0, H from bit 3, C kept; (HL) is read then written.
pub open spec fn post_inc_r(o: CPU, n: CPU, r: u64) -> bool {
    let idx = o.opcode / 8;
    let v = operand(o, n, idx);
    let res = add8(v, 1);
    let f = flags_byte(res == 0, false, v % 16 + 1 > 15, fc(o.regs().f));
    let wr = if idx % 8 == 6 {
        seq![BusAccess::Write(o.regs().hl(), res)]
    } else {
        seq![]
    };
    &&& accesses(o, n, with_r8(RegsView { f, ..o.regs() }, idx, res), operand_reads(o, idx, v) + wr)
    &&& r == (if idx % 8 == 6 {
        12u64
    } else {
        4u64
    })
}

/// DEC r: Z, N=1, H on borrow from bit 4, C kept; (HL) is read then written.
pub open spec fn post_dec_r(o: CPU, n: CPU, r: u64) -> bool {
    let idx = o.opcode / 8;
    let v = operand(o, n, idx);
    let res = add8(v, -1);
    let f = flags_byte(res == 0, true, v % 16 == 0, fc(o.regs().f));
    let wr = if idx % 8 == 6 {
        seq![BusAccess::Write(o.regs().hl(), res)]
    } else {
        seq![]
    };
    &&& accesses(o, n, with_r8(RegsView { f, ..o.regs() }, idx, res), operand_reads(o, idx, v) + wr)
    &&& r == (if idx % 8 == 6 {
        12u64
    } else {
        4u64
    })
}

/// JP (HL).
pub open spec fn post_jp_hl(o: CPU, n: CPU, r: u64) -> bool {
    plain(o, n, RegsView { pc: o.regs().hl(), ..o.regs() }) && r == 4
}

/// The restart vector of an RST opcode.
pub open spec fn rst_vector(op: u8) -> u16 {
    (add8(op, -0xC7) & 0x38) as u16
}

/// RST t: pushes PC and jumps to the vector.
pub open spec fn post_rst(o: CPU, n: CPU, r: u64) -> bool {
    let regs = RegsView { sp: add16(o.regs().sp, -2), pc: rst_vector(o.opcode), ..o.regs() };
    accesses(o, n, regs, push_writes(o.regs().sp, o.regs().pc)) && r == 16
}

/// RETI: pops PC and sets IME.
pub open spec fn post_reti(o: CPU, n: CPU, r: u64) -> bool {
    let w = popped(o, n);
    &&& n.wf()
    &&& n.regs() == (RegsView { sp: add16(o.regs().sp, 2), pc: w, ..o.regs() })
    &&& n.tr() == o.tr() + pop_reads(o.regs().sp, w)
    &&& n.ime
    &&& n.ime_enable_armed == o.ime_enable_armed && n.ime_enable_pending == o.ime_enable_pending
    &&& n.opcode == o.opcode && n.cycles == o.cycles && n.halted == o.halted
    &&& n.halt_bug == o.halt_bug
    &&& log_grows(o, n)
    &&& r == 16
}

/// CALL nn: pushes the address after the instruction and jumps.
pub open spec fn post_call_nn(o: CPU, n: CPU, r: u64) -> bool {
    let w = imm16(o, n);
    let regs = RegsView { sp: add16(o.regs().sp, -2), pc: w, ..o.regs() };
    fetching(o, n, regs, fetch2(o, w) + push_writes(o.regs().sp, pc2(o))) && r == 24
}

/// PUSH rr: the pair named by bits 5..4 (BC, DE, HL, AF) goes on the stack.
pub open spec fn post_push(o: CPU, n: CPU, r: u64) -> bool {
    let regs = RegsView { sp: add16(o.regs().sp, -2), ..o.regs() };
    accesses(o, n, regs, push_writes(o.regs().sp, rr_af(o.regs(), o.opcode / 16))) && r == 16
}

/// POP rr: the pair named by bits 5..4 (BC, DE, HL, AF) comes off the stack.
pub open spec fn post_pop(o: CPU, n: CPU, r: u64) -> bool {
    let w = popped(o, n);
    let regs = with_rr_af(RegsView { sp: add16(o.regs().sp, 2), ..o.regs() }, o.opcode / 16, w);
    accesses(o, n, regs, pop_reads(o.regs().sp, w)) && r == 12
}

/// RET: pops PC.
pub open spec fn post_ret(o: CPU, n: CPU, r: u64) -> bool {
    let w = popped(o, n);
    let regs = RegsView { sp: add16(o.regs().sp, 2), pc: w, ..o.regs() };
    accesses(o, n, regs, pop_reads(o.regs().sp, w)) && r == 16
}

/// The accumulator after ALU operation `k` (ADD, ADC, SUB, SBC, AND, XOR, OR, CP) on A and `b`.
pub open spec fn alu_a(k: u8, a: u8, b: u8, f: u8) -> u8 {
    if k == 0 {
        add_res(a, b, 0)
    } else if k == 1 {
        add_res(a, b, cbit(f))
    } else if k == 2 {
        sub_res(a, b, 0)
    } else if k == 3 {
        sub_res(a, b, cbit(f))
    } else if k == 4 {
        a & b
    } else if k == 5 {
        a ^ b
    } else if k == 6 {
        a | b
    } else {
        a
    }
}

/// The flags after ALU operation `k` on A and `b`.
pub open spec fn alu_f(k: u8, a: u8, b: u8, f: u8) -> u8 {
    if k == 0 {
        add_flags(a, b, 0)
    } else if k == 1 {
        add_flags(a, b, cbit(f))
    } else if k == 2 {
        sub_flags(a, b, 0)
    } else if k == 3 {
        sub_flags(a, b, cbit(f))
    } else if k == 4 {
        flags_byte(a & b == 0, false, true, false)
    } else if k == 5 {
        flags_byte(a ^ b == 0, false, false, false)
    } else if k == 6 {
        flags_byte(a | b == 0, false, false, false)
    } else {
        sub_flags(a, b, 0)
    }
}

/// ALU operation `k` with the register (or (HL)) named by bits 2..0.
pub open spec fn post_alu_r(o: CPU, n: CPU, r: u64, k: u8) -> bool {
    let b = operand(o, n, o.opcode);
    let regs = RegsView {
        a: alu_a(k, o.regs().a, b, o.regs().f),
        f: alu_f(k, o.regs().a, b, o.regs().f),
        ..o.regs()
    };
    &&& accesses(o, n, regs, operand_reads(o, o.opcode, b))
    &&& r == (if o.opcode % 8 == 6 {
        8u64
    } else {
        4u64
    })
}

/// ALU operation `k` with an immediate byte.
pub open spec fn post_alu_n(o: CPU, n: CPU, r: u64, k: u8) -> bool {
    let b = imm8(o, n);
    let regs = RegsView {
        a: alu_a(k, o.regs().a, b, o.regs().f),
        f: alu_f(k, o.regs().a, b, o.regs().f),
        pc: pc1(o),
        ..o.regs()
    };
    fetching(o, n, regs, fetch1(o, b)) && r == 8
}

/// LD (HL+),A and LD (HL-),A: A is stored at HL, then HL moves by `d`.
pub open spec fn post_ld_hl_a(o: CPU, n: CPU, r: u64, d: int) -> bool {
    let hl = o.regs().hl();
    accesses(o, n, with_rr(o.regs(), 2, add16(hl, d)), seq![BusAccess::Write(hl, o.regs().a)])
        && r == 8
}

/// LD A,(HL+) and LD A,(HL-): A is loaded from HL, then HL moves by `d`.
pub open spec fn post_ld_a_hl(o: CPU, n: CPU, r: u64, d: int) -> bool {
    let hl = o.regs().hl();
    let v = nth_new(o, n, 0);
    accesses(o, n, with_rr(RegsView { a: v, ..o.regs() }, 2, add16(hl, d)), seq![BusAccess::Read(hl, v)])
        && r == 8
}

/// LD A,(addr) through a register pair: A is loaded from `addr`.
pub open spec fn post_ld_a_ind(o: CPU, n: CPU, r: u64, addr: u16) -> bool {
    let v = nth_new(o, n, 0);
    accesses(o, n, RegsView { a: v, ..o.regs() }, seq![BusAccess::Read(addr, v)]) && r == 8
}

/// LD (addr),A through a register pair: A is stored at `addr`.
pub open spec fn post_ld_ind_a(o: CPU, n: CPU, r: u64, addr: u16) -> bool {
    accesses(o, n, o.regs(), seq![BusAccess::Write(addr, o.regs().a)]) && r == 8
}

/// LD (HL),n.
pub open spec fn post_ld_hl_n(o: CPU, n: CPU, r: u64) -> bool {
    let v = imm8(o, n);
    fetching(
        o,
        n,
        RegsView { pc: pc1(o), ..o.regs() },
        fetch1(o, v) + seq![BusAccess::Write(o.regs().hl(), v)],
    ) && r == 12
}

/// SP plus a signed displacement, with the flags of the low-byte addition (Z=N=0).
pub open spec fn sp_e8_flags(sp: u16, e: u8) -> u8 {
    flags_byte(false, false, sp % 16 + e % 16 > 15, sp % 256 + e > 255)
}

/// ADD SP,e.
pub open spec fn post_add_sp_e8(o: CPU, n: CPU, r: u64) -> bool {
    let e = imm8(o, n);
    let sp = o.regs().sp;
    let regs = RegsView { sp: add16(sp, sext(e)), f: sp_e8_flags(sp, e), pc: pc1(o), ..o.regs() };
    fetching(o, n, regs, fetch1(o, e)) && r == 16
}

/// LD HL,SP+e.
pub open spec fn post_ld_hl_sp_e8(o: CPU, n: CPU, r: u64) -> bool {
    let e = imm8(o, n);
    let sp = o.regs().sp;
    let regs = with_rr(
        RegsView { f: sp_e8_flags(sp, e), pc: pc1(o), ..o.regs() },
        2,
        add16(sp, sext(e)),
    );
    fetching(o, n, regs, fetch1(o, e)) && r == 12
}

/// LD SP,HL.
pub open spec fn post_ld_sp_hl(o: CPU, n: CPU, r: u64) -> bool {
    plain(o, n, RegsView { sp: o.regs().hl(), ..o.regs() }) && r == 8
}

/// LD (a16),A.
pub open spec fn post_ld_a16_a(o: CPU, n: CPU, r: u64) -> bool {
    let w = imm16(o, n);
    fetching(
        o,
        n,
        RegsView { pc: pc2(o), ..o.regs() },
        fetch2(o, w) + seq![BusAccess::Write(w, o.regs().a)],
    ) && r == 16
}

/// LD A,(a16).
pub open spec fn post_ld_a_a16(o: CPU, n: CPU, r: u64) -> bool {
    let w = imm16(o, n);
    let v = nth_new(o, n, 2);
    fetching(
        o,
        n,
        RegsView { a: v, pc: pc2(o), ..o.regs() },
        fetch2(o, w) + seq![BusAccess::Read(w, v)],
    ) && r == 16
}

/// LD (a16),SP: low byte at a16, high byte at a16+1.
pub open spec fn post_ld_a16_sp(o: CPU, n: CPU, r: u64) -> bool {
    let w = imm16(o, n);
    let sp = o.regs().sp;
    fetching(
        o,
        n,
        RegsView { pc: pc2(o), ..o.regs() },
        fetch2(o, w) + seq![
            BusAccess::Write(w, lo_byte(sp)),
            BusAccess::Write(add16(w, 1), hi_byte(sp)),
        ],
    ) && r == 20
}

/// LDH (a8),A.
pub open spec fn post_ldh_a8_a(o: CPU, n: CPU, r: u64) -> bool {
    let v = imm8(o, n);
    fetching(
        o,
        n,
        RegsView { pc: pc1(o), ..o.regs() },
        fetch1(o, v) + seq![BusAccess::Write((0xFF00 + v) as u16, o.regs().a)],
    ) && r == 12
}

/// LDH A,(a8).
pub open spec fn post_ldh_a_a8(o: CPU, n: CPU, r: u64) -> bool {
    let v = imm8(o, n);
    let x = nth_new(o, n, 1);
    fetching(
        o,
        n,
        RegsView { a: x, pc: pc1(o), ..o.regs() },
        fetch1(o, v) + seq![BusAccess::Read((0xFF00 + v) as u16, x)],
    ) && r == 12
}

/// The result of CB rotate/shift operation `y` (RLC, RRC, RL, RR, SLA, SRA, SWAP, SRL) on `v`.
pub open spec fn cb_shift_res(y: u8, v: u8, f: u8) -> u8 {
    if y == 0 {
        rlc8(v)
    } else if y == 1 {
        rrc8(v)
    } else if y == 2 {
        rl8(v, cbit8(f))
    } else if y == 3 {
        rr8(v, cbit8(f))
    } else if y == 4 {
        v << 1u8
    } else if y == 5 {
        (v >> 1u8) | (v & 0x80)
    } else if y == 6 {
        (v << 4u8) | (v >> 4u8)
    } else {
        v >> 1u8
    }
}

/// The carry out of CB rotate/shift operation `y` on `v`.
pub open spec fn cb_shift_c(y: u8, v: u8) -> bool {
    if y == 0 || y == 2 || y == 4 {
        v & 0x80 != 0
    } else if y == 6 {
        false
    } else {
        v & 1 != 0
    }
}

/// A CB-prefixed instruction: rotates/shifts, BIT, RES and SET on the register (or (HL))
/// named by bits 2..0; the operation is in bits 7..3.
pub open spec fn post_cb(o: CPU, n: CPU, r: u64) -> bool {
    let op = o.opcode;
    let x = op / 64;
    let y = (op / 8) % 8;
    let hl6 = op % 8 == 6;
    let v = operand(o, n, op);
    let f = o.regs().f;
    let res = if x == 0 {
        cb_shift_res(y, v, f)
    } else if x == 2 {
        v & !(1u8 << y)
    } else {
        v | (1u8 << y)
    };
    let wr = if hl6 {
        seq![BusAccess::Write(o.regs().hl(), res)]
    } else {
        seq![]
    };
    if x == 1 {
        &&& accesses(
            o,
            n,
            RegsView { f: flags_byte((v >> y) & 1 == 0, false, true, fc(f)), ..o.regs() },
            operand_reads(o, op, v),
        )
        &&& r == (if hl6 {
            12u64
        } else {
            8u64
        })
    } else {
        let regs = if x == 0 {
            with_r8(
                RegsView { f: flags_byte(res == 0, false, false, cb_shift_c(y, v)), ..o.regs() },
                op,
                res,
            )
        } else {
            with_r8(o.regs(), op, res)
        };
        &&& accesses(o, n, regs, operand_reads(o, op, v) + wr)
        &&& r == (if hl6 {
            16u64
        } else {
            8u64
        })
    }
}

/// LD rr,nn.
pub open spec fn post_ld_rr_nn(o: CPU, n: CPU, r: u64) -> bool {
    let w = imm16(o, n);
    fetching(o, n, with_rr(RegsView { pc: pc2(o), ..o.regs() }, o.opcode / 16, w), fetch2(o, w))
        && r == 12
}

/// INC rr and DEC rr: the pair named by bits 5..4 moves by `d`; flags kept.
pub open spec fn post_incdec_rr(o: CPU, n: CPU, r: u64, d: int) -> bool {
    let idx = o.opcode / 16;
    plain(o, n, with_rr(o.regs(), idx, add16(rr(o.regs(), idx), d))) && r == 8
}

/// ADD HL,rr: Z kept, N=0, H from bit 11, C from bit 15.
pub open spec fn post_add_hl_rr(o: CPU, n: CPU, r: u64) -> bool {
    let hl = o.regs().hl();
    let v = rr(o.regs(), o.opcode / 16);
    let f = flags_byte(fz(o.regs().f), false, hl % 4096 + v % 4096 > 4095, hl + v > 65535);
    plain(o, n, with_rr(RegsView { f, ..o.regs() }, 2, add16(hl, v as int))) && r == 8
}

/// JR cc,e.
pub open spec fn post_jr_cc(o: CPU, n: CPU, r: u64) -> bool {
    let e = imm8(o, n);
    let taken = cond_holds(o.regs().f, o.opcode / 8);
    let pc = if taken {
        add16(pc1(o), sext(e))
    } else {
        pc1(o)
    };
    &&& fetching(o, n, RegsView { pc, ..o.regs() }, fetch1(o, e))
    &&& r == (if taken {
        12u64
    } else {
        8u64
    })
}

/// JP cc,nn.
pub open spec fn post_jp_cc(o: CPU, n: CPU, r: u64) -> bool {
    let w = imm16(o, n);
    let taken = cond_holds(o.regs().f, o.opcode / 8);
    let pc = if taken {
        w
    } else {
        pc2(o)
    };
    &&& fetching(o, n, RegsView { pc, ..o.regs() }, fetch2(o, w))
    &&& r == (if taken {
        16u64
    } else {
        12u64
    })
}

/// CALL cc,nn.
pub open spec fn post_call_cc(o: CPU, n: CPU, r: u64) -> bool {
    let w = imm16(o, n);
    if cond_holds(o.regs().f, o.opcode / 8) {
        let regs = RegsView { sp: add16(o.regs().sp, -2), pc: w, ..o.regs() };
        fetching(o, n, regs, fetch2(o, w) + push_writes(o.regs().sp, pc2(o))) && r == 24
    } else {
        fetching(o, n, RegsView { pc: pc2(o), ..o.regs() }, fetch2(o, w)) && r == 12
    }
}

/// RET cc.
pub open spec fn post_ret_cc(o: CPU, n: CPU, r: u64) -> bool {
    if cond_holds(o.regs().f, o.opcode / 8) {
        let w = popped(o, n);
        let regs = RegsView { sp: add16(o.regs().sp, 2), pc: w, ..o.regs() };
        accesses(o, n, regs, pop_reads(o.regs().sp, w)) && r == 20
    } else {
        plain(o, n, o.regs()) && r == 8
    }
}

/// The interrupt enables after an instruction that changes only them.
pub open spec fn ctrl_ime(o: CPU, n: CPU, ime: bool, armed: bool, pending: bool) -> bool {
    &&& n.wf()
    &&& n.regs() == o.regs() && n.tr() == o.tr() && n.memory == o.memory
    &&& n.ime == ime && n.ime_enable_armed == armed && n.ime_enable_pending == pending
    &&& n.opcode == o.opcode && n.cycles == o.cycles && n.halted == o.halted
    &&& n.halt_bug == o.halt_bug
    &&& n.bus_log == o.bus_log
}

/// EI: IME is armed to come on after the next instruction.
pub open spec fn post_ei(o: CPU, n: CPU, r: u64) -> bool {
    ctrl_ime(o, n, o.ime, true, o.ime_enable_pending) && r == 4
}

/// DI: IME off and any pending EI cancelled.
pub open spec fn post_di(o: CPU, n: CPU, r: u64) -> bool {
    ctrl_ime(o, n, false, false, false) && r == 4
}

/// An instruction that replaces only F.
pub open spec fn post_flags_only(o: CPU, n: CPU, r: u64, f: u8) -> bool {
    plain(o, n, RegsView { f, ..o.regs() }) && r == 4
}

/// CPL: A is complemented; N and H set.
pub open spec fn post_cpl(o: CPU, n: CPU, r: u64) -> bool {
    let f = o.regs().f;
    plain(o, n, RegsView { a: !o.regs().a, f: flags_byte(fz(f), true, true, fc(f)), ..o.regs() })
        && r == 4
}

/// The adjustment DAA adds to A (modulo 256).
pub open spec fn daa_adjust(a: u8, f: u8) -> int {
    if !fnn(f) {
        (if fc(f) || a > 0x99 {
            0x60int
        } else {
            0
        }) + (if fh(f) || a % 16 > 9 {
            6int
        } else {
            0
        })
    } else {
        -((if fc(f) {
            0x60int
        } else {
            0
        }) + (if fh(f) {
            6int
        } else {
            0
        }))
    }
}

/// A after DAA.
pub open spec fn daa_a(a: u8, f: u8) -> u8 {
    ((a + daa_adjust(a, f)) % 256) as u8
}

/// The carry after DAA.
pub open spec fn daa_c(a: u8, f: u8) -> bool {
    fc(f) || (!fnn(f) && a > 0x99)
}

/// DAA on the bus CPU after an addition of two BCD bytes gives their decimal sum: with A
/// holding the binary sum of BCD bytes `a` and `b` (mod 256), N clear, and H and C as that
/// addition set them, DAA leaves in A the BCD form of the decimal sum modulo 100 and sets C
/// exactly when the decimal sum is 100 or more.
pub proof fn law_bus_daa_after_bcd_add(a: u8, b: u8, f: u8)
    requires
        crate::emu_core::cpu::arithmetic::is_bcd(a),
        crate::emu_core::cpu::arithmetic::is_bcd(b),
        !fnn(f),
        fh(f) == (a % 16 + b % 16 > 15),
        fc(f) == (a + b > 255),
    ensures
        ({
            let s = ((a + b) % 256) as u8;
            let dsum = crate::emu_core::cpu::arithmetic::bcd_value(a)
                + crate::emu_core::cpu::arithmetic::bcd_value(b);
            &&& crate::emu_core::cpu::arithmetic::is_bcd(daa_a(s, f))
            &&& crate::emu_core::cpu::arithmetic::bcd_value(daa_a(s, f)) == dsum % 100
            &&& daa_c(s, f) == (dsum >= 100)
        }),
{
    let s = ((a + b) % 256) as u8;
    let r = crate::emu_core::cpu::registers::Registers {
        a: s,
        flags: crate::emu_core::cpu::flags::Flags { value: f },
        b: 0,
        c: 0,
        d: 0,
        e: 0,
        h: 0,
        l: 0,
        sp: 0,
        pc: 0,
    };
    crate::emu_core::cpu::arithmetic::law_daa_after_bcd_add(r, a, b);
    crate::bits::lemma_low_nibble(s);
    let dr = crate::emu_core::cpu::arithmetic::daa_regs(r);
    let hi = crate::emu_core::cpu::arithmetic::daa_high(r);
    assert(daa_c(s, f) == hi);
    assert(daa_adjust(s, f) == crate::emu_core::cpu::arithmetic::daa_adjust(r) as int);
    assert(dr.a == daa_a(s, f));
    let z = dr.a == 0;
    let f1 = crate::emu_core::cpu::flags::with_bits(f, 0x80, z);
    let f2 = crate::emu_core::cpu::flags::with_bits(f1, 0x40, false);
    let f3 = crate::emu_core::cpu::flags::with_bits(f2, 0x20, false);
    crate::bits::lemma_low_nibble(f3);
    assert(crate::emu_core::cpu::cpu::carry_of(dr) == hi);
}

/// DAA: decimal adjust of A after a BCD addition or subtraction.
pub open spec fn post_daa(o: CPU, n: CPU, r: u64) -> bool {
    let a = o.regs().a;
    let f = o.regs().f;
    let res = daa_a(a, f);
    plain(o, n, RegsView { a: res, f: flags_byte(res == 0, fnn(f), false, daa_c(a, f)), ..o.regs() })
        && r == 4
}

/// STOP: consumes the following byte.
pub open spec fn post_stop(o: CPU, n: CPU, r: u64) -> bool {
    let v = imm8(o, n);
    fetching(o, n, RegsView { pc: pc1(o), ..o.regs() }, fetch1(o, v)) && r == 4
}

// ---------------------------------------------------------------------------------------
// Executors
// ---------------------------------------------------------------------------------------

fn nop_exec(_instr: &Instruction, cpu: &mut CPU) -> (r: u64)
    requires
        old(cpu).wf(),
    ensures
        post_nop(*old(cpu), *final(cpu), r),
{
    4
}

fn ld_r_r_exec(_instr: &Instruction, cpu: &mut CPU) -> (r: u64)
    requires
        old(cpu).wf(),
    ensures
        post_ld_r_r(*old(cpu), *final(cpu), r),
{
    let op = cpu.opcode;
    let dst = (op >> 3) & 0x07;
    let src = op & 0x07;
    proof {
        crate::bits::lemma_u8_bits(op);
    }
    let ghost c0 = *cpu;
    let val = read_r_timed(cpu, src);
    let ghost c1 = *cpu;
    if dst == 6 {
        cpu.step_mem(4);
    }
    write_r(cpu, dst, val);
    proof {
        let o = *old(cpu);
        let n = *final(cpu);
        let wr = if dst % 8 == 6 {
            seq![BusAccess::Write(o.regs().hl(), val)]
        } else {
            seq![]
        };
        assert(n.tr() =~= o.tr() + (operand_reads(o, src, val) + wr));
        if src == 6 {
            assert(n.tr()[o.tr().len() as int] == BusAccess::Read(o.regs().hl(), val));
        }
        assert(operand(o, n, o.opcode) == val);
        assert(operand_reads(o, src, val) == operand_reads(o, o.opcode, val));
        assert(with_r8(o.regs(), dst, val) == with_r8(o.regs(), o.opcode / 8, val));
    }
    if src == 6 || dst == 6 {
        8
    } else {
        4
    }
}


fn ld_a_n_exec(_instr: &Instruction, cpu: &mut CPU) -> (r: u64)
    requires
        old(cpu).wf(),
    ensures
        post_ld_a_n(*old(cpu), *final(cpu), r),
{
    let val = cpu.read_u8_imm();
    cpu.registers.set_a(val);
    proof {
        let o = *old(cpu);
        assert(cpu.tr()[o.tr().len() as int] == BusAccess::Read(o.regs().pc, val));
        assert(cpu.tr() =~= o.tr() + fetch1(o, val));
    }
    8
}

fn inc_a_exec(_instr: &Instruction, cpu: &mut CPU) -> (r: u64)
    requires
        old(cpu).wf(),
    ensures
        post_inc_a(*old(cpu), *final(cpu), r),
{
    let a = cpu.registers.get_a();
    let res = a.wrapping_add(1);
    let c = carry_set(cpu);
    let h = lo4(a) + 1 > 0x0F;
    cpu.registers.set_a(res);
    set_flags_zhnc(cpu, res == 0, false, h, c);
    4
}

fn xor_a_exec(_instr: &Instruction, cpu: &mut CPU) -> (r: u64)
    requires
        old(cpu).wf(),
    ensures
        post_xor_a(*old(cpu), *final(cpu), r),
{
    cpu.registers.set_a(0);
    cpu.registers.set_flags(Flags::z());
    4
}

fn dec_a_exec(_instr: &Instruction, cpu: &mut CPU) -> (r: u64)
    requires
        old(cpu).wf(),
    ensures
        post_dec_a(*old(cpu), *final(cpu), r),
{
    let a = cpu.registers.get_a();
    let res = a.wrapping_sub(1);
    let c = carry_set(cpu);
    let h = lo4(a) == 0;
    cpu.registers.set_a(res);
    set_flags_zhnc(cpu, res == 0, true, h, c);
    4
}

fn halt_exec(_instr: &Instruction, cpu: &mut CPU) -> (r: u64)
    requires
        old(cpu).wf(),
    ensures
        post_halt(*old(cpu), *final(cpu), r),
{
    let ime = cpu.ime;
    let ie = cpu.read8(0xFFFF);
    let ifl = cpu.read8(0xFF0F);
    let pending = (ie & ifl) & 0x1F;
    if !ime && pending != 0 {
        cpu.halt_bug = true;
    } else {
        cpu.halted = true;
    }
    proof {
        let o = *old(cpu);
        assert(cpu.tr() =~= o.tr() + seq![BusAccess::Read(0xFFFF, ie), BusAccess::Read(0xFF0F, ifl)]);
        assert(cpu.tr()[o.tr().len() as int] == BusAccess::Read(0xFFFF, ie));
        assert(cpu.tr()[o.tr().len() + 1int] == BusAccess::Read(0xFF0F, ifl));
    }
    4
}

fn or_a_n_exec(_instr: &Instruction, cpu: &mut CPU) -> (r: u64)
    requires
        old(cpu).wf(),
    ensures
        post_or_a_n(*old(cpu), *final(cpu), r),
{
    let val = cpu.read_u8_imm();
    let res = cpu.registers.get_a() | val;
    cpu.registers.set_a(res);
    set_flags_zhnc(cpu, res == 0, false, false, false);
    proof {
        let o = *old(cpu);
        assert(cpu.tr()[o.tr().len() as int] == BusAccess::Read(o.regs().pc, val));
        assert(cpu.tr() =~= o.tr() + fetch1(o, val));
    }
    8
}

fn rlca_exec(_instr: &Instruction, cpu: &mut CPU) -> (r: u64)
    requires
        old(cpu).wf(),
    ensures
        post_rot_a(*old(cpu), *final(cpu), r, rlc8(old(cpu).regs().a), old(cpu).regs().a & 0x80
            != 0),
{
    let a = cpu.registers.get_a();
    let c = (a >> 7) & 1;
    let res = (a << 1) | c;
    proof {
        crate::bits::lemma_u8_bits(a);
    }
    cpu.registers.set_a(res);
    set_flags_zhnc(cpu, false, false, false, c != 0);
    4
}

fn rrca_exec(_instr: &Instruction, cpu: &mut CPU) -> (r: u64)
    requires
        old(cpu).wf(),
    ensures
        post_rot_a(*old(cpu), *final(cpu), r, rrc8(old(cpu).regs().a), old(cpu).regs().a & 1
            != 0),
{
    let a = cpu.registers.get_a();
    let c = a & 1;
    let res = (a >> 1) | (c << 7);
    proof {
        crate::bits::lemma_u8_bits(a);
    }
    cpu.registers.set_a(res);
    set_flags_zhnc(cpu, false, false, false, c != 0);
    4
}

fn rla_exec(_instr: &Instruction, cpu: &mut CPU) -> (r: u64)
    requires
        old(cpu).wf(),
    ensures
        post_rot_a(*old(cpu), *final(cpu), r, rl8(old(cpu).regs().a, cbit8(old(cpu).regs().f)),
            old(cpu).regs().a & 0x80 != 0),
{
    let a = cpu.registers.get_a();
    let old_c: u8 = if carry_set(cpu) { 1 } else { 0 };
    let new_c = (a >> 7) & 1;
    let res = (a << 1) | old_c;
    proof {
        crate::bits::lemma_u8_bits(a);
    }
    cpu.registers.set_a(res);
    set_flags_zhnc(cpu, false, false, false, new_c != 0);
    4
}

fn rra_exec(_instr: &Instruction, cpu: &mut CPU) -> (r: u64)
    requires
        old(cpu).wf(),
    ensures
        post_rot_a(*old(cpu), *final(cpu), r, rr8(old(cpu).regs().a, cbit8(old(cpu).regs().f)),
            old(cpu).regs().a & 1 != 0),
{
    let a = cpu.registers.get_a();
    let old_c: u8 = if carry_set(cpu) { 1 } else { 0 };
    let new_c = a & 1;
    let res = (a >> 1) | (old_c << 7);
    cpu.registers.set_a(res);
    set_flags_zhnc(cpu, false, false, false, new_c != 0);
    4
}

fn jp_nn_exec(_instr: &Instruction, cpu: &mut CPU) -> (r: u64)
    requires
        old(cpu).wf(),
    ensures
        post_jp_nn(*old(cpu), *final(cpu), r),
{
    let addr = cpu.read_u16_imm();
    cpu.registers.set_pc(addr);
    proof {
        let o = *old(cpu);
        lemma_pair_split(addr);
        assert(cpu.tr()[o.tr().len() as int] == BusAccess::Read(o.regs().pc, lo_byte(addr)));
        assert(cpu.tr()[o.tr().len() + 1int] == BusAccess::Read(pc1(o), hi_byte(addr)));
        assert(cpu.tr() =~= o.tr() + fetch2(o, addr));
    }
    16
}


fn ld_r_n_exec(_instr: &Instruction, cpu: &mut CPU) -> (r: u64)
    requires
        old(cpu).wf(),
    ensures
        post_ld_r_n(*old(cpu), *final(cpu), r),
{
    let op = cpu.opcode;
    let dst = (op >> 3) & 0x07;
    proof {
        crate::bits::lemma_u8_bits(op);
    }
    let n = cpu.read_u8_imm();
    let ghost c1 = *cpu;
    if dst == 0 {
        cpu.registers.set_b(n);
    } else if dst == 1 {
        cpu.registers.set_c(n);
    } else if dst == 2 {
        cpu.registers.set_d(n);
    } else if dst == 3 {
        cpu.registers.set_e(n);
    } else if dst == 4 {
        cpu.registers.set_h(n);
    } else if dst == 5 {
        cpu.registers.set_l(n);
    } else if dst == 6 {
        let hl = cpu.registers.get_hl();
        cpu.write8(hl, n);
        cpu.step_mem(4);
    } else {
        cpu.registers.set_a(n);
    }
    proof {
        let o = *old(cpu);
        let wr = if dst % 8 == 6 {
            seq![BusAccess::Write(o.regs().hl(), n)]
        } else {
            seq![]
        };
        assert(cpu.tr()[o.tr().len() as int] == BusAccess::Read(o.regs().pc, n));
        assert(cpu.tr() =~= o.tr() + (fetch1(o, n) + wr));
        assert(with_r8(RegsView { pc: pc1(o), ..o.regs() }, dst, n) == with_r8(
            RegsView { pc: pc1(o), ..o.regs() },
            o.opcode / 8,
            n,
        ));
    }
    if dst == 6 {
        12
    } else {
        8
    }
}

fn jr_r8_exec(_instr: &Instruction, cpu: &mut CPU) -> (r: u64)
    requires
        old(cpu).wf(),
    ensures
        post_jr_r8(*old(cpu), *final(cpu), r),
{
    let e = cpu.read_u8_imm();
    let off: u16 = if e < 128 {
        e as u16
    } else {
        e as u16 + 0xFF00
    };
    let pc = cpu.registers.get_pc();
    cpu.registers.set_pc(pc.wrapping_add(off));
    proof {
        let o = *old(cpu);
        assert(cpu.tr()[o.tr().len() as int] == BusAccess::Read(o.regs().pc, e));
        assert(cpu.tr() =~= o.tr() + fetch1(o, e));
    }
    12
}

fn inc_r_exec(_instr: &Instruction, cpu: &mut CPU) -> (r: u64)
    requires
        old(cpu).wf(),
    ensures
        post_inc_r(*old(cpu), *final(cpu), r),
{
    let op = cpu.opcode;
    let idx = (op >> 3) & 0x07;
    proof {
        crate::bits::lemma_u8_bits(op);
    }
    let val = read_r_timed(cpu, idx);
    let ghost c1 = *cpu;
    let res = val.wrapping_add(1);
    let c = carry_set(cpu);
    let h = lo4(val) + 1 > 0x0F;
    if idx == 6 {
        cpu.step_mem(4);
    }
    write_r(cpu, idx, res);
    set_flags_zhnc(cpu, res == 0, false, h, c);
    proof {
        let o = *old(cpu);
        let n = *cpu;
        let wr = if idx % 8 == 6 {
            seq![BusAccess::Write(o.regs().hl(), res)]
        } else {
            seq![]
        };
        assert(n.tr() =~= o.tr() + (operand_reads(o, idx, val) + wr));
        if idx == 6 {
            assert(n.tr()[o.tr().len() as int] == BusAccess::Read(o.regs().hl(), val));
        }
        assert(operand(o, n, o.opcode / 8) == val);
        assert(operand_reads(o, idx, val) == operand_reads(o, o.opcode / 8, val));
        let f = flags_byte(res == 0, false, val % 16 + 1 > 15, fc(o.regs().f));
        assert(with_r8(RegsView { f, ..o.regs() }, idx, res) == with_r8(
            RegsView { f, ..o.regs() },
            o.opcode / 8,
            res,
        ));
    }
    if idx == 6 {
        12
    } else {
        4
    }
}

fn dec_r_exec(_instr: &Instruction, cpu: &mut CPU) -> (r: u64)
    requires
        old(cpu).wf(),
    ensures
        post_dec_r(*old(cpu), *final(cpu), r),
{
    let op = cpu.opcode;
    let idx = (op >> 3) & 0x07;
    proof {
        crate::bits::lemma_u8_bits(op);
    }
    let val = read_r_timed(cpu, idx);
    let res = val.wrapping_sub(1);
    let c = carry_set(cpu);
    let h = lo4(val) == 0;
    if idx == 6 {
        cpu.step_mem(4);
    }
    write_r(cpu, idx, res);
    set_flags_zhnc(cpu, res == 0, true, h, c);
    proof {
        let o = *old(cpu);
        let n = *cpu;
        let wr = if idx % 8 == 6 {
            seq![BusAccess::Write(o.regs().hl(), res)]
        } else {
            seq![]
        };
        assert(n.tr() =~= o.tr() + (operand_reads(o, idx, val) + wr));
        if idx == 6 {
            assert(n.tr()[o.tr().len() as int] == BusAccess::Read(o.regs().hl(), val));
        }
        assert(operand(o, n, o.opcode / 8) == val);
        assert(operand_reads(o, idx, val) == operand_reads(o, o.opcode / 8, val));
        let f = flags_byte(res == 0, true, val % 16 == 0, fc(o.regs().f));
        assert(with_r8(RegsView { f, ..o.regs() }, idx, res) == with_r8(
            RegsView { f, ..o.regs() },
            o.opcode / 8,
            res,
        ));
    }
    if idx == 6 {
        12
    } else {
        4
    }
}

fn jp_hl_exec(_instr: &Instruction, cpu: &mut CPU) -> (r: u64)
    requires
        old(cpu).wf(),
    ensures
        post_jp_hl(*old(cpu), *final(cpu), r),
{
    let addr = cpu.registers.get_hl();
    cpu.registers.set_pc(addr);
    4
}

/// Pushes a word: the high byte below SP, then the low byte, one machine cycle each.
#[verifier::rlimit(100)]
fn push_word(cpu: &mut CPU, val: u16)
    requires
        old(cpu).wf(),
    ensures
        accesses(
            *old(cpu),
            *final(cpu),
            RegsView { sp: add16(old(cpu).regs().sp, -2), ..old(cpu).regs() },
            push_writes(old(cpu).regs().sp, val),
        ),
{
    proof {
        lemma_pair_split(val);
        crate::bits::lemma_u16_bits(val);
    }
    let sp1 = cpu.registers.get_sp().wrapping_sub(1);
    cpu.write8(sp1, (val >> 8) as u8);
    cpu.step_mem(4);
    let sp2 = sp1.wrapping_sub(1);
    cpu.write8(sp2, (val & 0x00FF) as u8);
    cpu.step_mem(4);
    cpu.registers.set_sp(sp2);
    proof {
        let o = *old(cpu);
        assert(cpu.tr() =~= o.tr() + push_writes(o.regs().sp, val));
    }
}

/// Pops a word, stepping the bus one machine cycle before each read.
fn pop_word_pre(cpu: &mut CPU) -> (r: u16)
    requires
        old(cpu).wf(),
    ensures
        accesses(
            *old(cpu),
            *final(cpu),
            RegsView { sp: add16(old(cpu).regs().sp, 2), ..old(cpu).regs() },
            pop_reads(old(cpu).regs().sp, r),
        ),
        r == popped(*old(cpu), *final(cpu)),
{
    let sp = cpu.registers.get_sp();
    cpu.step_mem(4);
    let lo = cpu.read8(sp);
    cpu.step_mem(4);
    let hi = cpu.read8(sp.wrapping_add(1));
    cpu.registers.set_sp(sp.wrapping_add(2));
    proof {
        lemma_pair_join(hi, lo);
        let o = *old(cpu);
        let w = pair(hi, lo);
        assert(cpu.tr() =~= o.tr() + pop_reads(sp, w));
        assert(cpu.tr()[o.tr().len() as int] == BusAccess::Read(sp, lo));
        assert(cpu.tr()[o.tr().len() + 1int] == BusAccess::Read(add16(sp, 1), hi));
    }
    (hi as u16) << 8 | lo as u16
}

/// Pops a word, stepping the bus one machine cycle after each read.
fn pop_word_post(cpu: &mut CPU) -> (r: u16)
    requires
        old(cpu).wf(),
    ensures
        accesses(
            *old(cpu),
            *final(cpu),
            RegsView { sp: add16(old(cpu).regs().sp, 2), ..old(cpu).regs() },
            pop_reads(old(cpu).regs().sp, r),
        ),
        r == popped(*old(cpu), *final(cpu)),
{
    let sp = cpu.registers.get_sp();
    let lo = cpu.read8(sp);
    cpu.step_mem(4);
    let hi = cpu.read8(sp.wrapping_add(1));
    cpu.step_mem(4);
    cpu.registers.set_sp(sp.wrapping_add(2));
    proof {
        lemma_pair_join(hi, lo);
        let o = *old(cpu);
        let w = pair(hi, lo);
        assert(cpu.tr() =~= o.tr() + pop_reads(sp, w));
        assert(cpu.tr()[o.tr().len() as int] == BusAccess::Read(sp, lo));
        assert(cpu.tr()[o.tr().len() + 1int] == BusAccess::Read(add16(sp, 1), hi));
    }
    (hi as u16) << 8 | lo as u16
}

fn rst_exec(_instr: &Instruction, cpu: &mut CPU) -> (r: u64)
    requires
        old(cpu).wf(),
    ensures
        post_rst(*old(cpu), *final(cpu), r),
{
    let vec = (cpu.opcode.wrapping_sub(0xC7) & 0x38) as u16;
    let ret = cpu.registers.get_pc();
    push_word(cpu, ret);
    cpu.registers.set_pc(vec);
    16
}

fn reti_exec(_instr: &Instruction, cpu: &mut CPU) -> (r: u64)
    requires
        old(cpu).wf(),
    ensures
        post_reti(*old(cpu), *final(cpu), r),
{
    let w = pop_word_post(cpu);
    cpu.registers.set_pc(w);
    cpu.ime = true;
    16
}

fn call_nn_exec(_instr: &Instruction, cpu: &mut CPU) -> (r: u64)
    requires
        old(cpu).wf(),
    ensures
        post_call_nn(*old(cpu), *final(cpu), r),
{
    let addr = cpu.read_u16_imm();
    let ghost c1 = *cpu;
    let ret = cpu.registers.get_pc();
    push_word(cpu, ret);
    cpu.registers.set_pc(addr);
    proof {
        let o = *old(cpu);
        lemma_pair_split(addr);
        assert(cpu.tr() =~= o.tr() + (fetch2(o, addr) + push_writes(o.regs().sp, pc2(o))));
        assert(cpu.tr()[o.tr().len() as int] == BusAccess::Read(o.regs().pc, lo_byte(addr)));
        assert(cpu.tr()[o.tr().len() + 1int] == BusAccess::Read(pc1(o), hi_byte(addr)));
    }
    24
}

/// The stack pair named by `idx` (BC, DE, HL, AF).
fn get_rr_af(cpu: &CPU, idx: u8) -> (r: u16)
    ensures
        r == rr_af(cpu.regs(), idx),
{
    proof {
        crate::bits::lemma_u8_bits(idx);
    }
    let i = idx & 0x03;
    if i == 0 {
        cpu.registers.get_bc()
    } else if i == 1 {
        cpu.registers.get_de()
    } else if i == 2 {
        cpu.registers.get_hl()
    } else {
        cpu.registers.get_af()
    }
}

/// Sets the stack pair named by `idx` (BC, DE, HL, AF); F keeps its upper nibble.
fn set_rr_af(cpu: &mut CPU, idx: u8, val: u16)
    ensures
        final(cpu).regs() == with_rr_af(old(cpu).regs(), idx, val),
        final(cpu).memory == old(cpu).memory,
        final(cpu).bus_log == old(cpu).bus_log,
        final(cpu).tr() == old(cpu).tr(),
        final(cpu).same_control(old(cpu)),
{
    proof {
        crate::bits::lemma_u8_bits(idx);
    }
    let i = idx & 0x03;
    if i == 0 {
        cpu.registers.set_bc(val);
    } else if i == 1 {
        cpu.registers.set_de(val);
    } else if i == 2 {
        cpu.registers.set_hl(val);
    } else {
        cpu.registers.set_af(val);
    }
}

fn push_rr_af_exec(_instr: &Instruction, cpu: &mut CPU) -> (r: u64)
    requires
        old(cpu).wf(),
    ensures
        post_push(*old(cpu), *final(cpu), r),
{
    let op = cpu.opcode;
    let rr = (op >> 4) & 0x03;
    proof {
        crate::bits::lemma_u8_bits(op);
    }
    let val = get_rr_af(cpu, rr);
    push_word(cpu, val);
    16
}

fn pop_rr_af_exec(_instr: &Instruction, cpu: &mut CPU) -> (r: u64)
    requires
        old(cpu).wf(),
    ensures
        post_pop(*old(cpu), *final(cpu), r),
{
    let op = cpu.opcode;
    let rr = (op >> 4) & 0x03;
    proof {
        crate::bits::lemma_u8_bits(op);
    }
    let val = pop_word_post(cpu);
    let ghost c1 = *cpu;
    set_rr_af(cpu, rr, val);
    proof {
        let o = *old(cpu);
        assert(popped(o, *cpu) == popped(o, c1));
    }
    12
}

fn ret_exec(_instr: &Instruction, cpu: &mut CPU) -> (r: u64)
    requires
        old(cpu).wf(),
    ensures
        post_ret(*old(cpu), *final(cpu), r),
{
    let w = pop_word_pre(cpu);
    cpu.registers.set_pc(w);
    16
}


/// 8-bit addition with carry-in: the wrapped sum, the carry out of bit 3 and out of bit 7.
fn add_carry(a: u8, b: u8, cval: u8) -> (r: (u8, bool, bool))
    requires
        cval <= 1,
    ensures
        r.0 == add_res(a, b, cval as int),
        r.1 == (a % 16 + b % 16 + cval > 15),
        r.2 == (a + b + cval > 255),
{
    let res = a.wrapping_add(b).wrapping_add(cval);
    let h = (lo4(a) + lo4(b) + cval) > 0x0F;
    let c = (a as u16 + b as u16 + cval as u16) > 0xFF;
    (res, h, c)
}

/// 8-bit subtraction with borrow-in: the wrapped difference, the borrow from bit 4 and from
/// bit 8.
fn sub_borrow(a: u8, b: u8, cval: u8) -> (r: (u8, bool, bool))
    requires
        cval <= 1,
    ensures
        r.0 == sub_res(a, b, cval as int),
        r.1 == (a % 16 < b % 16 + cval),
        r.2 == (a < b + cval),
{
    let res = a.wrapping_sub(b).wrapping_sub(cval);
    let h = lo4(a) < lo4(b) + cval;
    let c = (a as u16) < (b as u16) + (cval as u16);
    (res, h, c)
}

/// Reads the ALU source operand named by bits 2..0 of the opcode (timed for (HL)).
fn read_alu_src(cpu: &mut CPU) -> (b: u8)
    requires
        old(cpu).wf(),
    ensures
        same_ctrl(*old(cpu), *final(cpu)),
        final(cpu).regs() == old(cpu).regs(),
        final(cpu).tr() == old(cpu).tr() + operand_reads(*old(cpu), old(cpu).opcode, b),
        b == operand(*old(cpu), *final(cpu), old(cpu).opcode),
{
    let src = cpu.opcode & 0x07;
    proof {
        let op = cpu.opcode;
        crate::bits::lemma_u8_bits(op);
    }
    let b = read_r_timed(cpu, src);
    proof {
        let o = *old(cpu);
        assert(operand_reads(o, src, b) == operand_reads(o, o.opcode, b));
        if o.opcode % 8 == 6 {
            assert(cpu.tr()[o.tr().len() as int] == BusAccess::Read(o.regs().hl(), b));
        }
    }
    b
}

fn alu_add_a_r_exec(_instr: &Instruction, cpu: &mut CPU) -> (r: u64)
    requires
        old(cpu).wf(),
    ensures
        post_alu_r(*old(cpu), *final(cpu), r, 0),
{
    let src = cpu.opcode & 0x07;
    proof {
        let op = cpu.opcode;
        crate::bits::lemma_u8_bits(op);
    }
    let a = cpu.registers.get_a();
    let b = read_alu_src(cpu);
    let (res, h, c) = add_carry(a, b, 0);
    cpu.registers.set_a(res);
    set_flags_zhnc(cpu, res == 0, false, h, c);
    if src == 6 {
        8
    } else {
        4
    }
}

fn alu_adc_a_r_exec(_instr: &Instruction, cpu: &mut CPU) -> (r: u64)
    requires
        old(cpu).wf(),
    ensures
        post_alu_r(*old(cpu), *final(cpu), r, 1),
{
    let src = cpu.opcode & 0x07;
    proof {
        let op = cpu.opcode;
        crate::bits::lemma_u8_bits(op);
    }
    let a = cpu.registers.get_a();
    let b = read_alu_src(cpu);
    let cval: u8 = if carry_set(cpu) { 1 } else { 0 };
    let (res, h, c) = add_carry(a, b, cval);
    cpu.registers.set_a(res);
    set_flags_zhnc(cpu, res == 0, false, h, c);
    if src == 6 {
        8
    } else {
        4
    }
}

fn alu_sub_a_r_exec(_instr: &Instruction, cpu: &mut CPU) -> (r: u64)
    requires
        old(cpu).wf(),
    ensures
        post_alu_r(*old(cpu), *final(cpu), r, 2),
{
    let src = cpu.opcode & 0x07;
    proof {
        let op = cpu.opcode;
        crate::bits::lemma_u8_bits(op);
    }
    let a = cpu.registers.get_a();
    let b = read_alu_src(cpu);
    let (res, h, c) = sub_borrow(a, b, 0);
    cpu.registers.set_a(res);
    set_flags_zhnc(cpu, res == 0, true, h, c);
    if src == 6 {
        8
    } else {
        4
    }
}

fn alu_sbc_a_r_exec(_instr: &Instruction, cpu: &mut CPU) -> (r: u64)
    requires
        old(cpu).wf(),
    ensures
        post_alu_r(*old(cpu), *final(cpu), r, 3),
{
    let src = cpu.opcode & 0x07;
    proof {
        let op = cpu.opcode;
        crate::bits::lemma_u8_bits(op);
    }
    let a = cpu.registers.get_a();
    let b = read_alu_src(cpu);
    let cval: u8 = if carry_set(cpu) { 1 } else { 0 };
    let (res, h, c) = sub_borrow(a, b, cval);
    cpu.registers.set_a(res);
    set_flags_zhnc(cpu, res == 0, true, h, c);
    if src == 6 {
        8
    } else {
        4
    }
}

fn alu_and_a_r_exec(_instr: &Instruction, cpu: &mut CPU) -> (r: u64)
    requires
        old(cpu).wf(),
    ensures
        post_alu_r(*old(cpu), *final(cpu), r, 4),
{
    let src = cpu.opcode & 0x07;
    proof {
        let op = cpu.opcode;
        crate::bits::lemma_u8_bits(op);
    }
    let a = cpu.registers.get_a();
    let res = a & read_alu_src(cpu);
    cpu.registers.set_a(res);
    set_flags_zhnc(cpu, res == 0, false, true, false);
    if src == 6 {
        8
    } else {
        4
    }
}

fn alu_xor_a_r_exec(_instr: &Instruction, cpu: &mut CPU) -> (r: u64)
    requires
        old(cpu).wf(),
    ensures
        post_alu_r(*old(cpu), *final(cpu), r, 5),
{
    let src = cpu.opcode & 0x07;
    proof {
        let op = cpu.opcode;
        crate::bits::lemma_u8_bits(op);
    }
    let a = cpu.registers.get_a();
    let res = a ^ read_alu_src(cpu);
    cpu.registers.set_a(res);
    set_flags_zhnc(cpu, res == 0, false, false, false);
    if src == 6 {
        8
    } else {
        4
    }
}

fn alu_or_a_r_exec(_instr: &Instruction, cpu: &mut CPU) -> (r: u64)
    requires
        old(cpu).wf(),
    ensures
        post_alu_r(*old(cpu), *final(cpu), r, 6),
{
    let src = cpu.opcode & 0x07;
    proof {
        let op = cpu.opcode;
        crate::bits::lemma_u8_bits(op);
    }
    let a = cpu.registers.get_a();
    let res = a | read_alu_src(cpu);
    cpu.registers.set_a(res);
    set_flags_zhnc(cpu, res == 0, false, false, false);
    if src == 6 {
        8
    } else {
        4
    }
}

fn alu_cp_a_r_exec(_instr: &Instruction, cpu: &mut CPU) -> (r: u64)
    requires
        old(cpu).wf(),
    ensures
        post_alu_r(*old(cpu), *final(cpu), r, 7),
{
    let src = cpu.opcode & 0x07;
    proof {
        let op = cpu.opcode;
        crate::bits::lemma_u8_bits(op);
    }
    let a = cpu.registers.get_a();
    let b = read_alu_src(cpu);
    let (res, h, c) = sub_borrow(a, b, 0);
    set_flags_zhnc(cpu, res == 0, true, h, c);
    if src == 6 {
        8
    } else {
        4
    }
}

fn alu_add_a_n_exec(_instr: &Instruction, cpu: &mut CPU) -> (r: u64)
    requires
        old(cpu).wf(),
    ensures
        post_alu_n(*old(cpu), *final(cpu), r, 0),
{
    let a = cpu.registers.get_a();
    let b = cpu.read_u8_imm();
    let (res, h, c) = add_carry(a, b, 0);
    cpu.registers.set_a(res);
    set_flags_zhnc(cpu, res == 0, false, h, c);
    proof {
        let o = *old(cpu);
        let v = imm8(o, *cpu);
        assert(cpu.tr()[o.tr().len() as int] == BusAccess::Read(o.regs().pc, v));
        assert(cpu.tr() =~= o.tr() + fetch1(o, v));
    }
    8
}

fn alu_adc_a_n_exec(_instr: &Instruction, cpu: &mut CPU) -> (r: u64)
    requires
        old(cpu).wf(),
    ensures
        post_alu_n(*old(cpu), *final(cpu), r, 1),
{
    let a = cpu.registers.get_a();
    let b = cpu.read_u8_imm();
    let cval: u8 = if carry_set(cpu) { 1 } else { 0 };
    let (res, h, c) = add_carry(a, b, cval);
    cpu.registers.set_a(res);
    set_flags_zhnc(cpu, res == 0, false, h, c);
    proof {
        let o = *old(cpu);
        let v = imm8(o, *cpu);
        assert(cpu.tr()[o.tr().len() as int] == BusAccess::Read(o.regs().pc, v));
        assert(cpu.tr() =~= o.tr() + fetch1(o, v));
    }
    8
}

fn alu_sub_a_n_exec(_instr: &Instruction, cpu: &mut CPU) -> (r: u64)
    requires
        old(cpu).wf(),
    ensures
        post_alu_n(*old(cpu), *final(cpu), r, 2),
{
    let a = cpu.registers.get_a();
    let b = cpu.read_u8_imm();
    let (res, h, c) = sub_borrow(a, b, 0);
    cpu.registers.set_a(res);
    set_flags_zhnc(cpu, res == 0, true, h, c);
    proof {
        let o = *old(cpu);
        let v = imm8(o, *cpu);
        assert(cpu.tr()[o.tr().len() as int] == BusAccess::Read(o.regs().pc, v));
        assert(cpu.tr() =~= o.tr() + fetch1(o, v));
    }
    8
}

fn alu_sbc_a_n_exec(_instr: &Instruction, cpu: &mut CPU) -> (r: u64)
    requires
        old(cpu).wf(),
    ensures
        post_alu_n(*old(cpu), *final(cpu), r, 3),
{
    let a = cpu.registers.get_a();
    let b = cpu.read_u8_imm();
    let cval: u8 = if carry_set(cpu) { 1 } else { 0 };
    let (res, h, c) = sub_borrow(a, b, cval);
    cpu.registers.set_a(res);
    set_flags_zhnc(cpu, res == 0, true, h, c);
    proof {
        let o = *old(cpu);
        let v = imm8(o, *cpu);
        assert(cpu.tr()[o.tr().len() as int] == BusAccess::Read(o.regs().pc, v));
        assert(cpu.tr() =~= o.tr() + fetch1(o, v));
    }
    8
}

fn alu_and_a_n_exec(_instr: &Instruction, cpu: &mut CPU) -> (r: u64)
    requires
        old(cpu).wf(),
    ensures
        post_alu_n(*old(cpu), *final(cpu), r, 4),
{
    let a = cpu.registers.get_a();
    let v = cpu.read_u8_imm();
    let res = a & v;
    cpu.registers.set_a(res);
    set_flags_zhnc(cpu, res == 0, false, true, false);
    proof {
        let o = *old(cpu);
        let v = imm8(o, *cpu);
        assert(cpu.tr()[o.tr().len() as int] == BusAccess::Read(o.regs().pc, v));
        assert(cpu.tr() =~= o.tr() + fetch1(o, v));
    }
    8
}

fn alu_xor_a_n_exec(_instr: &Instruction, cpu: &mut CPU) -> (r: u64)
    requires
        old(cpu).wf(),
    ensures
        post_alu_n(*old(cpu), *final(cpu), r, 5),
{
    let a = cpu.registers.get_a();
    let v = cpu.read_u8_imm();
    let res = a ^ v;
    cpu.registers.set_a(res);
    set_flags_zhnc(cpu, res == 0, false, false, false);
    proof {
        let o = *old(cpu);
        let v = imm8(o, *cpu);
        assert(cpu.tr()[o.tr().len() as int] == BusAccess::Read(o.regs().pc, v));
        assert(cpu.tr() =~= o.tr() + fetch1(o, v));
    }
    8
}

fn alu_cp_a_n_exec(_instr: &Instruction, cpu: &mut CPU) -> (r: u64)
    requires
        old(cpu).wf(),
    ensures
        post_alu_n(*old(cpu), *final(cpu), r, 7),
{
    let a = cpu.registers.get_a();
    let b = cpu.read_u8_imm();
    let (res, h, c) = sub_borrow(a, b, 0);
    set_flags_zhnc(cpu, res == 0, true, h, c);
    proof {
        let o = *old(cpu);
        let v = imm8(o, *cpu);
        assert(cpu.tr()[o.tr().len() as int] == BusAccess::Read(o.regs().pc, v));
        assert(cpu.tr() =~= o.tr() + fetch1(o, v));
    }
    8
}


fn ld_hl_inc_a_exec(_instr: &Instruction, cpu: &mut CPU) -> (r: u64)
    requires
        old(cpu).wf(),
    ensures
        post_ld_hl_a(*old(cpu), *final(cpu), r, 1),
{
    let hl = cpu.registers.get_hl();
    let a = cpu.registers.get_a();
    cpu.step_mem(4);
    cpu.write8(hl, a);
    cpu.registers.set_hl(hl.wrapping_add(1));
    proof {
        let o = *old(cpu);
        assert(cpu.tr() =~= o.tr() + seq![BusAccess::Write(hl, a)]);
    }
    8
}

fn ld_a_hl_inc_exec(_instr: &Instruction, cpu: &mut CPU) -> (r: u64)
    requires
        old(cpu).wf(),
    ensures
        post_ld_a_hl(*old(cpu), *final(cpu), r, 1),
{
    let hl = cpu.registers.get_hl();
    cpu.step_mem(4);
    let val = cpu.read8(hl);
    cpu.registers.set_a(val);
    cpu.registers.set_hl(hl.wrapping_add(1));
    proof {
        let o = *old(cpu);
        assert(cpu.tr() =~= o.tr() + seq![BusAccess::Read(hl, val)]);
        assert(cpu.tr()[o.tr().len() as int] == BusAccess::Read(hl, val));
    }
    8
}

fn ld_hl_dec_a_exec(_instr: &Instruction, cpu: &mut CPU) -> (r: u64)
    requires
        old(cpu).wf(),
    ensures
        post_ld_hl_a(*old(cpu), *final(cpu), r, -1),
{
    let hl = cpu.registers.get_hl();
    let a = cpu.registers.get_a();
    cpu.step_mem(4);
    cpu.write8(hl, a);
    cpu.registers.set_hl(hl.wrapping_sub(1));
    proof {
        let o = *old(cpu);
        assert(cpu.tr() =~= o.tr() + seq![BusAccess::Write(hl, a)]);
    }
    8
}

fn ld_a_hl_dec_exec(_instr: &Instruction, cpu: &mut CPU) -> (r: u64)
    requires
        old(cpu).wf(),
    ensures
        post_ld_a_hl(*old(cpu), *final(cpu), r, -1),
{
    let hl = cpu.registers.get_hl();
    cpu.step_mem(4);
    let val = cpu.read8(hl);
    cpu.registers.set_a(val);
    cpu.registers.set_hl(hl.wrapping_sub(1));
    proof {
        let o = *old(cpu);
        assert(cpu.tr() =~= o.tr() + seq![BusAccess::Read(hl, val)]);
        assert(cpu.tr()[o.tr().len() as int] == BusAccess::Read(hl, val));
    }
    8
}

fn ld_a_bc_exec(_instr: &Instruction, cpu: &mut CPU) -> (r: u64)
    requires
        old(cpu).wf(),
    ensures
        post_ld_a_ind(*old(cpu), *final(cpu), r, old(cpu).regs().bc()),
{
    let addr = cpu.registers.get_bc();
    cpu.step_mem(4);
    let val = cpu.read8(addr);
    cpu.registers.set_a(val);
    proof {
        let o = *old(cpu);
        assert(cpu.tr() =~= o.tr() + seq![BusAccess::Read(addr, val)]);
        assert(cpu.tr()[o.tr().len() as int] == BusAccess::Read(addr, val));
    }
    8
}

fn ld_a_de_exec(_instr: &Instruction, cpu: &mut CPU) -> (r: u64)
    requires
        old(cpu).wf(),
    ensures
        post_ld_a_ind(*old(cpu), *final(cpu), r, old(cpu).regs().de()),
{
    let addr = cpu.registers.get_de();
    cpu.step_mem(4);
    let val = cpu.read8(addr);
    cpu.registers.set_a(val);
    proof {
        let o = *old(cpu);
        assert(cpu.tr() =~= o.tr() + seq![BusAccess::Read(addr, val)]);
        assert(cpu.tr()[o.tr().len() as int] == BusAccess::Read(addr, val));
    }
    8
}

fn ld_bc_a_exec(_instr: &Instruction, cpu: &mut CPU) -> (r: u64)
    requires
        old(cpu).wf(),
    ensures
        post_ld_ind_a(*old(cpu), *final(cpu), r, old(cpu).regs().bc()),
{
    let addr = cpu.registers.get_bc();
    let a = cpu.registers.get_a();
    cpu.step_mem(4);
    cpu.write8(addr, a);
    proof {
        let o = *old(cpu);
        assert(cpu.tr() =~= o.tr() + seq![BusAccess::Write(addr, a)]);
    }
    8
}

fn ld_de_a_exec(_instr: &Instruction, cpu: &mut CPU) -> (r: u64)
    requires
        old(cpu).wf(),
    ensures
        post_ld_ind_a(*old(cpu), *final(cpu), r, old(cpu).regs().de()),
{
    let addr = cpu.registers.get_de();
    let a = cpu.registers.get_a();
    cpu.step_mem(4);
    cpu.write8(addr, a);
    proof {
        let o = *old(cpu);
        assert(cpu.tr() =~= o.tr() + seq![BusAccess::Write(addr, a)]);
    }
    8
}

fn ld_hl_n_exec(_instr: &Instruction, cpu: &mut CPU) -> (r: u64)
    requires
        old(cpu).wf(),
    ensures
        post_ld_hl_n(*old(cpu), *final(cpu), r),
{
    let n = cpu.read_u8_imm();
    let hl = cpu.registers.get_hl();
    cpu.step_mem(4);
    cpu.write8(hl, n);
    proof {
        let o = *old(cpu);
        assert(cpu.tr() =~= o.tr() + (fetch1(o, n) + seq![BusAccess::Write(hl, n)]));
        assert(cpu.tr()[o.tr().len() as int] == BusAccess::Read(o.regs().pc, n));
    }
    12
}

/// SP plus the sign-extended byte `e`, with the half-carry and carry of the low-byte sum.
#[verifier::rlimit(100)]
fn sp_plus_e8(sp: u16, e: u8) -> (r: (u16, bool, bool))
    ensures
        r.0 == add16(sp, sext(e)),
        flags_byte(false, false, r.1, r.2) == sp_e8_flags(sp, e),
{
    let e_signed: u16 = if e < 128 {
        e as u16
    } else {
        e as u16 + 0xFF00
    };
    let res = sp.wrapping_add(e_signed);
    let low_sp = sp & 0x00FF;
    let low_e = (e as u16) & 0x00FF;
    proof {
        crate::bits::lemma_u16_bits(sp);
        crate::bits::lemma_u8_widen(e);
    }
    let h = ((sp & 0x000F) + (low_e & 0x000F)) > 0x000F;
    let c = (low_sp + low_e) > 0x00FF;
    (res, h, c)
}

fn add_sp_e8_exec(_instr: &Instruction, cpu: &mut CPU) -> (r: u64)
    requires
        old(cpu).wf(),
    ensures
        post_add_sp_e8(*old(cpu), *final(cpu), r),
{
    let e = cpu.read_u8_imm();
    let sp = cpu.registers.get_sp();
    let (res, h, c) = sp_plus_e8(sp, e);
    set_flags_zhnc(cpu, false, false, h, c);
    cpu.registers.set_sp(res);
    proof {
        let o = *old(cpu);
        assert(cpu.tr() =~= o.tr() + fetch1(o, e));
        assert(cpu.tr()[o.tr().len() as int] == BusAccess::Read(o.regs().pc, e));
    }
    16
}

fn ld_hl_sp_e8_exec(_instr: &Instruction, cpu: &mut CPU) -> (r: u64)
    requires
        old(cpu).wf(),
    ensures
        post_ld_hl_sp_e8(*old(cpu), *final(cpu), r),
{
    let e = cpu.read_u8_imm();
    let sp = cpu.registers.get_sp();
    let (res, h, c) = sp_plus_e8(sp, e);
    set_flags_zhnc(cpu, false, false, h, c);
    cpu.registers.set_hl(res);
    proof {
        let o = *old(cpu);
        assert(cpu.tr() =~= o.tr() + fetch1(o, e));
        assert(cpu.tr()[o.tr().len() as int] == BusAccess::Read(o.regs().pc, e));
    }
    12
}

fn ld_sp_hl_exec(_instr: &Instruction, cpu: &mut CPU) -> (r: u64)
    requires
        old(cpu).wf(),
    ensures
        post_ld_sp_hl(*old(cpu), *final(cpu), r),
{
    let hl = cpu.registers.get_hl();
    cpu.registers.set_sp(hl);
    8
}

fn ld_a16_a_exec(_instr: &Instruction, cpu: &mut CPU) -> (r: u64)
    requires
        old(cpu).wf(),
    ensures
        post_ld_a16_a(*old(cpu), *final(cpu), r),
{
    let addr = cpu.read_u16_imm();
    let a = cpu.registers.get_a();
    cpu.step_mem(4);
    cpu.write8(addr, a);
    proof {
        let o = *old(cpu);
        lemma_pair_split(addr);
        assert(cpu.tr() =~= o.tr() + (fetch2(o, addr) + seq![BusAccess::Write(addr, a)]));
        assert(cpu.tr()[o.tr().len() as int] == BusAccess::Read(o.regs().pc, lo_byte(addr)));
        assert(cpu.tr()[o.tr().len() + 1int] == BusAccess::Read(pc1(o), hi_byte(addr)));
    }
    16
}

fn ld_a_a16_exec(_instr: &Instruction, cpu: &mut CPU) -> (r: u64)
    requires
        old(cpu).wf(),
    ensures
        post_ld_a_a16(*old(cpu), *final(cpu), r),
{
    let addr = cpu.read_u16_imm();
    cpu.step_mem(4);
    let val = cpu.read8(addr);
    cpu.registers.set_a(val);
    proof {
        let o = *old(cpu);
        lemma_pair_split(addr);
        assert(cpu.tr() =~= o.tr() + (fetch2(o, addr) + seq![BusAccess::Read(addr, val)]));
        assert(cpu.tr()[o.tr().len() as int] == BusAccess::Read(o.regs().pc, lo_byte(addr)));
        assert(cpu.tr()[o.tr().len() + 1int] == BusAccess::Read(pc1(o), hi_byte(addr)));
        assert(cpu.tr()[o.tr().len() + 2int] == BusAccess::Read(addr, val));
    }
    16
}

#[verifier::rlimit(100)]
fn ld_a16_sp_exec(_instr: &Instruction, cpu: &mut CPU) -> (r: u64)
    requires
        old(cpu).wf(),
    ensures
        post_ld_a16_sp(*old(cpu), *final(cpu), r),
{
    let addr = cpu.read_u16_imm();
    let sp = cpu.registers.get_sp();
    proof {
        lemma_pair_split(sp);
        crate::bits::lemma_u16_bits(sp);
    }
    cpu.step_mem(4);
    cpu.write8(addr, (sp & 0x00FF) as u8);
    cpu.step_mem(4);
    cpu.write8(addr.wrapping_add(1), (sp >> 8) as u8);
    proof {
        let o = *old(cpu);
        lemma_pair_split(addr);
        assert(cpu.tr() =~= o.tr() + (fetch2(o, addr) + seq![
            BusAccess::Write(addr, lo_byte(sp)),
            BusAccess::Write(add16(addr, 1), hi_byte(sp)),
        ]));
        assert(cpu.tr()[o.tr().len() as int] == BusAccess::Read(o.regs().pc, lo_byte(addr)));
        assert(cpu.tr()[o.tr().len() + 1int] == BusAccess::Read(pc1(o), hi_byte(addr)));
    }
    20
}

fn ldh_a8_a_exec(_instr: &Instruction, cpu: &mut CPU) -> (r: u64)
    requires
        old(cpu).wf(),
    ensures
        post_ldh_a8_a(*old(cpu), *final(cpu), r),
{
    let off = cpu.read_u8_imm();
    let addr = 0xFF00u16 + off as u16;
    let a = cpu.registers.get_a();
    cpu.step_mem(4);
    cpu.write8(addr, a);
    proof {
        let o = *old(cpu);
        assert(cpu.tr() =~= o.tr() + (fetch1(o, off) + seq![BusAccess::Write(addr, a)]));
        assert(cpu.tr()[o.tr().len() as int] == BusAccess::Read(o.regs().pc, off));
    }
    12
}

fn ldh_a_a8_exec(_instr: &Instruction, cpu: &mut CPU) -> (r: u64)
    requires
        old(cpu).wf(),
    ensures
        post_ldh_a_a8(*old(cpu), *final(cpu), r),
{
    let off = cpu.read_u8_imm();
    let addr = 0xFF00u16 + off as u16;
    cpu.step_mem(4);
    let v = cpu.read8(addr);
    cpu.registers.set_a(v);
    proof {
        let o = *old(cpu);
        assert(cpu.tr() =~= o.tr() + (fetch1(o, off) + seq![BusAccess::Read(addr, v)]));
        assert(cpu.tr()[o.tr().len() as int] == BusAccess::Read(o.regs().pc, off));
        assert(cpu.tr()[o.tr().len() + 1int] == BusAccess::Read(addr, v));
    }
    12
}

fn ld_c_a_exec(_instr: &Instruction, cpu: &mut CPU) -> (r: u64)
    requires
        old(cpu).wf(),
    ensures
        post_ld_ind_a(*old(cpu), *final(cpu), r, (0xFF00 + old(cpu).regs().c) as u16),
{
    let addr = 0xFF00u16 + cpu.registers.get_c() as u16;
    let a = cpu.registers.get_a();
    cpu.step_mem(4);
    cpu.write8(addr, a);
    proof {
        let o = *old(cpu);
        assert(cpu.tr() =~= o.tr() + seq![BusAccess::Write(addr, a)]);
    }
    8
}

fn ld_a_c_exec(_instr: &Instruction, cpu: &mut CPU) -> (r: u64)
    requires
        old(cpu).wf(),
    ensures
        post_ld_a_ind(*old(cpu), *final(cpu), r, (0xFF00 + old(cpu).regs().c) as u16),
{
    let addr = 0xFF00u16 + cpu.registers.get_c() as u16;
    cpu.step_mem(4);
    let v = cpu.read8(addr);
    cpu.registers.set_a(v);
    proof {
        let o = *old(cpu);
        assert(cpu.tr() =~= o.tr() + seq![BusAccess::Read(addr, v)]);
        assert(cpu.tr()[o.tr().len() as int] == BusAccess::Read(addr, v));
    }
    8
}


/// CB rotate/shift operation `y` on `val` with carry-in `old_c`: the result and carry out.
pub(crate) fn cb_rotate(y: u8, val: u8, old_c: bool) -> (r: (u8, bool))
    ensures
        forall|f: u8|
            #![trigger cb_shift_res(y, val, f)]
            fc(f) == old_c ==> r.0 == cb_shift_res(y, val, f),
        r.1 == cb_shift_c(y, val),
{
    if y == 0 {
        let carry = (val & 0x80) != 0;
        let res = (val << 1) | (if carry { 1 } else { 0 });
        proof {
            crate::bits::lemma_u8_bits(val);
        }
        (res, carry)
    } else if y == 1 {
        let carry = (val & 0x01) != 0;
        let res = (val >> 1) | (if carry { 0x80 } else { 0 });
        proof {
            crate::bits::lemma_u8_bits(val);
        }
        (res, carry)
    } else if y == 2 {
        let carry = (val & 0x80) != 0;
        let res = (val << 1) | (if old_c { 1 } else { 0 });
        (res, carry)
    } else if y == 3 {
        let carry = (val & 0x01) != 0;
        let res = (if old_c { 0x80 } else { 0 }) | (val >> 1);
        proof {
            crate::bits::lemma_u8_bits(val);
        }
        (res, carry)
    } else if y == 4 {
        let carry = (val & 0x80) != 0;
        (val << 1, carry)
    } else if y == 5 {
        let carry = (val & 0x01) != 0;
        let msb = val & 0x80;
        ((val >> 1) | msb, carry)
    } else if y == 6 {
        ((val << 4) | (val >> 4), false)
    } else {
        let carry = (val & 0x01) != 0;
        (val >> 1, carry)
    }
}

fn cb_generic_exec(_instr: &Instruction, cpu: &mut CPU) -> (r: u64)
    requires
        old(cpu).wf(),
    ensures
        post_cb(*old(cpu), *final(cpu), r),
{
    let op = cpu.opcode;
    let x = op >> 6;
    let y = (op >> 3) & 0x07;
    let z = op & 0x07;
    proof {
        crate::bits::lemma_u8_bits(op);
    }
    if z == 6 {
        cpu.step_mem(4);
    }
    let ghost c0 = *cpu;
    let val = read_r(cpu, z);
    let ghost c1 = *cpu;
    proof {
        let o = *old(cpu);
        if z == 6 {
            assert(c1.tr()[o.tr().len() as int] == BusAccess::Read(o.regs().hl(), val));
        }
        assert(operand_reads(o, z, val) == operand_reads(o, op, val));
    }
    let cycles: u64 = if x == 1 {
        if z == 6 {
            12
        } else {
            8
        }
    } else if z == 6 {
        16
    } else {
        8
    };
    if x == 0 {
        let old_c = carry_set(cpu);
        let (res, carry) = cb_rotate(y, val, old_c);
        set_flags_zhnc(cpu, res == 0, false, false, carry);
        if z == 6 {
            cpu.step_mem(4);
        }
        write_r(cpu, z, res);
        proof {
            let o = *old(cpu);
            let wr = if z == 6 {
                seq![BusAccess::Write(o.regs().hl(), res)]
            } else {
                seq![]
            };
            assert(cpu.tr() =~= o.tr() + (operand_reads(o, op, val) + wr));
            assert(operand(o, *cpu, op) == val);
        }
    } else if x == 1 {
        let bit = (val >> y) & 1;
        let c = carry_set(cpu);
        set_flags_zhnc(cpu, bit == 0, false, true, c);
        proof {
            let o = *old(cpu);
            assert(cpu.tr() =~= o.tr() + operand_reads(o, op, val));
            assert(operand(o, *cpu, op) == val);
        }
    } else if x == 2 {
        let res = val & !(1u8 << y);
        if z == 6 {
            cpu.step_mem(4);
        }
        write_r(cpu, z, res);
        proof {
            let o = *old(cpu);
            let wr = if z == 6 {
                seq![BusAccess::Write(o.regs().hl(), res)]
            } else {
                seq![]
            };
            assert(cpu.tr() =~= o.tr() + (operand_reads(o, op, val) + wr));
            assert(operand(o, *cpu, op) == val);
        }
    } else {
        let res = val | (1u8 << y);
        if z == 6 {
            cpu.step_mem(4);
        }
        write_r(cpu, z, res);
        proof {
            let o = *old(cpu);
            let wr = if z == 6 {
                seq![BusAccess::Write(o.regs().hl(), res)]
            } else {
                seq![]
            };
            assert(cpu.tr() =~= o.tr() + (operand_reads(o, op, val) + wr));
            assert(operand(o, *cpu, op) == val);
        }
    }
    cycles
}

/// The register pair named by `idx` (BC, DE, HL, SP).
fn get_rr(cpu: &CPU, idx: u8) -> (r: u16)
    ensures
        r == rr(cpu.regs(), idx),
{
    proof {
        crate::bits::lemma_u8_bits(idx);
    }
    let i = idx & 0x03;
    if i == 0 {
        cpu.registers.get_bc()
    } else if i == 1 {
        cpu.registers.get_de()
    } else if i == 2 {
        cpu.registers.get_hl()
    } else {
        cpu.registers.get_sp()
    }
}

/// Sets the register pair named by `idx` (BC, DE, HL, SP).
fn set_rr(cpu: &mut CPU, idx: u8, val: u16)
    ensures
        final(cpu).regs() == with_rr(old(cpu).regs(), idx, val),
        final(cpu).memory == old(cpu).memory,
        final(cpu).bus_log == old(cpu).bus_log,
        final(cpu).tr() == old(cpu).tr(),
        final(cpu).same_control(old(cpu)),
{
    proof {
        crate::bits::lemma_u8_bits(idx);
    }
    let i = idx & 0x03;
    if i == 0 {
        cpu.registers.set_bc(val);
    } else if i == 1 {
        cpu.registers.set_de(val);
    } else if i == 2 {
        cpu.registers.set_hl(val);
    } else {
        cpu.registers.set_sp(val);
    }
}

fn ld_rr_nn_exec(_instr: &Instruction, cpu: &mut CPU) -> (r: u64)
    requires
        old(cpu).wf(),
    ensures
        post_ld_rr_nn(*old(cpu), *final(cpu), r),
{
    let op = cpu.opcode;
    let idx = (op >> 4) & 0x03;
    proof {
        crate::bits::lemma_u8_bits(op);
    }
    let imm = cpu.read_u16_imm();
    set_rr(cpu, idx, imm);
    proof {
        let o = *old(cpu);
        lemma_pair_split(imm);
        assert(cpu.tr() =~= o.tr() + fetch2(o, imm));
        assert(cpu.tr()[o.tr().len() as int] == BusAccess::Read(o.regs().pc, lo_byte(imm)));
        assert(cpu.tr()[o.tr().len() + 1int] == BusAccess::Read(pc1(o), hi_byte(imm)));
    }
    12
}

fn inc_rr_exec(_instr: &Instruction, cpu: &mut CPU) -> (r: u64)
    requires
        old(cpu).wf(),
    ensures
        post_incdec_rr(*old(cpu), *final(cpu), r, 1),
{
    let op = cpu.opcode;
    let idx = (op >> 4) & 0x03;
    proof {
        crate::bits::lemma_u8_bits(op);
    }
    let val = get_rr(cpu, idx).wrapping_add(1);
    set_rr(cpu, idx, val);
    8
}

fn dec_rr_exec(_instr: &Instruction, cpu: &mut CPU) -> (r: u64)
    requires
        old(cpu).wf(),
    ensures
        post_incdec_rr(*old(cpu), *final(cpu), r, -1),
{
    let op = cpu.opcode;
    let idx = (op >> 4) & 0x03;
    proof {
        crate::bits::lemma_u8_bits(op);
    }
    let val = get_rr(cpu, idx).wrapping_sub(1);
    set_rr(cpu, idx, val);
    8
}

/// 16-bit addition: the wrapped sum, the carry out of bit 11 and out of bit 15.
#[verifier::rlimit(100)]
fn add16_carry(hl: u16, v: u16) -> (r: (u16, bool, bool))
    ensures
        r.0 == add16(hl, v as int),
        r.1 == (hl % 4096 + v % 4096 > 4095),
        r.2 == (hl + v > 65535),
{
    let res = hl.wrapping_add(v);
    proof {
        crate::bits::lemma_u16_bits(hl);
        crate::bits::lemma_u16_bits(v);
    }
    let h = ((hl & 0x0FFF) + (v & 0x0FFF)) > 0x0FFF;
    let c = (hl as u32 + v as u32) > 0xFFFF;
    (res, h, c)
}

fn add_hl_rr_exec(_instr: &Instruction, cpu: &mut CPU) -> (r: u64)
    requires
        old(cpu).wf(),
    ensures
        post_add_hl_rr(*old(cpu), *final(cpu), r),
{
    let op = cpu.opcode;
    let idx = (op >> 4) & 0x03;
    proof {
        crate::bits::lemma_u8_bits(op);
    }
    let hl = cpu.registers.get_hl();
    let v = get_rr(cpu, idx);
    let z = cpu.registers.flags().zero();
    let (res, h, c) = add16_carry(hl, v);
    set_flags_zhnc(cpu, z, false, h, c);
    cpu.registers.set_hl(res);
    8
}

/// Whether branch condition `cc` (NZ, Z, NC, C) holds for the flag byte.
fn cc_is_true(flags_u8: u8, cc: u8) -> (r: bool)
    ensures
        r == cond_holds(flags_u8, cc),
{
    let flags = Flags::from_bits_truncate(flags_u8);
    proof {
        crate::bits::lemma_u8_bits(cc);
        crate::bits::lemma_u8_bits(flags_u8);
    }
    let k = cc & 0x03;
    if k == 0 {
        !flags.zero()
    } else if k == 1 {
        flags.zero()
    } else if k == 2 {
        !flags.carry()
    } else {
        flags.carry()
    }
}

fn jr_cc_exec(_instr: &Instruction, cpu: &mut CPU) -> (r: u64)
    requires
        old(cpu).wf(),
    ensures
        post_jr_cc(*old(cpu), *final(cpu), r),
{
    let op = cpu.opcode;
    let cc = (op >> 3) & 0x03;
    proof {
        crate::bits::lemma_u8_bits(op);
    }
    let e = cpu.read_u8_imm();
    let off: u16 = if e < 128 {
        e as u16
    } else {
        e as u16 + 0xFF00
    };
    proof {
        let o = *old(cpu);
        assert(cpu.tr() =~= o.tr() + fetch1(o, e));
        assert(cpu.tr()[o.tr().len() as int] == BusAccess::Read(o.regs().pc, e));
        assert(cond_holds(o.regs().f, cc) == cond_holds(o.regs().f, o.opcode / 8));
    }
    if cc_is_true(cpu.registers.get_f(), cc) {
        let pc = cpu.registers.get_pc();
        cpu.registers.set_pc(pc.wrapping_add(off));
        12
    } else {
        8
    }
}

fn jp_cc_exec(_instr: &Instruction, cpu: &mut CPU) -> (r: u64)
    requires
        old(cpu).wf(),
    ensures
        post_jp_cc(*old(cpu), *final(cpu), r),
{
    let op = cpu.opcode;
    let cc = (op >> 3) & 0x03;
    proof {
        crate::bits::lemma_u8_bits(op);
    }
    let addr = cpu.read_u16_imm();
    proof {
        let o = *old(cpu);
        lemma_pair_split(addr);
        assert(cpu.tr() =~= o.tr() + fetch2(o, addr));
        assert(cpu.tr()[o.tr().len() as int] == BusAccess::Read(o.regs().pc, lo_byte(addr)));
        assert(cpu.tr()[o.tr().len() + 1int] == BusAccess::Read(pc1(o), hi_byte(addr)));
        assert(cond_holds(o.regs().f, cc) == cond_holds(o.regs().f, o.opcode / 8));
    }
    if cc_is_true(cpu.registers.get_f(), cc) {
        cpu.registers.set_pc(addr);
        16
    } else {
        12
    }
}

fn call_cc_exec(_instr: &Instruction, cpu: &mut CPU) -> (r: u64)
    requires
        old(cpu).wf(),
    ensures
        post_call_cc(*old(cpu), *final(cpu), r),
{
    let op = cpu.opcode;
    let cc = (op >> 3) & 0x03;
    proof {
        crate::bits::lemma_u8_bits(op);
    }
    let addr = cpu.read_u16_imm();
    proof {
        let o = *old(cpu);
        lemma_pair_split(addr);
        assert(cpu.tr()[o.tr().len() as int] == BusAccess::Read(o.regs().pc, lo_byte(addr)));
        assert(cpu.tr()[o.tr().len() + 1int] == BusAccess::Read(pc1(o), hi_byte(addr)));
        assert(cond_holds(o.regs().f, cc) == cond_holds(o.regs().f, o.opcode / 8));
    }
    if cc_is_true(cpu.registers.get_f(), cc) {
        let ret = cpu.registers.get_pc();
        push_word(cpu, ret);
        cpu.registers.set_pc(addr);
        proof {
            let o = *old(cpu);
            assert(cpu.tr() =~= o.tr() + (fetch2(o, addr) + push_writes(o.regs().sp, pc2(o))));
        }
        24
    } else {
        proof {
            let o = *old(cpu);
            assert(cpu.tr() =~= o.tr() + fetch2(o, addr));
        }
        12
    }
}

fn ret_cc_exec(_instr: &Instruction, cpu: &mut CPU) -> (r: u64)
    requires
        old(cpu).wf(),
    ensures
        post_ret_cc(*old(cpu), *final(cpu), r),
{
    let op = cpu.opcode;
    let cc = (op >> 3) & 0x03;
    proof {
        crate::bits::lemma_u8_bits(op);
        let o = *old(cpu);
        assert(cond_holds(o.regs().f, cc) == cond_holds(o.regs().f, o.opcode / 8));
    }
    if cc_is_true(cpu.registers.get_f(), cc) {
        let w = pop_word_pre(cpu);
        cpu.registers.set_pc(w);
        20
    } else {
        8
    }
}

fn ei_exec(_instr: &Instruction, cpu: &mut CPU) -> (r: u64)
    requires
        old(cpu).wf(),
    ensures
        post_ei(*old(cpu), *final(cpu), r),
{
    cpu.ime_enable_armed = true;
    4
}

fn di_exec(_instr: &Instruction, cpu: &mut CPU) -> (r: u64)
    requires
        old(cpu).wf(),
    ensures
        post_di(*old(cpu), *final(cpu), r),
{
    cpu.ime = false;
    cpu.ime_enable_armed = false;
    cpu.ime_enable_pending = false;
    4
}

fn ccf_exec(_instr: &Instruction, cpu: &mut CPU) -> (r: u64)
    requires
        old(cpu).wf(),
    ensures
        post_flags_only(*old(cpu), *final(cpu), r, flags_byte(fz(old(cpu).regs().f), false, false,
            !fc(old(cpu).regs().f))),
{
    let flags = cpu.registers.flags();
    let z = flags.zero();
    let c = flags.carry();
    set_flags_zhnc(cpu, z, false, false, !c);
    4
}

fn scf_exec(_instr: &Instruction, cpu: &mut CPU) -> (r: u64)
    requires
        old(cpu).wf(),
    ensures
        post_flags_only(*old(cpu), *final(cpu), r, flags_byte(fz(old(cpu).regs().f), false, false,
            true)),
{
    let z = cpu.registers.flags().zero();
    set_flags_zhnc(cpu, z, false, false, true);
    4
}

fn cpl_exec(_instr: &Instruction, cpu: &mut CPU) -> (r: u64)
    requires
        old(cpu).wf(),
    ensures
        post_cpl(*old(cpu), *final(cpu), r),
{
    let a = cpu.registers.get_a();
    cpu.registers.set_a(!a);
    let flags = cpu.registers.flags();
    let z = flags.zero();
    let c = flags.carry();
    set_flags_zhnc(cpu, z, true, true, c);
    4
}

fn daa_exec(_instr: &Instruction, cpu: &mut CPU) -> (r: u64)
    requires
        old(cpu).wf(),
    ensures
        post_daa(*old(cpu), *final(cpu), r),
{
    let mut a = cpu.registers.get_a() as u16;
    let flags = cpu.registers.flags();
    let n = flags.subtract();
    let h = flags.half_carry();
    let c = flags.carry();
    let ghost a0 = a;
    let mut carry = c;
    if !n {
        if c || a > 0x99 {
            a = a + 0x60;
            carry = true;
        }
        proof {
            assert(a % 16 == a0 % 16);
        }
        if h || (a & 0x0F) > 0x09 {
            proof {
                crate::bits::lemma_u16_bits(a);
            }
            a = a + 0x06;
        }
        proof {
            crate::bits::lemma_u16_bits(a);
        }
    } else {
        if c {
            a = a.wrapping_sub(0x60);
        }
        if h {
            a = a.wrapping_sub(0x06);
        }
    }
    proof {
        crate::bits::lemma_u16_bits(a);
    }
    let a8 = (a & 0xFF) as u8;
    cpu.registers.set_a(a8);
    set_flags_zhnc(cpu, a8 == 0, n, false, carry);
    4
}

fn stop_exec(_instr: &Instruction, cpu: &mut CPU) -> (r: u64)
    requires
        old(cpu).wf(),
    ensures
        post_stop(*old(cpu), *final(cpu), r),
{
    let v = cpu.fetch_next();
    proof {
        let o = *old(cpu);
        assert(cpu.tr() =~= o.tr() + fetch1(o, v));
        assert(cpu.tr()[o.tr().len() as int] == BusAccess::Read(o.regs().pc, v));
    }
    4
}






// ---------------------------------------------------------------------------------------
// Instruction table and dispatch
// ---------------------------------------------------------------------------------------

/// The executor that the primary opcode table assigns to an opcode, if any.
#[verifier::opaque]
pub open spec fn table_kind(op: u8) -> Option<ExecKind> {
    match op {
        0x00 => Some(ExecKind::Nop),
        0x01 | 0x11 | 0x21 | 0x31 => Some(ExecKind::LdRrNN),
        0x02 => Some(ExecKind::LdBcA),
        0x03 | 0x13 | 0x23 | 0x33 => Some(ExecKind::IncRr),
        0x04 | 0x0C | 0x14 | 0x1C | 0x24 | 0x2C | 0x34 => Some(ExecKind::IncR),
        0x05 | 0x0D | 0x15 | 0x1D | 0x25 | 0x2D | 0x35 => Some(ExecKind::DecR),
        0x07 => Some(ExecKind::Rlca),
        0x08 => Some(ExecKind::LdA16Sp),
        0x09 | 0x19 | 0x29 | 0x39 => Some(ExecKind::AddHlRr),
        0x0A => Some(ExecKind::LdABc),
        0x0B | 0x1B | 0x2B | 0x3B => Some(ExecKind::DecRr),
        0x0F => Some(ExecKind::Rrca),
        0x10 => Some(ExecKind::Stop),
        0x12 => Some(ExecKind::LdDeA),
        0x17 => Some(ExecKind::Rla),
        0x18 => Some(ExecKind::JrR8),
        0x1A => Some(ExecKind::LdADe),
        0x1F => Some(ExecKind::Rra),
        0x20 | 0x28 | 0x30 | 0x38 => Some(ExecKind::JrCc),
        0x22 => Some(ExecKind::LdHlIncA),
        0x27 => Some(ExecKind::Daa),
        0x2A => Some(ExecKind::LdAHlInc),
        0x2F => Some(ExecKind::Cpl),
        0x32 => Some(ExecKind::LdHlDecA),
        0x36 => Some(ExecKind::LdHlN),
        0x37 => Some(ExecKind::Scf),
        0x3A => Some(ExecKind::LdAHlDec),
        0x3C => Some(ExecKind::IncA),
        0x3D => Some(ExecKind::DecA),
        0x3E => Some(ExecKind::LdAN),
        0x3F => Some(ExecKind::Ccf),
        0x76 => Some(ExecKind::Halt),
        0x80 | 0x81 | 0x82 | 0x83 | 0x84 | 0x85 | 0x86 | 0x87 => Some(ExecKind::AluAddR),
        0x88 | 0x89 | 0x8A | 0x8B | 0x8C | 0x8D | 0x8E | 0x8F => Some(ExecKind::AluAdcR),
        0x90 | 0x91 | 0x92 | 0x93 | 0x94 | 0x95 | 0x96 | 0x97 => Some(ExecKind::AluSubR),
        0x98 | 0x99 | 0x9A | 0x9B | 0x9C | 0x9D | 0x9E | 0x9F => Some(ExecKind::AluSbcR),
        0xA0 | 0xA1 | 0xA2 | 0xA3 | 0xA4 | 0xA5 | 0xA6 | 0xA7 => Some(ExecKind::AluAndR),
        0xA8 | 0xA9 | 0xAA | 0xAB | 0xAC | 0xAD | 0xAE | 0xAF => Some(ExecKind::AluXorR),
        0xB0 | 0xB1 | 0xB2 | 0xB3 | 0xB4 | 0xB5 | 0xB6 | 0xB7 => Some(ExecKind::AluOrR),
        0xB8 | 0xB9 | 0xBA | 0xBB | 0xBC | 0xBD | 0xBE | 0xBF => Some(ExecKind::AluCpR),
        0xC0 | 0xC8 | 0xD0 | 0xD8 => Some(ExecKind::RetCc),
        0xC1 | 0xD1 | 0xE1 | 0xF1 => Some(ExecKind::PopRrAf),
        0xC2 | 0xCA | 0xD2 | 0xDA => Some(ExecKind::JpCc),
        0xC3 => Some(ExecKind::JpNN),
        0xC4 | 0xCC | 0xD4 | 0xDC => Some(ExecKind::CallCc),
        0xC5 | 0xD5 | 0xE5 | 0xF5 => Some(ExecKind::PushRrAf),
        0xC6 => Some(ExecKind::AluAddN),
        0xC7 | 0xCF | 0xD7 | 0xDF | 0xE7 | 0xEF | 0xF7 | 0xFF => Some(ExecKind::Rst),
        0xC9 => Some(ExecKind::Ret),
        0xCD => Some(ExecKind::CallNN),
        0xCE => Some(ExecKind::AluAdcN),
        0xD6 => Some(ExecKind::AluSubN),
        0xD9 => Some(ExecKind::Reti),
        0xDE => Some(ExecKind::AluSbcN),
        0xE0 => Some(ExecKind::LdhA8A),
        0xE2 => Some(ExecKind::LdCA),
        0xE6 => Some(ExecKind::AluAndN),
        0xE8 => Some(ExecKind::AddSpE8),
        0xE9 => Some(ExecKind::JpHl),
        0xEA => Some(ExecKind::LdA16A),
        0xEE => Some(ExecKind::AluXorN),
        0xF0 => Some(ExecKind::LdhAA8),
        0xF2 => Some(ExecKind::LdAC),
        0xF3 => Some(ExecKind::Di),
        0xF6 => Some(ExecKind::OrAN),
        0xF8 => Some(ExecKind::LdHlSpE8),
        0xF9 => Some(ExecKind::LdSpHl),
        0xFA => Some(ExecKind::LdAA16),
        0xFB => Some(ExecKind::Ei),
        0xFE => Some(ExecKind::AluCpN),
        _ => None,
    }
}

/// The executor for an opcode: CB-prefixed opcodes all go to the CB executor; an opcode missing
/// from the primary table falls back to LD r,r' (0x40..=0x7F but HALT) or LD r,n (00rrr110).
pub open spec fn decode_kind(op: u8, cb: bool) -> Option<ExecKind> {
    if cb {
        Some(ExecKind::CbGeneric)
    } else if table_kind(op).is_some() {
        table_kind(op)
    } else if op & 0xC0 == 0x40 && op != 0x76 {
        Some(ExecKind::LdRR)
    } else if op & 0xC7 == 0x06 {
        Some(ExecKind::LdRN)
    } else {
        None
    }
}

fn table_lookup(op: u8) -> (r: Option<ExecKind>)
    ensures
        r == table_kind(op),
{
    proof {
        reveal(table_kind);
    }
    match op {
        0x00 => Some(ExecKind::Nop),
        0x01 | 0x11 | 0x21 | 0x31 => Some(ExecKind::LdRrNN),
        0x02 => Some(ExecKind::LdBcA),
        0x03 | 0x13 | 0x23 | 0x33 => Some(ExecKind::IncRr),
        0x04 | 0x0C | 0x14 | 0x1C | 0x24 | 0x2C | 0x34 => Some(ExecKind::IncR),
        0x05 | 0x0D | 0x15 | 0x1D | 0x25 | 0x2D | 0x35 => Some(ExecKind::DecR),
        0x07 => Some(ExecKind::Rlca),
        0x08 => Some(ExecKind::LdA16Sp),
        0x09 | 0x19 | 0x29 | 0x39 => Some(ExecKind::AddHlRr),
        0x0A => Some(ExecKind::LdABc),
        0x0B | 0x1B | 0x2B | 0x3B => Some(ExecKind::DecRr),
        0x0F => Some(ExecKind::Rrca),
        0x10 => Some(ExecKind::Stop),
        0x12 => Some(ExecKind::LdDeA),
        0x17 => Some(ExecKind::Rla),
        0x18 => Some(ExecKind::JrR8),
        0x1A => Some(ExecKind::LdADe),
        0x1F => Some(ExecKind::Rra),
        0x20 | 0x28 | 0x30 | 0x38 => Some(ExecKind::JrCc),
        0x22 => Some(ExecKind::LdHlIncA),
        0x27 => Some(ExecKind::Daa),
        0x2A => Some(ExecKind::LdAHlInc),
        0x2F => Some(ExecKind::Cpl),
        0x32 => Some(ExecKind::LdHlDecA),
        0x36 => Some(ExecKind::LdHlN),
        0x37 => Some(ExecKind::Scf),
        0x3A => Some(ExecKind::LdAHlDec),
        0x3C => Some(ExecKind::IncA),
        0x3D => Some(ExecKind::DecA),
        0x3E => Some(ExecKind::LdAN),
        0x3F => Some(ExecKind::Ccf),
        0x76 => Some(ExecKind::Halt),
        0x80 | 0x81 | 0x82 | 0x83 | 0x84 | 0x85 | 0x86 | 0x87 => Some(ExecKind::AluAddR),
        0x88 | 0x89 | 0x8A | 0x8B | 0x8C | 0x8D | 0x8E | 0x8F => Some(ExecKind::AluAdcR),
        0x90 | 0x91 | 0x92 | 0x93 | 0x94 | 0x95 | 0x96 | 0x97 => Some(ExecKind::AluSubR),
        0x98 | 0x99 | 0x9A | 0x9B | 0x9C | 0x9D | 0x9E | 0x9F => Some(ExecKind::AluSbcR),
        0xA0 | 0xA1 | 0xA2 | 0xA3 | 0xA4 | 0xA5 | 0xA6 | 0xA7 => Some(ExecKind::AluAndR),
        0xA8 | 0xA9 | 0xAA | 0xAB | 0xAC | 0xAD | 0xAE | 0xAF => Some(ExecKind::AluXorR),
        0xB0 | 0xB1 | 0xB2 | 0xB3 | 0xB4 | 0xB5 | 0xB6 | 0xB7 => Some(ExecKind::AluOrR),
        0xB8 | 0xB9 | 0xBA | 0xBB | 0xBC | 0xBD | 0xBE | 0xBF => Some(ExecKind::AluCpR),
        0xC0 | 0xC8 | 0xD0 | 0xD8 => Some(ExecKind::RetCc),
        0xC1 | 0xD1 | 0xE1 | 0xF1 => Some(ExecKind::PopRrAf),
        0xC2 | 0xCA | 0xD2 | 0xDA => Some(ExecKind::JpCc),
        0xC3 => Some(ExecKind::JpNN),
        0xC4 | 0xCC | 0xD4 | 0xDC => Some(ExecKind::CallCc),
        0xC5 | 0xD5 | 0xE5 | 0xF5 => Some(ExecKind::PushRrAf),
        0xC6 => Some(ExecKind::AluAddN),
        0xC7 | 0xCF | 0xD7 | 0xDF | 0xE7 | 0xEF | 0xF7 | 0xFF => Some(ExecKind::Rst),
        0xC9 => Some(ExecKind::Ret),
        0xCD => Some(ExecKind::CallNN),
        0xCE => Some(ExecKind::AluAdcN),
        0xD6 => Some(ExecKind::AluSubN),
        0xD9 => Some(ExecKind::Reti),
        0xDE => Some(ExecKind::AluSbcN),
        0xE0 => Some(ExecKind::LdhA8A),
        0xE2 => Some(ExecKind::LdCA),
        0xE6 => Some(ExecKind::AluAndN),
        0xE8 => Some(ExecKind::AddSpE8),
        0xE9 => Some(ExecKind::JpHl),
        0xEA => Some(ExecKind::LdA16A),
        0xEE => Some(ExecKind::AluXorN),
        0xF0 => Some(ExecKind::LdhAA8),
        0xF2 => Some(ExecKind::LdAC),
        0xF3 => Some(ExecKind::Di),
        0xF6 => Some(ExecKind::OrAN),
        0xF8 => Some(ExecKind::LdHlSpE8),
        0xF9 => Some(ExecKind::LdSpHl),
        0xFA => Some(ExecKind::LdAA16),
        0xFB => Some(ExecKind::Ei),
        0xFE => Some(ExecKind::AluCpN),
        _ => None,
    }
}

/// The opcode recorded in the table entry of an executor.
pub open spec fn instr_opcode(k: ExecKind) -> u8 {
    match k {
        ExecKind::Ei => 0xFB,
        ExecKind::Di => 0xF3,
        ExecKind::Ccf => 0x3F,
        ExecKind::Scf => 0x37,
        ExecKind::Cpl => 0x2F,
        ExecKind::Daa => 0x27,
        ExecKind::Stop => 0x10,
        ExecKind::Nop => 0x00,
        ExecKind::LdAN => 0x3E,
        ExecKind::IncA => 0x3C,
        ExecKind::XorA => 0xAF,
        ExecKind::DecA => 0x3D,
        ExecKind::Halt => 0x76,
        ExecKind::JpNN => 0xC3,
        ExecKind::OrAN => 0xF6,
        ExecKind::Ret => 0xC9,
        ExecKind::Rlca => 0x07,
        ExecKind::Rrca => 0x0F,
        ExecKind::Rla => 0x17,
        ExecKind::Rra => 0x1F,
        ExecKind::LdRR => 0x40,
        ExecKind::LdRN => 0x06,
        ExecKind::JrR8 => 0x18,
        ExecKind::IncR => 0x04,
        ExecKind::DecR => 0x05,
        ExecKind::JpHl => 0xE9,
        ExecKind::Rst => 0xC7,
        ExecKind::Reti => 0xD9,
        ExecKind::CallNN => 0xCD,
        ExecKind::PushRrAf => 0xC5,
        ExecKind::PopRrAf => 0xC1,
        ExecKind::AluAddR => 0x80,
        ExecKind::AluAdcR => 0x88,
        ExecKind::AluSubR => 0x90,
        ExecKind::AluSbcR => 0x98,
        ExecKind::AluAndR => 0xA0,
        ExecKind::AluXorR => 0xA8,
        ExecKind::AluOrR => 0xB0,
        ExecKind::AluCpR => 0xB8,
        ExecKind::AluAddN => 0xC6,
        ExecKind::AluAdcN => 0xCE,
        ExecKind::AluSubN => 0xD6,
        ExecKind::AluSbcN => 0xDE,
        ExecKind::AluAndN => 0xE6,
        ExecKind::AluXorN => 0xEE,
        ExecKind::AluCpN => 0xFE,
        ExecKind::LdHlIncA => 0x22,
        ExecKind::LdAHlInc => 0x2A,
        ExecKind::LdHlDecA => 0x32,
        ExecKind::LdAHlDec => 0x3A,
        ExecKind::LdABc => 0x0A,
        ExecKind::LdADe => 0x1A,
        ExecKind::LdBcA => 0x02,
        ExecKind::LdDeA => 0x12,
        ExecKind::LdHlN => 0x36,
        ExecKind::AddSpE8 => 0xE8,
        ExecKind::LdHlSpE8 => 0xF8,
        ExecKind::LdSpHl => 0xF9,
        ExecKind::LdA16A => 0xEA,
        ExecKind::LdAA16 => 0xFA,
        ExecKind::LdA16Sp => 0x08,
        ExecKind::LdhA8A => 0xE0,
        ExecKind::LdhAA8 => 0xF0,
        ExecKind::LdCA => 0xE2,
        ExecKind::LdAC => 0xF2,
        ExecKind::CbGeneric => 0xCB,
        ExecKind::LdRrNN => 0x01,
        ExecKind::IncRr => 0x03,
        ExecKind::DecRr => 0x0B,
        ExecKind::AddHlRr => 0x09,
        ExecKind::JrCc => 0x20,
        ExecKind::JpCc => 0xC2,
        ExecKind::CallCc => 0xC4,
        ExecKind::RetCc => 0xC0,
    }
}

/// The nominal cycle count recorded in the table entry of an executor.
pub open spec fn instr_cycles(k: ExecKind) -> u8 {
    match k {
        ExecKind::Ei => 4,
        ExecKind::Di => 4,
        ExecKind::Ccf => 4,
        ExecKind::Scf => 4,
        ExecKind::Cpl => 4,
        ExecKind::Daa => 4,
        ExecKind::Stop => 4,
        ExecKind::Nop => 4,
        ExecKind::LdAN => 8,
        ExecKind::IncA => 4,
        ExecKind::XorA => 4,
        ExecKind::DecA => 4,
        ExecKind::Halt => 4,
        ExecKind::JpNN => 16,
        ExecKind::OrAN => 8,
        ExecKind::Ret => 16,
        ExecKind::Rlca => 4,
        ExecKind::Rrca => 4,
        ExecKind::Rla => 4,
        ExecKind::Rra => 4,
        ExecKind::LdRR => 4,
        ExecKind::LdRN => 8,
        ExecKind::JrR8 => 12,
        ExecKind::IncR => 4,
        ExecKind::DecR => 4,
        ExecKind::JpHl => 4,
        ExecKind::Rst => 16,
        ExecKind::Reti => 16,
        ExecKind::CallNN => 24,
        ExecKind::PushRrAf => 16,
        ExecKind::PopRrAf => 12,
        ExecKind::AluAddR => 4,
        ExecKind::AluAdcR => 4,
        ExecKind::AluSubR => 4,
        ExecKind::AluSbcR => 4,
        ExecKind::AluAndR => 4,
        ExecKind::AluXorR => 4,
        ExecKind::AluOrR => 4,
        ExecKind::AluCpR => 4,
        ExecKind::AluAddN => 8,
        ExecKind::AluAdcN => 8,
        ExecKind::AluSubN => 8,
        ExecKind::AluSbcN => 8,
        ExecKind::AluAndN => 8,
        ExecKind::AluXorN => 8,
        ExecKind::AluCpN => 8,
        ExecKind::LdHlIncA => 8,
        ExecKind::LdAHlInc => 8,
        ExecKind::LdHlDecA => 8,
        ExecKind::LdAHlDec => 8,
        ExecKind::LdABc => 8,
        ExecKind::LdADe => 8,
        ExecKind::LdBcA => 8,
        ExecKind::LdDeA => 8,
        ExecKind::LdHlN => 12,
        ExecKind::AddSpE8 => 16,
        ExecKind::LdHlSpE8 => 12,
        ExecKind::LdSpHl => 8,
        ExecKind::LdA16A => 16,
        ExecKind::LdAA16 => 16,
        ExecKind::LdA16Sp => 20,
        ExecKind::LdhA8A => 12,
        ExecKind::LdhAA8 => 12,
        ExecKind::LdCA => 8,
        ExecKind::LdAC => 8,
        ExecKind::CbGeneric => 8,
        ExecKind::LdRrNN => 12,
        ExecKind::IncRr => 8,
        ExecKind::DecRr => 8,
        ExecKind::AddHlRr => 8,
        ExecKind::JrCc => 12,
        ExecKind::JpCc => 16,
        ExecKind::CallCc => 24,
        ExecKind::RetCc => 20,
    }
}

/// The instruction length recorded in the table entry of an executor.
pub open spec fn instr_size(k: ExecKind) -> u8 {
    match k {
        ExecKind::Ei => 1,
        ExecKind::Di => 1,
        ExecKind::Ccf => 1,
        ExecKind::Scf => 1,
        ExecKind::Cpl => 1,
        ExecKind::Daa => 1,
        ExecKind::Stop => 2,
        ExecKind::Nop => 1,
        ExecKind::LdAN => 2,
        ExecKind::IncA => 1,
        ExecKind::XorA => 1,
        ExecKind::DecA => 1,
        ExecKind::Halt => 1,
        ExecKind::JpNN => 3,
        ExecKind::OrAN => 2,
        ExecKind::Ret => 1,
        ExecKind::Rlca => 1,
        ExecKind::Rrca => 1,
        ExecKind::Rla => 1,
        ExecKind::Rra => 1,
        ExecKind::LdRR => 1,
        ExecKind::LdRN => 2,
        ExecKind::JrR8 => 2,
        ExecKind::IncR => 1,
        ExecKind::DecR => 1,
        ExecKind::JpHl => 1,
        ExecKind::Rst => 1,
        ExecKind::Reti => 1,
        ExecKind::CallNN => 3,
        ExecKind::PushRrAf => 1,
        ExecKind::PopRrAf => 1,
        ExecKind::AluAddR => 1,
        ExecKind::AluAdcR => 1,
        ExecKind::AluSubR => 1,
        ExecKind::AluSbcR => 1,
        ExecKind::AluAndR => 1,
        ExecKind::AluXorR => 1,
        ExecKind::AluOrR => 1,
        ExecKind::AluCpR => 1,
        ExecKind::AluAddN => 2,
        ExecKind::AluAdcN => 2,
        ExecKind::AluSubN => 2,
        ExecKind::AluSbcN => 2,
        ExecKind::AluAndN => 2,
        ExecKind::AluXorN => 2,
        ExecKind::AluCpN => 2,
        ExecKind::LdHlIncA => 1,
        ExecKind::LdAHlInc => 1,
        ExecKind::LdHlDecA => 1,
        ExecKind::LdAHlDec => 1,
        ExecKind::LdABc => 1,
        ExecKind::LdADe => 1,
        ExecKind::LdBcA => 1,
        ExecKind::LdDeA => 1,
        ExecKind::LdHlN => 2,
        ExecKind::AddSpE8 => 2,
        ExecKind::LdHlSpE8 => 2,
        ExecKind::LdSpHl => 1,
        ExecKind::LdA16A => 3,
        ExecKind::LdAA16 => 3,
        ExecKind::LdA16Sp => 3,
        ExecKind::LdhA8A => 2,
        ExecKind::LdhAA8 => 2,
        ExecKind::LdCA => 1,
        ExecKind::LdAC => 1,
        ExecKind::CbGeneric => 2,
        ExecKind::LdRrNN => 3,
        ExecKind::IncRr => 1,
        ExecKind::DecRr => 1,
        ExecKind::AddHlRr => 1,
        ExecKind::JrCc => 2,
        ExecKind::JpCc => 3,
        ExecKind::CallCc => 3,
        ExecKind::RetCc => 1,
    }
}

impl Instruction {
    /// The table entry of an executor.
    pub fn for_kind(k: ExecKind) -> (r: Instruction)
        ensures
            r.execute == k,
            r.opcode == instr_opcode(k),
            r.cycles == instr_cycles(k),
            r.size == instr_size(k),
            r.flags@.len() == 0,
    {
        let (opcode, name, cycles, size): (u8, &'static str, u8, u8) = match k {
            ExecKind::Ei => (0xFB, "EI", 4, 1),
            ExecKind::Di => (0xF3, "DI", 4, 1),
            ExecKind::Ccf => (0x3F, "CCF", 4, 1),
            ExecKind::Scf => (0x37, "SCF", 4, 1),
            ExecKind::Cpl => (0x2F, "CPL", 4, 1),
            ExecKind::Daa => (0x27, "DAA", 4, 1),
            ExecKind::Stop => (0x10, "STOP", 4, 2),
            ExecKind::Nop => (0x00, "NOP", 4, 1),
            ExecKind::LdAN => (0x3E, "LD A, n", 8, 2),
            ExecKind::IncA => (0x3C, "INC A", 4, 1),
            ExecKind::XorA => (0xAF, "XOR A", 4, 1),
            ExecKind::DecA => (0x3D, "DEC A", 4, 1),
            ExecKind::Halt => (0x76, "HALT", 4, 1),
            ExecKind::JpNN => (0xC3, "JP nn", 16, 3),
            ExecKind::OrAN => (0xF6, "OR A, n", 8, 2),
            ExecKind::Ret => (0xC9, "RET", 16, 1),
            ExecKind::Rlca => (0x07, "RLCA", 4, 1),
            ExecKind::Rrca => (0x0F, "RRCA", 4, 1),
            ExecKind::Rla => (0x17, "RLA", 4, 1),
            ExecKind::Rra => (0x1F, "RRA", 4, 1),
            ExecKind::LdRR => (0x40, "LD r,r", 4, 1),
            ExecKind::LdRN => (0x06, "LD r,n", 8, 2),
            ExecKind::JrR8 => (0x18, "JR r8", 12, 2),
            ExecKind::IncR => (0x04, "INC r", 4, 1),
            ExecKind::DecR => (0x05, "DEC r", 4, 1),
            ExecKind::JpHl => (0xE9, "JP (HL)", 4, 1),
            ExecKind::Rst => (0xC7, "RST t", 16, 1),
            ExecKind::Reti => (0xD9, "RETI", 16, 1),
            ExecKind::CallNN => (0xCD, "CALL nn", 24, 3),
            ExecKind::PushRrAf => (0xC5, "PUSH rr/AF", 16, 1),
            ExecKind::PopRrAf => (0xC1, "POP rr/AF", 12, 1),
            ExecKind::AluAddR => (0x80, "ADD A,r", 4, 1),
            ExecKind::AluAdcR => (0x88, "ADC A,r", 4, 1),
            ExecKind::AluSubR => (0x90, "SUB r", 4, 1),
            ExecKind::AluSbcR => (0x98, "SBC A,r", 4, 1),
            ExecKind::AluAndR => (0xA0, "AND r", 4, 1),
            ExecKind::AluXorR => (0xA8, "XOR r", 4, 1),
            ExecKind::AluOrR => (0xB0, "OR r", 4, 1),
            ExecKind::AluCpR => (0xB8, "CP r", 4, 1),
            ExecKind::AluAddN => (0xC6, "ADD A,n", 8, 2),
            ExecKind::AluAdcN => (0xCE, "ADC A,n", 8, 2),
            ExecKind::AluSubN => (0xD6, "SUB n", 8, 2),
            ExecKind::AluSbcN => (0xDE, "SBC A,n", 8, 2),
            ExecKind::AluAndN => (0xE6, "AND n", 8, 2),
            ExecKind::AluXorN => (0xEE, "XOR n", 8, 2),
            ExecKind::AluCpN => (0xFE, "CP n", 8, 2),
            ExecKind::LdHlIncA => (0x22, "LD (HL+),A", 8, 1),
            ExecKind::LdAHlInc => (0x2A, "LD A,(HL+)", 8, 1),
            ExecKind::LdHlDecA => (0x32, "LD (HL-),A", 8, 1),
            ExecKind::LdAHlDec => (0x3A, "LD A,(HL-)", 8, 1),
            ExecKind::LdABc => (0x0A, "LD A,(BC)", 8, 1),
            ExecKind::LdADe => (0x1A, "LD A,(DE)", 8, 1),
            ExecKind::LdBcA => (0x02, "LD (BC),A", 8, 1),
            ExecKind::LdDeA => (0x12, "LD (DE),A", 8, 1),
            ExecKind::LdHlN => (0x36, "LD (HL),n", 12, 2),
            ExecKind::AddSpE8 => (0xE8, "ADD SP,e8", 16, 2),
            ExecKind::LdHlSpE8 => (0xF8, "LD HL,SP+e8", 12, 2),
            ExecKind::LdSpHl => (0xF9, "LD SP,HL", 8, 1),
            ExecKind::LdA16A => (0xEA, "LD (a16),A", 16, 3),
            ExecKind::LdAA16 => (0xFA, "LD A,(a16)", 16, 3),
            ExecKind::LdA16Sp => (0x08, "LD (a16),SP", 20, 3),
            ExecKind::LdhA8A => (0xE0, "LDH (a8),A", 12, 2),
            ExecKind::LdhAA8 => (0xF0, "LDH A,(a8)", 12, 2),
            ExecKind::LdCA => (0xE2, "LD (C),A", 8, 1),
            ExecKind::LdAC => (0xF2, "LD A,(C)", 8, 1),
            ExecKind::CbGeneric => (0xCB, "CB *", 8, 2),
            ExecKind::LdRrNN => (0x01, "LD rr,nn", 12, 3),
            ExecKind::IncRr => (0x03, "INC rr", 8, 1),
            ExecKind::DecRr => (0x0B, "DEC rr", 8, 1),
            ExecKind::AddHlRr => (0x09, "ADD HL,rr", 8, 1),
            ExecKind::JrCc => (0x20, "JR cc,r8", 12, 2),
            ExecKind::JpCc => (0xC2, "JP cc,nn", 16, 3),
            ExecKind::CallCc => (0xC4, "CALL cc,nn", 24, 3),
            ExecKind::RetCc => (0xC0, "RET cc", 20, 1),
        };
        Instruction { opcode, name, cycles, size, flags: Vec::new(), execute: k }
    }
}

/// The entry of the primary opcode table (no fallback decoding).
pub fn opcodes(op: u8) -> (r: Option<Instruction>)
    ensures
        r.is_some() == table_kind(op).is_some(),
        r matches Some(i) ==> i.execute == table_kind(op).unwrap() && i.opcode == instr_opcode(
            i.execute,
        ) && i.cycles == instr_cycles(i.execute) && i.size == instr_size(i.execute),
{
    match table_lookup(op) {
        Some(k) => Some(Instruction::for_kind(k)),
        None => None,
    }
}

/// The entry of the CB-prefixed opcode table: every opcode has the CB executor.
pub fn opcodes_cb(op: u8) -> (r: Option<Instruction>)
    ensures
        r matches Some(i) && i.execute == ExecKind::CbGeneric && i.opcode == 0xCB && i.cycles == 8
            && i.size == 2,
{
    Some(Instruction::for_kind(ExecKind::CbGeneric))
}

/// What executor `k` does to the CPU, returning `r` cycles.
#[verifier::opaque]
pub open spec fn exec_post(k: ExecKind, o: CPU, n: CPU, r: u64) -> bool {
    match k {
        ExecKind::Ei => post_ei(o, n, r),
        ExecKind::Di => post_di(o, n, r),
        ExecKind::Ccf => post_flags_only(o, n, r, flags_byte(fz(o.regs().f), false, false, !fc(o.regs().f))),
        ExecKind::Scf => post_flags_only(o, n, r, flags_byte(fz(o.regs().f), false, false, true)),
        ExecKind::Cpl => post_cpl(o, n, r),
        ExecKind::Daa => post_daa(o, n, r),
        ExecKind::Stop => post_stop(o, n, r),
        ExecKind::Nop => post_nop(o, n, r),
        ExecKind::LdAN => post_ld_a_n(o, n, r),
        ExecKind::IncA => post_inc_a(o, n, r),
        ExecKind::XorA => post_xor_a(o, n, r),
        ExecKind::DecA => post_dec_a(o, n, r),
        ExecKind::Halt => post_halt(o, n, r),
        ExecKind::JpNN => post_jp_nn(o, n, r),
        ExecKind::OrAN => post_or_a_n(o, n, r),
        ExecKind::Ret => post_ret(o, n, r),
        ExecKind::Rlca => post_rot_a(o, n, r, rlc8(o.regs().a), o.regs().a & 0x80 != 0),
        ExecKind::Rrca => post_rot_a(o, n, r, rrc8(o.regs().a), o.regs().a & 1 != 0),
        ExecKind::Rla => post_rot_a(o, n, r, rl8(o.regs().a, cbit8(o.regs().f)), o.regs().a & 0x80 != 0),
        ExecKind::Rra => post_rot_a(o, n, r, rr8(o.regs().a, cbit8(o.regs().f)), o.regs().a & 1 != 0),
        ExecKind::LdRR => post_ld_r_r(o, n, r),
        ExecKind::LdRN => post_ld_r_n(o, n, r),
        ExecKind::JrR8 => post_jr_r8(o, n, r),
        ExecKind::IncR => post_inc_r(o, n, r),
        ExecKind::DecR => post_dec_r(o, n, r),
        ExecKind::JpHl => post_jp_hl(o, n, r),
        ExecKind::Rst => post_rst(o, n, r),
        ExecKind::Reti => post_reti(o, n, r),
        ExecKind::CallNN => post_call_nn(o, n, r),
        ExecKind::PushRrAf => post_push(o, n, r),
        ExecKind::PopRrAf => post_pop(o, n, r),
        ExecKind::AluAddR => post_alu_r(o, n, r, 0),
        ExecKind::AluAdcR => post_alu_r(o, n, r, 1),
        ExecKind::AluSubR => post_alu_r(o, n, r, 2),
        ExecKind::AluSbcR => post_alu_r(o, n, r, 3),
        ExecKind::AluAndR => post_alu_r(o, n, r, 4),
        ExecKind::AluXorR => post_alu_r(o, n, r, 5),
        ExecKind::AluOrR => post_alu_r(o, n, r, 6),
        ExecKind::AluCpR => post_alu_r(o, n, r, 7),
        ExecKind::AluAddN => post_alu_n(o, n, r, 0),
        ExecKind::AluAdcN => post_alu_n(o, n, r, 1),
        ExecKind::AluSubN => post_alu_n(o, n, r, 2),
        ExecKind::AluSbcN => post_alu_n(o, n, r, 3),
        ExecKind::AluAndN => post_alu_n(o, n, r, 4),
        ExecKind::AluXorN => post_alu_n(o, n, r, 5),
        ExecKind::AluCpN => post_alu_n(o, n, r, 7),
        ExecKind::LdHlIncA => post_ld_hl_a(o, n, r, 1),
        ExecKind::LdAHlInc => post_ld_a_hl(o, n, r, 1),
        ExecKind::LdHlDecA => post_ld_hl_a(o, n, r, -1),
        ExecKind::LdAHlDec => post_ld_a_hl(o, n, r, -1),
        ExecKind::LdABc => post_ld_a_ind(o, n, r, o.regs().bc()),
        ExecKind::LdADe => post_ld_a_ind(o, n, r, o.regs().de()),
        ExecKind::LdBcA => post_ld_ind_a(o, n, r, o.regs().bc()),
        ExecKind::LdDeA => post_ld_ind_a(o, n, r, o.regs().de()),
        ExecKind::LdHlN => post_ld_hl_n(o, n, r),
        ExecKind::AddSpE8 => post_add_sp_e8(o, n, r),
        ExecKind::LdHlSpE8 => post_ld_hl_sp_e8(o, n, r),
        ExecKind::LdSpHl => post_ld_sp_hl(o, n, r),
        ExecKind::LdA16A => post_ld_a16_a(o, n, r),
        ExecKind::LdAA16 => post_ld_a_a16(o, n, r),
        ExecKind::LdA16Sp => post_ld_a16_sp(o, n, r),
        ExecKind::LdhA8A => post_ldh_a8_a(o, n, r),
        ExecKind::LdhAA8 => post_ldh_a_a8(o, n, r),
        ExecKind::LdCA => post_ld_ind_a(o, n, r, (0xFF00 + o.regs().c) as u16),
        ExecKind::LdAC => post_ld_a_ind(o, n, r, (0xFF00 + o.regs().c) as u16),
        ExecKind::CbGeneric => post_cb(o, n, r),
        ExecKind::LdRrNN => post_ld_rr_nn(o, n, r),
        ExecKind::IncRr => post_incdec_rr(o, n, r, 1),
        ExecKind::DecRr => post_incdec_rr(o, n, r, -1),
        ExecKind::AddHlRr => post_add_hl_rr(o, n, r),
        ExecKind::JrCc => post_jr_cc(o, n, r),
        ExecKind::JpCc => post_jp_cc(o, n, r),
        ExecKind::CallCc => post_call_cc(o, n, r),
        ExecKind::RetCc => post_ret_cc(o, n, r),
    }
}

impl Instruction {
    /// Runs the executor of this entry on the CPU (whose `opcode` holds the opcode being run)
    /// and returns the cycles it took.
    pub fn run(&self, cpu: &mut CPU) -> (r: u64)
        requires
            old(cpu).wf(),
        ensures
            exec_post(self.execute, *old(cpu), *final(cpu), r),
    {
        proof {
            reveal(exec_post);
        }
        match self.execute {
            ExecKind::Ei => ei_exec(self, cpu),
            ExecKind::Di => di_exec(self, cpu),
            ExecKind::Ccf => ccf_exec(self, cpu),
            ExecKind::Scf => scf_exec(self, cpu),
            ExecKind::Cpl => cpl_exec(self, cpu),
            ExecKind::Daa => daa_exec(self, cpu),
            ExecKind::Stop => stop_exec(self, cpu),
            ExecKind::Nop => nop_exec(self, cpu),
            ExecKind::LdAN => ld_a_n_exec(self, cpu),
            ExecKind::IncA => inc_a_exec(self, cpu),
            ExecKind::XorA => xor_a_exec(self, cpu),
            ExecKind::DecA => dec_a_exec(self, cpu),
            ExecKind::Halt => halt_exec(self, cpu),
            ExecKind::JpNN => jp_nn_exec(self, cpu),
            ExecKind::OrAN => or_a_n_exec(self, cpu),
            ExecKind::Ret => ret_exec(self, cpu),
            ExecKind::Rlca => rlca_exec(self, cpu),
            ExecKind::Rrca => rrca_exec(self, cpu),
            ExecKind::Rla => rla_exec(self, cpu),
            ExecKind::Rra => rra_exec(self, cpu),
            ExecKind::LdRR => ld_r_r_exec(self, cpu),
            ExecKind::LdRN => ld_r_n_exec(self, cpu),
            ExecKind::JrR8 => jr_r8_exec(self, cpu),
            ExecKind::IncR => inc_r_exec(self, cpu),
            ExecKind::DecR => dec_r_exec(self, cpu),
            ExecKind::JpHl => jp_hl_exec(self, cpu),
            ExecKind::Rst => rst_exec(self, cpu),
            ExecKind::Reti => reti_exec(self, cpu),
            ExecKind::CallNN => call_nn_exec(self, cpu),
            ExecKind::PushRrAf => push_rr_af_exec(self, cpu),
            ExecKind::PopRrAf => pop_rr_af_exec(self, cpu),
            ExecKind::AluAddR => alu_add_a_r_exec(self, cpu),
            ExecKind::AluAdcR => alu_adc_a_r_exec(self, cpu),
            ExecKind::AluSubR => alu_sub_a_r_exec(self, cpu),
            ExecKind::AluSbcR => alu_sbc_a_r_exec(self, cpu),
            ExecKind::AluAndR => alu_and_a_r_exec(self, cpu),
            ExecKind::AluXorR => alu_xor_a_r_exec(self, cpu),
            ExecKind::AluOrR => alu_or_a_r_exec(self, cpu),
            ExecKind::AluCpR => alu_cp_a_r_exec(self, cpu),
            ExecKind::AluAddN => alu_add_a_n_exec(self, cpu),
            ExecKind::AluAdcN => alu_adc_a_n_exec(self, cpu),
            ExecKind::AluSubN => alu_sub_a_n_exec(self, cpu),
            ExecKind::AluSbcN => alu_sbc_a_n_exec(self, cpu),
            ExecKind::AluAndN => alu_and_a_n_exec(self, cpu),
            ExecKind::AluXorN => alu_xor_a_n_exec(self, cpu),
            ExecKind::AluCpN => alu_cp_a_n_exec(self, cpu),
            ExecKind::LdHlIncA => ld_hl_inc_a_exec(self, cpu),
            ExecKind::LdAHlInc => ld_a_hl_inc_exec(self, cpu),
            ExecKind::LdHlDecA => ld_hl_dec_a_exec(self, cpu),
            ExecKind::LdAHlDec => ld_a_hl_dec_exec(self, cpu),
            ExecKind::LdABc => ld_a_bc_exec(self, cpu),
            ExecKind::LdADe => ld_a_de_exec(self, cpu),
            ExecKind::LdBcA => ld_bc_a_exec(self, cpu),
            ExecKind::LdDeA => ld_de_a_exec(self, cpu),
            ExecKind::LdHlN => ld_hl_n_exec(self, cpu),
            ExecKind::AddSpE8 => add_sp_e8_exec(self, cpu),
            ExecKind::LdHlSpE8 => ld_hl_sp_e8_exec(self, cpu),
            ExecKind::LdSpHl => ld_sp_hl_exec(self, cpu),
            ExecKind::LdA16A => ld_a16_a_exec(self, cpu),
            ExecKind::LdAA16 => ld_a_a16_exec(self, cpu),
            ExecKind::LdA16Sp => ld_a16_sp_exec(self, cpu),
            ExecKind::LdhA8A => ldh_a8_a_exec(self, cpu),
            ExecKind::LdhAA8 => ldh_a_a8_exec(self, cpu),
            ExecKind::LdCA => ld_c_a_exec(self, cpu),
            ExecKind::LdAC => ld_a_c_exec(self, cpu),
            ExecKind::CbGeneric => cb_generic_exec(self, cpu),
            ExecKind::LdRrNN => ld_rr_nn_exec(self, cpu),
            ExecKind::IncRr => inc_rr_exec(self, cpu),
            ExecKind::DecRr => dec_rr_exec(self, cpu),
            ExecKind::AddHlRr => add_hl_rr_exec(self, cpu),
            ExecKind::JrCc => jr_cc_exec(self, cpu),
            ExecKind::JpCc => jp_cc_exec(self, cpu),
            ExecKind::CallCc => call_cc_exec(self, cpu),
            ExecKind::RetCc => ret_cc_exec(self, cpu),
        }
    }
}

/// Every executor leaves a well-formed CPU, keeps the cycle counter and the earlier bus
/// accesses, and takes at most 24 cycles.
#[verifier::rlimit(40)]
pub proof fn lemma_exec_post(k: ExecKind, o: CPU, n: CPU, r: u64)
    requires
        exec_post(k, o, n, r),
    ensures
        n.wf(),
        n.cycles == o.cycles,
        r <= 24,
        n.tr().len() >= o.tr().len(),
        forall|i: int| 0 <= i < o.tr().len() ==> n.tr()[i] == o.tr()[i],
        log_grows(o, n),
{
    reveal(exec_post);
}

} // verus!
