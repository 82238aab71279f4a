use vstd::prelude::*;
use crate::gb::bus::{Bus, IoRegs, dma_allowed, bus_written, bus_stepped};
use crate::gb::registers::{Registers, RegsView};
use crate::gb::instructions::{
    Instruction,
    ExecKind,
    exec_post,
    decode_kind,
    instr_opcode,
    instr_cycles,
    instr_size,
    opcodes,
    opcodes_cb,
    push_writes,
    lemma_exec_post,
};

verus! {

/// One CPU bus access: a read of a byte or a write of a byte at an address.
pub enum BusAccess {
    Read(u16, u8),
    Write(u16, u8),
}

/// What the CPU does to the bus in one step: a read or a write of a byte, an advance by some
/// t-cycles, a new value of the interrupt request flags, or (first in every record) nothing.
pub enum BusOp {
    Start,
    Read(u16, u8),
    Write(u16, u8),
    Advance(u32),
    SetIf(u8),
}

/// Whether `b1` is the bus `b0` after `op`: a read sees the byte `spec_read` gives and leaves
/// the bus as it was; a write is `bus_written`; an advance is `bus_stepped`; a new IF value
/// keeps the five request bits and changes nothing else.
pub open spec fn bus_op(b0: Bus, op: BusOp, b1: Bus) -> bool {
    match op {
        BusOp::Start => b1 == b0,
        BusOp::Read(a, v) => b1 == b0 && v == b0.spec_read(a),
        BusOp::Write(a, v) => bus_written(b0, b1, a, v),
        BusOp::Advance(c) => bus_stepped(b0, b1, c),
        BusOp::SetIf(v) => b1.io() == (IoRegs { ifl: v & 0x1F, ..b0.io() }) && b1.same_storage(b0),
    }
}

/// Whether `log` is a run of the bus ending in `mem`: each entry holds an operation with the
/// bus before and after it, each step follows from its operation, each begins where the one
/// before ended, and the last ends in `mem`.
pub open spec fn log_ok(log: Seq<(BusOp, Bus, Bus)>, mem: Bus) -> bool {
    &&& log.len() > 0
    &&& forall|i: int| 0 <= i < log.len() ==> bus_op(#[trigger] log[i].1, log[i].0, log[i].2)
    &&& forall|i: int| 0 < i < log.len() ==> #[trigger] log[i].1 == log[i - 1].2
    &&& log.last().2 == mem
}

/// The reads and writes of a bus log, in order.
pub open spec fn accesses_of(log: Seq<(BusOp, Bus, Bus)>) -> Seq<BusAccess>
    decreases log.len(),
{
    if log.len() == 0 {
        Seq::empty()
    } else {
        let p = accesses_of(log.drop_last());
        match log.last().0 {
            BusOp::Read(a, v) => p.push(BusAccess::Read(a, v)),
            BusOp::Write(a, v) => p.push(BusAccess::Write(a, v)),
            _ => p,
        }
    }
}

/// Whether the bus log of `n` continues that of `o`.
pub open spec fn log_grows(o: CPU, n: CPU) -> bool {
    &&& n.bus_log@.len() >= o.bus_log@.len()
    &&& forall|i: int| 0 <= i < o.bus_log@.len() ==> #[trigger] n.bus_log@[i] == o.bus_log@[i]
}

proof fn lemma_accesses_push(log: Seq<(BusOp, Bus, Bus)>, e: (BusOp, Bus, Bus))
    ensures
        accesses_of(log.push(e)) == (match e.0 {
            BusOp::Read(a, v) => accesses_of(log).push(BusAccess::Read(a, v)),
            BusOp::Write(a, v) => accesses_of(log).push(BusAccess::Write(a, v)),
            _ => accesses_of(log),
        }),
{
    assert(log.push(e).drop_last() =~= log);
}

proof fn lemma_accesses_concat(a: Seq<(BusOp, Bus, Bus)>, b: Seq<(BusOp, Bus, Bus)>)
    ensures
        accesses_of(a + b) == accesses_of(a) + accesses_of(b),
    decreases b.len(),
{
    if b.len() == 0 {
        assert(a + b =~= a);
        assert(accesses_of(a) + accesses_of(b) =~= accesses_of(a));
    } else {
        let b1 = b.drop_last();
        lemma_accesses_concat(a, b1);
        assert((a + b).drop_last() =~= a + b1);
        assert((a + b).last() == b.last());
        match b.last().0 {
            BusOp::Read(x, v) => {
                assert(accesses_of(a) + accesses_of(b1).push(BusAccess::Read(x, v)) =~= (
                accesses_of(a) + accesses_of(b1)).push(BusAccess::Read(x, v)));
            },
            BusOp::Write(x, v) => {
                assert(accesses_of(a) + accesses_of(b1).push(BusAccess::Write(x, v)) =~= (
                accesses_of(a) + accesses_of(b1)).push(BusAccess::Write(x, v)));
            },
            _ => {},
        }
    }
}

/// What the CPU did to the bus between two of its states is a run of the bus: the new
/// entries of the bus log take the bus from `o.memory` to `n.memory` one operation at a time
/// (reads seeing the bytes `spec_read` gives, writes as `bus_written`, advances as
/// `bus_stepped`), and the accesses recorded in between are that run's reads and writes.
pub proof fn law_bus_log_run(o: CPU, n: CPU)
    requires
        o.wf(),
        n.wf(),
        log_grows(o, n),
    ensures
        ({
            let k = o.bus_log@.len() as int;
            let new_ops = n.bus_log@.subrange(k, n.bus_log@.len() as int);
            &&& new_ops.len() > 0 ==> new_ops[0].1 == o.memory && new_ops.last().2 == n.memory
            &&& new_ops.len() == 0 ==> n.memory == o.memory
            &&& forall|i: int| 0 < i < new_ops.len() ==> #[trigger] new_ops[i].1 == new_ops[i - 1].2
            &&& forall|i: int|
                0 <= i < new_ops.len() ==> bus_op(#[trigger] new_ops[i].1, new_ops[i].0, new_ops[i].2)
            &&& n.tr() == o.tr() + accesses_of(new_ops)
        }),
{
    let k = o.bus_log@.len() as int;
    let nl = n.bus_log@;
    let new_ops = nl.subrange(k, nl.len() as int);
    assert(nl =~= o.bus_log@ + new_ops);
    lemma_accesses_concat(o.bus_log@, new_ops);
    if new_ops.len() > 0 {
        assert(nl[k].1 == nl[k - 1].2);
        assert(nl[k - 1] == o.bus_log@[k - 1]);
        assert(new_ops.last() == nl.last());
    } else {
        assert(nl.last() == o.bus_log@.last());
    }
    assert forall|i: int| 0 < i < new_ops.len() implies #[trigger] new_ops[i].1 == new_ops[i - 1].2 by {
        assert(nl[k + i].1 == nl[k + i - 1].2);
    }
    assert forall|i: int| 0 <= i < new_ops.len() implies bus_op(#[trigger] new_ops[i].1, new_ops[i].0, new_ops[i].2) by {
        assert(bus_op(nl[k + i].1, nl[k + i].0, nl[k + i].2));
    }
}

/// The value carried by a bus access.
pub open spec fn acc_val(a: BusAccess) -> u8 {
    match a {
        BusAccess::Read(_, v) => v,
        BusAccess::Write(_, v) => v,
    }
}

/// 16-bit addition modulo 2^16.
pub open spec fn add16(a: u16, b: int) -> u16 {
    ((a as int + b) % 0x10000) as u16
}

/// 8-bit addition modulo 2^8.
pub open spec fn add8(a: u8, b: int) -> u8 {
    ((a as int + b) % 0x100) as u8
}

/// The PC after fetching one byte: it stays put once under the HALT bug.
pub open spec fn pc_after_fetch(pc: u16, halt_bug: bool) -> u16 {
    if halt_bug {
        pc
    } else {
        add16(pc, 1)
    }
}

/// Sharp LR35902 CPU state.
pub struct CPU {
    pub registers: Registers,
    /// Interrupt master enable.
    pub ime: bool,
    /// EI was executed; IME is set after the following instruction.
    pub ime_enable_armed: bool,
    pub ime_enable_pending: bool,
    /// Opcode of the instruction being executed (second byte for CB-prefixed ones).
    pub opcode: u8,
    /// Total t-cycles executed.
    pub cycles: u64,
    pub memory: Bus,
    pub halted: bool,
    pub halt_bug: bool,
    /// T-cycles already stepped on the bus within the current instruction.
    pub instr_step_cycles: u64,
    /// The bus accesses the CPU has made, oldest first.
    pub trace: Ghost<Seq<BusAccess>>,
    /// Every operation the CPU has made on the bus, with the bus before and after it.
    pub bus_log: Ghost<Seq<(BusOp, Bus, Bus)>>,
}


/// 64-bit addition modulo 2^64.
pub open spec fn add64(a: u64, b: u64) -> u64 {
    ((a as int + b as int) % 0x1_0000_0000_0000_0000) as u64
}

/// The highest-priority interrupt that is both enabled and requested, as (bit, vector):
/// V-Blank, LCD STAT, Timer, Serial, Joypad.
pub open spec fn pending_of(ie: u8, ifl: u8) -> Option<(u8, u16)> {
    let p = (ie & (ifl | 0xE0)) & 0x1F;
    if p == 0 {
        None
    } else if p & 0x01 != 0 {
        Some((0u8, 0x0040u16))
    } else if p & 0x02 != 0 {
        Some((1u8, 0x0048u16))
    } else if p & 0x04 != 0 {
        Some((2u8, 0x0050u16))
    } else if p & 0x08 != 0 {
        Some((3u8, 0x0058u16))
    } else {
        Some((4u8, 0x0060u16))
    }
}

/// With `p` the interrupts both enabled in IE and requested in IF (as the register reads):
/// none is chosen exactly when `p` is 0; otherwise the chosen bit `b` is the lowest bit set in
/// `p`, and its vector is 0x40 + 8 * b.
pub proof fn law_pending_vector(ie: u8, ifl: u8)
    ensures
        ({
            let p = (ie & (ifl | 0xE0)) & 0x1F;
            match pending_of(ie, ifl) {
                None => p == 0,
                Some((b, v)) => {
                    &&& b < 5
                    &&& v as int == 0x40 + 8 * b
                    &&& (p as int / vstd::arithmetic::power2::pow2(b as nat) as int) % 2 == 1
                    &&& p as int % vstd::arithmetic::power2::pow2(b as nat) as int == 0
                },
            }
        }),
{
    let p = (ie & (ifl | 0xE0)) & 0x1F;
    crate::bits::lemma_u8_bits(ie & (ifl | 0xE0));
    crate::bits::lemma_u8_bits(p);
    vstd::arithmetic::power2::lemma2_to64();
    assert(p < 32);
    if p != 0 {
        if p & 0x01 != 0 {
            assert(p % 2 == 1);
        } else if p & 0x02 != 0 {
            assert(p % 2 == 0 && (p / 2) % 2 == 1);
        } else if p & 0x04 != 0 {
            assert(p % 2 == 0 && (p / 2) % 2 == 0 && (p / 4) % 2 == 1);
            assert(p % 4 == 0);
        } else if p & 0x08 != 0 {
            assert(p % 2 == 0 && (p / 2) % 2 == 0 && (p / 4) % 2 == 0 && (p / 8) % 2 == 1);
            assert(p % 8 == 0);
        } else {
            assert(p % 2 == 0 && (p / 2) % 2 == 0 && (p / 4) % 2 == 0 && (p / 8) % 2 == 0);
            assert(p % 16 == 0);
            assert(p == 16);
        }
    }
}

/// The registers after fetching an opcode (two bytes with the CB prefix).
pub open spec fn fetch_regs(o: CPU, cb: bool) -> RegsView {
    let pc1 = pc_after_fetch(o.regs().pc, o.halt_bug);
    RegsView {
        pc: if cb {
            add16(pc1, 1)
        } else {
            pc1
        },
        ..o.regs()
    }
}

/// The bus accesses of fetching opcode `op` (after the CB prefix when `cb`).
pub open spec fn fetch_tr(o: CPU, cb: bool, op: u8) -> Seq<BusAccess> {
    let pc0 = o.regs().pc;
    if cb {
        o.tr() + seq![
            BusAccess::Read(pc0, 0xCB),
            BusAccess::Read(pc_after_fetch(pc0, o.halt_bug), op),
        ]
    } else {
        o.tr().push(BusAccess::Read(pc0, op))
    }
}

/// The CPU `m` right before an executor runs: the opcode was fetched from `o`, any HALT state
/// and HALT bug are over, and `opcode` holds the opcode.
pub open spec fn fetch_stage(o: CPU, m: CPU, cb: bool, op: u8) -> bool {
    &&& m.wf()
    &&& m.regs() == fetch_regs(o, cb)
    &&& m.tr() == fetch_tr(o, cb, op)
    &&& m.ime == o.ime && m.ime_enable_armed == o.ime_enable_armed
    &&& m.ime_enable_pending == o.ime_enable_pending
    &&& m.cycles == o.cycles && !m.halted && !m.halt_bug && m.opcode == op
}

/// The end of an instruction: the cycles are counted and a pending EI takes effect (an EI
/// executed now becomes pending for the next instruction).
pub open spec fn finish(e: CPU, n: CPU, r: u64) -> bool {
    &&& n.wf()
    &&& n.regs() == e.regs() && n.tr() == e.tr()
    &&& n.opcode == e.opcode && n.halted == e.halted && n.halt_bug == e.halt_bug
    &&& n.cycles == add64(e.cycles, r)
    &&& n.ime == (e.ime || e.ime_enable_pending)
    &&& n.ime_enable_pending == e.ime_enable_armed
    &&& !n.ime_enable_armed
}

/// Whether the first byte an instruction fetched was the CB prefix.
pub open spec fn fetched_cb(o: CPU, n: CPU) -> bool {
    acc_val(n.tr()[o.tr().len() as int]) == 0xCB
}

/// The opcode an instruction fetched (the byte after the CB prefix, if any).
pub open spec fn fetched_op(o: CPU, n: CPU) -> u8 {
    if fetched_cb(o, n) {
        acc_val(n.tr()[o.tr().len() + 1int])
    } else {
        acc_val(n.tr()[o.tr().len() as int])
    }
}

/// One fetch-decode-execute step: the first fetched byte selects a CB-prefixed opcode; a known
/// opcode runs its executor and finishes; an unknown one takes 4 cycles and does nothing else.
pub open spec fn runs_instruction(o: CPU, n: CPU, r: u64) -> bool {
    let cb = fetched_cb(o, n);
    let op = fetched_op(o, n);
    let k = decode_kind(op, cb);
    if k.is_some() {
        exists|m: CPU, e: CPU|
            #![trigger exec_post(k.unwrap(), m, e, r)]
            fetch_stage(o, m, cb, op) && exec_post(k.unwrap(), m, e, r) && finish(e, n, r)
    } else {
        &&& n.wf()
        &&& n.regs() == fetch_regs(o, cb) && n.tr() == fetch_tr(o, cb, op)
        &&& n.ime == o.ime && n.ime_enable_armed == o.ime_enable_armed
        &&& n.ime_enable_pending == o.ime_enable_pending && n.opcode == o.opcode
        &&& !n.halted && !n.halt_bug
        &&& n.cycles == add64(o.cycles, 4)
        &&& r == 4
    }
}

/// The opcode bytes an instruction fetched are the bus's: unless OAM DMA holds the bus away
/// from PC, the first byte read is the byte at PC, and after a CB prefix the second is the
/// byte at the next PC on the bus one machine cycle later.
pub open spec fn fetched_from_bus(o: CPU, n: CPU) -> bool {
    !o.memory.dma_blocking() || dma_allowed(o.regs().pc) ==> {
        &&& acc_val(n.tr()[o.tr().len() as int]) == o.memory.spec_read(o.regs().pc)
        &&& (fetched_cb(o, n) ==> exists|w: Bus|
            #[trigger] bus_stepped(o.memory, w, 4) && (!w.dma_blocking() || dma_allowed(
                pc_after_fetch(o.regs().pc, o.halt_bug),
            ) ==> acc_val(n.tr()[o.tr().len() + 1int]) == w.spec_read(
                pc_after_fetch(o.regs().pc, o.halt_bug),
            )))
    }
}

/// Interrupt service: IME off, HALT over, PC pushed, jump to the vector, 20 cycles.
pub open spec fn services(o: CPU, n: CPU, r: u64, vector: u16) -> bool {
    &&& n.wf()
    &&& n.regs() == (RegsView { sp: add16(o.regs().sp, -2), pc: vector, ..o.regs() })
    &&& n.tr() == o.tr() + push_writes(o.regs().sp, o.regs().pc)
    &&& !n.ime && !n.halted
    &&& n.ime_enable_armed == o.ime_enable_armed && n.ime_enable_pending == o.ime_enable_pending
    &&& n.opcode == o.opcode && n.halt_bug == o.halt_bug
    &&& n.cycles == add64(o.cycles, 20)
    &&& r == 20
}

/// The bus after an interrupt is entered from `o` with no OAM DMA holding the bus: the
/// request bit `bit` cleared in IF, then PC pushed (high byte at SP - 1, low byte at SP - 2)
/// through the bus, the second write as `bus_written` gives it unless a DMA started by the
/// first holds the bus.
pub open spec fn interrupt_pushed(o: Bus, n: Bus, bit: u8, sp: u16, pc: u16) -> bool {
    exists|m1: Bus, m2: Bus|
        {
            &&& m1.io() == (IoRegs { ifl: ((o.io().ifl | 0xE0) & !(1u8 << bit)) & 0x1F, ..o.io() })
            &&& m1.same_storage(o)
            &&& #[trigger] bus_written(m1, m2, add16(sp, -1), (pc >> 8) as u8)
            &&& (!m2.dma_blocking() ==> bus_written(
                m2,
                n,
                add16(sp, -2),
                (pc & 0x00FF) as u8,
            ))
        }
}

impl CPU {
    /// The CPU invariant: the bus is well formed, the bus log is a run of the bus ending in the
    /// current bus, and the accesses recorded are the reads and writes of that log.
    pub open spec fn wf(&self) -> bool {
        &&& self.memory.wf()
        &&& log_ok(self.bus_log@, self.memory)
        &&& self.tr() == accesses_of(self.bus_log@)
    }

    /// The register values.
    pub open spec fn regs(&self) -> RegsView {
        self.registers@
    }

    /// The bus accesses so far.
    pub open spec fn tr(&self) -> Seq<BusAccess> {
        self.trace@
    }

    /// Whether the control state (interrupt enables, opcode, cycle count, halt state) agrees.
    pub open spec fn same_control(&self, other: &CPU) -> bool {
        &&& self.ime == other.ime
        &&& self.ime_enable_armed == other.ime_enable_armed
        &&& self.ime_enable_pending == other.ime_enable_pending
        &&& self.opcode == other.opcode
        &&& self.cycles == other.cycles
        &&& self.halted == other.halted
        &&& self.halt_bug == other.halt_bug
        &&& log_grows(*other, *self)
    }

    /// A reset CPU: all registers zero, interrupts disabled, not halted, fresh bus.
    pub fn new() -> (r: CPU)
        ensures
            r.wf(),
            r.regs() == (RegsView { a: 0, b: 0, c: 0, d: 0, e: 0, f: 0, h: 0, l: 0, sp: 0, pc: 0 }),
            !r.ime && !r.ime_enable_armed && !r.ime_enable_pending,
            r.opcode == 0,
            r.cycles == 0,
            !r.halted && !r.halt_bug,
            r.memory.is_fresh(),
            r.tr().len() == 0,
    {
        let mut r = CPU {
            registers: Registers::new(),
            ime: false,
            ime_enable_armed: false,
            ime_enable_pending: false,
            opcode: 0,
            cycles: 0,
            memory: Bus::new(),
            halted: false,
            halt_bug: false,
            instr_step_cycles: 0,
            trace: Ghost(Seq::empty()),
            bus_log: Ghost(Seq::empty()),
        };
        proof {
            let e = (BusOp::Start, r.memory, r.memory);
            lemma_accesses_push(r.bus_log@, e);
            r.bus_log@ = r.bus_log@.push(e);
        }
        r
    }

    /// Records `op`, which took the bus from `b0` (where the log ended) to the current bus; a
    /// read or write is also recorded as an access.
    fn log_op(&mut self, Ghost(op): Ghost<BusOp>, Ghost(b0): Ghost<Bus>)
        requires
            old(self).memory.wf(),
            log_ok(old(self).bus_log@, b0),
            old(self).tr() == accesses_of(old(self).bus_log@),
            bus_op(b0, op, old(self).memory),
        ensures
            final(self).wf(),
            final(self).memory == old(self).memory,
            final(self).registers == old(self).registers,
            final(self).same_control(&*old(self)),
            final(self).instr_step_cycles == old(self).instr_step_cycles,
            final(self).bus_log@ == old(self).bus_log@.push((op, b0, old(self).memory)),
            final(self).tr() == (match op {
                BusOp::Read(a, v) => old(self).tr().push(BusAccess::Read(a, v)),
                BusOp::Write(a, v) => old(self).tr().push(BusAccess::Write(a, v)),
                _ => old(self).tr(),
            }),
    {
        proof {
            let e = (op, b0, self.memory);
            lemma_accesses_push(self.bus_log@, e);
            self.bus_log@ = self.bus_log@.push(e);
            match op {
                BusOp::Read(a, v) => {
                    self.trace@ = self.trace@.push(BusAccess::Read(a, v));
                },
                BusOp::Write(a, v) => {
                    self.trace@ = self.trace@.push(BusAccess::Write(a, v));
                },
                _ => {},
            }
        }
    }

    /// Whether the CPU may access `addr` now: anything without DMA, only HRAM and IE during DMA.
    pub fn dma_addr_allowed(&self, addr: u16) -> (r: bool)
        ensures
            r == (!self.memory.dma_blocking() || dma_allowed(addr)),
    {
        if !self.memory.is_dma_active() {
            return true;
        }
        (0xFF80 <= addr && addr <= 0xFFFE) || addr == 0xFFFF
    }

    /// Stalls in 4-cycle steps while OAM DMA blocks access to `addr`.
    pub fn dma_block_if_needed(&mut self, addr: u16)
        requires
            old(self).wf(),
        ensures
            final(self).wf(),
            final(self).regs() == old(self).regs(),
            final(self).same_control(old(self)),
            final(self).tr() == old(self).tr(),
            !final(self).memory.dma_blocking() || dma_allowed(addr),
            !old(self).memory.dma_blocking() || dma_allowed(addr) ==> final(self).memory
                == old(self).memory,
    {
        if !self.memory.is_dma_active() {
            return;
        }
        if self.dma_addr_allowed(addr) {
            return;
        }
        while self.memory.is_dma_active() && !self.dma_addr_allowed(addr)
            invariant
                self.wf(),
                self.regs() == old(self).regs(),
                self.same_control(old(self)),
                self.tr() == old(self).tr(),
            decreases 160 - self.memory.io().dma_pos,
        {
            let ghost b0 = self.memory;
            self.memory.step(4);
            self.instr_step_cycles = self.instr_step_cycles.wrapping_add(4);
            proof {
                reveal(bus_stepped);
            }
            self.log_op(Ghost(BusOp::Advance(4)), Ghost(b0));
        }
    }

    /// Reads `addr` after waiting out any DMA that blocks it.
    pub fn read8(&mut self, addr: u16) -> (r: u8)
        requires
            old(self).wf(),
        ensures
            final(self).wf(),
            final(self).regs() == old(self).regs(),
            final(self).same_control(old(self)),
            final(self).tr() == old(self).tr().push(BusAccess::Read(addr, r)),
            r == final(self).memory.spec_read(addr),
            !final(self).memory.dma_blocking() || dma_allowed(addr),
            !old(self).memory.dma_blocking() || dma_allowed(addr) ==> final(self).memory
                == old(self).memory,
    {
        self.dma_block_if_needed(addr);
        let r = self.memory.read(addr);
        let ghost b0 = self.memory;
        self.log_op(Ghost(BusOp::Read(addr, r)), Ghost(b0));
        r
    }

    /// Writes `val` to `addr` after waiting out any DMA that blocks it.
    pub fn write8(&mut self, addr: u16, val: u8)
        requires
            old(self).wf(),
        ensures
            final(self).wf(),
            final(self).regs() == old(self).regs(),
            final(self).same_control(old(self)),
            final(self).tr() == old(self).tr().push(BusAccess::Write(addr, val)),
            exists|w: Bus|
                (!w.dma_blocking() || dma_allowed(addr)) && #[trigger] bus_written(
                    w,
                    final(self).memory,
                    addr,
                    val,
                ),
            !old(self).memory.dma_blocking() || dma_allowed(addr) ==> bus_written(
                old(self).memory,
                final(self).memory,
                addr,
                val,
            ),
    {
        self.dma_block_if_needed(addr);
        let ghost w = self.memory;
        self.memory.write(addr, val);
        self.log_op(Ghost(BusOp::Write(addr, val)), Ghost(w));
        proof {
            assert(bus_written(w, self.memory, addr, val));
        }
    }

    /// Advances the bus by `cycles` t-cycles inside the current instruction.
    pub fn step_mem(&mut self, cycles: u64)
        requires
            old(self).wf(),
            (cycles as u32) <= 0xFFFF_FFF0,
        ensures
            final(self).wf(),
            final(self).regs() == old(self).regs(),
            final(self).same_control(old(self)),
            final(self).tr() == old(self).tr(),
            cycles > 0 ==> bus_stepped(old(self).memory, final(self).memory, cycles as u32),
            cycles == 0 ==> final(self).memory == old(self).memory,
    {
        if cycles > 0 {
            let ghost b0 = self.memory;
            self.memory.step(cycles);
            self.instr_step_cycles = self.instr_step_cycles.wrapping_add(cycles);
            self.log_op(Ghost(BusOp::Advance(cycles as u32)), Ghost(b0));
        }
    }

    /// Fetches the byte at PC (waiting out DMA unless PC is in HRAM/IE) and advances PC,
    /// except once right after the HALT bug; the fetch takes one machine cycle on the bus.
    pub fn fetch_next(&mut self) -> (r: u8)
        requires
            old(self).wf(),
        ensures
            final(self).wf(),
            final(self).regs() == (RegsView {
                pc: pc_after_fetch(old(self).regs().pc, old(self).halt_bug),
                ..old(self).regs()
            }),
            final(self).tr() == old(self).tr().push(BusAccess::Read(old(self).regs().pc, r)),
            !final(self).halt_bug,
            final(self).ime == old(self).ime,
            final(self).ime_enable_armed == old(self).ime_enable_armed,
            final(self).ime_enable_pending == old(self).ime_enable_pending,
            final(self).opcode == old(self).opcode,
            final(self).cycles == old(self).cycles,
            final(self).halted == old(self).halted,
            log_grows(*old(self), *final(self)),
            exists|w: Bus|
                (!w.dma_blocking() || dma_allowed(old(self).regs().pc)) && r == w.spec_read(
                    old(self).regs().pc,
                ) && #[trigger] bus_stepped(w, final(self).memory, 4),
            !old(self).memory.dma_blocking() || dma_allowed(old(self).regs().pc) ==> r == old(
                self,
            ).memory.spec_read(old(self).regs().pc) && bus_stepped(
                old(self).memory,
                final(self).memory,
                4,
            ),
    {
        loop
            invariant
                self.wf(),
                self.regs() == old(self).regs(),
                self.same_control(old(self)),
                self.tr() == old(self).tr(),
                !old(self).memory.dma_blocking() || dma_allowed(old(self).regs().pc) ==> self.memory
                    == old(self).memory,
            ensures
                self.wf(),
                self.regs() == old(self).regs(),
                self.same_control(old(self)),
                self.tr() == old(self).tr(),
                !old(self).memory.dma_blocking() || dma_allowed(old(self).regs().pc) ==> self.memory
                    == old(self).memory,
                !self.memory.dma_blocking() || dma_allowed(old(self).regs().pc),
            decreases 160 - self.memory.io().dma_pos,
        {
            if !self.memory.is_dma_active() {
                break;
            }
            let pc_probe = self.registers.get_pc();
            if (0xFF80 <= pc_probe && pc_probe <= 0xFFFE) || pc_probe == 0xFFFF {
                break;
            }
            let ghost b0 = self.memory;
            self.memory.step(4);
            self.instr_step_cycles = self.instr_step_cycles.wrapping_add(4);
            proof {
                reveal(bus_stepped);
            }
            self.log_op(Ghost(BusOp::Advance(4)), Ghost(b0));
        }
        let pc = self.registers.get_pc();
        let byte = self.memory.read(pc);
        let ghost w = self.memory;
        self.log_op(Ghost(BusOp::Read(pc, byte)), Ghost(w));
        if self.halt_bug {
            self.halt_bug = false;
        } else {
            self.registers.set_pc(pc.wrapping_add(1));
        }
        self.memory.step(4);
        self.instr_step_cycles = self.instr_step_cycles.wrapping_add(4);
        self.log_op(Ghost(BusOp::Advance(4)), Ghost(w));
        proof {
            assert(bus_stepped(w, self.memory, 4));
        }
        byte
    }

    /// The next immediate byte.
    pub fn read_u8_imm(&mut self) -> (r: u8)
        requires
            old(self).wf(),
        ensures
            final(self).wf(),
            final(self).regs() == (RegsView {
                pc: pc_after_fetch(old(self).regs().pc, old(self).halt_bug),
                ..old(self).regs()
            }),
            final(self).tr() == old(self).tr().push(BusAccess::Read(old(self).regs().pc, r)),
            !final(self).halt_bug,
            final(self).ime == old(self).ime,
            final(self).ime_enable_armed == old(self).ime_enable_armed,
            final(self).ime_enable_pending == old(self).ime_enable_pending,
            final(self).opcode == old(self).opcode,
            final(self).cycles == old(self).cycles,
            final(self).halted == old(self).halted,
            log_grows(*old(self), *final(self)),
    {
        self.fetch_next()
    }

    /// The next immediate 16-bit word, low byte first.
    pub fn read_u16_imm(&mut self) -> (r: u16)
        requires
            old(self).wf(),
        ensures
            final(self).wf(),
            ({
                let pc0 = old(self).regs().pc;
                let pc1 = pc_after_fetch(pc0, old(self).halt_bug);
                let t0 = old(self).tr();
                &&& final(self).regs() == (RegsView { pc: add16(pc1, 1), ..old(self).regs() })
                &&& final(self).tr() == t0.push(BusAccess::Read(pc0, (r % 256) as u8)).push(
                    BusAccess::Read(pc1, (r / 256) as u8),
                )
            }),
            !final(self).halt_bug,
            final(self).ime == old(self).ime,
            final(self).ime_enable_armed == old(self).ime_enable_armed,
            final(self).ime_enable_pending == old(self).ime_enable_pending,
            final(self).opcode == old(self).opcode,
            final(self).cycles == old(self).cycles,
            final(self).halted == old(self).halted,
            log_grows(*old(self), *final(self)),
    {
        let lo = self.fetch_next() as u16;
        let hi = self.fetch_next() as u16;
        proof {
            crate::bits::lemma_u16_hilo(hi, lo);
        }
        (hi << 8) | lo
    }

    /// The highest-priority interrupt that is enabled and requested, as (bit, vector).
    pub fn pending_interrupt(&self) -> (r: Option<(u8, u16)>)
        ensures
            r == pending_of(self.memory.io().ie, self.memory.io().ifl),
    {
        let pending = (self.memory.get_ie_raw() & self.memory.get_if_raw()) & 0x1F;
        if pending == 0 {
            return None;
        }
        if (pending & 0x01) != 0 {
            Some((0, 0x0040))
        } else if (pending & 0x02) != 0 {
            Some((1, 0x0048))
        } else if (pending & 0x04) != 0 {
            Some((2, 0x0050))
        } else if (pending & 0x08) != 0 {
            Some((3, 0x0058))
        } else {
            Some((4, 0x0060))
        }
    }

    /// Services interrupt `bit`: IME off, its IF bit cleared, PC pushed, jump to `vector`.
    #[verifier::rlimit(60)]
    pub fn service_interrupt(&mut self, bit: u8, vector: u16) -> (r: u64)
        requires
            old(self).wf(),
            bit < 8,
        ensures
            final(self).wf(),
            final(self).regs() == (RegsView {
                sp: add16(old(self).regs().sp, -2),
                pc: vector,
                ..old(self).regs()
            }),
            final(self).tr() == old(self).tr() + push_writes(
                old(self).regs().sp,
                old(self).regs().pc,
            ),
            !final(self).ime,
            final(self).ime_enable_armed == old(self).ime_enable_armed,
            final(self).ime_enable_pending == old(self).ime_enable_pending,
            final(self).opcode == old(self).opcode,
            final(self).cycles == old(self).cycles,
            final(self).halted == old(self).halted,
            log_grows(*old(self), *final(self)),
            final(self).halt_bug == old(self).halt_bug,
            r == 20,
            !old(self).memory.dma_blocking() ==> interrupt_pushed(
                old(self).memory,
                final(self).memory,
                bit,
                old(self).regs().sp,
                old(self).regs().pc,
            ),
    {
        self.ime = false;
        let mut ifv = self.memory.get_if_raw();
        ifv = ifv & !(1u8 << bit);
        let ghost b0 = self.memory;
        self.memory.set_if_raw(ifv);
        self.log_op(Ghost(BusOp::SetIf(ifv)), Ghost(b0));
        let ret = self.registers.get_pc();
        let sp1 = self.registers.get_sp().wrapping_sub(1);
        proof {
            crate::gb::registers::lemma_pair_split(ret);
            crate::bits::lemma_u16_bits(ret);
        }
        let ghost m1 = self.memory;
        self.write8(sp1, (ret >> 8) as u8);
        let ghost m2 = self.memory;
        let sp2 = sp1.wrapping_sub(1);
        self.write8(sp2, (ret & 0x00FF) as u8);
        proof {
            if !old(self).memory.dma_blocking() {
                assert(m1.io().dma_active == old(self).memory.io().dma_active);
                assert(bus_written(m1, m2, sp1, (ret >> 8) as u8));
                assert(!m2.dma_blocking() ==> bus_written(m2, self.memory, sp2, (ret & 0x00FF) as u8));
                assert(sp1 == add16(old(self).regs().sp, -1));
                assert(sp2 == add16(old(self).regs().sp, -2));
                let o = old(self).memory;
                let sp = old(self).regs().sp;
                let pc = old(self).regs().pc;
                assert(ret == pc);
                assert(m1.io() == (IoRegs { ifl: ((o.io().ifl | 0xE0) & !(1u8 << bit)) & 0x1F, ..o.io() }));
                assert(m1.same_storage(o));
                assert(bus_written(m1, m2, add16(sp, -1), (pc >> 8) as u8));
                assert(!m2.dma_blocking() ==> bus_written(m2, self.memory, add16(sp, -2), (pc & 0x00FF) as u8));
                assert(interrupt_pushed(o, self.memory, bit, sp, pc));
            }
        }
        self.registers.set_sp(sp2);
        self.registers.set_pc(vector);
        proof {
            assert(self.tr() =~= old(self).tr() + push_writes(
                old(self).regs().sp,
                old(self).regs().pc,
            ));
        }
        20
    }

    /// The table entry for an opcode: the CB table for CB-prefixed opcodes, else the primary
    /// table, falling back to LD r,r' and LD r,n for the opcodes missing from it.
    pub fn decode(opcode: u8, cb_opcode: bool) -> (r: Option<Instruction>)
        ensures
            r.is_some() == decode_kind(opcode, cb_opcode).is_some(),
            r matches Some(i) ==> i.execute == decode_kind(opcode, cb_opcode).unwrap()
                && i.opcode == instr_opcode(i.execute) && i.cycles == instr_cycles(i.execute)
                && i.size == instr_size(i.execute),
    {
        let entry = if cb_opcode {
            opcodes_cb(opcode)
        } else {
            opcodes(opcode)
        };
        if entry.is_none() && !cb_opcode {
            if (opcode & 0b1100_0000) == 0b0100_0000 && opcode != 0x76 {
                return Some(Instruction::for_kind(ExecKind::LdRR));
            }
            if (opcode & 0b1100_0111) == 0b0000_0110 {
                return Some(Instruction::for_kind(ExecKind::LdRN));
            }
        }
        entry
    }

    /// Runs one step: services a pending interrupt when IME is set, idles 4 cycles while
    /// halted with nothing pending, and otherwise fetches, decodes and executes one
    /// instruction. Returns the cycles taken; the bus is advanced by them.
    pub fn execute_next(&mut self) -> (r: u64)
        requires
            old(self).wf(),
        ensures
            final(self).wf(),
            log_grows(*old(self), *final(self)),
            ({
                let o = *old(self);
                let p = pending_of(o.memory.io().ie, o.memory.io().ifl);
                if o.ime && p.is_some() {
                    &&& services(o, *final(self), r, p.unwrap().1)
                    &&& !o.memory.dma_blocking() ==> exists|mid: Bus|
                        interrupt_pushed(o.memory, mid, p.unwrap().0, o.regs().sp, o.regs().pc)
                            && #[trigger] bus_stepped(mid, final(self).memory, 20)
                } else if o.halted && p.is_none() {
                    &&& final(self).regs() == o.regs() && final(self).tr() == o.tr()
                    &&& final(self).halted && final(self).halt_bug == o.halt_bug
                    &&& final(self).ime == o.ime
                    &&& final(self).ime_enable_armed == o.ime_enable_armed
                    &&& final(self).ime_enable_pending == o.ime_enable_pending
                    &&& final(self).opcode == o.opcode
                    &&& final(self).cycles == add64(o.cycles, 4)
                    &&& bus_stepped(o.memory, final(self).memory, 4)
                    &&& r == 4
                } else {
                    runs_instruction(o, *final(self), r) && fetched_from_bus(o, *final(self))
                }
            }),
    {
        self.instr_step_cycles = 0;
        if self.ime {
            if let Some((bit, vec)) = self.pending_interrupt() {
                self.halted = false;
                let taken = self.service_interrupt(bit, vec);
                let ghost mid = self.memory;
                self.cycles = self.cycles.wrapping_add(taken);
                self.memory.step(taken);
                self.log_op(Ghost(BusOp::Advance(20)), Ghost(mid));
                proof {
                    assert(bus_stepped(mid, self.memory, 20));
                }
                return taken;
            }
        }
        if self.halted {
            if let Some((bit, vec)) = self.pending_interrupt() {
                self.halted = false;
                if self.ime {
                    let taken = self.service_interrupt(bit, vec);
                    self.cycles = self.cycles.wrapping_add(taken);
                    return taken;
                }
            } else {
                self.cycles = self.cycles.wrapping_add(4);
                let ghost b0 = self.memory;
                self.memory.step(4);
                self.log_op(Ghost(BusOp::Advance(4)), Ghost(b0));
                return 4;
            }
        }
        let ghost s = *self;
        let r = self.fetch_decode_execute();
        proof {
            let o = *old(self);
            assert(fetch_regs(s, true) == fetch_regs(o, true));
            assert(fetch_regs(s, false) == fetch_regs(o, false));
            assert forall|cb: bool, op: u8| fetch_tr(s, cb, op) == fetch_tr(o, cb, op) by {}
            assert forall|m: CPU, cb: bool, op: u8| fetch_stage(s, m, cb, op) == fetch_stage(o, m, cb, op) by {}
            assert(fetched_cb(s, *self) == fetched_cb(o, *self));
            assert(fetched_from_bus(s, *self) == fetched_from_bus(o, *self));
        }
        r
    }

    /// Fetches (with an optional CB prefix), decodes and executes one instruction.
    #[verifier::rlimit(60)]
    fn fetch_decode_execute(&mut self) -> (r: u64)
        requires
            old(self).wf(),
            !old(self).halted,
        ensures
            final(self).wf(),
            runs_instruction(*old(self), *final(self), r),
            fetched_from_bus(*old(self), *final(self)),
            log_grows(*old(self), *final(self)),
    {
        let ghost o = *old(self);
        let first = self.fetch_next();
        let ghost m1 = self.memory;
        let ghost pc1 = self.regs().pc;
        let mut opcode = first;
        let mut cb_prefix = false;
        if opcode == 0xCB {
            cb_prefix = true;
            opcode = self.fetch_next();
        }
        proof {
            assert(self.tr() =~= fetch_tr(o, cb_prefix, opcode));
            assert(self.tr()[o.tr().len() as int] == BusAccess::Read(o.regs().pc, first));
            if cb_prefix {
                assert(self.tr()[o.tr().len() + 1int] == BusAccess::Read(
                    pc_after_fetch(o.regs().pc, o.halt_bug),
                    opcode,
                ));
            }
        }
        if let Some(instr) = CPU::decode(opcode, cb_prefix) {
            self.opcode = opcode;
            let ghost m = *self;
            let taken = instr.run(self);
            let ghost e = *self;
            proof {
                lemma_exec_post(instr.execute, m, e, taken);
                assert(fetch_stage(o, m, cb_prefix, opcode));
            }
            self.cycles = self.cycles.wrapping_add(taken);
            let rem = taken.saturating_sub(self.instr_step_cycles);
            if rem > 0 {
                let ghost b0 = self.memory;
                self.memory.step(rem);
                self.log_op(Ghost(BusOp::Advance(rem as u32)), Ghost(b0));
            }
            if self.ime_enable_pending {
                self.ime = true;
                self.ime_enable_pending = false;
            }
            if self.ime_enable_armed {
                self.ime_enable_pending = true;
                self.ime_enable_armed = false;
            }
            proof {
                let n = *self;
                assert(finish(e, n, taken));
                assert(n.tr()[o.tr().len() as int] == m.tr()[o.tr().len() as int]);
                assert(acc_val(n.tr()[o.tr().len() as int]) == first);
                assert(cb_prefix == (first == 0xCB));
                if cb_prefix {
                    assert(n.tr()[o.tr().len() + 1int] == m.tr()[o.tr().len() + 1int]);
                    assert(acc_val(n.tr()[o.tr().len() + 1int]) == opcode);
                }
                assert(decode_kind(opcode, cb_prefix) == Some(instr.execute));
                assert(fetch_stage(o, m, cb_prefix, opcode) && exec_post(instr.execute, m, e, taken)
                    && finish(e, n, taken));
                let b0 = acc_val(n.tr()[o.tr().len() as int]);
                let cbx = b0 == 0xCB;
                let opx = if cbx {
                    acc_val(n.tr()[o.tr().len() + 1int])
                } else {
                    b0
                };
                assert(cbx == cb_prefix);
                assert(opx == opcode);
                let kx = decode_kind(opx, cbx);
                assert(kx == Some(instr.execute));
                assert(kx.unwrap() == instr.execute);
                assert(exec_post(kx.unwrap(), m, e, taken));
                assert(exists|m2: CPU, e2: CPU|
                    #![trigger exec_post(kx.unwrap(), m2, e2, taken)]
                    fetch_stage(o, m2, cbx, opx) && exec_post(kx.unwrap(), m2, e2, taken) && finish(
                        e2,
                        n,
                        taken,
                    ));
                assert(runs_instruction(o, n, taken));
            }
            taken
        } else {
            self.cycles = self.cycles.wrapping_add(4);
            let ghost b0 = self.memory;
            self.memory.step(4);
            self.log_op(Ghost(BusOp::Advance(4)), Ghost(b0));
            proof {
                let n = *self;
                assert(acc_val(n.tr()[o.tr().len() as int]) == first);
                if cb_prefix {
                    assert(acc_val(n.tr()[o.tr().len() + 1int]) == opcode);
                }
                assert(n.regs() == fetch_regs(o, cb_prefix));
                assert(n.tr() == fetch_tr(o, cb_prefix, opcode));
                assert(n.cycles == add64(o.cycles, 4));
                assert(decode_kind(opcode, cb_prefix).is_none());
                assert(runs_instruction(o, n, 4));
            }
            4
        }
    }
}

} // verus!
