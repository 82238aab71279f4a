use vstd::prelude::*;
use std::collections::VecDeque;

verus! {

/// A snapshot of the CPU registers and the last opcode, for tracing.
#[derive(Clone, Copy, Debug)]
pub struct DebugRegs {
    pub pc: u16,
    pub a: u8,
    pub f: u8,
    pub b: u8,
    pub c: u8,
    pub d: u8,
    pub e: u8,
    pub h: u8,
    pub l: u8,
    pub sp: u16,
    pub last_opcode: u8,
}

impl DebugRegs {
    /// The all-zero snapshot.
    pub fn zeroed() -> (r: DebugRegs)
        ensures
            r == (DebugRegs {
                pc: 0,
                a: 0,
                f: 0,
                b: 0,
                c: 0,
                d: 0,
                e: 0,
                h: 0,
                l: 0,
                sp: 0,
                last_opcode: 0,
            }),
    {
        DebugRegs { pc: 0, a: 0, f: 0, b: 0, c: 0, d: 0, e: 0, h: 0, l: 0, sp: 0, last_opcode: 0 }
    }
}

/// How many executed opcodes the trace keeps.
pub const OP_TRACE_LEN: usize = 64;

/// The trace of the most recently executed opcodes, (PC, opcode), oldest first.
pub struct OpTrace {
    ops: VecDeque<(u16, u8)>,
}

/// The trace after `(pc, op)` is recorded: a full trace drops its oldest entry first.
pub open spec fn trace_after(t: Seq<(u16, u8)>, pc: u16, op: u8) -> Seq<(u16, u8)> {
    if t.len() == OP_TRACE_LEN {
        t.drop_first().push((pc, op))
    } else {
        t.push((pc, op))
    }
}

/// The trace after recording each of `ops` in turn.
pub open spec fn trace_of(t: Seq<(u16, u8)>, ops: Seq<(u16, u8)>) -> Seq<(u16, u8)>
    decreases ops.len(),
{
    if ops.len() == 0 {
        t
    } else {
        trace_after(trace_of(t, ops.drop_last()), ops.last().0, ops.last().1)
    }
}

impl View for OpTrace {
    type V = Seq<(u16, u8)>;

    closed spec fn view(&self) -> Seq<(u16, u8)> {
        self.ops@
    }
}

impl OpTrace {
    /// The trace holds at most 64 entries.
    pub closed spec fn wf(&self) -> bool {
        self.ops@.len() <= OP_TRACE_LEN
    }

    /// An empty trace.
    pub fn new() -> (r: OpTrace)
        ensures
            r.wf(),
            r@ == Seq::<(u16, u8)>::empty(),
    {
        OpTrace { ops: VecDeque::new() }
    }

    /// Records an executed opcode; a full trace forgets its oldest entry.
    pub fn store_op(&mut self, pc: u16, op: u8)
        requires
            old(self).wf(),
        ensures
            final(self).wf(),
            final(self)@ == trace_after(old(self)@, pc, op),
            final(self)@.len() <= OP_TRACE_LEN,
    {
        if self.ops.len() == OP_TRACE_LEN {
            let _ = self.ops.pop_front();
        }
        self.ops.push_back((pc, op));
    }

    /// The recorded opcodes, oldest first.
    pub fn get_last_ops(&self) -> (r: Vec<(u16, u8)>)
        ensures
            r@ == self@,
            self.wf() ==> r@.len() <= OP_TRACE_LEN,
    {
        let mut v: Vec<(u16, u8)> = Vec::new();
        let n = self.ops.len();
        let mut i: usize = 0;
        while i < n
            invariant
                i <= n,
                n == self.ops@.len(),
                v@ == self.ops@.subrange(0, i as int),
            decreases n - i,
        {
            v.push(self.ops[i]);
            i = i + 1;
            proof {
                assert(v@ =~= self.ops@.subrange(0, i as int));
            }
        }
        proof {
            assert(v@ =~= self.ops@);
        }
        v
    }
}

/// Recording keeps the most recent 64 opcodes: after any sequence of recordings into an
/// empty trace, the trace is the last `min(n, 64)` of them, in order.
pub proof fn law_trace_keeps_latest(ops: Seq<(u16, u8)>)
    ensures
        trace_of(Seq::empty(), ops) == ops.subrange(
            if ops.len() > OP_TRACE_LEN {
                ops.len() - OP_TRACE_LEN
            } else {
                0
            },
            ops.len() as int,
        ),
    decreases ops.len(),
{
    if ops.len() > 0 {
        let prev = ops.drop_last();
        law_trace_keeps_latest(prev);
        let start = if prev.len() > OP_TRACE_LEN {
            prev.len() - OP_TRACE_LEN
        } else {
            0
        };
        let t = prev.subrange(start, prev.len() as int);
        if t.len() == OP_TRACE_LEN {
            assert(t.drop_first().push(ops.last()) =~= ops.subrange(
                ops.len() - OP_TRACE_LEN,
                ops.len() as int,
            ));
        } else {
            assert(t.push(ops.last()) =~= ops.subrange(0, ops.len() as int));
        }
    } else {
        assert(ops.subrange(0, 0) =~= Seq::<(u16, u8)>::empty());
    }
}

} // verus!
