use vstd::prelude::*;

verus! {

/// The flat 64 KiB address space backing store.
pub struct RAM {
    memory: Vec<u8>,
}

impl View for RAM {
    type V = Seq<u8>;

    closed spec fn view(&self) -> Seq<u8> {
        self.memory@
    }
}

impl RAM {
    /// Whether the store covers the whole 16-bit address space.
    pub open spec fn wf(&self) -> bool {
        self@.len() == 0x10000
    }

    /// A zero-filled memory.
    pub fn new() -> (r: RAM)
        ensures
            r.wf(),
            forall|i: int| 0 <= i < 0x10000 ==> r@[i] == 0,
    {
        RAM { memory: vec![0u8; 65536] }
    }

    /// The byte at `address`.
    pub fn read(&self, address: u16) -> (r: u8)
        requires
            self.wf(),
        ensures
            r == self@[address as int],
    {
        self.memory[address as usize]
    }

    /// Stores `byte` at `address`.
    pub fn write(&mut self, address: u16, byte: u8)
        requires
            old(self).wf(),
        ensures
            final(self)@ == old(self)@.update(address as int, byte),
            final(self).wf(),
    {
        self.memory.set(address as usize, byte);
    }
}

/// A read gives back the last byte written at the same address, and a write leaves
/// every other address unchanged.
pub proof fn law_ram_read_after_write(m: Seq<u8>, a: u16, b: u16, v: u8)
    requires
        m.len() == 0x10000,
    ensures
        m.update(a as int, v)[a as int] == v,
        a != b ==> m.update(a as int, v)[b as int] == m[b as int],
{
}

} // verus!
