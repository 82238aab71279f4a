use vstd::prelude::*;

verus! {

/// The 8 KiB of video RAM.
pub struct VRAM {
    pub data: Vec<u8>,
}

impl VRAM {
    /// Whether the VRAM holds its 8 KiB.
    pub open spec fn wf(&self) -> bool {
        self.data@.len() == 0x2000
    }

    /// A new VRAM, all zero: the buffer is not copied in.
    pub fn new_with_buffer(buffer: Option<&[u8]>) -> (r: VRAM)
        ensures
            r.wf(),
            forall|i: int| 0 <= i < 0x2000 ==> r.data@[i] == 0u8,
    {
        let _ = buffer;
        let data: Vec<u8> = vec![0u8; 0x2000];
        proof {
            assert forall|i: int| 0 <= i < 0x2000 implies data@[i] == 0u8 by {
                assert(cloned::<u8>(0u8, data@[i]));
            }
        }
        VRAM { data }
    }

    /// Writes a byte of VRAM; addresses past 8 KiB are ignored.
    pub fn write_byte(&mut self, addr: usize, value: u8)
        requires
            old(self).wf(),
        ensures
            final(self).wf(),
            final(self).data@ == (if addr < 0x2000 {
                old(self).data@.update(addr as int, value)
            } else {
                old(self).data@
            }),
    {
        if addr < 0x2000 {
            self.data.set(addr, value);
        }
    }

    /// Reads a byte of VRAM; addresses past 8 KiB read 0.
    pub fn read_byte(&self, addr: usize) -> (r: u8)
        requires
            self.wf(),
        ensures
            r == (if addr < 0x2000 {
                self.data@[addr as int]
            } else {
                0u8
            }),
    {
        if addr < 0x2000 {
            self.data[addr]
        } else {
            0
        }
    }

    /// Zeroes all of VRAM.
    pub fn clear(&mut self)
        requires
            old(self).wf(),
        ensures
            final(self).wf(),
            forall|i: int| 0 <= i < 0x2000 ==> final(self).data@[i] == 0,
    {
        clear_vram(&mut self.data);
    }
}

/// Zeroes every byte of `vram`.
pub fn clear_vram(vram: &mut Vec<u8>)
    ensures
        final(vram)@.len() == old(vram)@.len(),
        forall|i: int| 0 <= i < final(vram)@.len() ==> final(vram)@[i] == 0,
{
    let n = vram.len();
    let mut i: usize = 0;
    while i < n
        invariant
            n == vram@.len(),
            i <= n,
            forall|j: int| 0 <= j < i ==> vram@[j] == 0,
        decreases n - i,
    {
        vram.set(i, 0);
        i = i + 1;
    }
}

} // verus!
