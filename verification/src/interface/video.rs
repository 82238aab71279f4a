use vstd::prelude::*;

verus! {

/// A display that the emulator draws frames to.
pub trait VideoInterface {
    /// Presents the current frame.
    fn render(&mut self) -> Result<(), String>;

    /// The frame as 32-bit pixels.
    fn get_framebuffer(&self) -> &[u32];
}

/// A display that shows nothing, for tests: its frame is all white.
pub struct DummyVideoInterface {
    framebuffer: Vec<u32>,
}

impl DummyVideoInterface {
    /// The frame of this display.
    pub closed spec fn frame(&self) -> Seq<u32> {
        self.framebuffer@
    }

    /// A display with a white 160x144 frame.
    pub fn new() -> (r: DummyVideoInterface)
        ensures
            r.frame() == Seq::new(23040, |i: int| 0xFFFFFFFFu32),
    {
        let r = DummyVideoInterface { framebuffer: vec![0xFFFFFFFFu32; 23040] };
        proof {
            assert(r.framebuffer@ =~= Seq::new(23040, |i: int| 0xFFFFFFFFu32));
        }
        r
    }
}

impl VideoInterface for DummyVideoInterface {
    fn render(&mut self) -> (r: Result<(), String>)
        ensures
            r is Ok,
            final(self).frame() == old(self).frame(),
    {
        Ok(())
    }

    fn get_framebuffer(&self) -> (r: &[u32])
        ensures
            r@ == self.frame(),
    {
        self.framebuffer.as_slice()
    }
}

} // verus!
