use vstd::prelude::*;

verus! {

/// Sets the shade of pixel (`x`, `y`) of a 160-pixel-wide frame buffer; a pixel past the end
/// of the buffer is ignored.
pub fn set_pixel(framebuffer: &mut [u8], x: usize, y: usize, color: u8)
    requires
        y * 160 + x <= usize::MAX,
    ensures
        final(framebuffer)@ == if y * 160 + x < old(framebuffer)@.len() {
            old(framebuffer)@.update(y * 160 + x, color)
        } else {
            old(framebuffer)@
        },
{
    let idx = y * 160 + x;
    if idx < framebuffer.len() {
        framebuffer[idx] = color;
    }
}

} // verus!
