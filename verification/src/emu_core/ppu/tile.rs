use vstd::prelude::*;

verus! {

/// The 16 bytes of tile `tile_index` (2 bytes per row, 8 rows) in tile data `vram`.
pub fn decode_tile(vram: &[u8], tile_index: usize) -> (r: [u8; 16])
    requires
        tile_index * 16 + 16 <= vram@.len(),
        tile_index * 16 + 16 <= usize::MAX,
    ensures
        r@ == vram@.subrange(tile_index * 16, tile_index * 16 + 16),
{
    let base = tile_index * 16;
    let mut tile = [0u8; 16];
    let mut i: usize = 0;
    while i < 16
        invariant
            i <= 16,
            base == tile_index * 16,
            base + 16 <= vram@.len(),
            tile@.len() == 16,
            forall|j: int| 0 <= j < i ==> tile@[j] == vram@[base + j],
        decreases 16 - i,
    {
        tile.set(i, vram[base + i]);
        i = i + 1;
    }
    proof {
        assert(tile@ =~= vram@.subrange(tile_index * 16, tile_index * 16 + 16));
    }
    tile
}

} // verus!
