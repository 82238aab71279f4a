use vstd::prelude::*;

verus! {

/// Bit-field facts about a byte: masks and shifts as arithmetic, and the shapes of rotations.
pub proof fn lemma_u8_bits(x: u8)
    by (bit_vector)
    ensures
        x & 0x07 == x % 8,
        x & 0x03 == x % 4,
        x & 0x0F == x % 16,
        x >> 3 == x / 8,
        x >> 4 == x / 16,
        x >> 6 == x / 64,
        (x >> 3) & 0x07 == (x / 8) % 8,
        (x >> 3) & 0x03 == (x / 8) % 4,
        (x >> 4) & 0x03 == (x / 16) % 4,
        x & 0x1F <= 31,
        x & 0x03 <= 3,
        x & 0x0F <= 15,
        x & 0x0F < 16,
        x & 7 < 8,
        (x >> 3) & 31 < 32,
        x & 0x07 <= 7,
        (x & 0x1F) & 0xE0 == 0,
        (x & 0xF0) & 0xF0 == x & 0xF0,
        (x & 0xF0) & 0x0F == 0,
        (x & 0xF0) & 0x80 == x & 0x80,
        (x & 0xF0) & 0x10 == x & 0x10,
        (((x >> 7u8) & 1u8) != 0) == (x & 0x80 != 0),
        (x << 1u8) | ((x >> 7u8) & 1u8) == (x << 1u8) | (x >> 7u8),
        (x >> 1u8) | ((x & 1u8) << 7u8) == (x >> 1u8) | (x << 7u8),
        (x >> 4u8) | (x << 4u8) == (x << 4u8) | (x >> 4u8),
        (x >> 1u8) | (1u8 << 7u8) == (x >> 1u8) | 0x80u8,
        (x >> 1u8) | (0u8 << 7u8) == (x >> 1u8) | 0u8,
        (x >> 1u8) | (1u8 << 7u8) == 0x80u8 | (x >> 1u8),
        (x >> 1u8) | (0u8 << 7u8) == 0u8 | (x >> 1u8),
        ((x & 0x80) != 0) ==> (x << 1u8) | 1u8 == (x << 1u8) | (x >> 7u8),
        ((x & 0x80) == 0) ==> (x << 1u8) | 0u8 == (x << 1u8) | (x >> 7u8),
        ((x & 1) != 0) ==> (x >> 1u8) | 0x80u8 == (x >> 1u8) | (x << 7u8),
        ((x & 1) == 0) ==> (x >> 1u8) | 0u8 == (x >> 1u8) | (x << 7u8),
        x & 0x7F == x % 128,
        (x & 1 != 0) == (x % 2 == 1),
        (x & 2 != 0) == ((x / 2) % 2 == 1),
        (x & 4 != 0) == ((x / 4) % 2 == 1),
        (x & 8 != 0) == ((x / 8) % 2 == 1),
        (x & 16 != 0) == ((x / 16) % 2 == 1),
        (x | 2u8) & 1u8 == x & 1u8,
        (x | 1u8) & 1u8 == 1u8,
        (x | 4u8) & 1u8 == x & 1u8,
        (x | 1u8) & 2u8 == x & 2u8,
        (x | 4u8) & 2u8 == x & 2u8,
        (x | 2u8) & 2u8 == 2u8,
        x & 0x78 == 0 ==> (x & 0x40 == 0 && x & 0x20 == 0 && x & 0x10 == 0 && x & 0x08 == 0),
{
}

/// How setting bit 0, 1 or 2 of a byte acts on its bits 0 and 1, and the STAT interrupt
/// source bits under the mask 0x78.
pub proof fn lemma_or_low_bits(x: u8)
    ensures
        (x | 2u8) & 1u8 == x & 1u8,
        (x | 1u8) & 1u8 == 1u8,
        (x | 4u8) & 1u8 == x & 1u8,
        (x | 1u8) & 2u8 == x & 2u8,
        (x | 4u8) & 2u8 == x & 2u8,
        (x | 2u8) & 2u8 == 2u8,
        x & 0x78 == 0 ==> (x & 0x40 == 0 && x & 0x20 == 0 && x & 0x10 == 0 && x & 0x08 == 0),
{
    lemma_u8_bits(x);
}

/// The low three bits of a byte are at most 7.
pub proof fn lemma_low3(x: u8)
    ensures
        x & 0x07 <= 7,
        x & 0x07 == x % 8,
{
    lemma_u8_bits(x);
}

/// The low nibble of a byte as a remainder, the carry bit of F when set or cleared, and the
/// DAA corrections.
pub proof fn lemma_low_nibble(x: u8)
    by (bit_vector)
    ensures
        x & 0x0F == x % 16,
        (x | 0x10) & 0x10 != 0,
        (x & !0x10u8) & 0x10 == 0,
        (x | 0x10) | 0x10 == x | 0x10,
        (x & 0xFE) as int + 1 == ((x & 0xFE) | 1) as int,
        0x60u8 | 0x06u8 == 0x66u8,
        0x60u8 | 0u8 == 0x60u8,
        0u8 | 0x06u8 == 0x06u8,
        0u8 | 0u8 == 0u8,
{
}

/// Bit-field facts about a 16-bit word: masks and shifts as arithmetic.
pub proof fn lemma_u16_bits(v: u16)
    by (bit_vector)
    ensures
        v & 0x00FF == v % 256,
        v & 0x000F == v % 16,
        v & 0x0FFF == v % 4096,
        v & 0x1FFF == v % 8192,
        (v >> 8) as u8 == v / 256,
        (v & 0xFF) as u8 == v % 256,
        v as u8 == v % 256,
        (v & 0x00FF) as u8 == v as u8,
        (v & 0x00F0) as u8 == (v as u8) & 0xF0,
        ((v as u8) & 0xF0) & 0xF0 == (v as u8) & 0xF0,
        ((v as u8) & 0xF0) & 0x0F == 0,
        v & 0x0F == v % 16,
        v & 0xFF == v % 256,
        v & 7 < 8,
        (v >> 3) & 31 < 32,
        v & 0x07 <= 7,
        ((v >> 8) as u8 as int * 256 + v as u8 as int) as u16 == v,
{
}

/// The low bits of a 16-bit word below bits 3, 5, 7 and 9, and those bits, as arithmetic.
pub proof fn lemma_u16_low_bits(v: u16)
    by (bit_vector)
    ensures
        v & 7 == v % 8,
        v & 31 == v % 32,
        v & 127 == v % 128,
        v & 511 == v % 512,
        (v & 8 != 0) == ((v / 8) % 2 == 1),
        (v & 32 != 0) == ((v / 32) % 2 == 1),
        (v & 128 != 0) == ((v / 128) % 2 == 1),
        (v & 512 != 0) == ((v / 512) % 2 == 1),
{
}

/// A 16-bit word assembled from two bytes, and taken apart again; clearing the bits of one
/// byte from another twice clears them once.
pub proof fn lemma_u16_join(hi: u8, lo: u8)
    by (bit_vector)
    ensures
        ((hi as u16) << 8u16) | (lo as u16) == hi as int * 256 + lo as int,
        ((((hi as u16) << 8u16) | (lo as u16)) >> 8u16) as u8 == hi,
        (((hi as u16) << 8u16) | (lo as u16)) as u8 == lo,
        ((hi as int * 256 + lo as int) as u16 >> 8u16) as u8 == hi,
        (hi as int * 256 + lo as int) as u16 as u8 == lo,
        (hi as u16) << 8u16 == hi as int * 256,
        (hi as int * 256 + lo as int) as u16 == ((hi as u16) << 8u16) | (lo as u16),
        (hi & !lo) & !lo == hi & !lo,
{
}

/// A byte widened to 16 bits keeps its value under byte masks.
pub proof fn lemma_u8_widen(e: u8)
    by (bit_vector)
    ensures
        (e as u16) & 0x00FF == e as u16,
        ((e as u16) & 0x00FF) & 0x000F == e % 16,
{
}

/// Two byte-sized 16-bit values joined as high and low byte.
pub proof fn lemma_u16_hilo(hi: u16, lo: u16)
    by (bit_vector)
    requires
        hi < 256,
        lo < 256,
    ensures
        (hi << 8u16) | lo == hi * 256 + lo,
{
}

/// The interrupt request bits lie below the three unused bits of IF.
pub proof fn lemma_irq_bits()
    by (bit_vector)
    ensures
        0u8 & 0xE0 == 0,
        0x01u8 & 0xE0 == 0,
        0x02u8 & 0xE0 == 0,
        0x04u8 & 0xE0 == 0,
        0u8 & 1u8 == 0u8,
        1u8 & 1u8 == 1u8,
        1u16 << 3u16 == 8u16,
        1u16 << 5u16 == 32u16,
        1u16 << 7u16 == 128u16,
        1u16 << 9u16 == 512u16,
{
}

} // verus!
