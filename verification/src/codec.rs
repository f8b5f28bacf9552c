//! The tile cell codec: the bit layout of a packed 32-bit tile cell value.
//!
//! A raw cell value of 0 means "no tile". A nonzero value packs three flip
//! flags into the three most significant bits; the remaining 29 bits are the
//! 1-based global tile index.

use vstd::prelude::*;

verus! {

/// Bit mask of the horizontal flip flag.
pub const FLIPPED_HORIZONTALLY: u32 = 0x8000_0000;
/// Bit mask of the vertical flip flag.
pub const FLIPPED_VERTICALLY: u32 = 0x4000_0000;
/// Bit mask of the diagonal flip flag.
pub const FLIPPED_DIAGONALLY: u32 = 0x2000_0000;
/// Bit mask of the global tile index, once the flags are stripped.
pub const GID_MASK: u32 = 0x1FFF_FFFF;

/// A raw cell value with the flags separated from the global tile index.
/// `gid` is the 1-based global tile identifier magnitude.
#[derive(Debug, Clone, Copy, PartialEq, Eq, Structural)]
pub struct CellBits {
    pub gid: u32,
    pub flip_h: bool,
    pub flip_v: bool,
    pub flip_d: bool,
}

/// What `decode` returns for a raw value: `None` exactly for raw 0,
/// otherwise the flags from the three top bits and the remaining bits.
pub open spec fn spec_decode(raw: u32) -> Option<CellBits> {
    if raw == 0 {
        None
    } else {
        Some(CellBits {
            gid: raw & GID_MASK,
            flip_h: raw & FLIPPED_HORIZONTALLY != 0,
            flip_v: raw & FLIPPED_VERTICALLY != 0,
            flip_d: raw & FLIPPED_DIAGONALLY != 0,
        })
    }
}

/// The exact inverse of `spec_decode`: flags back into the top bits,
/// the index into the rest; `None` becomes 0.
pub open spec fn spec_encode(cell: Option<CellBits>) -> u32 {
    match cell {
        None => 0,
        Some(c) => (c.gid & GID_MASK)
            | (if c.flip_h { FLIPPED_HORIZONTALLY } else { 0 })
            | (if c.flip_v { FLIPPED_VERTICALLY } else { 0 })
            | (if c.flip_d { FLIPPED_DIAGONALLY } else { 0 }),
    }
}

/// Splits a raw 32-bit cell value into its flip flags and global tile index.
/// Returns `None` exactly when the cell holds no tile.
pub fn decode(raw: u32) -> (r: Option<CellBits>)
    ensures
        r == spec_decode(raw),
{
    if raw == 0 {
        None
    } else {
        Some(CellBits {
            gid: raw & GID_MASK,
            flip_h: raw & FLIPPED_HORIZONTALLY != 0,
            flip_v: raw & FLIPPED_VERTICALLY != 0,
            flip_d: raw & FLIPPED_DIAGONALLY != 0,
        })
    }
}

/// Packs flip flags and global tile index back into a raw 32-bit cell value.
pub fn encode(cell: Option<CellBits>) -> (r: u32)
    ensures
        r == spec_encode(cell),
{
    match cell {
        None => 0,
        Some(c) => (c.gid & GID_MASK)
            | (if c.flip_h { FLIPPED_HORIZONTALLY } else { 0 })
            | (if c.flip_v { FLIPPED_VERTICALLY } else { 0 })
            | (if c.flip_d { FLIPPED_DIAGONALLY } else { 0 }),
    }
}

/// Round-trip law of the codec: for every raw 32-bit cell value,
/// re-encoding its decoded form gives the value back exactly, and the raw
/// value 0 decodes to "no tile".
pub proof fn lemma_codec_round_trip(raw: u32)
    ensures
        spec_encode(spec_decode(raw)) == raw,
        spec_decode(0) is None,
{
    if raw != 0 {
        assert(((raw & 0x1FFF_FFFF) & 0x1FFF_FFFF)
            | (if raw & 0x8000_0000 != 0 { 0x8000_0000u32 } else { 0 })
            | (if raw & 0x4000_0000 != 0 { 0x4000_0000u32 } else { 0 })
            | (if raw & 0x2000_0000 != 0 { 0x2000_0000u32 } else { 0 }) == raw) by (bit_vector);
    }
}

} // verus!
