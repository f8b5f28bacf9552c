//! The global-identifier resolution table: mapping a raw global tile
//! identifier to the owning tileset association and a local tile index.

use vstd::prelude::*;

use crate::codec::{spec_decode, decode};
use crate::error::{Error, Result};
use crate::tileset::MapTilesetGid;

verus! {

/// A fully resolved layer cell: which association owns the tile, the tile's
/// local index within that tileset, and the three flip flags.
#[derive(Debug, PartialEq, Eq, Clone, Copy, Structural)]
pub struct LayerTileData {
    /// Index of the owning association in the containing document's list.
    pub tileset_index: usize,
    /// The tile's local id within the owning tileset.
    pub id: u32,
    pub flip_h: bool,
    pub flip_v: bool,
    pub flip_d: bool,
}

/// The association that owns a global identifier: the one with the greatest
/// `first_gid` at most the identifier; of equals, the last inserted wins.
pub open spec fn spec_best_assoc(ts: Seq<MapTilesetGid>, gid: u32) -> Option<int>
    decreases ts.len(),
{
    if ts.len() == 0 {
        None
    } else {
        let rest = spec_best_assoc(ts.drop_last(), gid);
        let i = ts.len() - 1;
        let beats_rest = match rest {
            None => true,
            Some(j) => ts[i as int].first_gid >= ts[j].first_gid,
        };
        if ts[i as int].first_gid <= gid && beats_rest {
            Some(i as int)
        } else {
            rest
        }
    }
}

/// A winning association exists in the list and covers the identifier.
pub proof fn lemma_best_assoc_props(ts: Seq<MapTilesetGid>, gid: u32)
    requires
        spec_best_assoc(ts, gid) is Some,
    ensures
        0 <= spec_best_assoc(ts, gid)->Some_0 < ts.len(),
        ts[spec_best_assoc(ts, gid)->Some_0].first_gid <= gid,
    decreases ts.len(),
{
    if ts.len() > 0 {
        if spec_best_assoc(ts.drop_last(), gid) is Some {
            lemma_best_assoc_props(ts.drop_last(), gid);
        }
    }
}

/// The fold in `spec_best_assoc` picks exactly what the resolution rule
/// asks for: an association that covers the identifier, with the greatest
/// `first_gid` among those that do, and of equal `first_gid` values the one
/// inserted last; it is `None` exactly when no association covers the
/// identifier.
pub proof fn lemma_best_assoc_characterization(ts: Seq<MapTilesetGid>, gid: u32)
    ensures
        spec_best_assoc(ts, gid) is None ==> forall|j: int|
            0 <= j < ts.len() ==> !(#[trigger] ts[j].first_gid <= gid),
        spec_best_assoc(ts, gid) matches Some(i) ==> {
            &&& 0 <= i < ts.len()
            &&& ts[i].first_gid <= gid
            &&& forall|j: int|
                0 <= j < ts.len() && #[trigger] ts[j].first_gid <= gid
                    ==> ts[j].first_gid <= ts[i].first_gid
            &&& forall|j: int|
                i < j < ts.len() && #[trigger] ts[j].first_gid <= gid
                    ==> ts[j].first_gid < ts[i].first_gid
        },
    decreases ts.len(),
{
    if ts.len() > 0 {
        lemma_best_assoc_characterization(ts.drop_last(), gid);
        assert(forall|j: int| 0 <= j < ts.len() - 1 ==> ts.drop_last()[j] == ts[j]);
    }
}

/// Where a global tile index resolves: the owning association's position
/// and the local tile id `gid - first_gid`, or nothing when no association
/// covers the identifier or the local id falls outside the tileset's count.
pub open spec fn spec_resolve(ts: Seq<MapTilesetGid>, gid: u32) -> Option<(int, u32)> {
    match spec_best_assoc(ts, gid) {
        None => None,
        Some(i) => {
            let local = gid - ts[i].first_gid;
            if local < (*ts[i].tileset).tilecount {
                Some((i, local as u32))
            } else {
                None
            }
        },
    }
}

/// Resolves a global tile index against the association list, yielding the
/// owning association's position and the local tile id.
pub fn resolve_gid(tilesets: &Vec<MapTilesetGid>, gid: u32) -> (r: Option<(usize, u32)>)
    ensures
        match spec_resolve(tilesets@, gid) {
            Some(p) => r matches Some(q) && q.0 as int == p.0 && q.1 == p.1,
            None => r is None,
        },
{
    let ghost ts = tilesets@;
    let mut best: Option<usize> = None;
    let mut i: usize = 0;
    proof {
        assert(ts.subrange(0, 0) =~= Seq::<MapTilesetGid>::empty());
    }
    while i < tilesets.len()
        invariant
            ts == tilesets@,
            0 <= i <= ts.len(),
            match spec_best_assoc(ts.subrange(0, i as int), gid) {
                Some(j) => best matches Some(b) && b as int == j && b < i,
                None => best is None,
            },
        decreases tilesets.len() - i,
    {
        let fg = tilesets[i].first_gid;
        let better = fg <= gid && match best {
            Some(b) => fg >= tilesets[b].first_gid,
            None => true,
        };
        proof {
            let pre = ts.subrange(0, i as int + 1);
            assert(pre.drop_last() =~= ts.subrange(0, i as int));
            assert(pre.last() == ts[i as int]);
        }
        if better {
            best = Some(i);
        }
        i = i + 1;
    }
    proof {
        assert(ts.subrange(0, ts.len() as int) =~= ts);
    }
    match best {
        None => None,
        Some(b) => {
            proof {
                lemma_best_assoc_props(ts, gid);
            }
            let fg = tilesets[b].first_gid;
            let local = gid - fg;
            if local < tilesets[b].tileset.tilecount {
                Some((b, local))
            } else {
                None
            }
        },
    }
}

/// What a raw 32-bit cell value resolves to: nothing for the empty cell, a
/// resolved cell when the identifier is covered, and a structured
/// unresolved-tile error otherwise.
pub open spec fn spec_from_bits(bits: u32, ts: Seq<MapTilesetGid>) -> Result<
    Option<LayerTileData>,
> {
    match spec_decode(bits) {
        None => Ok(None),
        Some(c) => match spec_resolve(ts, c.gid) {
            Some(p) => Ok(
                Some(
                    LayerTileData {
                        tileset_index: p.0 as usize,
                        id: p.1,
                        flip_h: c.flip_h,
                        flip_v: c.flip_v,
                        flip_d: c.flip_d,
                    },
                ),
            ),
            None => Err(Error::InvalidTileFound { gid: c.gid }),
        },
    }
}

impl LayerTileData {
    /// Splits a raw cell value with the codec and resolves its identifier
    /// against the association list.
    pub fn from_bits(bits: u32, tilesets: &Vec<MapTilesetGid>) -> (r: Result<
        Option<LayerTileData>,
    >)
        ensures
            r == spec_from_bits(bits, tilesets@),
    {
        match decode(bits) {
            None => Ok(None),
            Some(c) => match resolve_gid(tilesets, c.gid) {
                Some(p) => Ok(
                    Some(
                        LayerTileData {
                            tileset_index: p.0,
                            id: p.1,
                            flip_h: c.flip_h,
                            flip_v: c.flip_v,
                            flip_d: c.flip_d,
                        },
                    ),
                ),
                None => Err(Error::InvalidTileFound { gid: c.gid }),
            },
        }
    }
}

} // verus!
