//! Tilesets and their association records. A tileset is a named collection
//! of tiles with optional per-tile metadata; an association pairs a shared
//! tileset with the `first_gid` under which one document attached it, so one
//! tileset document can serve many maps under different identifier ranges.

use std::sync::Arc;

use vstd::prelude::*;

use crate::animation::Frame;
use crate::wang::WangId;

verus! {

/// Relies on the standard library's `Arc` clone: the clone is another
/// shared handle to the very same allocation, so it carries the same value.
#[verifier::external_body]
pub fn arc_clone<T>(a: &Arc<T>) -> (r: Arc<T>)
    ensures
        r == *a,
{
    Arc::clone(a)
}

/// Optional metadata of one tile of a tileset.
#[derive(Debug)]
pub struct TileMeta {
    /// The tile's local id within its tileset.
    pub id: u32,
    /// Its animation: a non-empty ordered frame list, when present.
    pub animation: Option<Vec<Frame>>,
}

/// A named collection of tiles with a tile count and per-tile metadata.
#[derive(Debug)]
pub struct Tileset {
    /// The tileset's name; empty when the document gives none.
    pub name: String,
    /// How many tiles the tileset holds; local ids run from 0 below it.
    pub tilecount: u32,
    /// Metadata of the tiles that carry any, in document order.
    pub tiles: Vec<TileMeta>,
    /// The auto-tile patterns declared for tiles, keyed by local tile id,
    /// in document order.
    pub wang_tiles: Vec<(u32, WangId)>,
}

/// A tileset association record: the shared tileset together with the
/// global identifier assigned to its local tile 0 by one referencing
/// document. The association, not the tileset, carries `first_gid`.
#[derive(Debug)]
pub struct MapTilesetGid {
    /// The global identifier of the tileset's local tile 0.
    pub first_gid: u32,
    /// Shared ownership of the tileset itself.
    pub tileset: Arc<Tileset>,
}

} // verus!

use vstd::prelude::*;

use crate::animation::{AnimOutcome, anim_frames, lemma_anim_frames_bounds, parse_animation};
use vstd::utf8::encode_utf8;

use crate::attrs::{attr_lookup, get_attr, require_u32_attr, spec_u32_attr};
use crate::cache::{ResourceCache, ResourceReader, cache_extends};
use crate::error::{Error, Result};
use crate::events::{
    AttrView, EventView, ReaderIterator, XmlAttr, XmlEvent, close_index, find_root,
    lemma_close_index_bounds, seek_root, skip_to_element_end, tag_is,
};
use crate::wang::{WangTile, trim_lead, trim_trail, wang_vals};
use crate::xml::{tokenize, xml_tokens};

verus! {

/// The mathematical value of a tile's optional frame list.
pub open spec fn frames_view(o: Option<Vec<Frame>>) -> Option<Seq<Frame>> {
    match o {
        Some(v) => Some(v@),
        None => None,
    }
}

/// The mathematical value of one tile record.
pub struct TileMetaView {
    pub id: u32,
    pub animation: Option<Seq<Frame>>,
}

impl View for TileMeta {
    type V = TileMetaView;

    open spec fn view(&self) -> TileMetaView {
        TileMetaView { id: self.id, animation: frames_view(self.animation) }
    }
}

/// How parsing the children of a tile element comes out.
pub enum TileOutcome {
    /// The tile's animation (its last animation child; none when there is
    /// none), and the position just past the tile's end event.
    Done(Option<Seq<Frame>>, int),
    /// The document ran out before the tile closed.
    Premature,
    /// A frame of an animation child did not decode.
    BadFrame,
}

/// What the events from position `i` on, inside an open tile element, parse
/// to with `anim` the animation read so far: an animation child replaces it
/// with its frames, any other child is skipped with its whole subtree, and
/// the tile's end event closes the record.
pub open spec fn tile_content(evs: Seq<EventView>, i: int, anim: Option<Seq<Frame>>) -> TileOutcome
    decreases evs.len() - i
        when 0 <= i
        via tile_content_decreases
{
    if i >= evs.len() {
        TileOutcome::Premature
    } else {
        match evs[i] {
            EventView::Eof => TileOutcome::Premature,
            EventView::End(n) => if n == "tile"@ {
                TileOutcome::Done(anim, i + 1)
            } else {
                tile_content(evs, i + 1, anim)
            },
            EventView::Start(n, _a) => if n == "animation"@ {
                match anim_frames(evs, i + 1, Seq::empty()) {
                    AnimOutcome::Done(fs, q) => tile_content(evs, q, Some(fs)),
                    AnimOutcome::Premature => TileOutcome::Premature,
                    AnimOutcome::BadFrame => TileOutcome::BadFrame,
                }
            } else {
                match close_index(evs, i + 1, 0) {
                    None => TileOutcome::Premature,
                    Some(j) => tile_content(evs, j, anim),
                }
            },
            _ => tile_content(evs, i + 1, anim),
        }
    }
}

#[via_fn]
proof fn tile_content_decreases(evs: Seq<EventView>, i: int, anim: Option<Seq<Frame>>) {
    if i < evs.len() {
        match evs[i] {
            EventView::Start(n, _a) => {
                if n == "animation"@ {
                    if anim_frames(evs, i + 1, Seq::empty()) is Done {
                        lemma_anim_frames_bounds(evs, i + 1, Seq::empty());
                    }
                } else {
                    if close_index(evs, i + 1, 0) is Some {
                        lemma_close_index_bounds(evs, i + 1, 0);
                    }
                }
            },
            _ => (),
        }
    }
}

/// A finished tile parse ends past where it began, within the sequence.
pub proof fn lemma_tile_content_bounds(evs: Seq<EventView>, i: int, anim: Option<Seq<Frame>>)
    requires
        0 <= i,
        tile_content(evs, i, anim) is Done,
    ensures
        i < tile_content(evs, i, anim)->Done_1 <= evs.len(),
    decreases evs.len() - i,
{
    if i < evs.len() {
        match evs[i] {
            EventView::End(n) => {
                if n != "tile"@ {
                    lemma_tile_content_bounds(evs, i + 1, anim);
                }
            },
            EventView::Start(n, _a) => {
                if n == "animation"@ {
                    match anim_frames(evs, i + 1, Seq::empty()) {
                        AnimOutcome::Done(fs, q) => {
                            lemma_anim_frames_bounds(evs, i + 1, Seq::empty());
                            lemma_tile_content_bounds(evs, q, Some(fs));
                        },
                        _ => (),
                    }
                } else {
                    match close_index(evs, i + 1, 0) {
                        Some(j) => {
                            lemma_close_index_bounds(evs, i + 1, 0);
                            lemma_tile_content_bounds(evs, j, anim);
                        },
                        None => (),
                    }
                }
            },
            EventView::Eof => (),
            _ => lemma_tile_content_bounds(evs, i + 1, anim),
        }
    }
}

/// Parses one tile element: its required local id from the attributes, and
/// an animation child when one is present; other children are skipped with
/// their subtrees. On success exactly one tile record is appended, holding
/// exactly what `tile_content` reads out of the subtree.
pub fn parse_tile(
    stream: &mut ReaderIterator,
    attrs: &Vec<XmlAttr>,
    tiles: &mut Vec<TileMeta>,
) -> (r: Result<()>)
    requires
        old(stream).wf(),
    ensures
        final(stream).wf(),
        final(stream).events() == old(stream).events(),
        final(stream).pos() >= old(stream).pos(),
        r is Err ==> final(tiles)@ == old(tiles)@,
        spec_u32_attr(attrs@.map_values(|x: XmlAttr| x@), "id"@) is None ==> r matches Err(
            Error::MalformedAttributes(_),
        ),
        match spec_u32_attr(attrs@.map_values(|x: XmlAttr| x@), "id"@) {
            None => true,
            Some(id) => match tile_content(old(stream).events(), old(stream).pos(), None) {
                TileOutcome::Done(anim, q) => {
                    &&& r is Ok
                    &&& final(stream).pos() == q
                    &&& final(tiles)@.len() == old(tiles)@.len() + 1
                    &&& final(tiles)@.subrange(0, old(tiles)@.len() as int) == old(tiles)@
                    &&& final(tiles)@.last().id == id
                    &&& frames_view(final(tiles)@.last().animation) == anim
                },
                TileOutcome::Premature => r matches Err(Error::PrematureEnd(_)),
                TileOutcome::BadFrame => r matches Err(Error::MalformedAttributes(_)),
            },
        },
{
    proof {
        stream.lemma_wf();
    }
    let id = match require_u32_attr(attrs, "id") {
        Ok(v) => v,
        Err(e) => {
            return Err(e);
        },
    };
    let mut animation: Option<Vec<Frame>> = None;
    loop
        invariant
            stream.wf(),
            0 <= stream.pos() <= stream.events().len(),
            stream.events() == old(stream).events(),
            stream.pos() >= old(stream).pos(),
            tiles@ == old(tiles)@,
            Some(id) == spec_u32_attr(attrs@.map_values(|x: XmlAttr| x@), "id"@),
            tile_content(stream.events(), stream.pos(), frames_view(animation)) == tile_content(
                old(stream).events(),
                old(stream).pos(),
                None,
            ),
        decreases stream.events().len() - stream.pos(),
    {
        match stream.next() {
            XmlEvent::Eof => {
                return Err(
                    Error::PrematureEnd("document ended inside a tile element".to_owned()),
                );
            },
            XmlEvent::End(n) => {
                if tag_is(&n, "tile") {
                    let ghost pre = tiles@;
                    tiles.push(TileMeta { id, animation });
                    proof {
                        assert(tiles@.subrange(0, pre.len() as int) =~= pre);
                    }
                    return Ok(());
                }
            },
            XmlEvent::Start(n, _cattrs) => {
                if tag_is(&n, "animation") {
                    match parse_animation(stream) {
                        Ok(frames) => {
                            animation = Some(frames);
                        },
                        Err(e) => {
                            return Err(e);
                        },
                    }
                } else {
                    match skip_to_element_end(stream) {
                        Ok(()) => (),
                        Err(e) => {
                            return Err(e);
                        },
                    }
                }
            },
            _ => {},
        }
    }
}

/// One pattern entry as (tile id, pattern values): what a wangtile child's
/// attributes decode to, when they do.
pub open spec fn spec_wang_entry(attrs: Seq<AttrView>) -> Option<(u32, Seq<u8>)> {
    match (spec_u32_attr(attrs, "tileid"@), attr_lookup(attrs, "wangid"@)) {
        (Some(t), Some(w)) => {
            let vs = wang_vals(trim_trail(trim_lead(encode_utf8(w))), Seq::empty());
            if vs.len() == 8 {
                Some((t, vs))
            } else {
                None
            }
        },
        _ => None,
    }
}

/// The mathematical value of one collected pattern pair.
pub open spec fn pair_view(p: (u32, WangId)) -> (u32, Seq<u8>) {
    (p.0, p.1.0@)
}

/// How parsing one wangset (or the whole wangsets container) comes out.
pub enum WangOutcome {
    /// The pattern pairs collected so far, in document order, and the
    /// position just past the closing end event.
    Done(Seq<(u32, Seq<u8>)>, int),
    /// The document ran out before the element closed.
    Premature,
    /// A wangtile child's attributes or pattern text did not decode.
    BadEntry,
}

/// What the events from position `i` on, inside an open wangset element,
/// parse to with `acc` the pairs already collected: each wangtile child
/// appends its pair in document order; other children are skipped whole.
pub open spec fn wangset_pairs(evs: Seq<EventView>, i: int, acc: Seq<(u32, Seq<u8>)>) -> WangOutcome
    decreases evs.len() - i
        when 0 <= i
        via wangset_pairs_decreases
{
    if i >= evs.len() {
        WangOutcome::Premature
    } else {
        match evs[i] {
            EventView::Eof => WangOutcome::Premature,
            EventView::End(n) => if n == "wangset"@ {
                WangOutcome::Done(acc, i + 1)
            } else {
                wangset_pairs(evs, i + 1, acc)
            },
            EventView::Start(n, attrs) => {
                let entry = if n == "wangtile"@ {
                    spec_wang_entry(attrs)
                } else {
                    None
                };
                if n == "wangtile"@ && entry is None {
                    WangOutcome::BadEntry
                } else {
                    match close_index(evs, i + 1, 0) {
                        None => WangOutcome::Premature,
                        Some(j) => match entry {
                            Some(p) => wangset_pairs(evs, j, acc.push(p)),
                            None => wangset_pairs(evs, j, acc),
                        },
                    }
                }
            },
            _ => wangset_pairs(evs, i + 1, acc),
        }
    }
}

#[via_fn]
proof fn wangset_pairs_decreases(evs: Seq<EventView>, i: int, acc: Seq<(u32, Seq<u8>)>) {
    if i < evs.len() {
        match evs[i] {
            EventView::Start(_n, _a) => {
                if close_index(evs, i + 1, 0) is Some {
                    lemma_close_index_bounds(evs, i + 1, 0);
                }
            },
            _ => (),
        }
    }
}

/// A finished wangset parse ends past where it began, within the sequence.
pub proof fn lemma_wangset_pairs_bounds(evs: Seq<EventView>, i: int, acc: Seq<(u32, Seq<u8>)>)
    requires
        0 <= i,
        wangset_pairs(evs, i, acc) is Done,
    ensures
        i < wangset_pairs(evs, i, acc)->Done_1 <= evs.len(),
    decreases evs.len() - i,
{
    if i < evs.len() {
        match evs[i] {
            EventView::End(n) => {
                if n != "wangset"@ {
                    lemma_wangset_pairs_bounds(evs, i + 1, acc);
                }
            },
            EventView::Start(n, attrs) => {
                match close_index(evs, i + 1, 0) {
                    Some(j) => {
                        lemma_close_index_bounds(evs, i + 1, 0);
                        let entry = if n == "wangtile"@ {
                            spec_wang_entry(attrs)
                        } else {
                            None
                        };
                        match entry {
                            Some(p) => lemma_wangset_pairs_bounds(evs, j, acc.push(p)),
                            None => {
                                if !(n == "wangtile"@) {
                                    lemma_wangset_pairs_bounds(evs, j, acc);
                                }
                            },
                        }
                    },
                    None => (),
                }
            },
            EventView::Eof => (),
            _ => lemma_wangset_pairs_bounds(evs, i + 1, acc),
        }
    }
}

/// How parsing the whole wangsets container comes out: the same shape, with
/// the container's own end event closing it.
pub open spec fn wangsets_pairs(evs: Seq<EventView>, i: int, acc: Seq<(u32, Seq<u8>)>) -> WangOutcome
    decreases evs.len() - i
        when 0 <= i
        via wangsets_pairs_decreases
{
    if i >= evs.len() {
        WangOutcome::Premature
    } else {
        match evs[i] {
            EventView::Eof => WangOutcome::Premature,
            EventView::End(n) => if n == "wangsets"@ {
                WangOutcome::Done(acc, i + 1)
            } else {
                wangsets_pairs(evs, i + 1, acc)
            },
            EventView::Start(n, _a) => if n == "wangset"@ {
                match wangset_pairs(evs, i + 1, acc) {
                    WangOutcome::Done(acc2, q) => wangsets_pairs(evs, q, acc2),
                    WangOutcome::Premature => WangOutcome::Premature,
                    WangOutcome::BadEntry => WangOutcome::BadEntry,
                }
            } else {
                match close_index(evs, i + 1, 0) {
                    None => WangOutcome::Premature,
                    Some(j) => wangsets_pairs(evs, j, acc),
                }
            },
            _ => wangsets_pairs(evs, i + 1, acc),
        }
    }
}

#[via_fn]
proof fn wangsets_pairs_decreases(evs: Seq<EventView>, i: int, acc: Seq<(u32, Seq<u8>)>) {
    if i < evs.len() {
        match evs[i] {
            EventView::Start(n, _a) => {
                if n == "wangset"@ {
                    if wangset_pairs(evs, i + 1, acc) is Done {
                        lemma_wangset_pairs_bounds(evs, i + 1, acc);
                    }
                } else {
                    if close_index(evs, i + 1, 0) is Some {
                        lemma_close_index_bounds(evs, i + 1, 0);
                    }
                }
            },
            _ => (),
        }
    }
}

/// A finished wangsets parse ends past where it began, within the sequence.
pub proof fn lemma_wangsets_pairs_bounds(evs: Seq<EventView>, i: int, acc: Seq<(u32, Seq<u8>)>)
    requires
        0 <= i,
        wangsets_pairs(evs, i, acc) is Done,
    ensures
        i < wangsets_pairs(evs, i, acc)->Done_1 <= evs.len(),
    decreases evs.len() - i,
{
    if i < evs.len() {
        match evs[i] {
            EventView::End(n) => {
                if n != "wangsets"@ {
                    lemma_wangsets_pairs_bounds(evs, i + 1, acc);
                }
            },
            EventView::Start(n, _a) => {
                if n == "wangset"@ {
                    match wangset_pairs(evs, i + 1, acc) {
                        WangOutcome::Done(acc2, q) => {
                            lemma_wangset_pairs_bounds(evs, i + 1, acc);
                            lemma_wangsets_pairs_bounds(evs, q, acc2);
                        },
                        _ => (),
                    }
                } else {
                    match close_index(evs, i + 1, 0) {
                        Some(j) => {
                            lemma_close_index_bounds(evs, i + 1, 0);
                            lemma_wangsets_pairs_bounds(evs, j, acc);
                        },
                        None => (),
                    }
                }
            },
            EventView::Eof => (),
            _ => lemma_wangsets_pairs_bounds(evs, i + 1, acc),
        }
    }
}

/// Parses the children of a wangsets element: each wangset's wangtile
/// children append their (tile id, pattern) pairs in document order,
/// exactly as `wangsets_pairs` reads them out of the subtree.
pub fn parse_wangsets(
    stream: &mut ReaderIterator,
    wang_tiles: &mut Vec<(u32, WangId)>,
) -> (r: Result<()>)
    requires
        old(stream).wf(),
    ensures
        final(stream).wf(),
        final(stream).events() == old(stream).events(),
        final(stream).pos() >= old(stream).pos(),
        final(wang_tiles)@.subrange(0, old(wang_tiles)@.len() as int) == old(wang_tiles)@,
        final(wang_tiles)@.len() >= old(wang_tiles)@.len(),
        match wangsets_pairs(
            old(stream).events(),
            old(stream).pos(),
            old(wang_tiles)@.map_values(|p: (u32, WangId)| pair_view(p)),
        ) {
            WangOutcome::Done(ps, q) => {
                &&& r is Ok
                &&& final(stream).pos() == q
                &&& final(wang_tiles)@.map_values(|p: (u32, WangId)| pair_view(p)) == ps
            },
            WangOutcome::Premature => r matches Err(Error::PrematureEnd(_)),
            WangOutcome::BadEntry => (r matches Err(Error::MalformedAttributes(_))) || (
            r matches Err(Error::InvalidWangIdEncoding { read_string: _ })),
        },
{
    proof {
        stream.lemma_wf();
    }
    loop
        invariant
            stream.wf(),
            0 <= stream.pos() <= stream.events().len(),
            stream.events() == old(stream).events(),
            stream.pos() >= old(stream).pos(),
            wang_tiles@.subrange(0, old(wang_tiles)@.len() as int) == old(wang_tiles)@,
            wang_tiles@.len() >= old(wang_tiles)@.len(),
            wangsets_pairs(
                stream.events(),
                stream.pos(),
                wang_tiles@.map_values(|p: (u32, WangId)| pair_view(p)),
            ) == wangsets_pairs(
                old(stream).events(),
                old(stream).pos(),
                old(wang_tiles)@.map_values(|p: (u32, WangId)| pair_view(p)),
            ),
        decreases stream.events().len() - stream.pos(),
    {
        match stream.next() {
            XmlEvent::Eof => {
                return Err(
                    Error::PrematureEnd("document ended inside a wangsets element".to_owned()),
                );
            },
            XmlEvent::End(n) => {
                if tag_is(&n, "wangsets") {
                    return Ok(());
                }
            },
            XmlEvent::Start(n, _cattrs) => {
                if tag_is(&n, "wangset") {
                    match parse_wangset(stream, wang_tiles) {
                        Ok(()) => (),
                        Err(e) => {
                            return Err(e);
                        },
                    }
                } else {
                    match skip_to_element_end(stream) {
                        Ok(()) => (),
                        Err(e) => {
                            return Err(e);
                        },
                    }
                }
            },
            _ => {},
        }
    }
}

/// Parses the children of one wangset element, appending a (tile id,
/// pattern) pair for each wangtile child in document order, exactly as
/// `wangset_pairs` reads them out of the subtree.
pub fn parse_wangset(
    stream: &mut ReaderIterator,
    wang_tiles: &mut Vec<(u32, WangId)>,
) -> (r: Result<()>)
    requires
        old(stream).wf(),
    ensures
        final(stream).wf(),
        final(stream).events() == old(stream).events(),
        final(stream).pos() >= old(stream).pos(),
        final(wang_tiles)@.subrange(0, old(wang_tiles)@.len() as int) == old(wang_tiles)@,
        final(wang_tiles)@.len() >= old(wang_tiles)@.len(),
        match wangset_pairs(
            old(stream).events(),
            old(stream).pos(),
            old(wang_tiles)@.map_values(|p: (u32, WangId)| pair_view(p)),
        ) {
            WangOutcome::Done(ps, q) => {
                &&& r is Ok
                &&& final(stream).pos() == q
                &&& final(wang_tiles)@.map_values(|p: (u32, WangId)| pair_view(p)) == ps
            },
            WangOutcome::Premature => r matches Err(Error::PrematureEnd(_)),
            WangOutcome::BadEntry => (r matches Err(Error::MalformedAttributes(_))) || (
            r matches Err(Error::InvalidWangIdEncoding { read_string: _ })),
        },
{
    proof {
        stream.lemma_wf();
    }
    loop
        invariant
            stream.wf(),
            0 <= stream.pos() <= stream.events().len(),
            stream.events() == old(stream).events(),
            stream.pos() >= old(stream).pos(),
            wang_tiles@.subrange(0, old(wang_tiles)@.len() as int) == old(wang_tiles)@,
            wang_tiles@.len() >= old(wang_tiles)@.len(),
            wangset_pairs(
                stream.events(),
                stream.pos(),
                wang_tiles@.map_values(|p: (u32, WangId)| pair_view(p)),
            ) == wangset_pairs(
                old(stream).events(),
                old(stream).pos(),
                old(wang_tiles)@.map_values(|p: (u32, WangId)| pair_view(p)),
            ),
        decreases stream.events().len() - stream.pos(),
    {
        match stream.next() {
            XmlEvent::Eof => {
                return Err(
                    Error::PrematureEnd("document ended inside a wangset element".to_owned()),
                );
            },
            XmlEvent::End(n) => {
                if tag_is(&n, "wangset") {
                    return Ok(());
                }
            },
            XmlEvent::Start(n, cattrs) => {
                let ghost pre = wang_tiles@;
                if tag_is(&n, "wangtile") {
                    match WangTile::new(&cattrs) {
                        Ok(p) => {
                            wang_tiles.push((p.0, p.1.wang_id));
                            proof {
                                assert(wang_tiles@.subrange(0, old(wang_tiles)@.len() as int)
                                    =~= pre.subrange(0, old(wang_tiles)@.len() as int));
                                assert(wang_tiles@.map_values(
                                    |q: (u32, WangId)| pair_view(q),
                                ) =~= pre.map_values(|q: (u32, WangId)| pair_view(q)).push(
                                    pair_view((p.0, p.1.wang_id)),
                                ));
                            }
                        },
                        Err(e) => {
                            return Err(e);
                        },
                    }
                }
                match skip_to_element_end(stream) {
                    Ok(()) => (),
                    Err(e) => {
                        return Err(e);
                    },
                }
            },
            _ => {},
        }
    }
}

/// How parsing the children of a tileset element comes out.
pub enum ContentOutcome {
    /// The tile records and pattern pairs, each in document order, and the
    /// position just past the tileset's end event.
    Done(Seq<TileMetaView>, Seq<(u32, Seq<u8>)>, int),
    /// The document ran out before the tileset closed.
    Premature,
    /// A tile id, animation frame, or pattern entry did not decode.
    Bad,
}

/// What the events from position `i` on, inside an open tileset element,
/// parse to: each tile child appends its record, each wangsets child
/// appends its pattern pairs, other children are skipped whole, and the
/// tileset's end event closes both lists.
pub open spec fn tileset_children(
    evs: Seq<EventView>,
    i: int,
    tiles: Seq<TileMetaView>,
    wangs: Seq<(u32, Seq<u8>)>,
) -> ContentOutcome
    decreases evs.len() - i
        when 0 <= i
        via tileset_children_decreases
{
    if i >= evs.len() {
        ContentOutcome::Premature
    } else {
        match evs[i] {
            EventView::Eof => ContentOutcome::Premature,
            EventView::End(n) => if n == "tileset"@ {
                ContentOutcome::Done(tiles, wangs, i + 1)
            } else {
                tileset_children(evs, i + 1, tiles, wangs)
            },
            EventView::Start(n, attrs) => if n == "tile"@ {
                match spec_u32_attr(attrs, "id"@) {
                    None => ContentOutcome::Bad,
                    Some(id) => match tile_content(evs, i + 1, None) {
                        TileOutcome::Done(anim, q) => tileset_children(
                            evs,
                            q,
                            tiles.push(TileMetaView { id, animation: anim }),
                            wangs,
                        ),
                        TileOutcome::Premature => ContentOutcome::Premature,
                        TileOutcome::BadFrame => ContentOutcome::Bad,
                    },
                }
            } else if n == "wangsets"@ {
                match wangsets_pairs(evs, i + 1, wangs) {
                    WangOutcome::Done(ws, q) => tileset_children(evs, q, tiles, ws),
                    WangOutcome::Premature => ContentOutcome::Premature,
                    WangOutcome::BadEntry => ContentOutcome::Bad,
                }
            } else {
                match close_index(evs, i + 1, 0) {
                    None => ContentOutcome::Premature,
                    Some(j) => tileset_children(evs, j, tiles, wangs),
                }
            },
            _ => tileset_children(evs, i + 1, tiles, wangs),
        }
    }
}

#[via_fn]
proof fn tileset_children_decreases(
    evs: Seq<EventView>,
    i: int,
    tiles: Seq<TileMetaView>,
    wangs: Seq<(u32, Seq<u8>)>,
) {
    if i < evs.len() {
        match evs[i] {
            EventView::Start(n, _a) => {
                if n == "tile"@ {
                    if tile_content(evs, i + 1, None) is Done {
                        lemma_tile_content_bounds(evs, i + 1, None);
                    }
                } else if n == "wangsets"@ {
                    if wangsets_pairs(evs, i + 1, wangs) is Done {
                        lemma_wangsets_pairs_bounds(evs, i + 1, wangs);
                    }
                } else {
                    if close_index(evs, i + 1, 0) is Some {
                        lemma_close_index_bounds(evs, i + 1, 0);
                    }
                }
            },
            _ => (),
        }
    }
}

/// A finished tileset-content parse ends past where it began, within the
/// sequence.
pub proof fn lemma_tileset_children_bounds(
    evs: Seq<EventView>,
    i: int,
    tiles: Seq<TileMetaView>,
    wangs: Seq<(u32, Seq<u8>)>,
)
    requires
        0 <= i,
        tileset_children(evs, i, tiles, wangs) is Done,
    ensures
        i < tileset_children(evs, i, tiles, wangs)->Done_2 <= evs.len(),
    decreases evs.len() - i,
{
    if i < evs.len() {
        match evs[i] {
            EventView::End(n) => {
                if n != "tileset"@ {
                    lemma_tileset_children_bounds(evs, i + 1, tiles, wangs);
                }
            },
            EventView::Start(n, attrs) => {
                if n == "tile"@ {
                    match spec_u32_attr(attrs, "id"@) {
                        Some(id) => match tile_content(evs, i + 1, None) {
                            TileOutcome::Done(anim, q) => {
                                lemma_tile_content_bounds(evs, i + 1, None);
                                lemma_tileset_children_bounds(
                                    evs,
                                    q,
                                    tiles.push(TileMetaView { id, animation: anim }),
                                    wangs,
                                );
                            },
                            _ => (),
                        },
                        None => (),
                    }
                } else if n == "wangsets"@ {
                    match wangsets_pairs(evs, i + 1, wangs) {
                        WangOutcome::Done(ws, q) => {
                            lemma_wangsets_pairs_bounds(evs, i + 1, wangs);
                            lemma_tileset_children_bounds(evs, q, tiles, ws);
                        },
                        _ => (),
                    }
                } else {
                    match close_index(evs, i + 1, 0) {
                        Some(j) => {
                            lemma_close_index_bounds(evs, i + 1, 0);
                            lemma_tileset_children_bounds(evs, j, tiles, wangs);
                        },
                        None => (),
                    }
                }
            },
            EventView::Eof => (),
            _ => lemma_tileset_children_bounds(evs, i + 1, tiles, wangs),
        }
    }
}

/// Parses the children of a tileset element whose start has already been
/// consumed: the name (empty when absent) and required tile count from the
/// attributes, then tile and wangsets children, exactly as
/// `tileset_children` reads them out of the subtree.
pub fn parse_tileset_content(stream: &mut ReaderIterator, attrs: &Vec<XmlAttr>) -> (r: Result<
    Tileset,
>)
    requires
        old(stream).wf(),
    ensures
        final(stream).wf(),
        final(stream).events() == old(stream).events(),
        final(stream).pos() >= old(stream).pos(),
        spec_u32_attr(attrs@.map_values(|x: XmlAttr| x@), "tilecount"@) is None ==> r matches Err(
            Error::MalformedAttributes(_),
        ),
        match spec_u32_attr(attrs@.map_values(|x: XmlAttr| x@), "tilecount"@) {
            None => true,
            Some(c) => match tileset_children(
                old(stream).events(),
                old(stream).pos(),
                Seq::empty(),
                Seq::empty(),
            ) {
                ContentOutcome::Done(ts, ws, q) => {
                    &&& r matches Ok(t)
                    &&& final(stream).pos() == q
                    &&& t.tilecount == c
                    &&& t.name@ == match attr_lookup(attrs@.map_values(|x: XmlAttr| x@), "name"@) {
                        Some(v) => v,
                        None => Seq::<char>::empty(),
                    }
                    &&& t.tiles@.map_values(|m: TileMeta| m@) == ts
                    &&& t.wang_tiles@.map_values(|p: (u32, WangId)| pair_view(p)) == ws
                },
                ContentOutcome::Premature => r matches Err(Error::PrematureEnd(_)),
                ContentOutcome::Bad => (r matches Err(Error::MalformedAttributes(_))) || (
                r matches Err(Error::InvalidWangIdEncoding { read_string: _ })),
            },
        },
{
    proof {
        stream.lemma_wf();
    }
    let name = match get_attr(attrs, "name") {
        Some(v) => v,
        None => String::new(),
    };
    let tilecount = match require_u32_attr(attrs, "tilecount") {
        Ok(v) => v,
        Err(e) => {
            return Err(e);
        },
    };
    let mut tiles: Vec<TileMeta> = Vec::new();
    let mut wang_tiles: Vec<(u32, WangId)> = Vec::new();
    proof {
        assert(tiles@.map_values(|m: TileMeta| m@) =~= Seq::<TileMetaView>::empty());
        assert(wang_tiles@.map_values(|p: (u32, WangId)| pair_view(p)) =~= Seq::<(
            u32,
            Seq<u8>,
        )>::empty());
    }
    loop
        invariant
            stream.wf(),
            0 <= stream.pos() <= stream.events().len(),
            stream.events() == old(stream).events(),
            stream.pos() >= old(stream).pos(),
            Some(tilecount) == spec_u32_attr(attrs@.map_values(|x: XmlAttr| x@), "tilecount"@),
            name@ == match attr_lookup(attrs@.map_values(|x: XmlAttr| x@), "name"@) {
                Some(v) => v,
                None => Seq::<char>::empty(),
            },
            tileset_children(
                stream.events(),
                stream.pos(),
                tiles@.map_values(|m: TileMeta| m@),
                wang_tiles@.map_values(|p: (u32, WangId)| pair_view(p)),
            ) == tileset_children(
                old(stream).events(),
                old(stream).pos(),
                Seq::empty(),
                Seq::empty(),
            ),
        decreases stream.events().len() - stream.pos(),
    {
        match stream.next() {
            XmlEvent::Eof => {
                return Err(
                    Error::PrematureEnd("document ended inside a tileset element".to_owned()),
                );
            },
            XmlEvent::End(n) => {
                if tag_is(&n, "tileset") {
                    return Ok(Tileset { name, tilecount, tiles, wang_tiles });
                }
            },
            XmlEvent::Start(n, cattrs) => {
                if tag_is(&n, "tile") {
                    let ghost pre = tiles@;
                    match parse_tile(stream, &cattrs, &mut tiles) {
                        Ok(()) => {
                            proof {
                                assert(tiles@.map_values(|m: TileMeta| m@) =~= pre.map_values(
                                    |m: TileMeta| m@,
                                ).push(tiles@.last()@));
                            }
                        },
                        Err(e) => {
                            return Err(e);
                        },
                    }
                } else if tag_is(&n, "wangsets") {
                    match parse_wangsets(stream, &mut wang_tiles) {
                        Ok(()) => (),
                        Err(e) => {
                            return Err(e);
                        },
                    }
                } else {
                    match skip_to_element_end(stream) {
                        Ok(()) => (),
                        Err(e) => {
                            return Err(e);
                        },
                    }
                }
            },
            _ => {},
        }
    }
}

/// Parses a tileset document's text: malformed markup is a syntax error, a
/// document that ends before a tileset root opens is a premature end, and
/// the root's content is parsed as `parse_tileset_content` states.
pub fn parse_tileset_text(doc: &str) -> (r: Result<Tileset>)
    ensures
        !(r matches Err(Error::TemplateHasNoObject)),
        match xml_tokens(doc@) {
            None => r matches Err(Error::XmlDecodingError(_)),
            Some(evs) => match find_root(evs, 0, "tileset"@) {
                None => r matches Err(Error::PrematureEnd(_)),
                Some(j) => match evs[j] {
                    EventView::Start(n2, at) => {
                        &&& spec_u32_attr(at, "tilecount"@) is None ==> (r matches Err(
                            Error::MalformedAttributes(_),
                        ))
                        &&& match spec_u32_attr(at, "tilecount"@) {
                            None => true,
                            Some(c) => match tileset_children(evs, j + 1, Seq::empty(), Seq::empty()) {
                                ContentOutcome::Done(ts2, ws, q) => {
                                    &&& r matches Ok(t)
                                    &&& t.tilecount == c
                                    &&& t.name@ == match attr_lookup(at, "name"@) {
                                        Some(v) => v,
                                        None => Seq::<char>::empty(),
                                    }
                                    &&& t.tiles@.map_values(|m: TileMeta| m@) == ts2
                                    &&& t.wang_tiles@.map_values(|p: (u32, WangId)| pair_view(p))
                                        == ws
                                },
                                ContentOutcome::Premature => r matches Err(Error::PrematureEnd(_)),
                                ContentOutcome::Bad => (r matches Err(
                                    Error::MalformedAttributes(_),
                                )) || (r matches Err(
                                    Error::InvalidWangIdEncoding { read_string: _ },
                                )),
                            },
                        }
                    },
                    _ => true,
                },
            },
        },
{
    let events = match tokenize(doc) {
        Ok(v) => v,
        Err(e) => {
            return Err(e);
        },
    };
    let mut stream = ReaderIterator::new(events);
    let attrs = match seek_root(&mut stream, "tileset") {
        Ok(a) => a,
        Err(e) => {
            return Err(e);
        },
    };
    parse_tileset_content(&mut stream, &attrs)
}

/// Opens a tileset document by path through the reader and parses its text;
/// a path the reader cannot yield a document for is the access error.
/// Everything after the read is pinned by `parse_tileset_text`.
pub fn parse_tileset<R: ResourceReader>(path: &String, reader: &mut R) -> (r: Result<Tileset>)
    ensures
        !(r matches Err(Error::TemplateHasNoObject)),
{
    let doc = match reader.read_document(path) {
        Ok(d) => d,
        Err(_) => {
            return Err(Error::PathIsNotFile);
        },
    };
    parse_tileset_text(doc.as_str())
}

/// Resolves an external tileset reference through the cache: a cached path
/// is answered with the existing shared instance and the cache untouched; a
/// miss loads the document once, caches the result under the path, and
/// every later reference observes that same instance.
pub fn get_or_load_tileset<R: ResourceReader>(
    path: &String,
    reader: &mut R,
    cache: &mut ResourceCache,
) -> (r: Result<Arc<Tileset>>)
    ensures
        cache_extends(final(cache), old(cache)),
        final(cache).templates_map() == old(cache).templates_map(),
        !(r matches Err(Error::TemplateHasNoObject)),
        old(cache).tilesets_map().contains_key(path@) ==> *final(cache) == *old(cache)
            && *final(reader) == *old(reader) && (r matches Ok(t) && t == old(
            cache,
        ).tilesets_map()[path@]),
        r matches Ok(t) ==> final(cache).tilesets_map().contains_key(path@)
            && final(cache).tilesets_map()[path@] == t,
{
    match cache.get_tileset(path) {
        Some(t) => Ok(t),
        None => {
            let ts = match parse_tileset(path, reader) {
                Ok(t) => t,
                Err(e) => {
                    return Err(e);
                },
            };
            let shared = Arc::new(ts);
            cache.insert_tileset(path.clone(), arc_clone(&shared));
            Ok(shared)
        },
    }
}

/// Reads one tileset child of a map or template: an element carrying a
/// source path is an external reference resolved through the cache; one
/// without is an embedded definition parsed inline. Either way the
/// association carries the element's required `firstgid`.
pub fn parse_tileset_in_map<R: ResourceReader>(
    stream: &mut ReaderIterator,
    attrs: &Vec<XmlAttr>,
    reader: &mut R,
    cache: &mut ResourceCache,
) -> (r: Result<MapTilesetGid>)
    requires
        old(stream).wf(),
    ensures
        final(stream).wf(),
        final(stream).events() == old(stream).events(),
        final(stream).pos() >= old(stream).pos(),
        cache_extends(final(cache), old(cache)),
        final(cache).templates_map() == old(cache).templates_map(),
        !(r matches Err(Error::TemplateHasNoObject)),
        spec_u32_attr(attrs@.map_values(|x: XmlAttr| x@), "firstgid"@) is None ==> r matches Err(
            Error::MalformedAttributes(_),
        ),
        r matches Ok(a) ==> Some(a.first_gid) == spec_u32_attr(
            attrs@.map_values(|x: XmlAttr| x@),
            "firstgid"@,
        ),
        attr_lookup(attrs@.map_values(|x: XmlAttr| x@), "source"@) is None ==> *final(cache)
            == *old(cache) && *final(reader) == *old(reader),
        (r is Ok && attr_lookup(attrs@.map_values(|x: XmlAttr| x@), "source"@) is Some) ==> (
        close_index(old(stream).events(), old(stream).pos(), 0) matches Some(j)
            && final(stream).pos() == j),
        (r is Ok && attr_lookup(attrs@.map_values(|x: XmlAttr| x@), "source"@) is None) ==> (
        tileset_children(old(stream).events(), old(stream).pos(), Seq::empty(), Seq::empty())
            matches ContentOutcome::Done(t2, w2, q) && final(stream).pos() == q),
        match attr_lookup(attrs@.map_values(|x: XmlAttr| x@), "source"@) {
            Some(src) => {
                &&& (old(cache).tilesets_map().contains_key(src) && spec_u32_attr(
                    attrs@.map_values(|x: XmlAttr| x@),
                    "firstgid"@,
                ) is Some && close_index(old(stream).events(), old(stream).pos(), 0) is Some)
                    ==> *final(cache) == *old(cache) && *final(reader) == *old(reader) && (
                r matches Ok(a) && a.tileset == old(cache).tilesets_map()[src])
                &&& (r matches Ok(a) ==> final(cache).tilesets_map().contains_key(src)
                    && final(cache).tilesets_map()[src] == a.tileset)
            },
            None => spec_u32_attr(attrs@.map_values(|x: XmlAttr| x@), "firstgid"@) is Some
                ==> match spec_u32_attr(attrs@.map_values(|x: XmlAttr| x@), "tilecount"@) {
                None => r matches Err(Error::MalformedAttributes(_)),
                Some(c) => match tileset_children(
                    old(stream).events(),
                    old(stream).pos(),
                    Seq::empty(),
                    Seq::empty(),
                ) {
                    ContentOutcome::Done(tv, wv, q) => {
                        &&& r matches Ok(a)
                        &&& (*a.tileset).tilecount == c
                        &&& (*a.tileset).tiles@.map_values(|m: TileMeta| m@) == tv
                        &&& (*a.tileset).wang_tiles@.map_values(|p: (u32, WangId)| pair_view(p))
                            == wv
                        &&& final(stream).pos() == q
                    },
                    ContentOutcome::Premature => r matches Err(Error::PrematureEnd(_)),
                    ContentOutcome::Bad => (r matches Err(Error::MalformedAttributes(_))) || (
                    r matches Err(Error::InvalidWangIdEncoding { read_string: _ })),
                },
            },
        },
        attr_lookup(attrs@.map_values(|x: XmlAttr| x@), "source"@) is None ==> match r {
            Ok(a) => Some((*a.tileset).tilecount) == spec_u32_attr(
                attrs@.map_values(|x: XmlAttr| x@),
                "tilecount"@,
            ) && (*a.tileset).name@ == (match attr_lookup(
                attrs@.map_values(|x: XmlAttr| x@),
                "name"@,
            ) {
                Some(v) => v,
                None => Seq::<char>::empty(),
            }),
            Err(_) => true,
        },
{
    let first_gid = match require_u32_attr(attrs, "firstgid") {
        Ok(v) => v,
        Err(e) => {
            return Err(e);
        },
    };
    match get_attr(attrs, "source") {
        Some(src) => {
            match skip_to_element_end(stream) {
                Ok(()) => (),
                Err(e) => {
                    return Err(e);
                },
            }
            match get_or_load_tileset(&src, reader, cache) {
                Ok(t) => Ok(MapTilesetGid { first_gid, tileset: t }),
                Err(e) => Err(e),
            }
        },
        None => {
            match parse_tileset_content(stream, attrs) {
                Ok(t) => Ok(MapTilesetGid { first_gid, tileset: Arc::new(t) }),
                Err(e) => Err(e),
            }
        },
    }
}

} // verus!
