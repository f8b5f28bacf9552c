//! The top-level map loader: opens a map document, finds its root element,
//! and reads its tileset associations and tile layers in document order,
//! resolving external tileset references through the cache.

use vstd::prelude::*;

use crate::attrs::{get_attr, get_u32_attr, spec_u32_attr};
use crate::cache::{ResourceCache, ResourceReader, cache_extends, lemma_cache_extends_trans};
use crate::error::{Error, Result};
use crate::events::{ReaderIterator, XmlAttr, XmlEvent, find_root, seek_root, skip_to_element_end, tag_is};
use crate::attrs::attr_lookup;
use crate::events::EventView;
use crate::events::close_index;
use crate::events::lemma_close_index_bounds;
use crate::gids::LayerTileData;
use crate::layers::{
    base64_decoded, cells_of, find_payload, le_values, lemma_find_payload_bounds, opt_name,
    parse_data_line, spec_inflated, Compression,
};
use crate::text::csv_raw_values;
use vstd::utf8::encode_utf8;
use crate::tileset::{
    ContentOutcome, MapTilesetGid, lemma_tileset_children_bounds, parse_tileset_in_map,
    tileset_children,
};
use crate::xml::{tokenize, xml_tokens};

verus! {

/// One tile layer: its declared dimensions and its decoded cells in
/// document order, row-major.
#[derive(Debug)]
pub struct Layer {
    pub width: u32,
    pub height: u32,
    /// The decoded cells; empty for a layer whose data element carried no
    /// payload.
    pub tiles: Vec<Option<LayerTileData>>,
}

/// A loaded map: its tileset associations and its tile layers, each in
/// document order.
#[derive(Debug)]
pub struct TileMap {
    /// The tileset associations, in the order the document attached them.
    pub tilesets: Vec<MapTilesetGid>,
    /// The tile layers, in document order.
    pub layers: Vec<Layer>,
}

/// How parsing the children of a layer element comes out.
pub enum LayerOutcome {
    /// The decoded cells of the last data child (none read is an empty
    /// list), and the position just past the layer's end event.
    Done(Seq<Option<LayerTileData>>, int),
    /// The document ran out before the layer (or a data child) closed.
    Premature,
    /// A data child carried an unsupported (encoding, compression) pair.
    BadCombo,
    /// A packed payload was not valid base64 text.
    BadBase64,
    /// A packed payload did not decompress.
    BadInflate,
    /// A cell value did not resolve; the error it raises.
    CellsErr(Error),
}

/// What one data element yields from position `i` (just inside it), under
/// its declared encoding and compression names, against the association
/// list: the decoded cells and the position just past the deciding event.
pub open spec fn data_result(
    enc: Option<Seq<char>>,
    comp: Option<Seq<char>>,
    evs: Seq<EventView>,
    i: int,
    ts: Seq<MapTilesetGid>,
) -> LayerOutcome {
    if enc == Some("csv"@) && comp is None {
        match find_payload(evs, i) {
            None => LayerOutcome::Premature,
            Some((j, None)) => LayerOutcome::Done(Seq::empty(), j + 1),
            Some((j, Some(t))) => match cells_of(csv_raw_values(encode_utf8(t), 0), ts) {
                Ok(cs) => LayerOutcome::Done(cs, j + 1),
                Err(e) => LayerOutcome::CellsErr(e),
            },
        }
    } else if enc == Some("base64"@) && (comp is None || comp == Some("zlib"@) || comp == Some(
        "gzip"@,
    ) || comp == Some("zstd"@)) {
        let method = if comp is None {
            None
        } else if comp == Some("zlib"@) {
            Some(Compression::Zlib)
        } else if comp == Some("gzip"@) {
            Some(Compression::Gzip)
        } else {
            Some(Compression::Zstd)
        };
        match find_payload(evs, i) {
            None => LayerOutcome::Premature,
            Some((j, None)) => LayerOutcome::Done(Seq::empty(), j + 1),
            Some((j, Some(t))) => match base64_decoded(t) {
                None => LayerOutcome::BadBase64,
                Some(b) => {
                    let inflated = match method {
                        None => Some(b),
                        Some(m) => spec_inflated(m, b),
                    };
                    match inflated {
                        None => LayerOutcome::BadInflate,
                        Some(d) => match cells_of(le_values(d), ts) {
                            Ok(cs) => LayerOutcome::Done(cs, j + 1),
                            Err(e) => LayerOutcome::CellsErr(e),
                        },
                    }
                },
            },
        }
    } else {
        LayerOutcome::BadCombo
    }
}

/// What the events from position `i` on, inside an open layer element,
/// parse to with `cur` the cells read so far: each data child replaces them
/// with its decoded cells, other children are skipped whole, and the
/// layer's end event closes the list.
pub open spec fn layer_tiles(
    evs: Seq<EventView>,
    i: int,
    cur: Seq<Option<LayerTileData>>,
    ts: Seq<MapTilesetGid>,
) -> LayerOutcome
    decreases evs.len() - i
        when 0 <= i
        via layer_tiles_decreases
{
    if i >= evs.len() {
        LayerOutcome::Premature
    } else {
        match evs[i] {
            EventView::Eof => LayerOutcome::Premature,
            EventView::End(n) => if n == "layer"@ {
                LayerOutcome::Done(cur, i + 1)
            } else {
                layer_tiles(evs, i + 1, cur, ts)
            },
            EventView::Start(n, dattrs) => if n == "data"@ {
                match data_result(
                    attr_lookup(dattrs, "encoding"@),
                    attr_lookup(dattrs, "compression"@),
                    evs,
                    i + 1,
                    ts,
                ) {
                    LayerOutcome::Done(cs, q) => layer_tiles(evs, q, cs, ts),
                    other => other,
                }
            } else {
                match close_index(evs, i + 1, 0) {
                    None => LayerOutcome::Premature,
                    Some(j) => layer_tiles(evs, j, cur, ts),
                }
            },
            _ => layer_tiles(evs, i + 1, cur, ts),
        }
    }
}

#[via_fn]
proof fn layer_tiles_decreases(
    evs: Seq<EventView>,
    i: int,
    cur: Seq<Option<LayerTileData>>,
    ts: Seq<MapTilesetGid>,
) {
    if i < evs.len() {
        match evs[i] {
            EventView::Start(n, dattrs) => {
                if n == "data"@ {
                    if find_payload(evs, i + 1) is Some {
                        lemma_find_payload_bounds(evs, i + 1);
                    }
                } else {
                    if close_index(evs, i + 1, 0) is Some {
                        lemma_close_index_bounds(evs, i + 1, 0);
                    }
                }
            },
            _ => (),
        }
    }
}

/// How far a layer element's subtree reaches under the dispatcher's walk,
/// independent of any association list: the position just past its end
/// event, or nothing when the document runs out first.
pub open spec fn layer_extent(evs: Seq<EventView>, i: int) -> Option<int>
    decreases evs.len() - i
        when 0 <= i
        via layer_extent_decreases
{
    if i >= evs.len() {
        None
    } else {
        match evs[i] {
            EventView::Eof => None,
            EventView::End(n) => if n == "layer"@ {
                Some(i + 1)
            } else {
                layer_extent(evs, i + 1)
            },
            EventView::Start(n, _a) => if n == "data"@ {
                match find_payload(evs, i + 1) {
                    None => None,
                    Some((j, _p)) => layer_extent(evs, j + 1),
                }
            } else {
                match close_index(evs, i + 1, 0) {
                    None => None,
                    Some(j) => layer_extent(evs, j),
                }
            },
            _ => layer_extent(evs, i + 1),
        }
    }
}

#[via_fn]
proof fn layer_extent_decreases(evs: Seq<EventView>, i: int) {
    if i < evs.len() {
        match evs[i] {
            EventView::Start(n, _a) => {
                if n == "data"@ {
                    if find_payload(evs, i + 1) is Some {
                        lemma_find_payload_bounds(evs, i + 1);
                    }
                } else {
                    if close_index(evs, i + 1, 0) is Some {
                        lemma_close_index_bounds(evs, i + 1, 0);
                    }
                }
            },
            _ => (),
        }
    }
}

/// A finished layer extent ends past where it began, within the sequence.
pub proof fn lemma_layer_extent_bounds(evs: Seq<EventView>, i: int)
    requires
        0 <= i,
        layer_extent(evs, i) is Some,
    ensures
        i < layer_extent(evs, i)->Some_0 <= evs.len(),
    decreases evs.len() - i,
{
    if i < evs.len() {
        match evs[i] {
            EventView::End(n) => {
                if n != "layer"@ {
                    lemma_layer_extent_bounds(evs, i + 1);
                }
            },
            EventView::Start(n, _a) => {
                if n == "data"@ {
                    match find_payload(evs, i + 1) {
                        Some((j, _p)) => {
                            lemma_find_payload_bounds(evs, i + 1);
                            lemma_layer_extent_bounds(evs, j + 1);
                        },
                        None => (),
                    }
                } else {
                    match close_index(evs, i + 1, 0) {
                        Some(j) => {
                            lemma_close_index_bounds(evs, i + 1, 0);
                            lemma_layer_extent_bounds(evs, j);
                        },
                        None => (),
                    }
                }
            },
            EventView::Eof => (),
            _ => lemma_layer_extent_bounds(evs, i + 1),
        }
    }
}

/// A layer walk that finishes does so exactly at the layer's extent,
/// whatever association list it decoded against.
pub proof fn lemma_layer_tiles_extent(
    evs: Seq<EventView>,
    i: int,
    cur: Seq<Option<LayerTileData>>,
    ts: Seq<MapTilesetGid>,
)
    requires
        0 <= i,
    ensures
        layer_tiles(evs, i, cur, ts) matches LayerOutcome::Done(cs, q) ==> layer_extent(evs, i)
            == Some(q),
    decreases evs.len() - i,
{
    if i < evs.len() {
        match evs[i] {
            EventView::End(n) => {
                if n != "layer"@ {
                    lemma_layer_tiles_extent(evs, i + 1, cur, ts);
                }
            },
            EventView::Start(n, dattrs) => {
                if n == "data"@ {
                    match data_result(
                        attr_lookup(dattrs, "encoding"@),
                        attr_lookup(dattrs, "compression"@),
                        evs,
                        i + 1,
                        ts,
                    ) {
                        LayerOutcome::Done(cs, q) => {
                            lemma_find_payload_bounds(evs, i + 1);
                            lemma_layer_tiles_extent(evs, q, cs, ts);
                        },
                        _ => (),
                    }
                } else {
                    match close_index(evs, i + 1, 0) {
                        Some(j) => {
                            lemma_close_index_bounds(evs, i + 1, 0);
                            lemma_layer_tiles_extent(evs, j, cur, ts);
                        },
                        None => (),
                    }
                }
            },
            EventView::Eof => (),
            _ => lemma_layer_tiles_extent(evs, i + 1, cur, ts),
        }
    }
}

/// Parses the children of a layer element whose start has been consumed:
/// the declared dimensions from the attributes, and the decoded cells of
/// its data child, exactly as `layer_tiles` reads them out of the subtree.
pub fn parse_layer(
    stream: &mut ReaderIterator,
    attrs: &Vec<XmlAttr>,
    tilesets: &Vec<MapTilesetGid>,
) -> (r: Result<Layer>)
    requires
        old(stream).wf(),
    ensures
        final(stream).wf(),
        final(stream).events() == old(stream).events(),
        final(stream).pos() >= old(stream).pos(),
        r matches Ok(l) ==> {
            &&& l.width == match spec_u32_attr(attrs@.map_values(|x: XmlAttr| x@), "width"@) {
                Some(v) => v,
                None => 0u32,
            }
            &&& l.height == match spec_u32_attr(attrs@.map_values(|x: XmlAttr| x@), "height"@) {
                Some(v) => v,
                None => 0u32,
            }
        },
        match layer_tiles(old(stream).events(), old(stream).pos(), Seq::empty(), tilesets@) {
            LayerOutcome::Done(cs, q) => {
                &&& r matches Ok(l)
                &&& l.tiles@ == cs
                &&& final(stream).pos() == q
            },
            LayerOutcome::Premature => r matches Err(Error::PrematureEnd(_)),
            LayerOutcome::BadCombo => r matches Err(
                Error::InvalidEncodingFormat { encoding: _, compression: _ },
            ),
            LayerOutcome::BadBase64 => r matches Err(Error::Base64DecodingError(_)),
            LayerOutcome::BadInflate => r matches Err(Error::DecompressingError(_)),
            LayerOutcome::CellsErr(e) => r == Result::<Layer>::Err(e),
        },
{
    proof {
        stream.lemma_wf();
    }
    let width = match get_u32_attr(attrs, "width") {
        Some(v) => v,
        None => 0,
    };
    let height = match get_u32_attr(attrs, "height") {
        Some(v) => v,
        None => 0,
    };
    let size = (width as usize).wrapping_mul(height as usize);
    let mut tiles: Vec<Option<LayerTileData>> = Vec::new();
    proof {
        assert(tiles@ =~= Seq::<Option<LayerTileData>>::empty());
    }
    loop
        invariant
            stream.wf(),
            0 <= stream.pos() <= stream.events().len(),
            stream.events() == old(stream).events(),
            stream.pos() >= old(stream).pos(),
            width == match spec_u32_attr(attrs@.map_values(|x: XmlAttr| x@), "width"@) {
                Some(v) => v,
                None => 0u32,
            },
            height == match spec_u32_attr(attrs@.map_values(|x: XmlAttr| x@), "height"@) {
                Some(v) => v,
                None => 0u32,
            },
            layer_tiles(stream.events(), stream.pos(), tiles@, tilesets@) == layer_tiles(
                old(stream).events(),
                old(stream).pos(),
                Seq::empty(),
                tilesets@,
            ),
        decreases stream.events().len() - stream.pos(),
    {
        match stream.next() {
            XmlEvent::Eof => {
                return Err(
                    Error::PrematureEnd("document ended inside a layer element".to_owned()),
                );
            },
            XmlEvent::End(n) => {
                if tag_is(&n, "layer") {
                    return Ok(Layer { width, height, tiles });
                }
            },
            XmlEvent::Start(n, cattrs) => {
                if tag_is(&n, "data") {
                    let encoding = get_attr(&cattrs, "encoding");
                    let compression = get_attr(&cattrs, "compression");
                    match parse_data_line(encoding, compression, stream, tilesets, size) {
                        Ok(cells) => {
                            tiles = cells;
                        },
                        Err(e) => {
                            return Err(e);
                        },
                    }
                } else {
                    match skip_to_element_end(stream) {
                        Ok(()) => (),
                        Err(e) => {
                            return Err(e);
                        },
                    }
                }
            },
            _ => {},
        }
    }
}

/// How the structure of a map element comes out, ignoring what the reader
/// and cache contribute: the `first_gid` of every tileset child and the
/// number of layer children, each in document order.
pub enum MapOutcome {
    /// The tileset children's `first_gid`s in order, how many layer
    /// children occurred, and the position just past the map's end event.
    Closed(Seq<u32>, int, int),
    /// The document ran out before the map closed.
    Premature,
    /// A tileset child's attributes or content did not decode.
    Bad,
}

/// The structural walk of a map element's children from position `i`:
/// `fgs` the `first_gid`s and `nl` the layer children seen so far.
pub open spec fn map_children_shape(evs: Seq<EventView>, i: int, fgs: Seq<u32>, nl: int) -> MapOutcome
    decreases evs.len() - i
        when 0 <= i
        via map_children_shape_decreases
{
    if i >= evs.len() {
        MapOutcome::Premature
    } else {
        match evs[i] {
            EventView::Eof => MapOutcome::Premature,
            EventView::End(n) => if n == "map"@ {
                MapOutcome::Closed(fgs, nl, i + 1)
            } else {
                map_children_shape(evs, i + 1, fgs, nl)
            },
            EventView::Start(n, attrs) => if n == "tileset"@ {
                match spec_u32_attr(attrs, "firstgid"@) {
                    None => MapOutcome::Bad,
                    Some(fg) => if attr_lookup(attrs, "source"@) is Some {
                        match close_index(evs, i + 1, 0) {
                            None => MapOutcome::Premature,
                            Some(j) => map_children_shape(evs, j, fgs.push(fg), nl),
                        }
                    } else if spec_u32_attr(attrs, "tilecount"@) is None {
                        MapOutcome::Bad
                    } else {
                        match tileset_children(evs, i + 1, Seq::empty(), Seq::empty()) {
                            ContentOutcome::Done(_t, _w, q) => map_children_shape(
                                evs,
                                q,
                                fgs.push(fg),
                                nl,
                            ),
                            ContentOutcome::Premature => MapOutcome::Premature,
                            ContentOutcome::Bad => MapOutcome::Bad,
                        }
                    },
                }
            } else if n == "layer"@ {
                match layer_extent(evs, i + 1) {
                    None => MapOutcome::Premature,
                    Some(q) => map_children_shape(evs, q, fgs, nl + 1),
                }
            } else {
                match close_index(evs, i + 1, 0) {
                    None => MapOutcome::Premature,
                    Some(j) => map_children_shape(evs, j, fgs, nl),
                }
            },
            _ => map_children_shape(evs, i + 1, fgs, nl),
        }
    }
}

#[via_fn]
proof fn map_children_shape_decreases(evs: Seq<EventView>, i: int, fgs: Seq<u32>, nl: int) {
    if i < evs.len() {
        match evs[i] {
            EventView::Start(n, attrs) => {
                if n == "tileset"@ && attr_lookup(attrs, "source"@) is None {
                    if tileset_children(evs, i + 1, Seq::empty(), Seq::empty()) is Done {
                        lemma_tileset_children_bounds(evs, i + 1, Seq::empty(), Seq::empty());
                    }
                }
                if n == "layer"@ {
                    if layer_extent(evs, i + 1) is Some {
                        lemma_layer_extent_bounds(evs, i + 1);
                    }
                }
                if close_index(evs, i + 1, 0) is Some {
                    lemma_close_index_bounds(evs, i + 1, 0);
                }
            },
            _ => (),
        }
    }
}

/// Parses a map document's text: malformed markup is a syntax error, a
/// document that ends before a map root opens is a premature end, and the
/// root's tileset and layer children are read in document order — on
/// success, one association per tileset child carrying its `first_gid`, and
/// one layer per layer child — external tileset references going through
/// the cache.
pub fn parse_map_text<R: ResourceReader>(
    doc: &str,
    reader: &mut R,
    cache: &mut ResourceCache,
) -> (r: Result<TileMap>)
    ensures
        cache_extends(final(cache), old(cache)),
        final(cache).templates_map() == old(cache).templates_map(),
        match xml_tokens(doc@) {
            None => r matches Err(Error::XmlDecodingError(_)),
            Some(evs) => {
                &&& (find_root(evs, 0, "map"@) is None ==> r matches Err(Error::PrematureEnd(_)))
                &&& match find_root(evs, 0, "map"@) {
                    None => true,
                    Some(j) => match map_children_shape(evs, j + 1, Seq::empty(), 0) {
                        MapOutcome::Closed(fgs, nl, q) => match r {
                            Ok(m) => m.tilesets@.map_values(|a: MapTilesetGid| a.first_gid)
                                == fgs && m.layers@.len() == nl,
                            Err(_) => true,
                        },
                        MapOutcome::Premature => !(r is Ok),
                        MapOutcome::Bad => !(r is Ok),
                    },
                }
            },
        },
{
    let events = match tokenize(doc) {
        Ok(v) => v,
        Err(e) => {
            return Err(e);
        },
    };
    let mut stream = ReaderIterator::new(events);
    match seek_root(&mut stream, "map") {
        Ok(_attrs) => (),
        Err(e) => {
            return Err(e);
        },
    }
    let mut tilesets: Vec<MapTilesetGid> = Vec::new();
    let mut layers: Vec<Layer> = Vec::new();
    let ghost evs0 = stream.events();
    let ghost start = stream.pos();
    proof {
        assert(tilesets@.map_values(|a: MapTilesetGid| a.first_gid) =~= Seq::<u32>::empty());
    }
    loop
        invariant
            stream.wf(),
            0 <= stream.pos() <= stream.events().len(),
            stream.events() == evs0,
            cache_extends(&*cache, &*old(cache)),
            cache.templates_map() == old(cache).templates_map(),
            (xml_tokens(doc@) matches Some(evs) && (evs == evs0 && (find_root(evs, 0, "map"@)
                matches Some(j) && start == j + 1))),
            map_children_shape(
                evs0,
                stream.pos(),
                tilesets@.map_values(|a: MapTilesetGid| a.first_gid),
                layers@.len() as int,
            ) == map_children_shape(evs0, start, Seq::empty(), 0),
        decreases stream.events().len() - stream.pos(),
    {
        let ghost p = stream.pos();
        match stream.next() {
            XmlEvent::Eof => {
                return Err(
                    Error::PrematureEnd("document ended before the map was closed".to_owned()),
                );
            },
            XmlEvent::End(n) => {
                if tag_is(&n, "map") {
                    proof {
                        assert(tilesets@.map_values(|a: MapTilesetGid| a.first_gid) =~= tilesets@.map_values(
                            |a: MapTilesetGid| a.first_gid,
                        ));
                    }
                    return Ok(TileMap { tilesets, layers });
                }
            },
            XmlEvent::Start(n, cattrs) => {
                if tag_is(&n, "tileset") {
                    let ghost c0 = *cache;
                    let ghost pre_fgs = tilesets@.map_values(|a: MapTilesetGid| a.first_gid);
                    let res = parse_tileset_in_map(&mut stream, &cattrs, reader, cache);
                    proof {
                        lemma_cache_extends_trans(*old(cache), c0, *cache);
                    }
                    match res {
                        Ok(assoc) => {
                            tilesets.push(assoc);
                            proof {
                                assert(tilesets@.map_values(|a: MapTilesetGid| a.first_gid)
                                    =~= pre_fgs.push(assoc.first_gid));
                            }
                        },
                        Err(e) => {
                            return Err(e);
                        },
                    }
                } else if tag_is(&n, "layer") {
                    let res = parse_layer(&mut stream, &cattrs, &tilesets);
                    proof {
                        lemma_layer_tiles_extent(evs0, p + 1, Seq::empty(), tilesets@);
                    }
                    match res {
                        Ok(l) => {
                            layers.push(l);
                        },
                        Err(e) => {
                            return Err(e);
                        },
                    }
                } else {
                    match skip_to_element_end(&mut stream) {
                        Ok(()) => (),
                        Err(e) => {
                            return Err(e);
                        },
                    }
                }
            },
            _ => {},
        }
    }
}

/// Loads a map document by path: reads its text through the reader — a
/// path the reader cannot yield a document for is the access error — and
/// parses it as `parse_map_text` states. A tileset path referenced many times is read
/// at most once per session through the cache.
pub fn parse_map<R: ResourceReader>(
    path: &String,
    reader: &mut R,
    cache: &mut ResourceCache,
) -> (r: Result<TileMap>)
    ensures
        cache_extends(final(cache), old(cache)),
        final(cache).templates_map() == old(cache).templates_map(),
{
    let doc = match reader.read_document(path) {
        Ok(d) => d,
        Err(_) => {
            return Err(Error::PathIsNotFile);
        },
    };
    parse_map_text(doc.as_str(), reader, cache)
}

} // verus!
