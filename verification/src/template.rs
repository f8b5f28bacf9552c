//! Templates: a reusable (tileset association, object definition) pair
//! loaded from its own document. A template document supplies at most one
//! object — required — and any tileset children its object draws from;
//! loaded templates are shared through the cache like external tilesets.

use std::sync::Arc;

use vstd::prelude::*;

use vstd::utf8::encode_utf8;

use crate::attrs::{attr_lookup, get_attr, get_u32_attr, spec_u32_attr};
use crate::text::{dec_value, is_dec_digits};
use crate::cache::{ResourceCache, ResourceReader, cache_extends, lemma_cache_extends_trans};
use crate::error::{Error, Result};
use crate::events::{ReaderIterator, XmlAttr, XmlEvent, seek_root, skip_to_element_end, tag_is};
use crate::gids::{LayerTileData, spec_from_bits};
use crate::text::parse_u32;
use crate::tileset::{
    ContentOutcome, MapTilesetGid, Tileset, arc_clone, lemma_tileset_children_bounds,
    parse_tileset_in_map, tileset_children,
};
use crate::events::{AttrView, EventView, close_index, find_root, lemma_close_index_bounds};
use crate::xml::{tokenize, xml_tokens};

verus! {

/// The object definition a template carries: its declared id (0 when the
/// document gives none) and its resolved tile reference, when it draws one.
#[derive(Debug)]
pub struct ObjectData {
    pub id: u32,
    pub tile: Option<LayerTileData>,
}

impl ObjectData {
    /// Decodes an object element's attributes: the declared id (0 when
    /// absent or unconvertible) and, when a `gid` attribute is present, the
    /// tile it draws through the association list; a `gid` that is not a
    /// decimal 32-bit number is a structured attribute error.
    pub fn new(attrs: &Vec<XmlAttr>, tilesets: &Vec<MapTilesetGid>) -> (r: Result<ObjectData>)
        ensures
            ({
                let av = attrs@.map_values(|x: XmlAttr| x@);
                let id = match spec_u32_attr(av, "id"@) {
                    Some(v) => v,
                    None => 0u32,
                };
                match attr_lookup(av, "gid"@) {
                    None => r == Result::<ObjectData>::Ok(ObjectData { id, tile: None }),
                    Some(gt) => {
                        let b = encode_utf8(gt);
                        if is_dec_digits(b) && dec_value(b) <= u32::MAX {
                            match spec_from_bits(dec_value(b) as u32, tilesets@) {
                                Ok(t) => r == Result::<ObjectData>::Ok(ObjectData { id, tile: t }),
                                Err(e) => r == Result::<ObjectData>::Err(e),
                            }
                        } else {
                            r matches Err(Error::MalformedAttributes(_))
                        }
                    },
                }
            }),
    {
        let id = match get_u32_attr(attrs, "id") {
            Some(v) => v,
            None => 0,
        };
        match get_attr(attrs, "gid") {
            None => Ok(ObjectData { id, tile: None }),
            Some(text) => match parse_u32(text.as_str()) {
                None => Err(Error::MalformedAttributes("gid".to_owned())),
                Some(g) => match LayerTileData::from_bits(g, tilesets) {
                    Ok(t) => Ok(ObjectData { id, tile: t }),
                    Err(e) => Err(e),
                },
            },
        }
    }
}

/// A template: an object definition and the tileset its object may draw
/// from, shared between every object and map that instantiates it.
#[derive(Debug)]
pub struct Template {
    /// The tileset this template contains a reference to.
    pub tileset: Option<Arc<Tileset>>,
    /// The object data for this template.
    pub object: ObjectData,
}

impl Template {
    /// Loads a template document through the cache: a cached path is
    /// answered with the existing shared instance and the cache untouched;
    /// a miss opens the document through the reader, parses it, caches the
    /// result under the path and hands the shared instance out.
    pub fn parse_template<R: ResourceReader>(
        path: &String,
        reader: &mut R,
        cache: &mut ResourceCache,
    ) -> (r: Result<Arc<Template>>)
        ensures
            cache_extends(final(cache), old(cache)),
            old(cache).templates_map().contains_key(path@) ==> *final(cache) == *old(cache)
                && *final(reader) == *old(reader) && (r matches Ok(t) && t == old(
                cache,
            ).templates_map()[path@]),
            r matches Ok(t) ==> final(cache).templates_map().contains_key(path@)
                && final(cache).templates_map()[path@] == t,
    {
        match cache.get_template(path) {
            Some(t) => Ok(t),
            None => {
                let doc = match reader.read_document(path) {
                    Ok(d) => d,
                    Err(_) => {
                        return Err(Error::PathIsNotFile);
                    },
                };
                let ghost c0 = *cache;
                let t = match Template::parse_template_text(doc.as_str(), reader, cache) {
                    Ok(t) => t,
                    Err(e) => {
                        return Err(e);
                    },
                };
                let ghost c1 = *cache;
                cache.insert_template(path.clone(), arc_clone(&t));
                proof {
                    assert(cache_extends(&*cache, &c1));
                    lemma_cache_extends_trans(c0, c1, *cache);
                    lemma_cache_extends_trans(*old(cache), c0, *cache);
                }
                Ok(t)
            },
        }
    }

    /// Parses a template document's text: malformed markup is a syntax
    /// error, a document that ends before a template root opens is a
    /// premature end, and the root's content is parsed as
    /// `parse_external_template` states — the same walk clauses hold here
    /// over the document's own token sequence. The template cache is not
    /// written; the caller decides whether to share the result.
    pub fn parse_template_text<R: ResourceReader>(
        doc: &str,
        reader: &mut R,
        cache: &mut ResourceCache,
    ) -> (r: Result<Arc<Template>>)
        ensures
            cache_extends(final(cache), old(cache)),
            final(cache).templates_map() == old(cache).templates_map(),
            match xml_tokens(doc@) {
                None => r matches Err(Error::XmlDecodingError(_)),
                Some(evs) => {
                    &&& (find_root(evs, 0, "template"@) is None ==> r matches Err(
                        Error::PrematureEnd(_),
                    ))
                    &&& match find_root(evs, 0, "template"@) {
                        None => true,
                        Some(j) => match template_shape(evs, j + 1, None, false, false) {
                            TplOutcome::Closed(obj, saw_ts, ext, q) => {
                                &&& (r matches Err(Error::TemplateHasNoObject) ==> obj is None)
                                &&& (obj is None ==> !(r is Ok))
                                &&& (!ext && obj is None ==> r == Result::<Arc<Template>>::Err(
                                    Error::TemplateHasNoObject,
                                ))
                                &&& match r {
                                    Ok(t) => {
                                        &&& obj matches Some(oa)
                                        &&& (*t).object.id == (match spec_u32_attr(
                                            obj->Some_0,
                                            "id"@,
                                        ) {
                                            Some(v) => v,
                                            None => 0u32,
                                        })
                                        &&& (attr_lookup(obj->Some_0, "gid"@) is None ==> (
                                        *t).object.tile is None)
                                        &&& ((*t).tileset is Some <==> saw_ts)
                                    },
                                    Err(_) => true,
                                }
                            },
                            TplOutcome::Premature => !(r is Ok) && !(r matches Err(
                                Error::TemplateHasNoObject,
                            )),
                            TplOutcome::Bad => !(r is Ok) && !(r matches Err(
                                Error::TemplateHasNoObject,
                            )),
                        },
                    }
                },
            },
    {
        let events = match tokenize(doc) {
            Ok(v) => v,
            Err(e) => {
                return Err(e);
            },
        };
        let mut stream = ReaderIterator::new(events);
        match seek_root(&mut stream, "template") {
            Ok(_attrs) => (),
            Err(e) => {
                return Err(e);
            },
        }
        Template::parse_external_template(&mut stream, reader, cache)
    }

    /// A closed walk keeps a recorded object child, a seen tileset child and a
    /// seen external reference: the flags only ever grow along the walk.
    pub proof fn lemma_template_shape_flags(
        evs: Seq<EventView>,
        i: int,
        obj: Option<Seq<AttrView>>,
        saw_ts: bool,
        ext: bool,
    )
        requires
            0 <= i,
        ensures
            template_shape(evs, i, obj, saw_ts, ext) matches TplOutcome::Closed(o2, s2, e2, q)
                ==> (obj is Some ==> o2 is Some) && (saw_ts ==> s2) && (ext ==> e2),
        decreases evs.len() - i,
    {
        if i < evs.len() {
            match evs[i] {
                EventView::End(n) => {
                    if n != "template"@ {
                        Self::lemma_template_shape_flags(evs, i + 1, obj, saw_ts, ext);
                    }
                },
                EventView::Start(n, attrs) => {
                    if n == "object"@ {
                        match close_index(evs, i + 1, 0) {
                            Some(j) => {
                                lemma_close_index_bounds(evs, i + 1, 0);
                                Self::lemma_template_shape_flags(evs, j, Some(attrs), saw_ts, ext);
                            },
                            None => (),
                        }
                    } else if n == "tileset"@ {
                        if spec_u32_attr(attrs, "firstgid"@) is Some {
                            if attr_lookup(attrs, "source"@) is Some {
                                match close_index(evs, i + 1, 0) {
                                    Some(j) => {
                                        lemma_close_index_bounds(evs, i + 1, 0);
                                        Self::lemma_template_shape_flags(evs, j, obj, true, true);
                                    },
                                    None => (),
                                }
                            } else if spec_u32_attr(attrs, "tilecount"@) is Some {
                                match tileset_children(evs, i + 1, Seq::empty(), Seq::empty()) {
                                    ContentOutcome::Done(_t, _w, q) => {
                                        lemma_tileset_children_bounds(
                                            evs,
                                            i + 1,
                                            Seq::empty(),
                                            Seq::empty(),
                                        );
                                        Self::lemma_template_shape_flags(evs, q, obj, true, ext);
                                    },
                                    _ => (),
                                }
                            }
                        }
                    } else {
                        match close_index(evs, i + 1, 0) {
                            Some(j) => {
                                lemma_close_index_bounds(evs, i + 1, 0);
                                Self::lemma_template_shape_flags(evs, j, obj, saw_ts, ext);
                            },
                            None => (),
                        }
                    }
                },
                EventView::Eof => (),
                _ => Self::lemma_template_shape_flags(evs, i + 1, obj, saw_ts, ext),
            }
        }
    }

    /// Parses the children of a template element whose start has been
    /// consumed: tileset children are resolved through the cache and
    /// accumulated for the object's own tile reference; a template that
    /// supplies no object is invalid, and the missing-object error comes
    /// exactly when the element closes without an object child.
    pub fn parse_external_template<R: ResourceReader>(
        stream: &mut ReaderIterator,
        reader: &mut R,
        cache: &mut ResourceCache,
    ) -> (r: Result<Arc<Template>>)
        requires
            old(stream).wf(),
        ensures
            final(stream).wf(),
            final(stream).events() == old(stream).events(),
            final(stream).pos() >= old(stream).pos(),
            cache_extends(final(cache), old(cache)),
            final(cache).templates_map() == old(cache).templates_map(),
            match template_shape(old(stream).events(), old(stream).pos(), None, false, false) {
                TplOutcome::Closed(obj, saw_ts, ext, q) => {
                    &&& (r matches Err(Error::TemplateHasNoObject) ==> obj is None
                        && final(stream).pos() == q)
                    &&& (obj is None ==> !(r is Ok))
                    &&& (!ext && obj is None ==> r == Result::<Arc<Template>>::Err(
                        Error::TemplateHasNoObject,
                    ) && final(stream).pos() == q)
                    &&& (!ext ==> *final(cache) == *old(cache) && *final(reader) == *old(reader))
                    &&& match r {
                        Ok(t) => {
                            &&& final(stream).pos() == q
                            &&& obj matches Some(oa)
                            &&& (*t).object.id == (match spec_u32_attr(obj->Some_0, "id"@) {
                                Some(v) => v,
                                None => 0u32,
                            })
                            &&& (attr_lookup(obj->Some_0, "gid"@) is None ==> (*t).object.tile
                                is None)
                            &&& ((*t).tileset is Some <==> saw_ts)
                        },
                        Err(_) => true,
                    }
                },
                TplOutcome::Premature => !(r is Ok) && !(r matches Err(
                    Error::TemplateHasNoObject,
                )),
                TplOutcome::Bad => !(r is Ok) && !(r matches Err(Error::TemplateHasNoObject)),
            },
    {
        proof {
            stream.lemma_wf();
        }
        let mut object: Option<ObjectData> = None;
        let mut tileset: Option<Arc<Tileset>> = None;
        let mut tileset_gid: Vec<MapTilesetGid> = Vec::new();
        let ghost mut obj_attrs: Option<Seq<AttrView>> = None;
        let ghost mut ext: bool = false;
        loop
            invariant
                stream.wf(),
                0 <= stream.pos() <= stream.events().len(),
                stream.events() == old(stream).events(),
                stream.pos() >= old(stream).pos(),
                cache_extends(&*cache, &*old(cache)),
                cache.templates_map() == old(cache).templates_map(),
                template_shape(stream.events(), stream.pos(), obj_attrs, tileset is Some, ext)
                    == template_shape(old(stream).events(), old(stream).pos(), None, false, false),
                match obj_attrs {
                    None => object is None,
                    Some(oa) => object matches Some(o) && o.id == (match spec_u32_attr(
                        oa,
                        "id"@,
                    ) {
                        Some(v) => v,
                        None => 0u32,
                    }) && (attr_lookup(oa, "gid"@) is None ==> o.tile is None),
                },
                !ext ==> *cache == *old(cache) && *reader == *old(reader),
            decreases stream.events().len() - stream.pos(),
        {
            let ghost p = stream.pos();
            match stream.next() {
                XmlEvent::Eof => {
                    return Err(
                        Error::PrematureEnd(
                            "document ended inside a template element".to_owned(),
                        ),
                    );
                },
                XmlEvent::End(n) => {
                    if tag_is(&n, "template") {
                        match object {
                            Some(object) => {
                                return Ok(Arc::new(Template { tileset, object }));
                            },
                            None => {
                                return Err(Error::TemplateHasNoObject);
                            },
                        }
                    }
                },
                XmlEvent::Start(n, cattrs) => {
                    if tag_is(&n, "object") {
                        proof {
                            match close_index(stream.events(), p + 1, 0) {
                                Some(j) => {
                                    lemma_close_index_bounds(stream.events(), p + 1, 0);
                                    Template::lemma_template_shape_flags(
                                        stream.events(),
                                        j,
                                        Some(cattrs@.map_values(|x: XmlAttr| x@)),
                                        tileset is Some,
                                        ext,
                                    );
                                },
                                None => (),
                            }
                        }
                        match ObjectData::new(&cattrs, &tileset_gid) {
                            Ok(o) => {
                                object = Some(o);
                                proof {
                                    obj_attrs = Some(cattrs@.map_values(|x: XmlAttr| x@));
                                }
                            },
                            Err(e) => {
                                return Err(e);
                            },
                        }
                        match skip_to_element_end(stream) {
                            Ok(()) => (),
                            Err(e) => {
                                return Err(e);
                            },
                        }
                    } else if tag_is(&n, "tileset") {
                        proof {
                            let evs = stream.events();
                            let av = cattrs@.map_values(|x: XmlAttr| x@);
                            if spec_u32_attr(av, "firstgid"@) is Some {
                                if attr_lookup(av, "source"@) is Some {
                                    match close_index(evs, p + 1, 0) {
                                        Some(j) => {
                                            lemma_close_index_bounds(evs, p + 1, 0);
                                            Template::lemma_template_shape_flags(
                                                evs,
                                                j,
                                                obj_attrs,
                                                true,
                                                true,
                                            );
                                        },
                                        None => (),
                                    }
                                } else if spec_u32_attr(av, "tilecount"@) is Some {
                                    match tileset_children(evs, p + 1, Seq::empty(), Seq::empty()) {
                                        ContentOutcome::Done(_t, _w, q) => {
                                            lemma_tileset_children_bounds(
                                                evs,
                                                p + 1,
                                                Seq::empty(),
                                                Seq::empty(),
                                            );
                                            Template::lemma_template_shape_flags(
                                                evs,
                                                q,
                                                obj_attrs,
                                                true,
                                                ext,
                                            );
                                        },
                                        _ => (),
                                    }
                                }
                            }
                        }
                        let ghost c0 = *cache;
                        let res = parse_tileset_in_map(stream, &cattrs, reader, cache);
                        proof {
                            lemma_cache_extends_trans(*old(cache), c0, *cache);
                            if attr_lookup(cattrs@.map_values(|x: XmlAttr| x@), "source"@)
                                is Some {
                                ext = true;
                            }
                        }
                        match res {
                            Ok(assoc) => {
                                tileset = Some(arc_clone(&assoc.tileset));
                                tileset_gid.push(assoc);
                            },
                            Err(e) => {
                                return Err(e);
                            },
                        }
                    } else {
                        match skip_to_element_end(stream) {
                            Ok(()) => (),
                            Err(e) => {
                                return Err(e);
                            },
                        }
                    }
                },
                _ => {},
            }
        }
    }
}

/// How the structure of a template element comes out, ignoring what the
/// reader and cache contribute. An external tileset child spans its own
/// subtree; an embedded one spans what `tileset_children` reads.
pub enum TplOutcome {
    /// The last object child's attributes (none when there was no object
    /// child), whether a tileset child occurred, whether an external
    /// reference occurred, and the position just past the template's end.
    Closed(Option<Seq<AttrView>>, bool, bool, int),
    /// The document ran out before the template closed.
    Premature,
    /// A tileset child's attributes or content did not decode.
    Bad,
}

/// The structural walk of a template element's children from position `i`:
/// `obj` the last object child's attributes so far, `saw_ts` whether a
/// tileset child occurred, `ext` whether an external reference occurred.
pub open spec fn template_shape(
    evs: Seq<EventView>,
    i: int,
    obj: Option<Seq<AttrView>>,
    saw_ts: bool,
    ext: bool,
) -> TplOutcome
    decreases evs.len() - i
        when 0 <= i
        via template_shape_decreases
{
    if i >= evs.len() {
        TplOutcome::Premature
    } else {
        match evs[i] {
            EventView::Eof => TplOutcome::Premature,
            EventView::End(n) => if n == "template"@ {
                TplOutcome::Closed(obj, saw_ts, ext, i + 1)
            } else {
                template_shape(evs, i + 1, obj, saw_ts, ext)
            },
            EventView::Start(n, attrs) => if n == "object"@ {
                match close_index(evs, i + 1, 0) {
                    None => TplOutcome::Premature,
                    Some(j) => template_shape(evs, j, Some(attrs), saw_ts, ext),
                }
            } else if n == "tileset"@ {
                if spec_u32_attr(attrs, "firstgid"@) is None {
                    TplOutcome::Bad
                } else if attr_lookup(attrs, "source"@) is Some {
                    match close_index(evs, i + 1, 0) {
                        None => TplOutcome::Premature,
                        Some(j) => template_shape(evs, j, obj, true, true),
                    }
                } else if spec_u32_attr(attrs, "tilecount"@) is None {
                    TplOutcome::Bad
                } else {
                    match tileset_children(evs, i + 1, Seq::empty(), Seq::empty()) {
                        ContentOutcome::Done(_t, _w, q) => template_shape(evs, q, obj, true, ext),
                        ContentOutcome::Premature => TplOutcome::Premature,
                        ContentOutcome::Bad => TplOutcome::Bad,
                    }
                }
            } else {
                match close_index(evs, i + 1, 0) {
                    None => TplOutcome::Premature,
                    Some(j) => template_shape(evs, j, obj, saw_ts, ext),
                }
            },
            _ => template_shape(evs, i + 1, obj, saw_ts, ext),
        }
    }
}

#[via_fn]
proof fn template_shape_decreases(
    evs: Seq<EventView>,
    i: int,
    obj: Option<Seq<AttrView>>,
    saw_ts: bool,
    ext: bool,
) {
    if i < evs.len() {
        match evs[i] {
            EventView::Start(n, _a) => {
                if n == "tileset"@ && attr_lookup(_a, "source"@) is None {
                    if tileset_children(evs, i + 1, Seq::empty(), Seq::empty()) is Done {
                        lemma_tileset_children_bounds(evs, i + 1, Seq::empty(), Seq::empty());
                    }
                }
                if close_index(evs, i + 1, 0) is Some {
                    lemma_close_index_bounds(evs, i + 1, 0);
                }
            },
            _ => (),
        }
    }
}

} // verus!
