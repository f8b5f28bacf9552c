//! Tile animations: an ordered, non-empty-in-practice sequence of frames,
//! each a (local tile id, duration) pair, kept exactly in document order: no
//! reordering and no deduplication.

use vstd::prelude::*;

use crate::attrs::{attr_err_msg, require_u32_attr, spec_u32_attr};
use crate::error::{Error, Result};
use crate::events::{
    AttrView, EventView, ReaderIterator, XmlAttr, XmlEvent, close_index,
    lemma_close_index_bounds, skip_to_element_end, tag_is,
};

verus! {

/// One frame of a tile animation.
#[derive(Debug, Clone, Copy, PartialEq, Eq, Structural)]
pub struct Frame {
    /// The local ID of a tile within the parent tileset.
    pub tile_id: u32,
    /// How long (in milliseconds) this frame is displayed before the next.
    pub duration: u32,
}

/// The frame a frame element's attributes decode to, when both of its
/// required fields are present and convert.
pub open spec fn spec_frame_attrs(attrs: Seq<AttrView>) -> Option<Frame> {
    match (spec_u32_attr(attrs, "tileid"@), spec_u32_attr(attrs, "duration"@)) {
        (Some(t), Some(d)) => Some(Frame { tile_id: t, duration: d }),
        _ => None,
    }
}

impl Frame {
    /// Decodes one frame element's attributes; either required field
    /// missing or unconvertible is a structured attribute error naming the
    /// field and the raw text it carried.
    pub fn new(attrs: &Vec<XmlAttr>) -> (r: Result<Frame>)
        ensures
            ({
                let av = attrs@.map_values(|x: XmlAttr| x@);
                match spec_frame_attrs(av) {
                    Some(f) => r == Result::<Frame>::Ok(f),
                    None => r matches Err(Error::MalformedAttributes(m)) && m@ == (
                    if spec_u32_attr(av, "tileid"@) is None {
                        attr_err_msg(av, "tileid"@)
                    } else {
                        attr_err_msg(av, "duration"@)
                    }),
                }
            }),
    {
        let tile_id = match require_u32_attr(attrs, "tileid") {
            Ok(v) => v,
            Err(e) => {
                return Err(e);
            },
        };
        let duration = match require_u32_attr(attrs, "duration") {
            Ok(v) => v,
            Err(e) => {
                return Err(e);
            },
        };
        Ok(Frame { tile_id, duration })
    }
}

/// How parsing the children of an animation element comes out.
pub enum AnimOutcome {
    /// The frames in document order, and the position just past the
    /// animation's end event.
    Done(Seq<Frame>, int),
    /// The document ran out before the animation closed.
    Premature,
    /// A frame element's attributes did not decode.
    BadFrame,
}

/// What the events from position `i` on, inside an open animation element,
/// parse to with `acc` the frames already read: each frame child appends in
/// document order, any other child is skipped with its whole subtree, and
/// the animation's end event closes the list.
pub open spec fn anim_frames(evs: Seq<EventView>, i: int, acc: Seq<Frame>) -> AnimOutcome
    decreases evs.len() - i
        when 0 <= i
        via anim_frames_decreases
{
    if i >= evs.len() {
        AnimOutcome::Premature
    } else {
        match evs[i] {
            EventView::Eof => AnimOutcome::Premature,
            EventView::End(n) => if n == "animation"@ {
                AnimOutcome::Done(acc, i + 1)
            } else {
                anim_frames(evs, i + 1, acc)
            },
            EventView::Start(n, attrs) => {
                let frame = if n == "frame"@ {
                    match spec_frame_attrs(attrs) {
                        None => None,
                        Some(f) => Some(f),
                    }
                } else {
                    None
                };
                if n == "frame"@ && frame is None {
                    AnimOutcome::BadFrame
                } else {
                    match close_index(evs, i + 1, 0) {
                        None => AnimOutcome::Premature,
                        Some(j) => match frame {
                            Some(f) => anim_frames(evs, j, acc.push(f)),
                            None => anim_frames(evs, j, acc),
                        },
                    }
                }
            },
            _ => anim_frames(evs, i + 1, acc),
        }
    }
}

#[via_fn]
proof fn anim_frames_decreases(evs: Seq<EventView>, i: int, acc: Seq<Frame>) {
    if i < evs.len() {
        match evs[i] {
            EventView::Start(n, attrs) => {
                if close_index(evs, i + 1, 0) is Some {
                    lemma_close_index_bounds(evs, i + 1, 0);
                }
            },
            _ => (),
        }
    }
}

/// A finished animation parse ends past where it began, within the
/// sequence.
pub proof fn lemma_anim_frames_bounds(evs: Seq<EventView>, i: int, acc: Seq<Frame>)
    requires
        0 <= i,
        anim_frames(evs, i, acc) is Done,
    ensures
        i < anim_frames(evs, i, acc)->Done_1 <= evs.len(),
    decreases evs.len() - i,
{
    if i < evs.len() {
        match evs[i] {
            EventView::End(n) => {
                if n != "animation"@ {
                    lemma_anim_frames_bounds(evs, i + 1, acc);
                }
            },
            EventView::Start(n, attrs) => {
                match close_index(evs, i + 1, 0) {
                    Some(j) => {
                        lemma_close_index_bounds(evs, i + 1, 0);
                        let frame = if n == "frame"@ {
                            spec_frame_attrs(attrs)
                        } else {
                            Option::<Frame>::None
                        };
                        match frame {
                            Some(f) => lemma_anim_frames_bounds(evs, j, acc.push(f)),
                            None => lemma_anim_frames_bounds(evs, j, acc),
                        }
                    },
                    None => (),
                }
            },
            EventView::Eof => (),
            _ => lemma_anim_frames_bounds(evs, i + 1, acc),
        }
    }
}

/// Parses the children of an animation element into its frame list, kept
/// exactly in document order. Frame children are decoded by their
/// attributes; unrecognized children are skipped with their subtrees; the
/// document ending first is a premature-end error.
pub fn parse_animation(stream: &mut ReaderIterator) -> (r: Result<Vec<Frame>>)
    requires
        old(stream).wf(),
    ensures
        final(stream).wf(),
        final(stream).events() == old(stream).events(),
        final(stream).pos() >= old(stream).pos(),
        match anim_frames(old(stream).events(), old(stream).pos(), Seq::empty()) {
            AnimOutcome::Done(fs, q) => r matches Ok(v) && v@ == fs && final(stream).pos() == q,
            AnimOutcome::Premature => r matches Err(Error::PrematureEnd(_)),
            AnimOutcome::BadFrame => r matches Err(Error::MalformedAttributes(_)),
        },
{
    proof {
        stream.lemma_wf();
    }
    let mut out: Vec<Frame> = Vec::new();
    loop
        invariant
            stream.wf(),
            0 <= stream.pos() <= stream.events().len(),
            stream.events() == old(stream).events(),
            stream.pos() >= old(stream).pos(),
            anim_frames(stream.events(), stream.pos(), out@) == anim_frames(
                old(stream).events(),
                old(stream).pos(),
                Seq::empty(),
            ),
        decreases stream.events().len() - stream.pos(),
    {
        match stream.next() {
            XmlEvent::Eof => {
                return Err(
                    Error::PrematureEnd("document ended inside an animation element".to_owned()),
                );
            },
            XmlEvent::End(n) => {
                if tag_is(&n, "animation") {
                    return Ok(out);
                }
            },
            XmlEvent::Start(n, attrs) => {
                if tag_is(&n, "frame") {
                    match Frame::new(&attrs) {
                        Ok(f) => {
                            out.push(f);
                        },
                        Err(e) => {
                            return Err(e);
                        },
                    }
                }
                match skip_to_element_end(stream) {
                    Ok(()) => (),
                    Err(e) => {
                        return Err(e);
                    },
                }
            },
            _ => {},
        }
    }
}

} // verus!
