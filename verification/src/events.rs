//! Structural events of a document and the forward-only cursor over them.
//!
//! A document is a finite sequence of events: element start (with its
//! attributes), element end, significant text, and markup of no interest to
//! the model. The cursor hands events out one at a time and never rewinds;
//! past the end of the sequence it reports the terminal event explicitly.
//! Every contract in this crate speaks of the mathematical view of the
//! sequence: a `Seq<EventView>`.

use vstd::prelude::*;

use crate::error::{Error, Result};

verus! {

/// One attribute of a start event: a name and its raw textual value.
#[derive(Debug, PartialEq, Eq)]
pub struct XmlAttr {
    pub name: String,
    pub value: String,
}

/// The mathematical value of an attribute.
pub struct AttrView {
    pub name: Seq<char>,
    pub value: Seq<char>,
}

impl View for XmlAttr {
    type V = AttrView;

    open spec fn view(&self) -> AttrView {
        AttrView { name: self.name@, value: self.value@ }
    }
}

impl Clone for XmlAttr {
    fn clone(&self) -> (r: Self)
        ensures
            r == *self,
    {
        XmlAttr { name: self.name.clone(), value: self.value.clone() }
    }
}

/// One structural event of a document.
#[derive(Debug, PartialEq, Eq)]
pub enum XmlEvent {
    /// An element opened, with its local name and attributes. Self-closing
    /// elements appear as a start followed immediately by an end.
    Start(String, Vec<XmlAttr>),
    /// An element closed, with its local name.
    End(String),
    /// Significant (non-whitespace) character data.
    Text(String),
    /// Markup that the model ignores (comments, declarations, and the like).
    Other,
    /// The terminal event: physical end of input.
    Eof,
}

/// The mathematical value of an event.
pub enum EventView {
    Start(Seq<char>, Seq<AttrView>),
    End(Seq<char>),
    Text(Seq<char>),
    Other,
    Eof,
}

impl View for XmlEvent {
    type V = EventView;

    open spec fn view(&self) -> EventView {
        match self {
            XmlEvent::Start(n, a) => EventView::Start(n@, a@.map_values(|x: XmlAttr| x@)),
            XmlEvent::End(n) => EventView::End(n@),
            XmlEvent::Text(t) => EventView::Text(t@),
            XmlEvent::Other => EventView::Other,
            XmlEvent::Eof => EventView::Eof,
        }
    }
}

/// Clones every attribute of a list, preserving the values exactly.
pub fn clone_attrs(attrs: &Vec<XmlAttr>) -> (r: Vec<XmlAttr>)
    ensures
        r@ == attrs@,
{
    let mut out: Vec<XmlAttr> = Vec::new();
    let mut i: usize = 0;
    while i < attrs.len()
        invariant
            i <= attrs.len(),
            out@ =~= attrs@.subrange(0, i as int),
        decreases attrs.len() - i,
    {
        out.push(attrs[i].clone());
        i = i + 1;
    }
    assert(out@ =~= attrs@);
    out
}

impl Clone for XmlEvent {
    fn clone(&self) -> (r: Self)
        ensures
            r@ == self@,
    {
        match self {
            XmlEvent::Start(n, a) => XmlEvent::Start(n.clone(), clone_attrs(a)),
            XmlEvent::End(n) => XmlEvent::End(n.clone()),
            XmlEvent::Text(t) => XmlEvent::Text(t.clone()),
            XmlEvent::Other => XmlEvent::Other,
            XmlEvent::Eof => XmlEvent::Eof,
        }
    }
}

/// True when a tag name reads as the given literal.
pub fn tag_is(name: &String, lit: &str) -> (r: bool)
    ensures
        r == (name@ == lit@),
{
    let owned = lit.to_owned();
    let r = name.eq(&owned);
    r
}

/// The single-pass cursor over a document's events: the event stream that
/// every parser in this crate consumes.
pub struct ReaderIterator {
    events: Vec<XmlEvent>,
    pos: usize,
}

impl ReaderIterator {
    /// The whole event sequence under the cursor, as mathematical values.
    pub closed spec fn events(&self) -> Seq<EventView> {
        self.events@.map_values(|e: XmlEvent| e@)
    }

    /// How far the cursor has advanced.
    pub closed spec fn pos(&self) -> int {
        self.pos as int
    }

    /// Structural validity: the cursor never points past the end.
    pub open spec fn wf(&self) -> bool {
        0 <= self.pos() <= self.events().len()
    }

    /// A well-formed cursor's position lies within its event sequence.
    pub proof fn lemma_wf(&self)
        requires
            self.wf(),
        ensures
            0 <= self.pos() <= self.events().len(),
    {
    }

    /// Opens a cursor at the first event of a sequence.
    pub fn new(events: Vec<XmlEvent>) -> (r: ReaderIterator)
        ensures
            r.events() == events@.map_values(|e: XmlEvent| e@),
            r.pos() == 0,
            r.wf(),
    {
        ReaderIterator { events, pos: 0 }
    }

    /// Hands out the next event and advances; past the end of the sequence
    /// it reports the terminal event and stays put.
    pub fn next(&mut self) -> (e: XmlEvent)
        requires
            old(self).wf(),
        ensures
            final(self).wf(),
            0 <= final(self).pos() <= final(self).events().len(),
            final(self).events() == old(self).events(),
            old(self).pos() < old(self).events().len() ==> {
                &&& e@ == old(self).events()[old(self).pos()]
                &&& final(self).pos() == old(self).pos() + 1
            },
            old(self).pos() >= old(self).events().len() ==> {
                &&& e@ == (EventView::Eof)
                &&& final(self).pos() == old(self).pos()
            },
    {
        if self.pos < self.events.len() {
            let e = self.events[self.pos].clone();
            self.pos = self.pos + 1;
            e
        } else {
            XmlEvent::Eof
        }
    }
}

/// Where a subtree that has `depth + 1` elements still open at event `i`
/// is fully closed: the index just past the end event that closes the
/// outermost of them, or `None` when the sequence runs out first.
pub open spec fn close_index(evs: Seq<EventView>, i: int, depth: nat) -> Option<int>
    decreases evs.len() - i when 0 <= i
{
    if i >= evs.len() {
        None
    } else {
        match evs[i] {
            EventView::Start(_, _) => close_index(evs, i + 1, depth + 1),
            EventView::End(_) => if depth == 0 {
                Some(i + 1)
            } else {
                close_index(evs, i + 1, (depth - 1) as nat)
            },
            EventView::Eof => None,
            _ => close_index(evs, i + 1, depth),
        }
    }
}

/// A closing index lies past the events it skips, and within the sequence.
pub proof fn lemma_close_index_bounds(evs: Seq<EventView>, i: int, depth: nat)
    requires
        0 <= i,
        close_index(evs, i, depth) is Some,
    ensures
        i < close_index(evs, i, depth)->Some_0 <= evs.len(),
    decreases evs.len() - i,
{
    if i < evs.len() {
        match evs[i] {
            EventView::Start(_, _) => lemma_close_index_bounds(evs, i + 1, depth + 1),
            EventView::End(_) => if depth != 0 {
                lemma_close_index_bounds(evs, i + 1, (depth - 1) as nat)
            },
            EventView::Eof => (),
            _ => lemma_close_index_bounds(evs, i + 1, depth),
        }
    }
}

/// Consumes the rest of the element that is currently open: everything up
/// to and including the end event that closes it, unrecognized children and
/// their whole subtrees included. Fails with a premature-end error when the
/// stream reaches its terminal event first.
pub fn skip_to_element_end(stream: &mut ReaderIterator) -> (r: Result<()>)
    requires
        old(stream).wf(),
    ensures
        final(stream).wf(),
        0 <= final(stream).pos() <= final(stream).events().len(),
        final(stream).events() == old(stream).events(),
        final(stream).pos() >= old(stream).pos(),
        match close_index(old(stream).events(), old(stream).pos(), 0) {
            Some(j) => r is Ok && final(stream).pos() == j,
            None => r matches Err(Error::PrematureEnd(_)),
        },
{
    proof {
        stream.lemma_wf();
    }
    let mut depth: usize = 0;
    loop
        invariant
            stream.wf(),
            0 <= stream.pos() <= stream.events().len(),
            stream.events() == old(stream).events(),
            old(stream).pos() <= stream.pos() <= stream.events().len(),
            depth <= stream.pos() - old(stream).pos(),
            close_index(stream.events(), stream.pos(), depth as nat)
                == close_index(old(stream).events(), old(stream).pos(), 0),
        decreases stream.events().len() - stream.pos(),
    {
        let ghost p = stream.pos();
        match stream.next() {
            XmlEvent::Eof => {
                return Err(Error::PrematureEnd("document ended inside an element".to_owned()));
            },
            XmlEvent::Start(_, _) => {
                depth = depth + 1;
            },
            XmlEvent::End(_) => {
                if depth == 0 {
                    return Ok(());
                }
                depth = depth - 1;
            },
            _ => {},
        }
    }
}

} // verus!

verus! {

/// Where the expected root element opens: the index of the first start
/// event with the given name, every other event before it being skipped, or
/// nothing when the sequence runs out first.
pub open spec fn find_root(evs: Seq<EventView>, i: int, name: Seq<char>) -> Option<int>
    decreases evs.len() - i when 0 <= i
{
    if i >= evs.len() {
        None
    } else {
        match evs[i] {
            EventView::Start(n, _) => if n == name {
                Some(i)
            } else {
                find_root(evs, i + 1, name)
            },
            EventView::Eof => None,
            _ => find_root(evs, i + 1, name),
        }
    }
}

/// Advances the stream to the expected root element and hands its
/// attributes out; the document ending before the root opens is a
/// premature-end error.
pub fn seek_root(stream: &mut ReaderIterator, name: &str) -> (r: Result<Vec<XmlAttr>>)
    requires
        old(stream).wf(),
    ensures
        final(stream).wf(),
        final(stream).events() == old(stream).events(),
        final(stream).pos() >= old(stream).pos(),
        match find_root(old(stream).events(), old(stream).pos(), name@) {
            None => r matches Err(Error::PrematureEnd(_)),
            Some(j) => (r matches Ok(a) && final(stream).pos() == j + 1 && (old(
                stream,
            ).events()[j] matches EventView::Start(n2, at) && a@.map_values(|x: XmlAttr| x@)
                == at)),
        },
{
    proof {
        stream.lemma_wf();
    }
    loop
        invariant
            stream.wf(),
            0 <= stream.pos() <= stream.events().len(),
            stream.events() == old(stream).events(),
            stream.pos() >= old(stream).pos(),
            find_root(stream.events(), stream.pos(), name@) == find_root(
                old(stream).events(),
                old(stream).pos(),
                name@,
            ),
        decreases stream.events().len() - stream.pos(),
    {
        match stream.next() {
            XmlEvent::Eof => {
                return Err(
                    Error::PrematureEnd("document ended before the root element".to_owned()),
                );
            },
            XmlEvent::Start(n, attrs) => {
                if tag_is(&n, name) {
                    return Ok(attrs);
                }
            },
            _ => {},
        }
    }
}

} // verus!
