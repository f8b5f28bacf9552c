//! The trusted boundary to the external token source: quick_xml turns a
//! document's text into this crate's structural events. Everything after
//! this sequence is verified; the tokenization itself is the assumed-correct
//! collaborator of the design.

use vstd::prelude::*;

use crate::error::{Error, Result};
use crate::events::{EventView, XmlAttr, XmlEvent};

verus! {

/// What the external token source makes of a document's text: its finite
/// event sequence, or nothing when the markup is malformed. A function of
/// the text alone.
pub uninterp spec fn xml_tokens(text: Seq<char>) -> Option<Seq<EventView>>;

#[verifier::external_type_specification]
#[verifier::external_body]
#[verifier::reject_recursive_types(R)]
pub struct ExReader<R>(quick_xml::Reader<R>);

#[verifier::external_type_specification]
#[verifier::external_body]
pub struct ExBytesStart<'a>(quick_xml::events::BytesStart<'a>);

/// Relies on quick_xml's `Reader::from_str` and its configuration:
/// whitespace-only text is trimmed away and self-closing elements are
/// reported as a start event with an immediate end event.
#[verifier::external_body]
fn new_reader<'a>(s: &'a str) -> quick_xml::Reader<&'a [u8]> {
    let mut r = quick_xml::Reader::from_str(s);
    r.config_mut().trim_text(true);
    r.config_mut().expand_empty_elements = true;
    r
}

/// Relies on quick_xml's `BytesStart`: the opened element's local name,
/// and its attributes with their names and normalized values, as plain
/// values. Leniencies of the token source carried over: an attribute that
/// quick_xml cannot parse is dropped, and a value whose normalization fails
/// reads as the empty string.
#[verifier::external_body]
fn convert_start(e: &quick_xml::events::BytesStart) -> (String, Vec<XmlAttr>) {
    let name = e.local_name().as_ref().to_string();
    let attrs = e.attributes().filter_map(|a| a.ok()).map(|a| XmlAttr {
        name: a.key.local_name().as_ref().to_string(),
        value: a.normalized_value(quick_xml::XmlVersion::Implicit1_0).map_or(String::new(), |v| v.into_owned()),
    }).collect();
    (name, attrs)
}

/// Relies on quick_xml's `Reader::read_event` for the next structural
/// token, converted to this crate's event type; markup of no interest to
/// the model is handed back as `Other`, and a syntax error carries
/// quick_xml's message.
#[verifier::external_body]
fn next_raw_event<'a>(r: &mut quick_xml::Reader<&'a [u8]>) -> Result<XmlEvent> {
    match r.read_event() {
        Err(e) => Err(Error::XmlDecodingError(format!("{}", e))),
        Ok(quick_xml::events::Event::Start(e)) => {
            let (name, attrs) = convert_start(&e);
            Ok(XmlEvent::Start(name, attrs))
        },
        Ok(quick_xml::events::Event::End(e)) => Ok(XmlEvent::End(e.local_name().as_ref().to_string())),
        Ok(quick_xml::events::Event::Text(t)) => Ok(XmlEvent::Text(t.xml10_content().into_owned())),
        Ok(quick_xml::events::Event::Eof) => Ok(XmlEvent::Eof),
        Ok(_) => Ok(XmlEvent::Other),
    }
}

/// Turns a document's text into its finite event sequence, pulling from the
/// external token source until its terminal event; a syntax error surfaces
/// verbatim, exactly when the source rejects the text. The sequence itself
/// never holds the terminal event: the cursor reports it past the end.
/// Relies on quick_xml reading a document deterministically from its text.
#[verifier::external_body]
pub fn tokenize(text: &str) -> (r: Result<Vec<XmlEvent>>)
    ensures
        match r {
            Ok(v) => xml_tokens(text@) == Some(v@.map_values(|e: XmlEvent| e@)),
            Err(e) => xml_tokens(text@) is None && e matches Error::XmlDecodingError(_),
        },
{
    let mut reader = new_reader(text);
    let mut out: Vec<XmlEvent> = Vec::new();
    loop {
        match next_raw_event(&mut reader) {
            Err(e) => return Err(e),
            Ok(XmlEvent::Eof) => return Ok(out),
            Ok(e) => out.push(e),
        }
    }
}

} // verus!
