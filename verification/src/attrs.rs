//! The attribute decoder: extraction of named attributes from a start
//! event's attribute set, and their conversion to semantic types. Unknown
//! attributes are ignored; of a repeated name the last occurrence counts.

use vstd::prelude::*;
use vstd::string::StringExecFns;
use vstd::string::StringSliceAdditionalSpecFns;
use vstd::utf8::encode_utf8;

use crate::error::{Error, Result};
use crate::events::{AttrView, XmlAttr};
use crate::text::{dec_value, is_dec_digits, parse_u32};

verus! {

/// The raw text of the last attribute with the given name, if any.
pub open spec fn attr_lookup(attrs: Seq<AttrView>, name: Seq<char>) -> Option<Seq<char>>
    decreases attrs.len(),
{
    if attrs.len() == 0 {
        None
    } else if attrs.last().name == name {
        Some(attrs.last().value)
    } else {
        attr_lookup(attrs.drop_last(), name)
    }
}

/// Finds the last attribute with the given name and hands its raw text out.
pub fn get_attr(attrs: &Vec<XmlAttr>, name: &str) -> (r: Option<String>)
    ensures
        match attr_lookup(attrs@.map_values(|x: XmlAttr| x@), name@) {
            Some(v) => r matches Some(s) && s@ == v,
            None => r is None,
        },
{
    let ghost vs = attrs@.map_values(|x: XmlAttr| x@);
    let mut found: Option<String> = None;
    let mut i: usize = 0;
    proof {
        assert(vs.subrange(0, 0) =~= Seq::<AttrView>::empty());
    }
    while i < attrs.len()
        invariant
            vs == attrs@.map_values(|x: XmlAttr| x@),
            0 <= i <= attrs.len(),
            match attr_lookup(vs.subrange(0, i as int), name@) {
                Some(v) => found matches Some(s) && s@ == v,
                None => found is None,
            },
        decreases attrs.len() - i,
    {
        let a = &attrs[i];
        if tag_eq(&a.name, name) {
            found = Some(a.value.clone());
        }
        proof {
            let pre = vs.subrange(0, i as int + 1);
            assert(pre.drop_last() =~= vs.subrange(0, i as int));
            assert(pre.last() == vs[i as int]);
        }
        i = i + 1;
    }
    proof {
        assert(vs.subrange(0, vs.len() as int) =~= vs);
    }
    found
}

/// True when an attribute name reads as the given literal.
fn tag_eq(name: &String, lit: &str) -> (r: bool)
    ensures
        r == (name@ == lit@),
{
    let owned = lit.to_owned();
    name.eq(&owned)
}

/// The value of a named attribute as a strict decimal unsigned 32-bit
/// number: `None` when the attribute is absent, not a digit run, or too
/// large.
pub open spec fn spec_u32_attr(attrs: Seq<AttrView>, name: Seq<char>) -> Option<u32> {
    match attr_lookup(attrs, name) {
        None => None,
        Some(v) => {
            let b = encode_utf8(v);
            if is_dec_digits(b) && dec_value(b) <= u32::MAX {
                Some(dec_value(b) as u32)
            } else {
                None
            }
        },
    }
}

/// Reads a named attribute as an unsigned 32-bit decimal.
pub fn get_u32_attr(attrs: &Vec<XmlAttr>, name: &str) -> (r: Option<u32>)
    ensures
        r == spec_u32_attr(attrs@.map_values(|x: XmlAttr| x@), name@),
{
    match get_attr(attrs, name) {
        None => None,
        Some(v) => parse_u32(v.as_str()),
    }
}

/// The report of a failed attribute: the field's name, and the raw text it
/// carried when the field was present but did not convert.
pub open spec fn attr_err_msg(attrs: Seq<AttrView>, name: Seq<char>) -> Seq<char> {
    match attr_lookup(attrs, name) {
        None => name,
        Some(raw) => name + "="@ + raw,
    }
}

/// Reads a required attribute as an unsigned 32-bit decimal, failing with a
/// structured attribute error — naming the field, and the raw text when one
/// was present — when it is missing or does not convert.
pub fn require_u32_attr(attrs: &Vec<XmlAttr>, name: &str) -> (r: Result<u32>)
    ensures
        match spec_u32_attr(attrs@.map_values(|x: XmlAttr| x@), name@) {
            Some(v) => r == Result::<u32>::Ok(v),
            None => r matches Err(Error::MalformedAttributes(m)) && m@ == attr_err_msg(
                attrs@.map_values(|x: XmlAttr| x@),
                name@,
            ),
        },
{
    match get_u32_attr(attrs, name) {
        Some(v) => Ok(v),
        None => {
            let mut msg = name.to_owned();
            match get_attr(attrs, name) {
                Some(raw) => {
                    msg.append("=");
                    msg.append(raw.as_str());
                },
                None => (),
            }
            Err(Error::MalformedAttributes(msg))
        },
    }
}

} // verus!
