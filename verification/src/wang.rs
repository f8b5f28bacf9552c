//! Auto-tile patterns: the eight-value per-tile descriptor parsed from a
//! bracketed comma-separated list. Exactly eight values are required; an
//! individual entry that is not a decimal byte decodes leniently as 0.

use vstd::prelude::*;
use vstd::string::StringSliceAdditionalSpecFns;
use vstd::utf8::encode_utf8;

use crate::attrs::{attr_err_msg, attr_lookup, get_attr, require_u32_attr, spec_u32_attr};
use crate::error::{Error, Result};
use crate::events::XmlAttr;
use crate::text::{dec_value, is_dec_digits};

verus! {

/// The auto-tile pattern of one tile: eight unsigned byte values, one per
/// corner or edge position.
#[derive(Debug, PartialEq, Eq, Clone, Copy)]
pub struct WangId(pub [u8; 8]);

/// The pattern read from one pattern element.
#[derive(Debug, PartialEq, Eq, Clone, Copy)]
pub struct WangTile {
    /// The pattern of the tile.
    pub wang_id: WangId,
}

/// The text with every leading opening bracket removed.
pub open spec fn trim_lead(b: Seq<u8>) -> Seq<u8>
    decreases b.len(),
{
    if b.len() > 0 && b[0] == 91 {
        trim_lead(b.drop_first())
    } else {
        b
    }
}

/// The text with every trailing closing bracket removed.
pub open spec fn trim_trail(b: Seq<u8>) -> Seq<u8>
    decreases b.len(),
{
    if b.len() > 0 && b.last() == 93 {
        trim_trail(b.drop_last())
    } else {
        b
    }
}

/// One list entry with an optional single leading plus sign removed: the
/// digits that give the entry its value.
pub open spec fn wang_digits(piece: Seq<u8>) -> Seq<u8> {
    if piece.len() > 0 && piece[0] == 43 {
        piece.drop_first()
    } else {
        piece
    }
}

/// The lenient value of one list entry: its decimal value when the entry is
/// a digit run, optionally signed with a plus, that fits in a byte; 0 for
/// anything else.
pub open spec fn wang_val(piece: Seq<u8>) -> u8 {
    if is_dec_digits(wang_digits(piece)) && dec_value(wang_digits(piece)) <= 255 {
        dec_value(wang_digits(piece)) as u8
    } else {
        0
    }
}

/// The entry values of a comma-separated text, `cur` being the bytes of the
/// entry under construction: a comma closes an entry, every other byte
/// belongs to the entry it stands in.
pub open spec fn wang_vals(b: Seq<u8>, cur: Seq<u8>) -> Seq<u8>
    decreases b.len(),
{
    if b.len() == 0 {
        seq![wang_val(cur)]
    } else if b[0] == 44 {
        seq![wang_val(cur)] + wang_vals(b.drop_first(), Seq::empty())
    } else {
        wang_vals(b.drop_first(), cur.push(b[0]))
    }
}

/// The lenient value of one list entry, computed.
fn wang_value_of(piece: &Vec<u8>) -> (r: u8)
    ensures
        r == wang_val(piece@),
{
    let ghost full = piece@;
    let start: usize = if piece.len() > 0 && piece[0] == 43 {
        1
    } else {
        0
    };
    let ghost ps = wang_digits(full);
    proof {
        assert(ps =~= full.subrange(start as int, full.len() as int));
        assert(ps.subrange(0, 0) =~= Seq::<u8>::empty());
    }
    let mut all_digits = piece.len() > start;
    let mut acc: u32 = 0;
    let mut i: usize = start;
    while i < piece.len()
        invariant
            full == piece@,
            ps == wang_digits(full),
            start <= 1,
            ps =~= full.subrange(start as int, full.len() as int),
            start <= i <= full.len(),
            all_digits == (ps.len() > 0 && forall|k: int|
                0 <= k < i - start ==> 48 <= #[trigger] ps[k] <= 57),
            all_digits ==> {
                let v = dec_value(ps.subrange(0, i - start));
                (v <= 255 && acc == v) || (v > 255 && acc > 255 && acc <= 2559)
            },
            acc <= 2559,
        decreases piece.len() - i,
    {
        let c = piece[i];
        proof {
            assert(ps[i - start] == full[i as int]);
            let pre = ps.subrange(0, i - start + 1);
            assert(pre.drop_last() =~= ps.subrange(0, i - start));
            if all_digits && 48 <= c <= 57 {
                crate::text::lemma_dec_value_nonneg(ps.subrange(0, i - start));
            }
        }
        if c < 48 || c > 57 {
            all_digits = false;
        } else if acc <= 255 {
            acc = acc * 10 + ((c - 48) as u32);
        }
        i = i + 1;
    }
    proof {
        assert(ps.subrange(0, full.len() - start) =~= ps);
    }
    if all_digits && acc <= 255 {
        acc as u8
    } else {
        0
    }
}

impl WangId {
    /// Parses the bracketed comma-separated textual encoding of a pattern:
    /// leading and trailing brackets are stripped, the rest splits on
    /// commas, each entry decodes leniently, and any count but eight is a
    /// structured encoding error carrying the text as read.
    pub fn from_str(s: &str) -> (r: Result<WangId>)
        ensures
            ({
                let vs = wang_vals(trim_trail(trim_lead(s.spec_bytes())), Seq::empty());
                if vs.len() == 8 {
                    r matches Ok(w) && w.0@ == vs
                } else {
                    r matches Err(Error::InvalidWangIdEncoding { read_string: rs }) && rs@ == s@
                }
            }),
    {
        let b = s.as_bytes();
        let ghost bs = b@;
        let mut lo: usize = 0;
        proof {
            assert(bs.subrange(0, bs.len() as int) =~= bs);
        }
        while lo < b.len() && b[lo] == 91
            invariant
                bs == b@,
                0 <= lo <= bs.len(),
                trim_lead(bs) == trim_lead(bs.subrange(lo as int, bs.len() as int)),
            decreases b.len() - lo,
        {
            proof {
                let t = bs.subrange(lo as int, bs.len() as int);
                assert(t.drop_first() =~= bs.subrange(lo as int + 1, bs.len() as int));
            }
            lo = lo + 1;
        }
        proof {
            let t = bs.subrange(lo as int, bs.len() as int);
            assert(trim_lead(t) == t);
        }
        let mut hi: usize = b.len();
        while hi > lo && b[hi - 1] == 93
            invariant
                bs == b@,
                lo <= hi <= bs.len(),
                trim_trail(bs.subrange(lo as int, bs.len() as int)) == trim_trail(
                    bs.subrange(lo as int, hi as int),
                ),
            decreases hi,
        {
            proof {
                let t = bs.subrange(lo as int, hi as int);
                assert(t.drop_last() =~= bs.subrange(lo as int, hi as int - 1));
            }
            hi = hi - 1;
        }
        let ghost mid = bs.subrange(lo as int, hi as int);
        proof {
            assert(trim_trail(mid) == mid);
            assert(mid == trim_trail(trim_lead(bs)));
        }
        let mut vals: Vec<u8> = Vec::new();
        let mut cur: Vec<u8> = Vec::new();
        let mut i: usize = lo;
        proof {
            assert(mid.subrange(0, mid.len() as int) =~= mid);
        }
        while i < hi
            invariant
                bs == b@,
                lo <= i <= hi <= bs.len(),
                mid == bs.subrange(lo as int, hi as int),
                vals@ + wang_vals(bs.subrange(i as int, hi as int), cur@) == wang_vals(
                    mid,
                    Seq::empty(),
                ),
            decreases hi - i,
        {
            let ghost tail = bs.subrange(i as int, hi as int);
            proof {
                assert(tail.drop_first() =~= bs.subrange(i as int + 1, hi as int));
            }
            let c = b[i];
            if c == 44 {
                let v = wang_value_of(&cur);
                vals.push(v);
                cur = Vec::new();
            } else {
                cur.push(c);
            }
            i = i + 1;
        }
        proof {
            assert(bs.subrange(hi as int, hi as int) =~= Seq::<u8>::empty());
        }
        let v = wang_value_of(&cur);
        vals.push(v);
        proof {
            assert(vals@ =~= wang_vals(mid, Seq::empty()));
        }
        if vals.len() == 8 {
            let arr: [u8; 8] = [vals[0], vals[1], vals[2], vals[3], vals[4], vals[5], vals[6], vals[7]];
            proof {
                assert(arr@ =~= vals@);
            }
            Ok(WangId(arr))
        } else {
            Err(Error::InvalidWangIdEncoding { read_string: s.to_owned() })
        }
    }
}

impl WangTile {
    /// Reads one pattern element: the owning tile's local id and the
    /// pattern text, decoded as `WangId::from_str` does.
    pub fn new(attrs: &Vec<XmlAttr>) -> (r: Result<(u32, WangTile)>)
        ensures
            ({
                let av = attrs@.map_values(|x: XmlAttr| x@);
                match (spec_u32_attr(av, "tileid"@), attr_lookup(av, "wangid"@)) {
                    (Some(t), Some(w)) => {
                        let vs = wang_vals(trim_trail(trim_lead(encode_utf8(w))), Seq::empty());
                        if vs.len() == 8 {
                            r matches Ok(p) && p.0 == t && p.1.wang_id.0@ == vs
                        } else {
                            r matches Err(Error::InvalidWangIdEncoding { read_string: rs })
                                && rs@ == w
                        }
                    },
                    (None, _) => r matches Err(Error::MalformedAttributes(m)) && m@
                        == attr_err_msg(av, "tileid"@),
                    (Some(_), None) => r matches Err(Error::MalformedAttributes(m)) && m@
                        == "wangid"@,
                }
            }),
    {
        let tile_id = match require_u32_attr(attrs, "tileid") {
            Ok(v) => v,
            Err(e) => {
                return Err(e);
            },
        };
        let text = match get_attr(attrs, "wangid") {
            Some(v) => v,
            None => {
                return Err(Error::MalformedAttributes("wangid".to_owned()));
            },
        };
        match WangId::from_str(text.as_str()) {
            Ok(w) => Ok((tile_id, WangTile { wang_id: w })),
            Err(e) => Err(e),
        }
    }
}

} // verus!
