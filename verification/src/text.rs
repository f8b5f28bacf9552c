//! Textual decoding of numbers: strict decimal attribute values, and the
//! lenient wrapping accumulation used by delimited tile-layer payloads.
//!
//! All statements are over the UTF-8 bytes of the text. A decimal digit and
//! the delimiter are single bytes; every byte of a multi-byte character lies
//! outside their range, so byte-wise scanning ignores exactly the characters
//! the format treats as insignificant.

use vstd::prelude::*;
use vstd::string::StringSliceAdditionalSpecFns;

verus! {

/// True when the bytes are one or more ASCII decimal digits and nothing else.
pub open spec fn is_dec_digits(s: Seq<u8>) -> bool {
    s.len() > 0 && forall|i: int| 0 <= i < s.len() ==> 48 <= #[trigger] s[i] <= 57
}

/// The value of a run of decimal digit bytes, most significant first.
pub open spec fn dec_value(s: Seq<u8>) -> int
    decreases s.len(),
{
    if s.len() == 0 {
        0
    } else {
        dec_value(s.drop_last()) * 10 + (s.last() - 48)
    }
}

/// Digit runs have non-negative value.
pub proof fn lemma_dec_value_nonneg(s: Seq<u8>)
    requires
        forall|i: int| 0 <= i < s.len() ==> 48 <= #[trigger] s[i] <= 57,
    ensures
        dec_value(s) >= 0,
    decreases s.len(),
{
    if s.len() > 0 {
        lemma_dec_value_nonneg(s.drop_last());
    }
}

/// Extending a digit run to the right never lowers its value.
pub proof fn lemma_dec_value_mono(s: Seq<u8>, j: int, k: int)
    requires
        0 <= j <= k <= s.len(),
        forall|i: int| 0 <= i < s.len() ==> 48 <= #[trigger] s[i] <= 57,
    ensures
        dec_value(s.subrange(0, j)) <= dec_value(s.subrange(0, k)),
    decreases k - j,
{
    if j < k {
        lemma_dec_value_mono(s, j, k - 1);
        let prev = s.subrange(0, k - 1);
        let cur = s.subrange(0, k);
        assert(cur.drop_last() =~= prev);
        lemma_dec_value_nonneg(prev);
    }
}

/// Parses a strict decimal unsigned 32-bit value: the text must be one or
/// more digits, with no sign, no surrounding space, and a value that fits.
/// Anything else is rejected.
pub fn parse_u32(s: &str) -> (r: Option<u32>)
    ensures
        if is_dec_digits(s.spec_bytes()) && dec_value(s.spec_bytes()) <= u32::MAX {
            r == Some(dec_value(s.spec_bytes()) as u32)
        } else {
            r is None
        },
{
    let b = s.as_bytes();
    if b.len() == 0 {
        return None;
    }
    let ghost bs = b@;
    let mut acc: u32 = 0;
    let mut i: usize = 0;
    while i < b.len()
        invariant
            b@ == bs,
            bs == s.spec_bytes(),
            0 <= i <= bs.len(),
            forall|k: int| 0 <= k < i ==> 48 <= #[trigger] bs[k] <= 57,
            acc == dec_value(bs.subrange(0, i as int)),
        decreases b.len() - i,
    {
        let c = b[i];
        if c < 48 || c > 57 {
            return None;
        }
        let d: u32 = (c - 48) as u32;
        if acc > (0xFFFF_FFFFu32 - d) / 10 {
            proof {
                let pre = bs.subrange(0, i as int + 1);
                assert(pre.drop_last() =~= bs.subrange(0, i as int));
                assert(dec_value(pre) > u32::MAX) by {
                    lemma_dec_value_nonneg(pre.drop_last());
                };
                if is_dec_digits(bs) {
                    lemma_dec_value_mono(bs, i as int + 1, bs.len() as int);
                    assert(bs.subrange(0, bs.len() as int) =~= bs);
                }
            }
            return None;
        }
        proof {
            let pre = bs.subrange(0, i as int + 1);
            assert(pre.drop_last() =~= bs.subrange(0, i as int));
        }
        acc = acc * 10 + d;
        i = i + 1;
    }
    proof {
        assert(bs.subrange(0, bs.len() as int) =~= bs);
    }
    Some(acc)
}

/// One lenient accumulation step of the delimited-text payload: the running
/// value times ten plus the digit, reduced modulo two to the thirty-second.
pub open spec fn wrap_step(cur: u32, digit: u8) -> u32 {
    ((cur * 10 + (digit - 48)) % 0x1_0000_0000) as u32
}

/// The raw cell values of a delimited-text payload: the delimiter byte closes
/// the running value, digit bytes accumulate with wrapping, and every other
/// byte is insignificant. The value running at the end of the text is the
/// last cell.
pub open spec fn csv_raw_values(s: Seq<u8>, cur: u32) -> Seq<u32>
    decreases s.len(),
{
    if s.len() == 0 {
        seq![cur]
    } else if s[0] == 44 {
        seq![cur] + csv_raw_values(s.drop_first(), 0)
    } else if 48 <= s[0] <= 57 {
        csv_raw_values(s.drop_first(), wrap_step(cur, s[0]))
    } else {
        csv_raw_values(s.drop_first(), cur)
    }
}

/// Reads the raw 32-bit cell values out of a delimited-text payload.
pub fn csv_values(s: &str) -> (r: Vec<u32>)
    ensures
        r@ == csv_raw_values(s.spec_bytes(), 0),
{
    let b = s.as_bytes();
    let ghost bs = b@;
    let mut out: Vec<u32> = Vec::new();
    let mut cur: u32 = 0;
    let mut i: usize = 0;
    proof {
        assert(bs.subrange(0, bs.len() as int) =~= bs);
        assert(out@ + csv_raw_values(bs, 0) =~= csv_raw_values(bs, 0));
    }
    while i < b.len()
        invariant
            b@ == bs,
            bs == s.spec_bytes(),
            0 <= i <= bs.len(),
            out@ + csv_raw_values(bs.subrange(i as int, bs.len() as int), cur)
                == csv_raw_values(bs, 0),
        decreases b.len() - i,
    {
        let ghost tail = bs.subrange(i as int, bs.len() as int);
        proof {
            assert(tail.drop_first() =~= bs.subrange(i as int + 1, bs.len() as int));
        }
        let c = b[i];
        if c == 44 {
            out.push(cur);
            cur = 0;
        } else if 48 <= c && c <= 57 {
            cur = (((cur as u64) * 10 + ((c - 48) as u64)) % 0x1_0000_0000) as u32;
        }
        i = i + 1;
    }
    proof {
        assert(bs.subrange(bs.len() as int, bs.len() as int) =~= Seq::<u8>::empty());
    }
    out.push(cur);
    proof {
        assert(out@ =~= csv_raw_values(bs, 0));
    }
    out
}

} // verus!
