//! The tile-layer decoder: turning a data element's payload into the decoded
//! sequence of optional tile cells. Four pipelines are supported, chosen by
//! the element's (encoding, compression) pair: delimited text, packed binary,
//! and packed binary behind one of three decompression algorithms. Any other
//! pair is rejected as an invalid combination.

use vstd::prelude::*;
use vstd::string::StringSliceAdditionalSpecFns;
use vstd::utf8::encode_utf8;

use crate::error::{Error, Result};
use crate::events::{EventView, ReaderIterator, XmlEvent, tag_is};
use crate::gids::{LayerTileData, spec_from_bits};
use crate::text::csv_raw_values;
use crate::text::csv_values;
use crate::tileset::MapTilesetGid;

verus! {

broadcast use vstd::string::group_string_axioms;

/// What the base64 crate's standard padded engine decodes a text to, when it
/// decodes at all. A function of the text alone.
pub uninterp spec fn base64_decoded(s: Seq<char>) -> Option<Seq<u8>>;

/// What the zlib algorithm inflates a byte sequence to, when the sequence is
/// a valid zlib stream. A function of the bytes alone.
pub uninterp spec fn zlib_inflated(b: Seq<u8>) -> Option<Seq<u8>>;

/// What the gzip algorithm inflates a byte sequence to, when the sequence is
/// a valid gzip stream. A function of the bytes alone.
pub uninterp spec fn gzip_inflated(b: Seq<u8>) -> Option<Seq<u8>>;

/// What the zstd algorithm decompresses a byte sequence to, when the
/// sequence is a valid zstd frame. A function of the bytes alone.
pub uninterp spec fn zstd_inflated(b: Seq<u8>) -> Option<Seq<u8>>;

/// Relies on the base64 crate's `Engine::decode` with the standard alphabet
/// and mandatory padding: decoding is a pure function of the text, and
/// rejects any text that is not a valid padded base64 block.
#[verifier::external_body]
fn decode_base64(s: &str) -> (r: Result<Vec<u8>>)
    ensures
        match r {
            Ok(v) => base64_decoded(s@) == Some(v@),
            Err(e) => base64_decoded(s@) is None && e matches Error::Base64DecodingError(_),
        },
{
    base64::Engine::decode(&base64::engine::general_purpose::STANDARD, s.as_bytes())
        .map_err(|e| Error::Base64DecodingError(format!("{}", e)))
}

/// Relies on the libflate zlib decoder, read to its end: inflation is a pure
/// function of the input bytes, and fails exactly on invalid streams.
#[verifier::external_body]
fn inflate_zlib(data: &Vec<u8>) -> (r: Result<Vec<u8>>)
    ensures
        match r {
            Ok(v) => zlib_inflated(data@) == Some(v@),
            Err(e) => zlib_inflated(data@) is None && e matches Error::DecompressingError(_),
        },
{
    let mut out = Vec::new();
    match libflate::zlib::Decoder::new(&data[..]) {
        Ok(mut d) => match std::io::Read::read_to_end(&mut d, &mut out) {
            Ok(_) => Ok(out),
            Err(e) => Err(Error::DecompressingError(format!("{}", e))),
        },
        Err(e) => Err(Error::DecompressingError(format!("{}", e))),
    }
}

/// Relies on the libflate gzip decoder, read to its end: inflation is a pure
/// function of the input bytes, and fails exactly on invalid streams.
#[verifier::external_body]
fn inflate_gzip(data: &Vec<u8>) -> (r: Result<Vec<u8>>)
    ensures
        match r {
            Ok(v) => gzip_inflated(data@) == Some(v@),
            Err(e) => gzip_inflated(data@) is None && e matches Error::DecompressingError(_),
        },
{
    let mut out = Vec::new();
    match libflate::gzip::Decoder::new(&data[..]) {
        Ok(mut d) => match std::io::Read::read_to_end(&mut d, &mut out) {
            Ok(_) => Ok(out),
            Err(e) => Err(Error::DecompressingError(format!("{}", e))),
        },
        Err(e) => Err(Error::DecompressingError(format!("{}", e))),
    }
}

/// Relies on the zstd crate's one-shot `decode_all`: decompression is a pure
/// function of the input bytes, and fails exactly on invalid frames.
#[verifier::external_body]
fn inflate_zstd(data: &Vec<u8>) -> (r: Result<Vec<u8>>)
    ensures
        match r {
            Ok(v) => zstd_inflated(data@) == Some(v@),
            Err(e) => zstd_inflated(data@) is None && e matches Error::DecompressingError(_),
        },
{
    match zstd::stream::decode_all(&data[..]) {
        Ok(v) => Ok(v),
        Err(e) => Err(Error::DecompressingError(format!("{}", e))),
    }
}

/// The decompression algorithms a packed payload may sit behind.
#[derive(Debug, Clone, Copy, PartialEq, Eq, Structural)]
pub enum Compression {
    Zlib,
    Gzip,
    Zstd,
}

/// What running a payload through a decompression algorithm yields.
pub open spec fn spec_inflated(method: Compression, b: Seq<u8>) -> Option<Seq<u8>> {
    match method {
        Compression::Zlib => zlib_inflated(b),
        Compression::Gzip => gzip_inflated(b),
        Compression::Zstd => zstd_inflated(b),
    }
}

/// Runs a byte payload fully through the named decompression algorithm:
/// the uniform decompress-to-bytes step of the packed pipelines.
pub fn process_decoder(method: Compression, data: &Vec<u8>) -> (r: Result<Vec<u8>>)
    ensures
        match spec_inflated(method, data@) {
            Some(b) => r matches Ok(v) && v@ == b,
            None => r matches Err(Error::DecompressingError(_)),
        },
{
    match method {
        Compression::Zlib => inflate_zlib(data),
        Compression::Gzip => inflate_gzip(data),
        Compression::Zstd => inflate_zstd(data),
    }
}

/// The consecutive 4-byte little-endian unsigned values of a byte sequence;
/// a trailing fragment shorter than four bytes carries no cell.
pub open spec fn le_values(b: Seq<u8>) -> Seq<u32> {
    Seq::new(
        (b.len() / 4) as nat,
        |i: int| (b[4 * i] + b[4 * i + 1] * 0x100 + b[4 * i + 2] * 0x1_0000 + b[4 * i + 3]
            * 0x100_0000) as u32,
    )
}

/// What a sequence of raw cell values decodes and resolves to: the cells in
/// order, or the error of the first value that does not resolve.
pub open spec fn cells_of(vals: Seq<u32>, ts: Seq<MapTilesetGid>) -> Result<
    Seq<Option<LayerTileData>>,
>
    decreases vals.len(),
{
    if vals.len() == 0 {
        Ok(Seq::empty())
    } else {
        match spec_from_bits(vals[0], ts) {
            Err(e) => Err(e),
            Ok(c) => match cells_of(vals.drop_first(), ts) {
                Err(e) => Err(e),
                Ok(rest) => Ok(seq![c] + rest),
            },
        }
    }
}

/// Decodes and resolves a list of raw cell values in order, stopping at the
/// first unresolved tile reference.
pub fn cells_from_vals(vals: &Vec<u32>, tilesets: &Vec<MapTilesetGid>) -> (r: Result<
    Vec<Option<LayerTileData>>,
>)
    ensures
        match cells_of(vals@, tilesets@) {
            Ok(cs) => r matches Ok(v) && v@ == cs,
            Err(e) => r == Result::<Vec<Option<LayerTileData>>>::Err(e),
        },
{
    let ghost vs = vals@;
    let ghost ts = tilesets@;
    let mut out: Vec<Option<LayerTileData>> = Vec::new();
    let mut i: usize = 0;
    proof {
        assert(vs.subrange(0, vs.len() as int) =~= vs);
    }
    while i < vals.len()
        invariant
            vs == vals@,
            ts == tilesets@,
            0 <= i <= vs.len(),
            cells_of(vs, ts) == match cells_of(vs.subrange(i as int, vs.len() as int), ts) {
                Ok(rest) => Ok::<Seq<Option<LayerTileData>>, Error>(out@ + rest),
                Err(e) => Err(e),
            },
        decreases vals.len() - i,
    {
        let ghost tail = vs.subrange(i as int, vs.len() as int);
        proof {
            assert(tail.drop_first() =~= vs.subrange(i as int + 1, vs.len() as int));
        }
        let ghost prev = out@;
        match LayerTileData::from_bits(vals[i], tilesets) {
            Ok(c) => {
                out.push(c);
                proof {
                    assert(out@ =~= prev + seq![c]);
                    match cells_of(vs.subrange(i as int + 1, vs.len() as int), ts) {
                        Ok(rest) => {
                            assert(prev + (seq![c] + rest) =~= (prev + seq![c]) + rest);
                        },
                        Err(_) => {},
                    }
                }
            },
            Err(e) => {
                return Err(e);
            },
        }
        i = i + 1;
    }
    proof {
        assert(vs.subrange(vs.len() as int, vs.len() as int) =~= Seq::<u32>::empty());
        match cells_of(vs, ts) {
            Ok(cs) => {
                assert(out@ =~= cs);
            },
            Err(_) => {},
        }
    }
    Ok(out)
}

/// Reads the consecutive 4-byte little-endian values out of a byte payload.
pub fn le_u32_values(data: &Vec<u8>) -> (r: Vec<u32>)
    ensures
        r@ == le_values(data@),
{
    let mut out: Vec<u32> = Vec::new();
    let mut i: usize = 0;
    let n = data.len() / 4;
    while i < n
        invariant
            n == data.len() / 4,
            0 <= i <= n,
            out@.len() == i,
            forall|k: int| 0 <= k < i ==> out@[k] == #[trigger] le_values(data@)[k],
        decreases n - i,
    {
        let b0 = data[4 * i] as u32;
        let b1 = data[4 * i + 1] as u32;
        let b2 = data[4 * i + 2] as u32;
        let b3 = data[4 * i + 3] as u32;
        out.push(b0 + b1 * 0x100 + b2 * 0x1_0000 + b3 * 0x100_0000);
        i = i + 1;
    }
    proof {
        assert(out@ =~= le_values(data@));
    }
    out
}

/// Chunks a byte payload into consecutive 4-byte little-endian values and
/// decodes each through the codec and the resolution table.
pub fn convert_to_tiles(data: &Vec<u8>, tilesets: &Vec<MapTilesetGid>) -> (r: Result<
    Vec<Option<LayerTileData>>,
>)
    ensures
        match cells_of(le_values(data@), tilesets@) {
            Ok(cs) => r matches Ok(v) && v@ == cs,
            Err(e) => r == Result::<Vec<Option<LayerTileData>>>::Err(e),
        },
{
    let vals = le_u32_values(data);
    cells_from_vals(&vals, tilesets)
}

/// Where a data element's payload decision falls: the first text event
/// (with its characters), or the end of the data element before any text,
/// or nothing when the stream's terminal event comes first.
pub open spec fn find_payload(evs: Seq<EventView>, i: int) -> Option<(int, Option<Seq<char>>)>
    decreases evs.len() - i when 0 <= i
{
    if i >= evs.len() {
        None
    } else {
        match evs[i] {
            EventView::Text(t) => Some((i, Some(t))),
            EventView::End(n) => if n == "data"@ {
                Some((i, None))
            } else {
                find_payload(evs, i + 1)
            },
            EventView::Eof => None,
            _ => find_payload(evs, i + 1),
        }
    }
}

/// A found payload decision lies at or past where the search began, within
/// the sequence.
pub proof fn lemma_find_payload_bounds(evs: Seq<EventView>, i: int)
    requires
        0 <= i,
        find_payload(evs, i) is Some,
    ensures
        i <= find_payload(evs, i)->Some_0.0 < evs.len(),
    decreases evs.len() - i,
{
    if i < evs.len() {
        match evs[i] {
            EventView::Text(_) => (),
            EventView::End(n) => {
                if n != "data"@ {
                    lemma_find_payload_bounds(evs, i + 1);
                }
            },
            EventView::Eof => (),
            _ => lemma_find_payload_bounds(evs, i + 1),
        }
    }
}

/// Advances to a data element's payload: hands back the first text payload,
/// or nothing when the element closes without one, or a premature-end error
/// when the document runs out first.
pub fn take_payload(stream: &mut ReaderIterator) -> (r: Result<Option<String>>)
    requires
        old(stream).wf(),
    ensures
        final(stream).wf(),
        final(stream).events() == old(stream).events(),
        final(stream).pos() >= old(stream).pos(),
        match find_payload(old(stream).events(), old(stream).pos()) {
            None => r matches Err(Error::PrematureEnd(_)),
            Some((j, None)) => r == Result::<Option<String>>::Ok(None) && final(stream).pos() == j
                + 1,
            Some((j, Some(t))) => r matches Ok(p) && p matches Some(s) && s@ == t
                && final(stream).pos() == j + 1,
        },
{
    proof {
        stream.lemma_wf();
    }
    loop
        invariant
            stream.wf(),
            0 <= stream.pos() <= stream.events().len(),
            stream.events() == old(stream).events(),
            stream.pos() >= old(stream).pos(),
            find_payload(stream.events(), stream.pos()) == find_payload(
                old(stream).events(),
                old(stream).pos(),
            ),
        decreases stream.events().len() - stream.pos(),
    {
        match stream.next() {
            XmlEvent::Text(t) => {
                return Ok(Some(t));
            },
            XmlEvent::End(n) => {
                if tag_is(&n, "data") {
                    return Ok(None);
                }
            },
            XmlEvent::Eof => {
                return Err(Error::PrematureEnd("document ended inside a data element".to_owned()));
            },
            _ => {},
        }
    }
}

/// Decodes a delimited-text data element: reads the payload text and turns
/// its comma-separated values into resolved cells.
pub fn decode_csv(
    stream: &mut ReaderIterator,
    tilesets: &Vec<MapTilesetGid>,
    size: usize,
) -> (r: Result<Vec<Option<LayerTileData>>>)
    requires
        old(stream).wf(),
    ensures
        final(stream).wf(),
        final(stream).events() == old(stream).events(),
        final(stream).pos() >= old(stream).pos(),
        match find_payload(old(stream).events(), old(stream).pos()) {
            None => r matches Err(Error::PrematureEnd(_)),
            Some((j, None)) => r matches Ok(v) && v@ == Seq::<Option<LayerTileData>>::empty()
                && final(stream).pos() == j + 1,
            Some((j, Some(t))) => final(stream).pos() == j + 1 && match cells_of(
                csv_raw_values(encode_utf8(t), 0),
                tilesets@,
            ) {
                Ok(cs) => r matches Ok(v) && v@ == cs,
                Err(e) => r == Result::<Vec<Option<LayerTileData>>>::Err(e),
            },
        },
{
    match take_payload(stream) {
        Err(e) => Err(e),
        Ok(None) => Ok(Vec::new()),
        Ok(Some(text)) => decode_csv_vec(text.as_str(), size, tilesets),
    }
}

/// Decodes the delimited-text payload itself: every comma closes a cell
/// value, digits accumulate with wrapping, other characters are skipped, and
/// each value runs through the codec and the resolution table.
pub fn decode_csv_vec(input: &str, size: usize, tilesets: &Vec<MapTilesetGid>) -> (r: Result<
    Vec<Option<LayerTileData>>,
>)
    ensures
        match cells_of(csv_raw_values(input.spec_bytes(), 0), tilesets@) {
            Ok(cs) => r matches Ok(v) && v@ == cs,
            Err(e) => r == Result::<Vec<Option<LayerTileData>>>::Err(e),
        },
{
    let vals = csv_values(input);
    cells_from_vals(&vals, tilesets)
}

/// Reads a packed data element's payload and decodes its base64 text to raw
/// bytes; a data element that closes with no text yields no bytes.
pub fn parse_base64(stream: &mut ReaderIterator) -> (r: Result<Vec<u8>>)
    requires
        old(stream).wf(),
    ensures
        final(stream).wf(),
        final(stream).events() == old(stream).events(),
        final(stream).pos() >= old(stream).pos(),
        match find_payload(old(stream).events(), old(stream).pos()) {
            None => r matches Err(Error::PrematureEnd(_)),
            Some((j, None)) => r matches Ok(v) && v@ == Seq::<u8>::empty() && final(stream).pos()
                == j + 1,
            Some((j, Some(t))) => final(stream).pos() == j + 1 && match base64_decoded(t) {
                Some(b) => r matches Ok(v) && v@ == b,
                None => r matches Err(Error::Base64DecodingError(_)),
            },
        },
{
    match take_payload(stream) {
        Err(e) => Err(e),
        Ok(None) => Ok(Vec::new()),
        Ok(Some(text)) => decode_base64(text.as_str()),
    }
}

/// The view of an optional encoding or compression name.
pub open spec fn opt_name(o: Option<String>) -> Option<Seq<char>> {
    match o {
        Some(s) => Some(s@),
        None => None,
    }
}

/// Whether a result is what the packed-binary pipeline owes for a data
/// element whose payload decision is `fp`: base64 text decoded to bytes,
/// optionally decompressed, then chunked and resolved; an element closed
/// without text yields zero cells; a missing payload is a premature end.
/// The stream ends just past the deciding event (`endpos`).
pub open spec fn packed_pipeline_ok(
    fp: Option<(int, Option<Seq<char>>)>,
    method: Option<Compression>,
    ts: Seq<MapTilesetGid>,
    r: Result<Vec<Option<LayerTileData>>>,
    endpos: int,
) -> bool {
    match fp {
        None => r matches Err(Error::PrematureEnd(_)),
        Some((j, None)) => r matches Ok(v) && v@ == Seq::<Option<LayerTileData>>::empty() && endpos
            == j + 1,
        Some((j, Some(t))) => endpos == j + 1 && match base64_decoded(t) {
            None => r matches Err(Error::Base64DecodingError(_)),
            Some(b) => {
                let inflated = match method {
                    None => Some(b),
                    Some(m) => spec_inflated(m, b),
                };
                match inflated {
                    None => r matches Err(Error::DecompressingError(_)),
                    Some(d) => match cells_of(le_values(d), ts) {
                        Ok(cs) => r matches Ok(v) && v@ == cs,
                        Err(e) => r == Result::<Vec<Option<LayerTileData>>>::Err(e),
                    },
                }
            },
        },
    }
}

/// The encoding and compression names the dispatcher distinguishes are
/// pairwise distinct texts.
proof fn lemma_format_names_distinct()
    ensures
        "csv"@ != "base64"@,
        "zlib"@ != "gzip"@,
        "zlib"@ != "zstd"@,
        "gzip"@ != "zstd"@,
{
    reveal_strlit("csv");
    reveal_strlit("base64");
    reveal_strlit("zlib");
    reveal_strlit("gzip");
    reveal_strlit("zstd");
    assert("csv"@.len() == 3);
    assert("base64"@.len() == 6);
    assert("zlib"@[0] == 'z');
    assert("gzip"@[0] == 'g');
    assert("zstd"@[1] == 's');
    assert("zlib"@[1] == 'l');
    assert("gzip"@[1] == 'z');
}

/// Decodes one data element under the given (encoding, compression) pair.
/// Delimited text takes no compression; packed binary is base64 text,
/// optionally behind zlib, gzip or zstd; every other pair is rejected as an
/// invalid combination carrying both requested names. A data element that
/// closes without any text yields zero cells; a document that ends inside
/// the element is a premature-end error.
#[verifier::rlimit(60)]
pub fn parse_data_line(
    encoding: Option<String>,
    compression: Option<String>,
    stream: &mut ReaderIterator,
    tilesets: &Vec<MapTilesetGid>,
    size: usize,
) -> (r: Result<Vec<Option<LayerTileData>>>)
    requires
        old(stream).wf(),
    ensures
        final(stream).wf(),
        final(stream).events() == old(stream).events(),
        final(stream).pos() >= old(stream).pos(),
        ({
            let evs = old(stream).events();
            let p = old(stream).pos();
            let ts = tilesets@;
            let enc = opt_name(encoding);
            let comp = opt_name(compression);
            &&& (enc == Some("csv"@) && comp is None) ==> match find_payload(evs, p) {
                None => r matches Err(Error::PrematureEnd(_)),
                Some((j, None)) => r matches Ok(v) && v@ == Seq::<Option<LayerTileData>>::empty()
                    && final(stream).pos() == j + 1,
                Some((j, Some(t))) => final(stream).pos() == j + 1 && match cells_of(
                    csv_raw_values(encode_utf8(t), 0),
                    ts,
                ) {
                    Ok(cs) => r matches Ok(v) && v@ == cs,
                    Err(e) => r == Result::<Vec<Option<LayerTileData>>>::Err(e),
                },
            }
            &&& (enc == Some("base64"@) && comp is None) ==> packed_pipeline_ok(
                find_payload(evs, p),
                None,
                ts,
                r,
                final(stream).pos(),
            )
            &&& (enc == Some("base64"@) && comp == Some("zlib"@)) ==> packed_pipeline_ok(
                find_payload(evs, p),
                Some(Compression::Zlib),
                ts,
                r,
                final(stream).pos(),
            )
            &&& (enc == Some("base64"@) && comp == Some("gzip"@)) ==> packed_pipeline_ok(
                find_payload(evs, p),
                Some(Compression::Gzip),
                ts,
                r,
                final(stream).pos(),
            )
            &&& (enc == Some("base64"@) && comp == Some("zstd"@)) ==> packed_pipeline_ok(
                find_payload(evs, p),
                Some(Compression::Zstd),
                ts,
                r,
                final(stream).pos(),
            )
            &&& !(enc == Some("csv"@) && comp is None) && !(enc == Some("base64"@) && (comp is None
                || comp == Some("zlib"@) || comp == Some("gzip"@) || comp == Some("zstd"@)))
                ==> (r matches Err(Error::InvalidEncodingFormat { encoding: e2, compression: c2 })
                && e2 == encoding && c2 == compression && *final(stream) == *old(stream))
        }),
{
    proof {
        stream.lemma_wf();
        lemma_format_names_distinct();
    }
    let enc_csv = match &encoding {
        Some(s) => tag_is(s, "csv"),
        None => false,
    };
    let enc_b64 = match &encoding {
        Some(s) => tag_is(s, "base64"),
        None => false,
    };
    let comp_none = match &compression {
        Some(_) => false,
        None => true,
    };
    let method: Option<Compression> = match &compression {
        None => None,
        Some(s) => {
            if tag_is(s, "zlib") {
                Some(Compression::Zlib)
            } else if tag_is(s, "gzip") {
                Some(Compression::Gzip)
            } else if tag_is(s, "zstd") {
                Some(Compression::Zstd)
            } else {
                None
            }
        },
    };
    if enc_csv && comp_none {
        decode_csv(stream, tilesets, size)
    } else if enc_b64 && comp_none {
        match parse_base64(stream) {
            Err(e) => Err(e),
            Ok(bytes) => convert_to_tiles(&bytes, tilesets),
        }
    } else if enc_b64 && method.is_some() {
        match take_payload(stream) {
            Err(e) => Err(e),
            Ok(None) => Ok(Vec::new()),
            Ok(Some(text)) => match decode_base64(text.as_str()) {
                Err(e) => Err(e),
                Ok(bytes) => {
                    let m = match method {
                        Some(m) => m,
                        None => Compression::Zlib,
                    };
                    match process_decoder(m, &bytes) {
                        Err(e) => Err(e),
                        Ok(data) => convert_to_tiles(&data, tilesets),
                    }
                },
            },
        }
    } else {
        Err(Error::InvalidEncodingFormat { encoding, compression })
    }
}

} // verus!
