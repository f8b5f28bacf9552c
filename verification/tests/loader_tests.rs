use std::sync::Arc;

use tiled::animation::Frame;
use tiled::cache::{ResourceCache, ResourceReader};
use tiled::codec::{decode, encode, CellBits};
use tiled::error::Error;
use tiled::events::{ReaderIterator, XmlEvent};
use tiled::gids::LayerTileData;
use tiled::layers::{decode_csv_vec, parse_data_line, Compression, process_decoder};
use tiled::map::parse_map;
use tiled::template::Template;
use tiled::text::parse_u32;
use tiled::tileset::{MapTilesetGid, Tileset};
use tiled::wang::WangId;
use tiled::xml::tokenize;
use std::io::Write;

/// A reader over an in-memory set of documents that counts every read.
struct MemReader {
    files: Vec<(String, String)>,
    reads: usize,
}

impl ResourceReader for MemReader {
    fn read_document(&mut self, path: &String) -> Result<String, Error> {
        self.reads += 1;
        for (p, d) in &self.files {
            if p == path {
                return Ok(d.clone());
            }
        }
        Err(Error::PathIsNotFile)
    }
}

fn plain_tileset(name: &str, tilecount: u32) -> Arc<Tileset> {
    Arc::new(Tileset {
        name: name.to_string(),
        tilecount,
        tiles: Vec::new(),
        wang_tiles: Vec::new(),
    })
}

fn cell(idx: usize, id: u32) -> Option<LayerTileData> {
    Some(LayerTileData {
        tileset_index: idx,
        id,
        flip_h: false,
        flip_v: false,
        flip_d: false,
    })
}

#[test]
fn codec_round_trip() {
    let samples: Vec<u32> = vec![
        0,
        1,
        7,
        0x1FFF_FFFF,
        0x8000_0001,
        0x4000_0002,
        0x2000_0003,
        0xE000_0004,
        0xFFFF_FFFF,
    ];
    for &r in &samples {
        assert_eq!(encode(decode(r)), r);
    }
    assert_eq!(decode(0), None);
    let c = decode(0x8000_0001).unwrap();
    assert_eq!(
        c,
        CellBits { gid: 1, flip_h: true, flip_v: false, flip_d: false }
    );
}

#[test]
fn csv_decode_four_cells() {
    let ts = vec![MapTilesetGid { first_gid: 1, tileset: plain_tileset("a", 5) }];
    let cells = decode_csv_vec("1,2,3,4", 4, &ts).unwrap();
    assert_eq!(cells, vec![cell(0, 0), cell(0, 1), cell(0, 2), cell(0, 3)]);
}

fn data_stream(xml: &str) -> ReaderIterator {
    let events = tokenize(xml).unwrap();
    let mut stream = ReaderIterator::new(events);
    // consume the start event of the data element
    let first = stream.next();
    match first {
        XmlEvent::Start(_, _) => stream,
        other => panic!("expected a start event, got {:?}", other),
    }
}

#[test]
fn base64_matches_csv() {
    let ts = vec![MapTilesetGid { first_gid: 1, tileset: plain_tileset("a", 5) }];
    let bytes: Vec<u8> = vec![1, 0, 0, 0, 2, 0, 0, 0, 3, 0, 0, 0, 4, 0, 0, 0];
    let payload = base64::Engine::encode(&base64::engine::general_purpose::STANDARD, &bytes);
    let xml = format!("<data encoding=\"base64\">{}</data>", payload);
    let mut stream = data_stream(&xml);
    let got = parse_data_line(Some("base64".to_string()), None, &mut stream, &ts, 4).unwrap();
    let want = decode_csv_vec("1,2,3,4", 4, &ts).unwrap();
    assert_eq!(got, want);
}

#[test]
fn zlib_and_gzip_match_csv() {
    let ts = vec![MapTilesetGid { first_gid: 1, tileset: plain_tileset("a", 5) }];
    let bytes: Vec<u8> = vec![1, 0, 0, 0, 2, 0, 0, 0, 3, 0, 0, 0, 4, 0, 0, 0];
    let want = decode_csv_vec("1,2,3,4", 4, &ts).unwrap();

    let mut zenc = libflate::zlib::Encoder::new(Vec::new()).unwrap();
    zenc.write_all(&bytes).unwrap();
    let zdata = zenc.finish().into_result().unwrap();
    let zpayload = base64::Engine::encode(&base64::engine::general_purpose::STANDARD, &zdata);
    let xml = format!("<data>{}</data>", zpayload);
    let mut stream = data_stream(&xml);
    let got = parse_data_line(
        Some("base64".to_string()),
        Some("zlib".to_string()),
        &mut stream,
        &ts,
        4,
    )
    .unwrap();
    assert_eq!(got, want);

    let mut genc = libflate::gzip::Encoder::new(Vec::new()).unwrap();
    genc.write_all(&bytes).unwrap();
    let gdata = genc.finish().into_result().unwrap();
    let gpayload = base64::Engine::encode(&base64::engine::general_purpose::STANDARD, &gdata);
    let xml = format!("<data>{}</data>", gpayload);
    let mut stream = data_stream(&xml);
    let got = parse_data_line(
        Some("base64".to_string()),
        Some("gzip".to_string()),
        &mut stream,
        &ts,
        4,
    )
    .unwrap();
    assert_eq!(got, want);
}

#[test]
fn zstd_matches_csv() {
    let ts = vec![MapTilesetGid { first_gid: 1, tileset: plain_tileset("a", 5) }];
    let bytes: Vec<u8> = vec![1, 0, 0, 0, 2, 0, 0, 0, 3, 0, 0, 0, 4, 0, 0, 0];
    let want = decode_csv_vec("1,2,3,4", 4, &ts).unwrap();
    let zdata = zstd::stream::encode_all(&bytes[..], 0).unwrap();
    let payload = base64::Engine::encode(&base64::engine::general_purpose::STANDARD, &zdata);
    let xml = format!("<data>{}</data>", payload);
    let mut stream = data_stream(&xml);
    let got = parse_data_line(
        Some("base64".to_string()),
        Some("zstd".to_string()),
        &mut stream,
        &ts,
        4,
    )
    .unwrap();
    assert_eq!(got, want);
}

#[test]
fn invalid_encoding_combination() {
    let ts: Vec<MapTilesetGid> = Vec::new();
    let mut stream = data_stream("<data>1,2</data>");
    let r = parse_data_line(
        Some("csv".to_string()),
        Some("zlib".to_string()),
        &mut stream,
        &ts,
        0,
    );
    match r {
        Err(Error::InvalidEncodingFormat { encoding, compression }) => {
            assert_eq!(encoding, Some("csv".to_string()));
            assert_eq!(compression, Some("zlib".to_string()));
        },
        other => panic!("expected an invalid-combination error, got {:?}", other),
    }
}

#[test]
fn premature_end_inside_data() {
    // The document stops inside the data element: no payload, no end tag.
    let mut reader = MemReader {
        files: vec![(
            "m.tmx".to_string(),
            "<map><layer width=\"2\" height=\"2\"><data encoding=\"csv\">".to_string(),
        )],
        reads: 0,
    };
    let mut cache = ResourceCache::new();
    let r = parse_map(&"m.tmx".to_string(), &mut reader, &mut cache);
    match r {
        Err(Error::PrematureEnd(_)) => (),
        other => panic!("expected a premature-end error, got {:?}", other),
    }
}

#[test]
fn resolve_two_tilesets() {
    let ts = vec![
        MapTilesetGid { first_gid: 1, tileset: plain_tileset("a", 5) },
        MapTilesetGid { first_gid: 6, tileset: plain_tileset("b", 5) },
    ];
    assert_eq!(LayerTileData::from_bits(6, &ts).unwrap(), cell(1, 0));
    assert_eq!(LayerTileData::from_bits(5, &ts).unwrap(), cell(0, 4));
    assert_eq!(
        LayerTileData::from_bits(11, &ts),
        Err(Error::InvalidTileFound { gid: 11 })
    );
    assert_eq!(LayerTileData::from_bits(0, &ts).unwrap(), None);
}

#[test]
fn shared_tileset_loaded_once() {
    let tsx = "<tileset name=\"shared\" tilecount=\"4\"/>".to_string();
    let tmx = "<map>\
        <tileset firstgid=\"1\" source=\"ts.tsx\"/>\
        <tileset firstgid=\"5\" source=\"ts.tsx\"/>\
        <layer width=\"1\" height=\"1\"><data encoding=\"csv\">6</data></layer>\
        </map>"
        .to_string();
    let mut reader = MemReader {
        files: vec![("m.tmx".to_string(), tmx), ("ts.tsx".to_string(), tsx)],
        reads: 0,
    };
    let mut cache = ResourceCache::new();
    let map = parse_map(&"m.tmx".to_string(), &mut reader, &mut cache).unwrap();
    assert_eq!(reader.reads, 2); // the map itself, and the tileset exactly once
    assert_eq!(map.tilesets.len(), 2);
    assert!(Arc::ptr_eq(&map.tilesets[0].tileset, &map.tilesets[1].tileset));
    // gid 6 is local tile 1 of the second association
    assert_eq!(map.layers[0].tiles, vec![cell(1, 1)]);
}

#[test]
fn wang_id_parses_eight_values() {
    let w = WangId::from_str("[1,2,3,4,5,6,7,8]").unwrap();
    assert_eq!(w.0, [1, 2, 3, 4, 5, 6, 7, 8]);
}

#[test]
fn wang_id_rejects_seven_values() {
    let r = WangId::from_str("[1,2,3,4,5,6,7]");
    match r {
        Err(Error::InvalidWangIdEncoding { read_string }) => {
            assert_eq!(read_string, "[1,2,3,4,5,6,7]".to_string());
        },
        other => panic!("expected an encoding error, got {:?}", other),
    }
}

#[test]
fn wang_id_lenient_entry() {
    let w = WangId::from_str("[1,x,3,4,5,6,7,8]").unwrap();
    assert_eq!(w.0, [1, 0, 3, 4, 5, 6, 7, 8]);
    // out-of-range entries also decode as 0
    let w = WangId::from_str("[256,2,3,4,5,6,7,8]").unwrap();
    assert_eq!(w.0, [0, 2, 3, 4, 5, 6, 7, 8]);
}

#[test]
fn animation_preserves_document_order() {
    let tsx = "<tileset name=\"t\" tilecount=\"4\">\
        <tile id=\"0\"><animation>\
        <frame tileid=\"2\" duration=\"100\"/>\
        <frame duration=\"300\" tileid=\"1\"/>\
        </animation></tile>\
        </tileset>"
        .to_string();
    let mut reader = MemReader { files: vec![("t.tsx".to_string(), tsx)], reads: 0 };
    let ts = tiled::tileset::parse_tileset(&"t.tsx".to_string(), &mut reader).unwrap();
    assert_eq!(ts.name, "t".to_string());
    assert_eq!(ts.tilecount, 4);
    assert_eq!(ts.tiles.len(), 1);
    let frames = ts.tiles[0].animation.as_ref().unwrap();
    assert_eq!(
        frames,
        &vec![
            Frame { tile_id: 2, duration: 100 },
            Frame { tile_id: 1, duration: 300 },
        ]
    );
}

#[test]
fn wangtiles_collected_from_tileset() {
    let tsx = "<tileset name=\"t\" tilecount=\"4\"><wangsets><wangset name=\"w\" tile=\"-1\">\
        <wangtile tileid=\"2\" wangid=\"[1,2,3,4,5,6,7,8]\"/>\
        <wangtile tileid=\"0\" wangid=\"[8,7,6,5,4,3,2,1]\"/>\
        </wangset></wangsets></tileset>"
        .to_string();
    let mut reader = MemReader { files: vec![("t.tsx".to_string(), tsx)], reads: 0 };
    let ts = tiled::tileset::parse_tileset(&"t.tsx".to_string(), &mut reader).unwrap();
    assert_eq!(ts.wang_tiles.len(), 2);
    assert_eq!(ts.wang_tiles[0].0, 2);
    assert_eq!(ts.wang_tiles[0].1 .0, [1, 2, 3, 4, 5, 6, 7, 8]);
    assert_eq!(ts.wang_tiles[1].0, 0);
}

#[test]
fn template_requires_object() {
    let tx = "<template><tileset firstgid=\"1\" source=\"ts.tsx\"/></template>".to_string();
    let tsx = "<tileset name=\"s\" tilecount=\"4\"/>".to_string();
    let mut reader = MemReader {
        files: vec![("t.tx".to_string(), tx), ("ts.tsx".to_string(), tsx)],
        reads: 0,
    };
    let mut cache = ResourceCache::new();
    let r = Template::parse_template(&"t.tx".to_string(), &mut reader, &mut cache);
    match r {
        Err(Error::TemplateHasNoObject) => (),
        other => panic!("expected a missing-object error, got {:?}", other),
    }
}

#[test]
fn template_shared_and_resolves_tile() {
    let tx = "<template><tileset firstgid=\"1\" source=\"ts.tsx\"/>\
        <object id=\"7\" gid=\"3\"/></template>"
        .to_string();
    let tsx = "<tileset name=\"s\" tilecount=\"4\"/>".to_string();
    let mut reader = MemReader {
        files: vec![("t.tx".to_string(), tx), ("ts.tsx".to_string(), tsx)],
        reads: 0,
    };
    let mut cache = ResourceCache::new();
    let t1 = Template::parse_template(&"t.tx".to_string(), &mut reader, &mut cache).unwrap();
    let t2 = Template::parse_template(&"t.tx".to_string(), &mut reader, &mut cache).unwrap();
    assert!(Arc::ptr_eq(&t1, &t2));
    assert_eq!(reader.reads, 2); // template once, tileset once
    assert_eq!(t1.object.id, 7);
    assert_eq!(t1.object.tile, cell(0, 2));
    assert!(t1.tileset.is_some());
}

#[test]
fn parse_u32_strictness() {
    assert_eq!(parse_u32("0"), Some(0));
    assert_eq!(parse_u32("4294967295"), Some(u32::MAX));
    assert_eq!(parse_u32("4294967296"), None);
    assert_eq!(parse_u32(""), None);
    assert_eq!(parse_u32("+3"), None);
    assert_eq!(parse_u32(" 3"), None);
    assert_eq!(parse_u32("007"), Some(7));
}

#[test]
fn base64_error_is_reported() {
    let ts: Vec<MapTilesetGid> = Vec::new();
    let mut stream = data_stream("<data>not*base64*at*all</data>");
    let r = parse_data_line(Some("base64".to_string()), None, &mut stream, &ts, 0);
    match r {
        Err(Error::Base64DecodingError(_)) => (),
        other => panic!("expected a base64 error, got {:?}", other),
    }
}

#[test]
fn decompression_error_is_reported() {
    // valid base64 of bytes that are not a zlib stream
    let payload = base64::Engine::encode(&base64::engine::general_purpose::STANDARD, b"AAAA");
    let data = base64::Engine::decode(&base64::engine::general_purpose::STANDARD, &payload)
        .unwrap();
    let r = process_decoder(Compression::Zlib, &data);
    match r {
        Err(Error::DecompressingError(_)) => (),
        other => panic!("expected a decompression error, got {:?}", other),
    }
}

#[test]
fn empty_data_element_yields_no_cells() {
    let ts: Vec<MapTilesetGid> = Vec::new();
    let mut stream = data_stream("<data encoding=\"csv\"></data>");
    let r = parse_data_line(Some("csv".to_string()), None, &mut stream, &ts, 0).unwrap();
    assert_eq!(r, Vec::new());
}

#[test]
fn unresolved_gid_in_layer_fails() {
    let ts = vec![MapTilesetGid { first_gid: 1, tileset: plain_tileset("a", 2) }];
    let r = decode_csv_vec("1,9", 2, &ts);
    assert_eq!(r, Err(Error::InvalidTileFound { gid: 9 }));
}

#[test]
fn malformed_markup_is_reported() {
    let mut reader = MemReader {
        files: vec![("m.tmx".to_string(), "<map><layer <<".to_string())],
        reads: 0,
    };
    let mut cache = ResourceCache::new();
    let r = parse_map(&"m.tmx".to_string(), &mut reader, &mut cache);
    match r {
        Err(Error::XmlDecodingError(_)) => (),
        Err(Error::PrematureEnd(_)) => (),
        other => panic!("expected a syntax or premature-end error, got {:?}", other),
    }
}

#[test]
fn csv_skips_insignificant_characters() {
    let ts = vec![MapTilesetGid { first_gid: 1, tileset: plain_tileset("a", 300) }];
    // only commas separate; every non-digit is skipped, so "2\n3;x4" is 234
    let cells = decode_csv_vec("1, 2\n3;x4", 2, &ts).unwrap();
    assert_eq!(cells, vec![cell(0, 0), cell(0, 233)]);
    assert_eq!(
        decode_csv_vec(" 1 , 2 ,\n3,4 ", 4, &ts).unwrap(),
        vec![cell(0, 0), cell(0, 1), cell(0, 2), cell(0, 3)]
    );
}

#[test]
fn csv_accumulation_wraps_to_empty() {
    // 4294967296 wraps to 0, the empty cell, so no tileset is consulted
    let ts: Vec<MapTilesetGid> = Vec::new();
    let cells = decode_csv_vec("4294967296", 1, &ts).unwrap();
    assert_eq!(cells, vec![None]);
}

#[test]
fn embedded_tileset_skips_cache() {
    let tmx = "<map>\
        <tileset firstgid=\"1\" name=\"inline\" tilecount=\"3\"/>\
        <layer width=\"1\" height=\"1\"><data encoding=\"csv\">2</data></layer>\
        </map>"
        .to_string();
    let mut reader = MemReader { files: vec![("m.tmx".to_string(), tmx)], reads: 0 };
    let mut cache = ResourceCache::new();
    let map = parse_map(&"m.tmx".to_string(), &mut reader, &mut cache).unwrap();
    assert_eq!(reader.reads, 1);
    assert_eq!(map.tilesets.len(), 1);
    assert_eq!(map.tilesets[0].tileset.name, "inline".to_string());
    assert_eq!(map.layers[0].tiles, vec![cell(0, 1)]);
}

#[test]
fn comments_and_unknown_tags_are_skipped() {
    let tmx = "<map><!-- a comment -->\
        <tileset firstgid=\"1\" name=\"t\" tilecount=\"3\"><properties><property name=\"data\"/></properties></tileset>\
        <editorsettings><export target=\"x\"/></editorsettings>\
        <layer width=\"2\" height=\"1\"><data encoding=\"csv\">1,3</data></layer>\
        </map>"
        .to_string();
    let mut reader = MemReader { files: vec![("m.tmx".to_string(), tmx)], reads: 0 };
    let mut cache = ResourceCache::new();
    let map = parse_map(&"m.tmx".to_string(), &mut reader, &mut cache).unwrap();
    assert_eq!(map.layers[0].tiles, vec![cell(0, 0), cell(0, 2)]);
}

#[test]
fn flip_flags_survive_layer_decode() {
    let ts = vec![MapTilesetGid { first_gid: 1, tileset: plain_tileset("a", 5) }];
    // gid 2 with the horizontal flip bit set
    let raw: u32 = 2 | 0x8000_0000;
    let text = format!("{},2", raw);
    let cells = decode_csv_vec(text.as_str(), 2, &ts).unwrap();
    assert_eq!(
        cells[0],
        Some(LayerTileData { tileset_index: 0, id: 1, flip_h: true, flip_v: false, flip_d: false })
    );
    assert_eq!(cells[1], cell(0, 1));
}

#[test]
fn tokenizer_trims_and_expands() {
    let events = tokenize("<a>\n  <b/>payload</a>").unwrap();
    let shape: Vec<String> = events
        .iter()
        .map(|e| match e {
            XmlEvent::Start(n, _) => format!("start:{}", n),
            XmlEvent::End(n) => format!("end:{}", n),
            XmlEvent::Text(t) => format!("text:{}", t),
            XmlEvent::Other => "other".to_string(),
            XmlEvent::Eof => "eof".to_string(),
        })
        .collect();
    // whitespace-only text is trimmed away; the self-closing element is a
    // start and an immediate end
    assert_eq!(
        shape,
        vec![
            "start:a".to_string(),
            "start:b".to_string(),
            "end:b".to_string(),
            "text:payload".to_string(),
            "end:a".to_string(),
        ]
    );
}

#[test]
fn attribute_values_reach_the_model() {
    let events = tokenize("<frame tileid=\"5\" duration=\"20\"/>").unwrap();
    match &events[0] {
        XmlEvent::Start(n, attrs) => {
            assert_eq!(n, &"frame".to_string());
            let f = Frame::new(attrs).unwrap();
            assert_eq!(f, Frame { tile_id: 5, duration: 20 });
        },
        other => panic!("expected a start event, got {:?}", other),
    }
}

#[test]
fn wang_id_accepts_plus_prefixed_entries() {
    // Rust's u8 parsing accepts a single leading plus, so the lenient
    // entry decode does too; a double sign still reads as 0.
    let w = WangId::from_str("[+1,2,3,4,5,6,7,+8]").unwrap();
    assert_eq!(w.0, [1, 2, 3, 4, 5, 6, 7, 8]);
    let w = WangId::from_str("[++1,2,3,4,5,6,7,8]").unwrap();
    assert_eq!(w.0, [0, 2, 3, 4, 5, 6, 7, 8]);
}

#[test]
fn attribute_errors_name_field_and_text() {
    let events = tokenize("<frame tileid=\"5\" duration=\"2x\"/>").unwrap();
    match &events[0] {
        XmlEvent::Start(_, attrs) => {
            match Frame::new(attrs) {
                Err(Error::MalformedAttributes(m)) => assert_eq!(m, "duration=2x".to_string()),
                other => panic!("expected an attribute error, got {:?}", other),
            }
            let events = tokenize("<frame tileid=\"5\"/>").unwrap();
            match &events[0] {
                XmlEvent::Start(_, attrs) => match Frame::new(attrs) {
                    Err(Error::MalformedAttributes(m)) => assert_eq!(m, "duration".to_string()),
                    other => panic!("expected an attribute error, got {:?}", other),
                },
                other => panic!("expected a start event, got {:?}", other),
            }
        },
        other => panic!("expected a start event, got {:?}", other),
    }
}

#[test]
fn tileset_text_reports_premature_and_syntax() {
    match tiled::tileset::parse_tileset_text("<notatileset/>") {
        Err(Error::PrematureEnd(_)) => (),
        other => panic!("expected a premature-end error, got {:?}", other),
    }
    match tiled::tileset::parse_tileset_text("<tileset <<") {
        Err(Error::XmlDecodingError(_)) => (),
        other => panic!("expected a syntax error, got {:?}", other),
    }
    let ts = tiled::tileset::parse_tileset_text("<tileset name=\"n\" tilecount=\"2\"/>").unwrap();
    assert_eq!(ts.tilecount, 2);
    assert_eq!(ts.name, "n".to_string());
}

#[test]
fn later_animation_child_replaces_earlier() {
    let tsx = "<tileset name=\"t\" tilecount=\"4\">\
        <tile id=\"1\">\
        <animation><frame tileid=\"0\" duration=\"10\"/></animation>\
        <animation><frame tileid=\"3\" duration=\"70\"/></animation>\
        </tile></tileset>"
        .to_string();
    let mut reader = MemReader { files: vec![("t.tsx".to_string(), tsx)], reads: 0 };
    let ts = tiled::tileset::parse_tileset(&"t.tsx".to_string(), &mut reader).unwrap();
    let frames = ts.tiles[0].animation.as_ref().unwrap();
    assert_eq!(frames, &vec![Frame { tile_id: 3, duration: 70 }]);
}

#[test]
fn unreadable_path_is_access_error() {
    let mut reader = MemReader { files: Vec::new(), reads: 0 };
    let mut cache = ResourceCache::new();
    match parse_map(&"absent.tmx".to_string(), &mut reader, &mut cache) {
        Err(Error::PathIsNotFile) => (),
        other => panic!("expected an access error, got {:?}", other),
    }
}

#[test]
fn embedded_only_template_without_object_fails_exactly() {
    // No external reference anywhere: the missing-object error is the only
    // possible outcome of a template that closes without an object child.
    let tx = "<template><tileset firstgid=\"1\" name=\"in\" tilecount=\"2\"/></template>"
        .to_string();
    let mut reader = MemReader { files: vec![("t.tx".to_string(), tx)], reads: 0 };
    let mut cache = ResourceCache::new();
    match Template::parse_template(&"t.tx".to_string(), &mut reader, &mut cache) {
        Err(Error::TemplateHasNoObject) => (),
        other => panic!("expected the missing-object error, got {:?}", other),
    }
}

#[test]
fn map_associations_match_document_order() {
    let tmx = "<map>\
        <tileset firstgid=\"1\" name=\"a\" tilecount=\"2\"/>\
        <tileset firstgid=\"3\" name=\"b\" tilecount=\"2\"/>\
        <layer width=\"1\" height=\"1\"><data encoding=\"csv\">4</data></layer>\
        <layer width=\"1\" height=\"1\"><data encoding=\"csv\">1</data></layer>\
        </map>"
        .to_string();
    let mut reader = MemReader { files: vec![("m.tmx".to_string(), tmx)], reads: 0 };
    let mut cache = ResourceCache::new();
    let map = parse_map(&"m.tmx".to_string(), &mut reader, &mut cache).unwrap();
    let fgs: Vec<u32> = map.tilesets.iter().map(|a| a.first_gid).collect();
    assert_eq!(fgs, vec![1, 3]);
    assert_eq!(map.layers.len(), 2);
    assert_eq!(map.layers[0].tiles, vec![cell(1, 1)]);
    assert_eq!(map.layers[1].tiles, vec![cell(0, 0)]);
}
