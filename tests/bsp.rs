use powerjack::bsp::{texdata_strings, Bsp, BspFile, BSP_LUMP_COUNT};
use powerjack::error::DecodeError;
use powerjack::gamelumps::{read_static_props, BspGameLumpHeader, STATIC_PROP_LUMP_ID};
use powerjack::lumps::{BspColorRgbExp, BspDispTri, BspEdge};

fn le32(v: u32) -> [u8; 4] {
    v.to_le_bytes()
}

/// A level file with the given lumps placed after the directory.
fn bsp_file(lumps: &[(usize, Vec<u8>)]) -> Vec<u8> {
    let mut dir = vec![(0u32, 0u32); BSP_LUMP_COUNT];
    let mut body = Vec::new();
    let base = 8 + 16 * BSP_LUMP_COUNT;
    for (index, data) in lumps {
        dir[*index] = ((base + body.len()) as u32, data.len() as u32);
        body.extend_from_slice(data);
    }
    let mut out = b"VBSP".to_vec();
    out.extend_from_slice(&le32(20));
    for (offset, length) in dir {
        out.extend_from_slice(&le32(offset));
        out.extend_from_slice(&le32(length));
        out.extend_from_slice(&le32(0));
        out.extend_from_slice(b"\0\0\0\0");
    }
    out.extend_from_slice(&body);
    out
}

#[test]
fn header_is_parsed() {
    let file = BspFile::new(bsp_file(&[(5, vec![1, 2, 3])])).unwrap();
    assert_eq!(file.header.version, 20);
    assert_eq!(file.header.lumps.len(), 64);
    assert_eq!(file.header.lumps[5].length, 3);
    assert_eq!(file.header.lumps[5].offset, 1032);
}

#[test]
fn bad_magic_is_malformed() {
    let mut bytes = bsp_file(&[]);
    bytes[0] = b'X';
    assert!(matches!(BspFile::new(bytes), Err(DecodeError::MalformedHeader)));
}

#[test]
fn short_header_is_truncated() {
    let bytes = bsp_file(&[]);
    assert!(matches!(BspFile::new(bytes[..100].to_vec()), Err(DecodeError::TruncatedInput)));
    assert!(matches!(BspFile::new(b"VB".to_vec()), Err(DecodeError::TruncatedInput)));
}

#[test]
fn plain_lump_is_returned_unmodified() {
    let payload = vec![9u8, 8, 7, 6, 5, 4, 3];
    let file = BspFile::new(bsp_file(&[(2, payload.clone())])).unwrap();
    let got = file.read_lump_raw(2).unwrap();
    assert_eq!(got.len(), payload.len());
    assert_eq!(got, payload);
}

#[test]
fn short_lump_starting_like_marker_is_plain() {
    let file = BspFile::new(bsp_file(&[(2, b"LZM".to_vec())])).unwrap();
    assert_eq!(file.read_lump_raw(2).unwrap(), b"LZM".to_vec());
}

#[test]
fn lump_index_out_of_range() {
    let file = BspFile::new(bsp_file(&[])).unwrap();
    assert_eq!(file.read_lump_raw(64), Err(DecodeError::IndexNotFound));
}

#[test]
fn lump_past_end_of_file() {
    let file = BspFile::new(bsp_file(&[])).unwrap();
    assert_eq!(file.read_lump_raw_offset(1000, 100), Err(DecodeError::TruncatedInput));
}

fn lzma_lump(plain: &[u8]) -> Vec<u8> {
    let mut input = plain;
    let mut compressed = Vec::new();
    lzma_rs::lzma_compress(&mut input, &mut compressed).unwrap();
    let props = &compressed[0..5];
    let stream = &compressed[13..];
    let mut lump = b"LZMA".to_vec();
    lump.extend_from_slice(&le32(plain.len() as u32));
    lump.extend_from_slice(&le32(stream.len() as u32));
    lump.extend_from_slice(props);
    lump.extend_from_slice(stream);
    lump
}

#[test]
fn compressed_lump_is_decompressed() {
    let plain: Vec<u8> = (0..200u32).map(|i| (i % 7) as u8).collect();
    let file = BspFile::new(bsp_file(&[(4, lzma_lump(&plain))])).unwrap();
    assert_eq!(file.read_lump_raw(4).unwrap(), plain);
}

#[test]
fn compressed_lump_with_short_stream_is_truncated() {
    let plain = vec![1u8; 64];
    let mut lump = lzma_lump(&plain);
    let declared = u32::from_le_bytes([lump[8], lump[9], lump[10], lump[11]]);
    lump[8..12].copy_from_slice(&le32(declared + 1000));
    let file = BspFile::new(bsp_file(&[(4, lump)])).unwrap();
    assert_eq!(file.read_lump_raw(4), Err(DecodeError::TruncatedInput));
}

#[test]
fn corrupt_compressed_lump_is_compression_error() {
    let mut lump = b"LZMA".to_vec();
    lump.extend_from_slice(&le32(16));
    lump.extend_from_slice(&le32(4));
    lump.extend_from_slice(&[0xFF, 0xFF, 0xFF, 0xFF, 0xFF]);
    lump.extend_from_slice(&[0xFF, 0xFF, 0xFF, 0xFF]);
    let file = BspFile::new(bsp_file(&[(4, lump)])).unwrap();
    assert_eq!(file.read_lump_raw(4), Err(DecodeError::CompressionError));
}

#[test]
fn records_are_decoded() {
    let file = BspFile::new(bsp_file(&[(12, vec![1, 0, 2, 0, 3, 0, 4, 0])])).unwrap();
    let edges: Vec<BspEdge> = file.read_lump(12).unwrap();
    assert_eq!(edges, vec![BspEdge { v0: 1, v1: 2 }, BspEdge { v0: 3, v1: 4 }]);
}

#[test]
fn records_respect_maximum() {
    let file = BspFile::new(bsp_file(&[(48, vec![1, 0, 2, 0, 3])])).unwrap();
    let tris: Vec<BspDispTri> = file.read_lump_ex(48, 2).unwrap();
    assert_eq!(tris, vec![BspDispTri { tags: 1 }, BspDispTri { tags: 2 }]);
}

#[test]
fn partial_record_is_size_mismatch() {
    let file = BspFile::new(bsp_file(&[(48, vec![1, 0, 2])])).unwrap();
    let r: Result<Vec<BspDispTri>, DecodeError> = file.read_lump(48);
    assert_eq!(r, Err(DecodeError::RecordSizeMismatch));
}

#[test]
fn lightmap_sample_to_srgb() {
    let c = BspColorRgbExp { r: 10, g: 20, b: 30, exponent: 1 };
    assert_eq!(c.to_srgb(), [20, 60, 40]);
    let c = BspColorRgbExp { r: 10, g: 20, b: 30, exponent: -1 };
    assert_eq!(c.to_srgb(), [5, 15, 10]);
    let c = BspColorRgbExp { r: 200, g: 0, b: 0, exponent: 2 };
    assert_eq!(c.to_srgb(), [255, 0, 0]);
}

#[test]
fn texture_names_by_offset() {
    let data = b"dev\0tex\0bad".to_vec();
    let names = texdata_strings(&data, &vec![0, 4, 8, 50]);
    assert_eq!(names, vec!["dev", "tex", "INVALID_STRING", "INVALID_STRING"]);
}

fn name128(s: &str) -> Vec<u8> {
    let mut v = s.as_bytes().to_vec();
    v.resize(128, 0);
    v
}

fn static_section(count: u32, record_bytes: usize) -> Vec<u8> {
    let mut d = Vec::new();
    d.extend_from_slice(&le32(1));
    d.extend_from_slice(&name128("models/a.mdl"));
    d.extend_from_slice(&le32(2));
    d.extend_from_slice(&[5, 0, 6, 0]);
    d.extend_from_slice(&le32(count));
    for i in 0..record_bytes {
        d.push(i as u8);
    }
    d
}

#[test]
fn static_props_are_read_with_inferred_stride() {
    let mut d = static_section(2, 0);
    for i in 0..2u16 {
        let mut rec = vec![0u8; 40];
        rec[24..26].copy_from_slice(&(7 + i).to_le_bytes());
        rec[30] = 1;
        d.extend_from_slice(&rec);
    }
    let s = read_static_props(&d).unwrap();
    assert_eq!(s.names, vec!["models/a.mdl"]);
    assert_eq!(s.leaf, vec![5, 6]);
    assert_eq!(s.props.len(), 2);
    assert_eq!(s.props[0].model_index, 7);
    assert_eq!(s.props[1].model_index, 8);
    assert_eq!(s.props[1].solid, 1);
}

#[test]
fn static_props_uneven_division_is_size_mismatch() {
    let d = static_section(3, 100);
    assert!(matches!(read_static_props(&d), Err(DecodeError::RecordSizeMismatch)));
}

#[test]
fn static_props_empty_count() {
    let d = static_section(0, 0);
    let s = read_static_props(&d).unwrap();
    assert!(s.props.is_empty());
}

#[test]
fn static_props_truncated_dictionary() {
    let mut d = le32(2).to_vec();
    d.extend_from_slice(&name128("x"));
    assert!(matches!(read_static_props(&d), Err(DecodeError::TruncatedInput)));
}

#[test]
fn game_lump_directory() {
    let mut d = le32(1).to_vec();
    d.extend_from_slice(&le32(STATIC_PROP_LUMP_ID));
    d.extend_from_slice(&[1, 0, 10, 0]);
    d.extend_from_slice(&le32(2000));
    d.extend_from_slice(&le32(64));
    let h = BspGameLumpHeader::read(&d).unwrap();
    assert_eq!(h.lumps.len(), 1);
    assert_eq!(h.lumps[0].id, STATIC_PROP_LUMP_ID);
    assert_eq!(h.lumps[0].version, 10);
    assert_eq!(h.lumps[0].filelen, 64);
    assert!(matches!(BspGameLumpHeader::read(&d[..10]), Err(DecodeError::TruncatedInput)));
}

#[test]
fn full_parse_of_small_level() {
    let game_dir = le32(0).to_vec();
    let file = BspFile::new(bsp_file(&[
        (0, b"{ }\0".to_vec()),
        (12, vec![1, 0, 2, 0]),
        (35, game_dir),
        (43, b"dev\0tex\0".to_vec()),
        (44, [le32(4), le32(0)].concat()),
    ]))
    .unwrap();
    let bsp = Bsp::parse(&file).unwrap();
    assert_eq!(bsp.entities, "{ }");
    assert_eq!(bsp.edges, vec![BspEdge { v0: 1, v1: 2 }]);
    assert_eq!(bsp.texdata_string_table, vec!["tex", "dev"]);
    assert!(bsp.game_lumps.is_empty());
    assert!(bsp.static_props.is_empty());
    assert!(bsp.planes.is_empty());
}

#[test]
fn parse_without_entity_terminator_fails() {
    let file = BspFile::new(bsp_file(&[(0, b"{ }".to_vec()), (35, le32(0).to_vec())])).unwrap();
    assert!(matches!(Bsp::parse(&file), Err(DecodeError::TruncatedInput)));
}

#[test]
fn parse_reports_static_prop_size_mismatch() {
    let section = static_section(3, 100);
    let mut dir = le32(1).to_vec();
    dir.extend_from_slice(&le32(STATIC_PROP_LUMP_ID));
    dir.extend_from_slice(&[0, 0, 10, 0]);
    let base = (8 + 16 * BSP_LUMP_COUNT + 3 + 20) as u32;
    dir.extend_from_slice(&le32(base));
    dir.extend_from_slice(&le32(section.len() as u32));
    let mut lumps = vec![(0usize, b"{}\0".to_vec()), (35usize, dir)];
    lumps.push((1, section));
    let file = BspFile::new(bsp_file(&lumps)).unwrap();
    assert_eq!(file.header.lumps[1].offset, base);
    assert!(matches!(Bsp::parse(&file), Err(DecodeError::RecordSizeMismatch)));
}

#[test]
fn parse_with_empty_game_lump_directory() {
    let file = BspFile::new(bsp_file(&[(0, b"{}\0".to_vec())])).unwrap();
    assert!(matches!(Bsp::parse(&file), Err(DecodeError::TruncatedInput)));
}

#[test]
fn compressed_lump_has_declared_size() {
    let plain = vec![3u8; 77];
    let file = BspFile::new(bsp_file(&[(4, lzma_lump(&plain))])).unwrap();
    assert_eq!(file.read_lump_raw(4).unwrap().len(), 77);
}
