use lxoxide::meta::Encoding;
use lxoxide::primitives::{NullString, ID4, VX};
use lxoxide::{Extension, LuxologyFile, ParseError};

/// Data of the `LAYR` chunk of a cube: visible in the foreground, no name.
const CUBE_LAYER: [u8; 90] = [
    0x00, 0x00, 0x00, 0x05, 0x00, 0x00, 0x00, 0x00, 0x00, 0x00, 0x00, 0x00, 0x00, 0x00, 0x00, 0x00,
    0x00, 0x00, 0xff, 0xff, 0x40, 0x00, 0x00, 0x00, 0x3d, 0xb2, 0xb8, 0xc2, 0x3f, 0x80, 0x00, 0x00,
    0x00, 0x00, 0x00, 0x00, 0x00, 0x00, 0x00, 0x00, 0x00, 0x00, 0x00, 0x00, 0x3f, 0x80, 0x00, 0x00,
    0x00, 0x00, 0x00, 0x00, 0x00, 0x00, 0x00, 0x00, 0x00, 0x00, 0x00, 0x00, 0x3f, 0x80, 0x00, 0x00,
    0x00, 0x00, 0x00, 0x00, 0x00, 0x10, 0x00, 0x00, 0x00, 0x00, 0x00, 0x00, 0x00, 0x01, 0x00, 0x02,
    0x00, 0x02, 0x00, 0x02, 0x00, 0x01, 0x00, 0x01, 0x00, 0x00,
];

fn chunk(kind: &[u8; 4], data: &[u8]) -> Vec<u8> {
    let mut v = kind.to_vec();
    v.extend_from_slice(&(data.len() as u32).to_be_bytes());
    v.extend_from_slice(data);
    v
}

fn file(kind: &[u8; 4], chunks: &[Vec<u8>]) -> Vec<u8> {
    let mut body = kind.to_vec();
    for c in chunks {
        body.extend_from_slice(c);
    }
    let mut v = b"FORM".to_vec();
    v.extend_from_slice(&(body.len() as u32).to_be_bytes());
    v.extend_from_slice(&body);
    v
}

fn code(kind: &[u8; 4]) -> u32 {
    u32::from_be_bytes(*kind)
}

fn point_data(n: usize) -> Vec<u8> {
    let mut v = Vec::new();
    for i in 0..n {
        for c in [i as f32, 0.5, -0.5] {
            v.extend_from_slice(&c.to_bits().to_be_bytes());
        }
    }
    v
}

#[test]
fn file_with_header_only() {
    let data = file(b"LXOB", &[]);
    let lxo = LuxologyFile::from_bytes(&data).unwrap();
    assert_eq!(lxo.header.kind, Extension::LXOB);
    assert_eq!(lxo.header.size, 4);
    assert!(lxo.layers.is_empty());
    assert!(lxo.items.is_empty());
    assert!(lxo.version.is_none());
}

#[test]
fn file_preset_extensions() {
    for (kind, ext) in [(b"LXPR", Extension::LXPR), (b"LXPE", Extension::LXPE), (b"LXPM", Extension::LXPM)] {
        let data = file(kind, &[]);
        assert_eq!(LuxologyFile::from_bytes(&data).unwrap().header.kind, ext);
    }
}

#[test]
fn file_size_mismatch() {
    let mut data = file(b"LXOB", &[]);
    data.push(0);
    assert_eq!(LuxologyFile::from_bytes(&data).unwrap_err(), ParseError::SizeMismatch);
}

#[test]
fn file_bad_magic() {
    let mut data = file(b"LXOB", &[]);
    data[0] = b'X';
    assert_eq!(LuxologyFile::from_bytes(&data).unwrap_err(), ParseError::InvalidMagicNumber);
}

#[test]
fn file_unsupported_extension() {
    let data = file(b"ABCD", &[]);
    assert_eq!(LuxologyFile::from_bytes(&data).unwrap_err(), ParseError::NonSupportedExtension);
}

#[test]
fn file_truncated_header() {
    let data = b"FORM\x00\x00".to_vec();
    assert_eq!(LuxologyFile::from_bytes(&data).unwrap_err(), ParseError::UnexpectedEof);
}

#[test]
fn file_version_and_encoding() {
    let mut vrsn = vec![0, 0, 0, 16, 0, 0, 0, 1];
    vrsn.extend_from_slice(b"app\0");
    let data = file(b"LXOB", &[chunk(b"VRSN", &vrsn), chunk(b"ENCO", &[0, 0, 0, 2])]);
    let lxo = LuxologyFile::from_bytes(&data).unwrap();
    let version = lxo.version.unwrap();
    assert_eq!(version.major, 16);
    assert_eq!(version.minor, 1);
    assert_eq!(version.application, NullString(b"app".to_vec()));
    assert_eq!(lxo.encoding, Some(Encoding::Utf8));
}

#[test]
fn file_later_chunk_replaces_earlier() {
    let data = file(b"LXOB", &[chunk(b"ENCO", &[0, 0, 0, 2]), chunk(b"ENCO", &[0, 0, 0, 7])]);
    let lxo = LuxologyFile::from_bytes(&data).unwrap();
    assert_eq!(lxo.encoding, Some(Encoding::Big5));
}

#[test]
fn file_unknown_chunk_skipped() {
    let data = file(b"LXOB", &[chunk(b"ZZZZ", &[1, 2, 3, 4]), chunk(b"ENCO", &[0, 0, 0, 1])]);
    let lxo = LuxologyFile::from_bytes(&data).unwrap();
    assert_eq!(lxo.encoding, Some(Encoding::Ansi));
}

#[test]
fn file_trailing_partial_header() {
    let mut body = b"LXOB".to_vec();
    body.extend_from_slice(&chunk(b"ENCO", &[0, 0, 0, 0]));
    body.extend_from_slice(b"ZZZ");
    let mut data = b"FORM".to_vec();
    data.extend_from_slice(&(body.len() as u32).to_be_bytes());
    data.extend_from_slice(&body);
    let lxo = LuxologyFile::from_bytes(&data).unwrap();
    assert_eq!(lxo.encoding, Some(Encoding::Default));
}

#[test]
fn file_invalid_chunk_id() {
    let data = file(b"LXOB", &[chunk(&[0x01, 0x02, 0x03, 0x04], &[0, 0])]);
    assert_eq!(LuxologyFile::from_bytes(&data).unwrap_err(), ParseError::InvalidID4);
}

#[test]
fn file_chunk_larger_than_file() {
    let mut c = chunk(b"ENCO", &[0, 0, 0, 2]);
    c[7] = 100;
    let data = file(b"LXOB", &[c]);
    assert_eq!(LuxologyFile::from_bytes(&data).unwrap_err(), ParseError::InvalidSize);
}

#[test]
fn file_odd_chunk_size() {
    let data = file(b"LXOB", &[chunk(b"ZZZZ", &[1, 2, 3])]);
    assert_eq!(
        LuxologyFile::from_bytes(&data).unwrap_err(),
        ParseError::OddChunkSize { kind: ID4::new(*b"ZZZZ"), size: 3 }
    );
}

#[test]
fn file_chunk_boundary_mismatch() {
    let data = file(b"LXOB", &[chunk(b"ENCO", &[0, 0, 0, 2, 0, 0])]);
    assert_eq!(
        LuxologyFile::from_bytes(&data).unwrap_err(),
        ParseError::ChunkBoundaryMismatch { kind: ID4::new(*b"ENCO"), expected: 6, consumed: 4 }
    );
}

#[test]
fn file_points_without_layer() {
    let data = file(b"LXOB", &[chunk(b"PNTS", &point_data(1))]);
    assert_eq!(LuxologyFile::from_bytes(&data).unwrap_err(), ParseError::MissingLayer);
}

#[test]
fn file_polygons_without_points() {
    let pols = [b'F', b'A', b'C', b'E', 0, 1, 0, 0];
    let data = file(b"LXOB", &[chunk(b"LAYR", &CUBE_LAYER), chunk(b"POLS", &pols)]);
    assert_eq!(LuxologyFile::from_bytes(&data).unwrap_err(), ParseError::MissingPoints);
}

#[test]
fn file_tags_without_polygons() {
    let ptag = [b'M', b'A', b'T', b'R', 0, 0, 0, 1];
    let data = file(
        b"LXOB",
        &[chunk(b"LAYR", &CUBE_LAYER), chunk(b"PNTS", &point_data(1)), chunk(b"PTAG", &ptag)],
    );
    assert_eq!(LuxologyFile::from_bytes(&data).unwrap_err(), ParseError::MissingPolygonsList);
}

#[test]
fn file_layer_geometry() {
    let pols = [b'F', b'A', b'C', b'E', 0, 3, 0, 0, 0, 1, 0, 2];
    let ptag = [b'M', b'A', b'T', b'R', 0, 0, 0, 7];
    let data = file(
        b"LXOB",
        &[
            chunk(b"LAYR", &CUBE_LAYER),
            chunk(b"PNTS", &point_data(3)),
            chunk(b"POLS", &pols),
            chunk(b"PTAG", &ptag),
        ],
    );
    let lxo = LuxologyFile::from_bytes(&data).unwrap();
    assert_eq!(lxo.layers.len(), 1);
    let geometry = &lxo.layers[0].geometry;
    assert_eq!(geometry.points.as_ref().unwrap().len(), 3);
    let group = geometry.polygons.get(&code(b"FACE")).unwrap();
    assert_eq!(group.polygons.polygons.len(), 1);
    assert_eq!(group.polygons.polygons[0].vertex_index, vec![VX::U2(0), VX::U2(1), VX::U2(2)]);
    assert_eq!(group.tags.len(), 1);
    assert_eq!(group.tags[0].kind, ID4::new(*b"MATR"));
    assert_eq!(group.tags[0].tags.get(&VX::U2(0)), Some(&7));
}

#[test]
fn file_geometry_belongs_to_last_layer() {
    let data = file(
        b"LXOB",
        &[chunk(b"LAYR", &CUBE_LAYER), chunk(b"LAYR", &CUBE_LAYER), chunk(b"PNTS", &point_data(2))],
    );
    let lxo = LuxologyFile::from_bytes(&data).unwrap();
    assert_eq!(lxo.layers.len(), 2);
    assert!(lxo.layers[0].geometry.points.is_none());
    assert_eq!(lxo.layers[1].geometry.points.as_ref().unwrap().len(), 2);
}

#[test]
fn file_trisurface_without_group() {
    let data = file(b"LXOB", &[chunk(b"3SRF", &[0; 20])]);
    assert_eq!(LuxologyFile::from_bytes(&data).unwrap_err(), ParseError::MissingTriSurfGroupHeader);
}

#[test]
fn file_vertices_without_trisurface() {
    let data = file(b"LXOB", &[chunk(b"3GRP", &[0; 12]), chunk(b"VRTS", &point_data(1))]);
    assert_eq!(LuxologyFile::from_bytes(&data).unwrap_err(), ParseError::MissingTriSurfDataHeader);
}

#[test]
fn file_trisurface_vertex_count_mismatch() {
    let mut srf = [0u8; 20];
    srf[3] = 2;
    let data = file(
        b"LXOB",
        &[chunk(b"3GRP", &[0; 12]), chunk(b"3SRF", &srf), chunk(b"VRTS", &point_data(1))],
    );
    assert_eq!(LuxologyFile::from_bytes(&data).unwrap_err(), ParseError::InvalidSize);
}

#[test]
fn file_trisurface_parts() {
    let mut srf = [0u8; 20];
    srf[3] = 1;
    srf[7] = 1;
    srf[15] = 1;
    let tris = [0, 0, 0, 0, 0, 0, 0, 0, 0, 0, 0, 0];
    let tags = [b'M', b'A', b'T', b'R', b'x', 0];
    let data = file(
        b"LXOB",
        &[
            chunk(b"3GRP", &[0, 0, 0, 1, 0, 0, 0, 9, 0, 0, 0, 0]),
            chunk(b"3SRF", &srf),
            chunk(b"VRTS", &point_data(1)),
            chunk(b"TRIS", &tris),
            chunk(b"TTGS", &tags),
        ],
    );
    let lxo = LuxologyFile::from_bytes(&data).unwrap();
    assert_eq!(lxo.trisurfs.len(), 1);
    assert_eq!(lxo.trisurfs[0].item_reference, 9);
    let surface = &lxo.trisurfs[0].trisurfaces[0];
    assert_eq!(surface.vertices.as_ref().unwrap().len(), 1);
    assert_eq!(surface.triangles.as_ref().unwrap().0.len(), 3);
    let t = surface.tags.as_ref().unwrap();
    assert_eq!(t.len(), 1);
    assert_eq!(t.as_slice()[0].name, NullString(b"x".to_vec()));
}
