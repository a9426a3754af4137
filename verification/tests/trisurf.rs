use lxoxide::geometry::trisurf::{TriSurfDataHeader, TriSurfGroupHeader, TriSurfTag, TriSurfTags, TriSurfVertices};
use lxoxide::primitives::{ChunkHeader, NullString, Point, ID4};

fn ns(s: &str) -> NullString {
    NullString(s.as_bytes().to_vec())
}

fn id(s: &[u8; 4]) -> ID4 {
    ID4::new(*s)
}

fn pt(x: f32, y: f32, z: f32) -> Point {
    Point([x.to_bits(), y.to_bits(), z.to_bits()])
}

#[test]
fn trisurf_group_header() {
    let buf: &[u8] = &[
        0x33, 0x47, 0x52, 0x50, 0x00, 0x00, 0x00, 0x0c, 0x00, 0x00, 0x00, 0x01, 0x00, 0x00,
            0x00, 0x23, 0x00, 0x00, 0x00, 0x00,
    ];

    let (header, p) = ChunkHeader::read_be(buf, 0).unwrap();
    let (group, _) = TriSurfGroupHeader::read_be(buf, p).unwrap();

    assert_eq!(header.kind, id(b"3GRP"));
    assert_eq!(header.size, 12);
    assert_eq!(group.trisurf_count, 1);
    assert_eq!(group.item_reference, 35);
    assert_eq!(group.flags, 0);
}

#[test]
fn trisurf_vertices_cube() {
    let buf: &[u8] = &[
        0x56, 0x52, 0x54, 0x53, 0x00, 0x00, 0x00, 0x60, 0xbf, 0x00, 0x00, 0x00, 0xbf, 0x00,
            0x00, 0x00, 0x3f, 0x00, 0x00, 0x00, 0x3f, 0x00, 0x00, 0x00, 0xbf, 0x00, 0x00, 0x00,
            0x3f, 0x00, 0x00, 0x00, 0x3f, 0x00, 0x00, 0x00, 0x3f, 0x00, 0x00, 0x00, 0x3f, 0x00,
            0x00, 0x00, 0xbf, 0x00, 0x00, 0x00, 0x3f, 0x00, 0x00, 0x00, 0x3f, 0x00, 0x00, 0x00,
            0xbf, 0x00, 0x00, 0x00, 0xbf, 0x00, 0x00, 0x00, 0x3f, 0x00, 0x00, 0x00, 0xbf, 0x00,
            0x00, 0x00, 0xbf, 0x00, 0x00, 0x00, 0xbf, 0x00, 0x00, 0x00, 0x3f, 0x00, 0x00, 0x00,
            0xbf, 0x00, 0x00, 0x00, 0xbf, 0x00, 0x00, 0x00, 0x3f, 0x00, 0x00, 0x00, 0x3f, 0x00,
            0x00, 0x00, 0xbf, 0x00, 0x00, 0x00,
    ];

    let (header, p) = ChunkHeader::read_be(buf, 0).unwrap();
    let (vertices, _) = TriSurfVertices::read_be(buf, p, header.size / 12).unwrap();

    assert_eq!(header.kind, id(b"VRTS"));
    assert_eq!(header.size, 96);
    assert_eq!(vertices.len(), 8);
    assert_eq!(vertices.as_slice()[0], pt(-0.5, -0.5, 0.5));
    assert_eq!(vertices.as_slice()[7], pt(0.5, 0.5, -0.5));
}

#[test]
fn trisurf_data_header() {
    let buf: &[u8] = &[
        0x33, 0x53, 0x52, 0x46, 0x00, 0x00, 0x00, 0x14, 0x00, 0x00, 0x01, 0x2a, 0x00, 0x00,
            0x01, 0xe0, 0x00, 0x00, 0x00, 0x04, 0x00, 0x00, 0x00, 0x02, 0x00, 0x00, 0x00, 0x00,
    ];

    let (header, p) = ChunkHeader::read_be(buf, 0).unwrap();
    let (data, _) = TriSurfDataHeader::read_be(buf, p).unwrap();

    assert_eq!(header.kind, id(b"3SRF"));
    assert_eq!(header.size, 20);
    assert_eq!(data.vertex_count, 298);
    assert_eq!(data.triangle_count, 480);
    assert_eq!(data.vertex_vector_count, 4);
    assert_eq!(data.tag_count, 2);
    assert_eq!(data.flags, 0);
}

#[test]
fn trisurf_tags_various_lengths() {
    // A synthetic chunk
    let buf: &[u8] = &[
        0x54, 0x54, 0x47, 0x53, 0x00, 0x00, 0x00, 0x14, 0x4D, 0x41, 0x54, 0x52, 0x00, 0x00,
            0x50, 0x41, 0x52, 0x54, 0x41, 0x00, 0x4D, 0x41, 0x54, 0x52, 0x41, 0x42, 0x00, 0x00,
    ];

    let (header, p) = ChunkHeader::read_be(buf, 0).unwrap();
    let (tags, _) = TriSurfTags::read_be(buf, p, header.size).unwrap();

    assert_eq!(tags.len(), 3);

    assert_eq!(
        tags.as_slice(),
        vec![
            TriSurfTag { kind: ID4::from_str("MATR").unwrap(), name: ns("") },
            TriSurfTag { kind: ID4::from_str("PART").unwrap(), name: ns("A") },
            TriSurfTag { kind: ID4::from_str("MATR").unwrap(), name: ns("AB") },
        ]
    );

    let mut writer = Vec::new();
    header.write_be(&mut writer);
    tags.write_be(&mut writer);

    assert_eq!(writer, buf.to_vec());
}

#[test]
fn unnamed_material_and_part_trisurf_tags() {
    let buf: &[u8] = &[
        0x54, 0x54, 0x47, 0x53, 0x00, 0x00, 0x00, 0x0c, 0x4d, 0x41, 0x54, 0x52, 0x00, 0x00,
            0x50, 0x41, 0x52, 0x54, 0x00, 0x00,
    ];

    let (header, p) = ChunkHeader::read_be(buf, 0).unwrap();
    let (tags, _) = TriSurfTags::read_be(buf, p, header.size).unwrap();

    assert_eq!(
        tags.as_slice(),
        vec![
            TriSurfTag { kind: ID4::from_str("MATR").unwrap(), name: ns("") },
            TriSurfTag { kind: ID4::from_str("PART").unwrap(), name: ns("") },
        ]
    );

    let mut writer = Vec::new();
    header.write_be(&mut writer);
    tags.write_be(&mut writer);

    assert_eq!(writer, buf.to_vec());
}
