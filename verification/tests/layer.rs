use lxoxide::geometry::layer::{
    read_polygon_from_bytes,
    BoundaryRules, BoundingBox, CurveHandle, DiscontinousVertexMap, Layer, LayerFlag, Points,
    PolygonList, PolygonTagMapping, UvSubdivisionKind, VertexMap, VertexMapParameter,
};
use lxoxide::meta::ItemTags;
use lxoxide::primitives::{ChunkHeader, NullString, Point, ID4, VX};

fn ns(s: &str) -> NullString {
    NullString(s.as_bytes().to_vec())
}

fn id(s: &[u8; 4]) -> ID4 {
    ID4::new(*s)
}

fn pt(x: f32, y: f32, z: f32) -> Point {
    Point([x.to_bits(), y.to_bits(), z.to_bits()])
}

#[test]
fn test_parse_layer_cube_lxo() {
    let buf: &[u8] = &[
        0x4c, 0x41, 0x59, 0x52, 0x00, 0x00, 0x00, 0x5a, 0x00, 0x00, 0x00, 0x05, 0x00, 0x00,
            0x00, 0x00, 0x00, 0x00, 0x00, 0x00, 0x00, 0x00, 0x00, 0x00, 0x00, 0x00, 0xff, 0xff,
            0x40, 0x00, 0x00, 0x00, 0x3d, 0xb2, 0xb8, 0xc2, 0x3f, 0x80, 0x00, 0x00, 0x00, 0x00,
            0x00, 0x00, 0x00, 0x00, 0x00, 0x00, 0x00, 0x00, 0x00, 0x00, 0x3f, 0x80, 0x00, 0x00,
            0x00, 0x00, 0x00, 0x00, 0x00, 0x00, 0x00, 0x00, 0x00, 0x00, 0x00, 0x00, 0x3f, 0x80,
            0x00, 0x00, 0x00, 0x00, 0x00, 0x00, 0x00, 0x10, 0x00, 0x00, 0x00, 0x00, 0x00, 0x00,
            0x00, 0x01, 0x00, 0x02, 0x00, 0x02, 0x00, 0x02, 0x00, 0x01, 0x00, 0x01, 0x00, 0x00,
    ];

    let (header, p) = ChunkHeader::read_be(buf, 0).unwrap();
    let (layer, q) = Layer::read_be(buf, p).unwrap();

    assert_eq!(layer.index, 0, "Failed to parse index");
    assert_eq!(layer.flags, LayerFlag::Default());
    assert!(layer.name.is_empty());
    assert_eq!(layer.parent, 0xffff);
    assert_eq!(f32::from_bits(layer.subdivision_level), 2.0);
    assert_eq!(layer.reference, 0);
    assert_eq!(layer.spline_patch_level, 16);
    assert_eq!(layer.future_expansion, [0u16; 3]);
    assert_eq!(layer.boundary_rules, BoundaryRules::CreaseAll);

    assert!(layer.multires.is_none());

    assert_eq!(q, header.size as u64 + 8, "Failed to read the whole chunk");
}

#[test]
fn test_parse_cube_points() {
    let buf: &[u8] = &[
        b'P', b'N', b'T', b'S', 0x00, 0x00, 0x00, 0x60, 0xbf, 0x00, 0x00, 0x00, 0xbf, 0x00,
            0x00, 0x00, 0x3f, 0x00, 0x00, 0x00, 0x3f, 0x00, 0x00, 0x00, 0xbf, 0x00, 0x00, 0x00,
            0x3f, 0x00, 0x00, 0x00, 0x3f, 0x00, 0x00, 0x00, 0xbf, 0x00, 0x00, 0x00, 0xbf, 0x00,
            0x00, 0x00, 0xbf, 0x00, 0x00, 0x00, 0xbf, 0x00, 0x00, 0x00, 0xbf, 0x00, 0x00, 0x00,
            0xbf, 0x00, 0x00, 0x00, 0x3f, 0x00, 0x00, 0x00, 0x3f, 0x00, 0x00, 0x00, 0x3f, 0x00,
            0x00, 0x00, 0x3f, 0x00, 0x00, 0x00, 0x3f, 0x00, 0x00, 0x00, 0x3f, 0x00, 0x00, 0x00,
            0x3f, 0x00, 0x00, 0x00, 0xbf, 0x00, 0x00, 0x00, 0xbf, 0x00, 0x00, 0x00, 0x3f, 0x00,
            0x00, 0x00, 0xbf, 0x00, 0x00, 0x00,
    ];

    let (header, p) = ChunkHeader::read_be(buf, 0).unwrap();
    let (points, _) = Points::read_be(buf, p, header.size / 12).unwrap();

    assert_eq!(points.0.len(), 8);
}

#[test]
fn test_parse_cube_polygons() {
    let buf: &[u8] = &[
        0x50, 0x4f, 0x4c, 0x53, 0x00, 0x00, 0x00, 0x40, 0x46, 0x41, 0x43, 0x45, 0x00, 0x04,
            0x00, 0x00, 0x00, 0x03, 0x00, 0x02, 0x00, 0x01, 0x00, 0x04, 0x00, 0x04, 0x00, 0x00,
            0x00, 0x01, 0x00, 0x05, 0x00, 0x04, 0x00, 0x05, 0x00, 0x01, 0x00, 0x02, 0x00, 0x06,
            0x00, 0x04, 0x00, 0x06, 0x00, 0x02, 0x00, 0x03, 0x00, 0x07, 0x00, 0x04, 0x00, 0x07,
            0x00, 0x03, 0x00, 0x00, 0x00, 0x04, 0x00, 0x04, 0x00, 0x04, 0x00, 0x05, 0x00, 0x06,
            0x00, 0x07,
    ];

    let (header, p) = ChunkHeader::read_be(buf, 0).unwrap();
    let (polygon_list, _) = PolygonList::read_be(buf, p, header.size).unwrap();

    assert_eq!(polygon_list.kind, id(b"FACE"));
    assert!(polygon_list.polygons.iter().all(|polygon| polygon.vertex_count == 4));
}

#[test]
fn cube_bounding_box() {
    let buf: &[u8] = &[
        0x42, 0x42, 0x4f, 0x58, 0x00, 0x00, 0x00, 0x18, 0xbf, 0x00, 0x00, 0x00, 0xbf, 0x00,
            0x00, 0x00, 0xbf, 0x00, 0x00, 0x00, 0x3f, 0x00, 0x00, 0x00, 0x3f, 0x00, 0x00, 0x00,
            0x3f, 0x00, 0x00, 0x00,
    ];

    let (_, p) = ChunkHeader::read_be(buf, 0).unwrap();
    let (bounds, _) = BoundingBox::read_be(buf, p).unwrap();

    assert_eq!(bounds.min, pt(-0.5, -0.5, -0.5));
    assert_eq!(bounds.max, pt(0.5, 0.5, 0.5));
}

#[test]
fn cube_vertex_map_parameters() {
    let buf: &[u8] = &[0x00, 0x00, 0x00, 0x01, 0x00, 0x00, 0x00, 0x06];
    let (vmpa, _) = VertexMapParameter::read_be(buf, 0).unwrap();

    assert_eq!(vmpa.uv_subdivision, UvSubdivisionKind::Subpatch);
    assert_eq!(vmpa.sketch_color, 6);
}

#[test]
fn cube_vertex_map() {
    let buf: &[u8] = &[
        0x56, 0x4d, 0x41, 0x50, 0x00, 0x00, 0x00, 0x5e, 0x54, 0x58, 0x55, 0x56, 0x00, 0x02,
            0x54, 0x65, 0x78, 0x74, 0x75, 0x72, 0x65, 0x00, 0x00, 0x07, 0x3e, 0x80, 0x00, 0x00,
            0x3f, 0x2a, 0xaa, 0xab, 0x00, 0x06, 0x3f, 0x00, 0x00, 0x00, 0x3f, 0x2a, 0xaa, 0xab,
            0x00, 0x05, 0x3f, 0x40, 0x00, 0x00, 0x3f, 0x2a, 0xaa, 0xab, 0x00, 0x04, 0x3f, 0x80,
            0x00, 0x00, 0x3f, 0x2a, 0xaa, 0xab, 0x00, 0x03, 0x3e, 0x80, 0x00, 0x00, 0x3e, 0xaa,
            0xaa, 0xab, 0x00, 0x02, 0x3f, 0x00, 0x00, 0x00, 0x3e, 0xaa, 0xaa, 0xab, 0x00, 0x01,
            0x3f, 0x00, 0x00, 0x00, 0x00, 0x00, 0x00, 0x00, 0x00, 0x00, 0x3e, 0x80, 0x00, 0x00,
            0x00, 0x00, 0x00, 0x00,
    ];
    let (header, p) = ChunkHeader::read_be(buf, 0).unwrap();
    let (vmap, _) = VertexMap::read_be(buf, p, header.size).unwrap();

    assert_eq!(vmap.kind, id(b"TXUV"));
    assert_eq!(vmap.dimension, 2);
    assert_eq!(vmap.name, ns("Texture"));
    assert_eq!(vmap.data.len(), 8);
}

#[test]
fn cube_discontinous_vertex_map() {
    let buf: &[u8] = &[
        0x56, 0x4d, 0x41, 0x44, 0x00, 0x00, 0x00, 0x62, 0x54, 0x58, 0x55, 0x56, 0x00, 0x02,
            0x54, 0x65, 0x78, 0x74, 0x75, 0x72, 0x65, 0x00, 0x00, 0x01, 0x00, 0x01, 0x3f, 0x40,
            0x00, 0x00, 0x3e, 0xaa, 0xaa, 0xab, 0x00, 0x00, 0x00, 0x01, 0x3f, 0x80, 0x00, 0x00,
            0x3e, 0xaa, 0xaa, 0xab, 0x00, 0x01, 0x00, 0x02, 0x3f, 0x40, 0x00, 0x00, 0x3e, 0xaa,
            0xaa, 0xab, 0x00, 0x04, 0x00, 0x04, 0x00, 0x00, 0x00, 0x00, 0x3f, 0x2a, 0xaa, 0xab,
            0x00, 0x00, 0x00, 0x04, 0x00, 0x00, 0x00, 0x00, 0x3e, 0xaa, 0xaa, 0xab, 0x00, 0x04,
            0x00, 0x05, 0x3e, 0x80, 0x00, 0x00, 0x3f, 0x80, 0x00, 0x00, 0x00, 0x05, 0x00, 0x05,
            0x3f, 0x00, 0x00, 0x00, 0x3f, 0x80, 0x00, 0x00,
    ];

    let (header, p) = ChunkHeader::read_be(buf, 0).unwrap();
    let (_vmap, q) = DiscontinousVertexMap::read_be(buf, p, header.size).unwrap();
    assert_eq!(q, 106, "Failed to read the whole chunk");
}

#[test]
fn cube_matr_ptags() {
    let buf: &[u8] = &[
        0x50, 0x54, 0x41, 0x47, 0x00, 0x00, 0x00, 0x1c, 0x4d, 0x41, 0x54, 0x52, 0x00, 0x00,
            0x00, 0x01, 0x00, 0x01, 0x00, 0x01, 0x00, 0x02, 0x00, 0x01, 0x00, 0x03, 0x00, 0x01,
            0x00, 0x04, 0x00, 0x01, 0x00, 0x05, 0x00, 0x01,
    ];
    let (header, p) = ChunkHeader::read_be(buf, 0).unwrap();
    let (ptags, _) = PolygonTagMapping::read_be(buf, p, header.size).unwrap();

    assert_eq!(ptags.tags.len(), 6);
    assert!(ptags.tags.as_slice().iter().all(|(_, v)| *v == 1));
}

#[test]
fn bezier_curve_polygons() {
    let buf: &[u8] = &[
        0x50, 0x4f, 0x4c, 0x53, 0x00, 0x00, 0x00, 0x66, 0x42, 0x43, 0x52, 0x56, 0x00, 0x2e,
            0x00, 0x00, 0x1a, 0x00, 0x00, 0x00, 0x00, 0x01, 0x00, 0x02, 0x00, 0x03, 0x00, 0x04,
            0x00, 0x05, 0x00, 0x06, 0x00, 0x07, 0x00, 0x08, 0x00, 0x09, 0x00, 0x0a, 0x00, 0x0b,
            0x00, 0x0c, 0x00, 0x0d, 0x00, 0x0e, 0x00, 0x0f, 0x00, 0x10, 0x00, 0x11, 0x00, 0x12,
            0x00, 0x13, 0x00, 0x14, 0x00, 0x15, 0x00, 0x16, 0x00, 0x17, 0x00, 0x18, 0x00, 0x19,
            0x00, 0x1a, 0x00, 0x1b, 0x00, 0x1c, 0x00, 0x1d, 0x00, 0x1e, 0x00, 0x1f, 0x00, 0x20,
            0x00, 0x21, 0x00, 0x22, 0x00, 0x23, 0x00, 0x24, 0x00, 0x25, 0x00, 0x26, 0x00, 0x27,
            0x00, 0x28, 0x00, 0x29, 0x00, 0x2a, 0x00, 0x2b, 0x00, 0x2c, 0x00, 0x2d,
    ];

    let (header, p) = ChunkHeader::read_be(buf, 0).unwrap();
    let (pols, q) = PolygonList::read_be(buf, p, header.size).unwrap();

    assert_eq!(pols.kind, id(b"BCRV"));
    assert_eq!(pols.polygons.len(), 1);
    assert_eq!(pols.polygons[0].vertex_count, 46);
    assert_eq!(q, header.size as u64 + 8, "Failed to read the whole chunk");
}

#[test]
fn named_multiresolution_layer() {
    let buf: &[u8] = &[
        0x4c, 0x41, 0x59, 0x52, 0x00, 0x00, 0x00, 0x9a, 0x00, 0x02, 0x20, 0x05, 0x00, 0x00,
            0x00, 0x00, 0x00, 0x00, 0x00, 0x00, 0x00, 0x00, 0x00, 0x00, 0x4d, 0x75, 0x6c, 0x74,
            0x69, 0x72, 0x65, 0x73, 0x6f, 0x6c, 0x75, 0x74, 0x69, 0x6f, 0x6e, 0x00, 0xff, 0xff,
            0x40, 0x00, 0x00, 0x00, 0x3e, 0x86, 0x0a, 0x92, 0x3f, 0x80, 0x00, 0x00, 0x00, 0x00,
            0x00, 0x00, 0x00, 0x00, 0x00, 0x00, 0x00, 0x00, 0x00, 0x00, 0x3f, 0x80, 0x00, 0x00,
            0x00, 0x00, 0x00, 0x00, 0x00, 0x00, 0x00, 0x00, 0x00, 0x00, 0x00, 0x00, 0x3f, 0x80,
            0x00, 0x00, 0x00, 0x00, 0x00, 0x02, 0x00, 0x03, 0x00, 0x00, 0x00, 0x00, 0x00, 0x00,
            0x00, 0x01, 0x00, 0x02, 0x00, 0x00, 0x00, 0x00, 0x00, 0x02, 0x00, 0x02, 0x00, 0x02,
            0x00, 0x00, 0x00, 0x01, 0x00, 0x00, 0x00, 0x01, 0x4c, 0x61, 0x79, 0x65, 0x72, 0x20,
            0x30, 0x00, 0x00, 0x00, 0x00, 0x00, 0x00, 0x00, 0x00, 0x00, 0x00, 0x00, 0x00, 0x03,
            0x00, 0x00, 0x00, 0x00, 0x3f, 0x80, 0x00, 0x00, 0x00, 0x00, 0x00, 0x00, 0x00, 0x00,
            0x00, 0x00, 0x00, 0x00, 0x00, 0x00, 0x00, 0x02,
    ];

    let (header, p) = ChunkHeader::read_be(buf, 0).unwrap();
    let (layer, q) = Layer::read_be(buf, p).unwrap();

    assert_eq!(layer.index, 2);
    assert_eq!(layer.flags, LayerFlag::Default().union(LayerFlag::Multiresolution()));
    assert_eq!(layer.pivot.map(f32::from_bits), [0f32; 3]);
    assert_eq!(layer.name, ns("Multiresolution"));
    assert_eq!(layer.parent, 0xffff);
    assert_eq!(f32::from_bits(layer.subdivision_level), 2f32);
    assert_eq!(layer.spline_patch_level, 3);
    assert_eq!(f32::from_bits(layer.curve_angle), 15f32.to_radians());

    assert!(layer.multires.is_some());

    assert_eq!(q, header.size as u64 + 8, "Failed to read the whole chunk");
}

#[test]
fn nameless_multiresolution_layer() {
    let buf: &[u8] = &[
        0x4c, 0x41, 0x59, 0x52, 0x00, 0x00, 0x00, 0x8c, 0x00, 0x01, 0x20, 0x05, 0x00, 0x00,
            0x00, 0x00, 0x00, 0x00, 0x00, 0x00, 0x00, 0x00, 0x00, 0x00, 0x00, 0x00, 0xff, 0xff,
            0x40, 0x00, 0x00, 0x00, 0x3d, 0xb2, 0xb8, 0xc2, 0x3f, 0x80, 0x00, 0x00, 0x00, 0x00,
            0x00, 0x00, 0x00, 0x00, 0x00, 0x00, 0x00, 0x00, 0x00, 0x00, 0x3f, 0x80, 0x00, 0x00,
            0x00, 0x00, 0x00, 0x00, 0x00, 0x00, 0x00, 0x00, 0x00, 0x00, 0x00, 0x00, 0x3f, 0x80,
            0x00, 0x00, 0x00, 0x00, 0x00, 0x01, 0x00, 0x10, 0x00, 0x00, 0x00, 0x00, 0x00, 0x00,
            0x00, 0x01, 0x00, 0x02, 0x00, 0x00, 0x00, 0x00, 0x00, 0x02, 0x00, 0x02, 0x00, 0x02,
            0x00, 0x01, 0x00, 0x01, 0x00, 0x00, 0x00, 0x01, 0x4c, 0x61, 0x79, 0x65, 0x72, 0x20,
            0x30, 0x00, 0x00, 0x00, 0x00, 0x00, 0x00, 0x00, 0x00, 0x00, 0x00, 0x00, 0x00, 0x03,
            0x00, 0x00, 0x00, 0x00, 0x3f, 0x80, 0x00, 0x00, 0x00, 0x00, 0x00, 0x00, 0x00, 0x00,
            0x00, 0x00, 0x00, 0x00, 0x00, 0x00, 0x00, 0x00,
    ];

    let (header, p) = ChunkHeader::read_be(buf, 0).unwrap();
    let (layer, q) = Layer::read_be(buf, p).unwrap();

    assert_eq!(layer.index, 1);
    assert_eq!(layer.flags, LayerFlag::Default().union(LayerFlag::Multiresolution()));
    assert_eq!(layer.pivot.map(f32::from_bits), [0f32; 3]);
    assert!(layer.name.is_empty());
    assert_eq!(layer.parent, 0xffff);
    assert_eq!(f32::from_bits(layer.subdivision_level), 2f32);

    assert!(layer.multires.is_some());

    assert_eq!(q, header.size as u64 + 8, "Failed to read the whole chunk");
}

#[test]
fn pols_face_triangle() {
    // Created by making a flat cylinder, with 3 sides.
    let buf: &[u8] = &[
        0x50, 0x4f, 0x4c, 0x53, 0x00, 0x00, 0x00, 0x0c, 0x46, 0x41, 0x43, 0x45, 0x00, 0x03,
            0x00, 0x00, 0x00, 0x02, 0x00, 0x01,
    ];
    let (header, p) = ChunkHeader::read_be(buf, 0).unwrap();
    let (pols, q) = PolygonList::read_be(buf, p, header.size).unwrap();

    assert_eq!(pols.kind, id(b"FACE"));
    assert_eq!(pols.polygons.len(), 1);
    assert_eq!(pols.polygons[0].vertex_count, 3);
    assert_eq!(pols.polygons[0].vertex_index, vec![VX::U2(0), VX::U2(2), VX::U2(1)]);

    assert_eq!(q, header.size as u64 + 8, "Failed to read the whole chunk");
}

#[test]
fn pols_face_quad() {
    // Created by making a flat cube.
    let buf: &[u8] = &[
        0x50, 0x4f, 0x4c, 0x53, 0x00, 0x00, 0x00, 0x0e, 0x46, 0x41, 0x43, 0x45, 0x00, 0x04,
            0x00, 0x00, 0x00, 0x03, 0x00, 0x02, 0x00, 0x01,
    ];
    let (header, p) = ChunkHeader::read_be(buf, 0).unwrap();
    let (pols, q) = PolygonList::read_be(buf, p, header.size).unwrap();

    assert_eq!(pols.kind, id(b"FACE"));
    assert_eq!(pols.polygons.len(), 1);
    assert_eq!(pols.polygons[0].vertex_count, 4);
    assert_eq!(pols.polygons[0].vertex_index, vec![VX::U2(0), VX::U2(3), VX::U2(2), VX::U2(1)]);

    assert_eq!(q, header.size as u64 + 8, "Failed to read the whole chunk");
}

#[test]
fn pols_curve_start() {
    // A POLS chunk holding a curve in Modo with four points, where Start = True
    let buf: &[u8] = &[
        0x50, 0x4f, 0x4c, 0x53, 0x00, 0x00, 0x00, 0x12, 0x48, 0x43, 0x52, 0x56, 0x00, 0x04,
            0x00, 0x00, 0x1a, 0x01, 0x00, 0x00, 0x00, 0x01, 0x00, 0x02, 0x00, 0x03,
    ];

    let (header, p) = ChunkHeader::read_be(buf, 0).expect("Chunk header id POLS with size 18");
    let (pols, q) = PolygonList::read_be(buf, p, header.size).unwrap();

    assert_eq!(pols.kind, id(b"HCRV"));
    assert_eq!(pols.polygons.len(), 1);
    assert_eq!(pols.polygons[0].flags.unwrap() as u8, CurveHandle::Start().bits());

    // all bytes were read
    assert_eq!(q, header.size as u64 + 8, "Failed to read the whole chunk");
}

#[test]
fn pols_curve_end() {
    // A POLS chunk holding a curve in Modo with four points, where End = True
    let buf: &[u8] = &[
        0x50, 0x4f, 0x4c, 0x53, 0x00, 0x00, 0x00, 0x12, 0x48, 0x43, 0x52, 0x56, 0x00, 0x04,
            0x00, 0x00, 0x1a, 0x02, 0x00, 0x00, 0x00, 0x01, 0x00, 0x02, 0x00, 0x03,
    ];

    let (header, p) = ChunkHeader::read_be(buf, 0).expect("Chunk header id POLS with size 18");
    let (pols, q) = PolygonList::read_be(buf, p, header.size).unwrap();

    assert_eq!(pols.kind, id(b"HCRV"));
    assert_eq!(pols.polygons.len(), 1);
    assert_eq!(pols.polygons[0].flags.unwrap() as u8, CurveHandle::End().bits());

    // all bytes were read
    assert_eq!(q, header.size as u64 + 8, "Failed to read the whole chunk");
}

#[test]
fn pols_curve_closed() {
    // A POLS chunk holding a curve in Modo with four points, where Closed = True
    let buf: &[u8] = &[
        0x50, 0x4f, 0x4c, 0x53, 0x00, 0x00, 0x00, 0x18, 0x48, 0x43, 0x52, 0x56, 0x00, 0x07,
            0x00, 0x00, 0x1a, 0x03, 0x00, 0x03, 0x00, 0x00, 0x00, 0x01, 0x00, 0x02, 0x00, 0x03,
            0x00, 0x00, 0x00, 0x01,
    ];

    let (header, p) = ChunkHeader::read_be(buf, 0).expect("Chunk header id POLS with size 18");
    let (pols, q) = PolygonList::read_be(buf, p, header.size).unwrap();

    assert_eq!(pols.kind, id(b"HCRV"));
    assert_eq!(pols.polygons.len(), 1);
    assert_eq!(pols.polygons[0].flags.unwrap() as u8, CurveHandle::Closed().bits());

    // all bytes were read
    assert_eq!(q, header.size as u64 + 8, "Failed to read the whole chunk");
}

#[test]
fn curve_closed_filled() {}

#[test]
fn text_pols_hello_world() {
    // A layer and all its data chunks for a text "Hello, World!" made with default settings.
    let buf: &[u8] = &[
        0x54, 0x41, 0x47, 0x53, 0x00, 0x00, 0x00, 0x5a, 0x4c, 0x42, 0x00, 0x00, 0x48, 0x65,
            0x6c, 0x6c, 0x6f, 0x2c, 0x20, 0x57, 0x6f, 0x72, 0x6c, 0x64, 0x21, 0x00, 0x74, 0x65,
            0x78, 0x74, 0x00, 0x00, 0x40, 0x54, 0x3a, 0x38, 0x35, 0x31, 0x34, 0x6f, 0x65, 0x6d,
            0x20, 0x4e, 0x6f, 0x72, 0x6d, 0x61, 0x6c, 0x3a, 0x38, 0x35, 0x31, 0x34, 0x6f, 0x65,
            0x6d, 0x2c, 0x31, 0x30, 0x30, 0x30, 0x2c, 0x2d, 0x31, 0x2c, 0x35, 0x2c, 0x35, 0x30,
            0x2c, 0x30, 0x2c, 0x30, 0x2c, 0x30, 0x2c, 0x30, 0x2c, 0x30, 0x00, 0x00, 0x44, 0x65,
            0x66, 0x61, 0x75, 0x6c, 0x74, 0x00, 0x44, 0x65, 0x66, 0x61, 0x75, 0x6c, 0x74, 0x00,
            0x4c, 0x41, 0x59, 0x52, 0x00, 0x00, 0x00, 0x5a, 0x00, 0x00, 0x00, 0x05, 0x00, 0x00,
            0x00, 0x00, 0x00, 0x00, 0x00, 0x00, 0x00, 0x00, 0x00, 0x00, 0x00, 0x00, 0xff, 0xff,
            0x40, 0x00, 0x00, 0x00, 0x3d, 0xb2, 0xb8, 0xc2, 0x3f, 0x80, 0x00, 0x00, 0x00, 0x00,
            0x00, 0x00, 0x00, 0x00, 0x00, 0x00, 0x00, 0x00, 0x00, 0x00, 0x3f, 0x80, 0x00, 0x00,
            0x00, 0x00, 0x00, 0x00, 0x00, 0x00, 0x00, 0x00, 0x00, 0x00, 0x00, 0x00, 0x3f, 0x80,
            0x00, 0x00, 0x00, 0x00, 0x00, 0x00, 0x00, 0x10, 0x00, 0x00, 0x00, 0x00, 0x00, 0x00,
            0x00, 0x01, 0x00, 0x02, 0x00, 0x02, 0x00, 0x02, 0x00, 0x01, 0x00, 0x01, 0x00, 0x00,
            0x50, 0x4e, 0x54, 0x53, 0x00, 0x00, 0x00, 0x24, 0x00, 0x00, 0x00, 0x00, 0x00, 0x00,
            0x00, 0x00, 0x80, 0x00, 0x00, 0x00, 0x00, 0x00, 0x00, 0x00, 0x3f, 0x80, 0x00, 0x00,
            0x80, 0x00, 0x00, 0x00, 0x3f, 0x80, 0x00, 0x00, 0x00, 0x00, 0x00, 0x00, 0x80, 0x00,
            0x00, 0x00, 0x42, 0x42, 0x4f, 0x58, 0x00, 0x00, 0x00, 0x18, 0x00, 0x00, 0x00, 0x00,
            0x00, 0x00, 0x00, 0x00, 0x00, 0x00, 0x00, 0x00, 0x3f, 0x80, 0x00, 0x00, 0x3f, 0x80,
            0x00, 0x00, 0x00, 0x00, 0x00, 0x00, 0x56, 0x4d, 0x50, 0x41, 0x00, 0x00, 0x00, 0x08,
            0x00, 0x00, 0x00, 0x01, 0x00, 0x00, 0x00, 0x06, 0x56, 0x4d, 0x41, 0x50, 0x00, 0x00,
            0x00, 0x10, 0x42, 0x53, 0x50, 0x4c, 0x00, 0x01, 0x42, 0x2d, 0x53, 0x70, 0x6c, 0x69,
            0x6e, 0x65, 0x00, 0x00, 0x50, 0x4f, 0x4c, 0x53, 0x00, 0x00, 0x00, 0x0c, 0x54, 0x45,
            0x58, 0x54, 0x00, 0x03, 0x00, 0x00, 0x00, 0x01, 0x00, 0x02, 0x50, 0x54, 0x41, 0x47,
            0x00, 0x00, 0x00, 0x08, 0x4d, 0x41, 0x54, 0x52, 0x00, 0x00, 0x00, 0x05, 0x50, 0x54,
            0x41, 0x47, 0x00, 0x00, 0x00, 0x08, 0x50, 0x41, 0x52, 0x54, 0x00, 0x00, 0x00, 0x04,
            0x50, 0x54, 0x41, 0x47, 0x00, 0x00, 0x00, 0x08, 0x46, 0x4f, 0x4e, 0x54, 0x00, 0x00,
            0x00, 0x03, 0x50, 0x54, 0x41, 0x47, 0x00, 0x00, 0x00, 0x08, 0x4a, 0x55, 0x53, 0x54,
            0x00, 0x00, 0x00, 0x00, 0x50, 0x54, 0x41, 0x47, 0x00, 0x00, 0x00, 0x08, 0x54, 0x45,
            0x58, 0x54, 0x00, 0x00, 0x00, 0x01,
    ];

    let (tags_header, p) = ChunkHeader::read_be(buf, 0).unwrap();
    let (itags, p) = ItemTags::read_be(buf, p, tags_header.size).unwrap();

    assert_eq!(itags.tags.len(), 6);
    assert_eq!(itags.tags[0], ns("LB"));
    assert_eq!(itags.tags[1], ns("Hello, World!"));
    assert_eq!(itags.tags[2], ns("text"));
    assert_eq!(itags.tags[3], ns("@T:8514oem Normal:8514oem,1000,-1,5,50,0,0,0,0,0"));
    assert_eq!(itags.tags[4], ns("Default"));
    assert_eq!(itags.tags[5], ns("Default"));

    let (_layer_header, p) = ChunkHeader::read_be(buf, p).unwrap();
    let (_layer, p) = Layer::read_be(buf, p).unwrap();

    let (points_header, p) = ChunkHeader::read_be(buf, p).unwrap();
    let (points, p) = Points::read_be(buf, p, points_header.size / 12).unwrap();
    assert_eq!(points.len(), 3);

    let (_bounds_header, p) = ChunkHeader::read_be(buf, p).unwrap();
    let (bounds, p) = BoundingBox::read_be(buf, p).unwrap();

    assert_eq!(bounds.min, pt(0.0, 0.0, 0.0));
    assert_eq!(bounds.max, pt(1.0, 1.0, 0.0));

    let (_vmap_params_header, p) = ChunkHeader::read_be(buf, p).unwrap();
    let (_vmap_params, p) = VertexMapParameter::read_be(buf, p).unwrap();

    let (vmap_header, p) = ChunkHeader::read_be(buf, p).unwrap();
    let (vmap, p) = VertexMap::read_be(buf, p, vmap_header.size).unwrap();

    assert_eq!(vmap.kind, id(b"BSPL"));
    assert_eq!(vmap.dimension, 1);
    assert_eq!(vmap.name, ns("B-Spline"));
    assert!(vmap.data.is_empty());

    let (polygons_header, p) = ChunkHeader::read_be(buf, p).unwrap();
    let (polygons, p) = PolygonList::read_be(buf, p, polygons_header.size).unwrap();

    assert_eq!(polygons.kind, id(b"TEXT"));
    assert_eq!(polygons.polygons.len(), 1);

    let expected: [(&[u8; 4], u16); 5] =
        [(b"MATR", 5), (b"PART", 4), (b"FONT", 3), (b"JUST", 0), (b"TEXT", 1)];
    let mut p = p;
    for (kind, tag) in expected {
        let (ptag_header, q) = ChunkHeader::read_be(buf, p).unwrap();
        let (mapping, q) = PolygonTagMapping::read_be(buf, q, ptag_header.size).unwrap();
        assert_eq!(mapping.kind, id(kind));
        assert_eq!(mapping.tags.get(&VX::U2(0)), Some(tag).as_ref());
        p = q;
    }
}

#[test]
fn line_polygon_carries_flags() {
    // Two vertices, a flags word of 5, then the indices.
    let buf: &[u8] = &[0x00, 0x02, 0x00, 0x00, 0x00, 0x05, 0x00, 0x00, 0x00, 0x01];
    let (p, n) = read_polygon_from_bytes(buf, id(b"LINE")).unwrap();

    assert_eq!(p.vertex_count, 2);
    assert_eq!(p.flags, Some(5));
    assert_eq!(p.vertex_index, vec![VX::U2(0), VX::U2(1)]);
    assert_eq!(n, 10);
}

#[test]
fn face_polygon_has_no_flags() {
    let buf: &[u8] = &[0x00, 0x02, 0x00, 0x00, 0x00, 0x05];
    let (p, n) = read_polygon_from_bytes(buf, id(b"FACE")).unwrap();

    assert_eq!(p.flags, None);
    assert_eq!(p.vertex_index, vec![VX::U2(0), VX::U2(5)]);
    assert_eq!(n, 6);
}

#[test]
fn curve_polygon_list_written_back() {
    let buf: &[u8] = &[
        0x50, 0x4f, 0x4c, 0x53, 0x00, 0x00, 0x00, 0x18, 0x48, 0x43, 0x52, 0x56, 0x00, 0x07,
            0x00, 0x00, 0x1a, 0x03, 0x00, 0x03, 0x00, 0x00, 0x00, 0x01, 0x00, 0x02, 0x00, 0x03,
            0x00, 0x00, 0x00, 0x01,
    ];
    let (header, p) = ChunkHeader::read_be(buf, 0).unwrap();
    let (pols, _) = PolygonList::read_be(buf, p, header.size).unwrap();

    let mut out = Vec::new();
    pols.write_be(&mut out);
    assert_eq!(out, buf[8..].to_vec());
}
