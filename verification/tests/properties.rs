use lxoxide::geometry::layer::{
    Points, Polygon, PolygonList, PolygonTagMapping, PolygonTags, UvSubdivisionKind,
    VertexMapParameter,
};
use lxoxide::item::{read_channel_value, ChannelDataMask};
use lxoxide::media::{Audio, AudioSettings};
use lxoxide::meta::{Encoding, ItemDeletion, Preview};
use lxoxide::primitives::{ChannelValue, ChunkHeader, NullString, Point, ID4, VX};
use lxoxide::utils::{read_aligned_nullstring, write_aligned_nullstring, write_chunk, write_subchunk};
use lxoxide::geometry::trisurf::TriSurfVertexVectors;
use lxoxide::{Extension, ParseError};

#[test]
fn polygon_tags_later_entry_replaces_earlier() {
    let mut tags = PolygonTags::new();
    assert_eq!(tags.insert(VX::U2(3), 1), None);
    assert_eq!(tags.insert(VX::U4(0), 7), None);
    assert_eq!(tags.insert(VX::U2(1), 2), None);
    assert_eq!(tags.insert(VX::U2(3), 9), Some(1));
    assert_eq!(tags.as_slice(), &[(VX::U2(1), 2), (VX::U2(3), 9), (VX::U4(0), 7)]);
    assert_eq!(tags.get(&VX::U2(3)), Some(&9));
    assert_eq!(tags.get(&VX::U2(2)), None);
    assert_eq!(tags.len(), 3);
}

#[test]
fn polygon_tags_read_and_written_in_index_order() {
    // PTAG with entries for polygons 2, 1 and again 2
    let buf: &[u8] = &[
        b'P', b'T', b'A', b'G', 0, 0, 0, 16, b'M', b'A', b'T', b'R', 0, 2, 0, 5, 0, 1, 0, 6, 0, 2,
        0, 8,
    ];
    let (header, p) = ChunkHeader::read_be(buf, 0).unwrap();
    let (mapping, q) = PolygonTagMapping::read_be(buf, p, header.size).unwrap();
    assert_eq!(q, 24);
    assert_eq!(mapping.tags.as_slice(), &[(VX::U2(1), 6), (VX::U2(2), 8)]);
    let mut out = Vec::new();
    mapping.write_be(&mut out);
    assert_eq!(out, vec![b'M', b'A', b'T', b'R', 0, 1, 0, 6, 0, 2, 0, 8]);
}

#[test]
fn aligned_string_roundtrip() {
    for text in [&b""[..], &b"a"[..], &b"abc"[..], &b"abcd"[..]] {
        let mut out = Vec::new();
        write_aligned_nullstring(&mut out, &NullString(text.to_vec()));
        assert_eq!(out.len() % 2, 0);
        let (s, q) = read_aligned_nullstring(&out, 0).unwrap();
        assert_eq!(s.0, text.to_vec());
        assert_eq!(q, out.len() as u64);
    }
}

#[test]
fn aligned_string_missing_terminator() {
    let buf: &[u8] = b"abc";
    assert_eq!(read_aligned_nullstring(buf, 0).unwrap_err(), ParseError::UnexpectedEof);
}

#[test]
fn vx_roundtrip() {
    for v in [VX::U2(0), VX::U2(0xfeff), VX::U4(0), VX::U4(0x12_3456), VX::U4(0xff_ffff)] {
        let mut out = Vec::new();
        v.write_be(&mut out);
        let (r, q) = VX::read_be(&out, 0).unwrap();
        assert_eq!(r, v);
        assert_eq!(q, out.len() as u64);
    }
    let mut out = Vec::new();
    VX::U4(0x12_3456).write_be(&mut out);
    assert_eq!(out, vec![0xff, 0x12, 0x34, 0x56]);
}

#[test]
fn vx_value() {
    assert_eq!(VX::U2(7).value(), 7);
    assert_eq!(VX::U4(0x10_0000).value(), 0x10_0000);
}

#[test]
fn vx_truncated() {
    let buf: &[u8] = &[0xff, 0x00, 0x01];
    assert_eq!(VX::read_be(buf, 0).unwrap_err(), ParseError::UnexpectedEof);
}

#[test]
fn chunk_header_roundtrip() {
    let h = ChunkHeader { kind: ID4::new(*b"POLS"), size: 0x0102_0304 };
    let mut out = Vec::new();
    h.write_be(&mut out);
    assert_eq!(out, vec![b'P', b'O', b'L', b'S', 1, 2, 3, 4]);
    let (r, q) = ChunkHeader::read_be(&out, 0).unwrap();
    assert_eq!(r, h);
    assert_eq!(q, 8);
}

#[test]
fn id4_printable_only() {
    assert!(ID4::from_bytes(*b"ITEM").is_ok());
    assert_eq!(ID4::from_bytes([0x1f, b'A', b'B', b'C']).unwrap_err(), ParseError::InvalidID4);
    assert_eq!(ID4::from_bytes([b'A', b'B', b'C', 0x7f]).unwrap_err(), ParseError::InvalidID4);
    assert_eq!(ID4::new(*b"ITEM").to_bytes(), *b"ITEM");
}

#[test]
fn id4_as_str() {
    assert_eq!(ID4::new(*b"VRSN").as_str(), "VRSN");
    assert_eq!(ID4::new([0xff, 0xfe, 0xfd, 0xfc]).as_str(), "UNKN");
}

#[test]
fn id4_code() {
    assert_eq!(ID4::new(*b"FORM").code(), 0x464f_524d);
    assert_eq!(ID4::from_code(0x464f_524d), ID4::new(*b"FORM"));
}

#[test]
fn extension_codes() {
    for e in [Extension::LXOB, Extension::LXPR, Extension::LXPE, Extension::LXPM] {
        assert_eq!(Extension::from_u32(e.code()), Some(e));
    }
    assert_eq!(Extension::from_u32(0x4c58_4f42), Some(Extension::LXOB));
    assert_eq!(Extension::from_u32(0), None);
    assert_eq!(Extension::try_from_u32(1), Err(ParseError::NonSupportedExtension));
}

#[test]
fn encoding_roundtrip_and_names() {
    let all = [
        (Encoding::Default, "default"),
        (Encoding::Ansi, "ANSI"),
        (Encoding::Utf8, "UTF-8"),
        (Encoding::ShiftJis, "Shift JIS"),
        (Encoding::EucJp, "EUC-JP"),
        (Encoding::EucKr, "EUC-KR"),
        (Encoding::Gb2312, "GB2312"),
        (Encoding::Big5, "Big5"),
    ];
    for (e, name) in all {
        let mut out = Vec::new();
        e.write_be(&mut out);
        assert_eq!(Encoding::read_be(&out, 0).unwrap().0, e);
        assert_eq!(e.name(), name);
    }
    assert_eq!(Encoding::read_be(&[0, 0, 0, 8], 0).unwrap_err(), ParseError::NoVariantMatch);
}

#[test]
fn point_coordinates() {
    let p = Point([1.0f32.to_bits(), 2.0f32.to_bits(), (-3.5f32).to_bits()]);
    assert_eq!(f32::from_bits(p.x()), 1.0);
    assert_eq!(f32::from_bits(p.y()), 2.0);
    assert_eq!(f32::from_bits(p.z()), -3.5);
}

#[test]
fn item_deletion_wrong_tag() {
    let buf: &[u8] = &[b'I', b'D', b'E', b'X', 0, 0];
    assert_eq!(ItemDeletion::read_be(buf, 0).unwrap_err(), ParseError::BadMagic);
}

#[test]
fn channel_value_unknown_flag() {
    let buf: &[u8] = &[0, 0, 0, 1];
    assert_eq!(
        ChannelValue::read_be(buf, 0, 7).unwrap_err(),
        ParseError::InvalidItemFlag { flag: 7 }
    );
    assert_eq!(ChannelValue::read_be(buf, 0, 0x21).unwrap(), (ChannelValue::Integer(1), 4));
}

#[test]
fn channel_value_without_type() {
    let buf: &[u8] = &[0, 0, 0, 1];
    assert_eq!(
        read_channel_value(buf, 0, &ChannelDataMask::from_bits_retain(0)).unwrap_err(),
        ParseError::InvalidChannelDataMask
    );
}

#[test]
fn preview_too_small() {
    let buf = [0u8; 100];
    assert_eq!(Preview::read_be(&buf, 0, 80).unwrap_err(), ParseError::AssertionFailed);
}

#[test]
fn vertex_vectors_sizes() {
    // kind, dimensions, empty name, two values
    let buf: &[u8] = &[b'C', b'O', b'L', b'R', 0, 0, 0, 1, 0, 0, 0, 0, 0, 1, 0, 0, 0, 2];
    let (vv, q) = TriSurfVertexVectors::read_be(buf, 0, 18).unwrap();
    assert_eq!(vv.vectors, vec![1, 2]);
    assert_eq!(q, 18);
    assert_eq!(TriSurfVertexVectors::read_be(buf, 0, 8).unwrap_err(), ParseError::InvalidSize);
    assert_eq!(TriSurfVertexVectors::read_be(buf, 0, 17).unwrap_err(), ParseError::InvalidSize);
}

#[test]
fn id4_from_str() {
    assert_eq!(ID4::from_str("MATR").unwrap(), ID4::new(*b"MATR"));
    assert_eq!(ID4::from_str("MAT").unwrap_err(), ParseError::InvalidID4);
    assert_eq!(ID4::from_str("MATRX").unwrap_err(), ParseError::InvalidID4);
    assert_eq!(ID4::from_str("\u{1}ATR").unwrap_err(), ParseError::InvalidID4);
    assert_eq!(ID4::from_str("MAT\u{7f}").unwrap_err(), ParseError::InvalidID4);
    assert_eq!(ID4::from_str("M T ").unwrap(), ID4::new(*b"M T "));
    assert!(ID4::new(*b"TXUV").eq_str("TXUV"));
    assert!(!ID4::new(*b"TXUV").eq_str("TXUW"));
    assert!(!ID4::new(*b"TXUV").eq_str("TXU"));
}

#[test]
fn polygon_list_roundtrip() {
    let list = PolygonList {
        kind: ID4::new(*b"FACE"),
        polygons: vec![
            Polygon { vertex_count: 3, vertex_index: vec![VX::U2(0), VX::U2(2), VX::U2(1)], flags: None },
            Polygon { vertex_count: 1, vertex_index: vec![VX::U4(0x10_0000)], flags: None },
        ],
    };
    let mut out = Vec::new();
    list.write_be(&mut out);
    assert_eq!(out.len(), 4 + 8 + 6);
    let (read, q) = PolygonList::read_be(&out, 0, out.len() as u32).unwrap();
    assert_eq!(read, list);
    assert_eq!(q, out.len() as u64);
}

#[test]
fn curve_polygon_written_with_flags_after_count() {
    let p = Polygon { vertex_count: 1, vertex_index: vec![VX::U2(5)], flags: Some(3) };
    let mut out = Vec::new();
    p.write_be(&mut out);
    assert_eq!(out, vec![0, 1, 0, 0, 0, 3, 0, 5]);
}

#[test]
fn polygon_list_too_short() {
    let buf: &[u8] = &[b'F', b'A', b'C', b'E'];
    assert_eq!(PolygonList::read_be(buf, 0, 2).unwrap_err(), ParseError::InvalidSize);
    assert_eq!(PolygonList::read_be(buf, 0, 6).unwrap_err(), ParseError::UnexpectedEof);
}

#[test]
fn vertex_map_parameter_roundtrip() {
    let buf: &[u8] = &[0x00, 0x00, 0x00, 0x04, 0xff, 0xff, 0xff, 0xfe];
    let (vmpa, q) = VertexMapParameter::read_be(buf, 0).unwrap();
    assert_eq!(vmpa.uv_subdivision, UvSubdivisionKind::SubpatchDiscoEdges);
    assert_eq!(vmpa.sketch_color, -2);
    assert_eq!(q, 8);
    let mut out = Vec::new();
    vmpa.write_be(&mut out);
    assert_eq!(out, buf.to_vec());
    assert_eq!(VertexMapParameter::read_be(&[0, 0, 0, 5, 0, 0, 0, 0], 0).unwrap_err(), ParseError::NoVariantMatch);
}

#[test]
fn points_roundtrip() {
    let pts = Points(vec![
        Point([1.0f32.to_bits(), 0, 0]),
        Point([0, (-1.0f32).to_bits(), 0x7f80_0000]),
    ]);
    let mut out = Vec::new();
    pts.write_be(&mut out);
    assert_eq!(out.len(), 24);
    let (read, q) = Points::read_be(&out, 0, 2).unwrap();
    assert_eq!(read, pts);
    assert_eq!(q, 24);
    assert_eq!(Points::read_be(&out, 0, 3).unwrap_err(), ParseError::UnexpectedEof);
}

#[test]
fn audio_written_and_read_back() {
    let a = Audio {
        item: Some(7),
        settings: Some(AudioSettings { looping: 1, mute: 0, scrub: 1, start: 2.5f32.to_bits() }),
    };
    let mut out = Vec::new();
    a.write_be(&mut out);
    assert_eq!(out.len(), 26);
    assert_eq!(&out[0..6], &[0x41, 0x41, 0x49, 0x54, 0x00, 0x04]);
    assert_eq!(&out[10..16], &[0x41, 0x41, 0x53, 0x45, 0x00, 0x0a]);
    let (b, q) = Audio::read_be(&out, 0, out.len() as u32).unwrap();
    assert_eq!(b, a);
    assert_eq!(q, 26);
}

#[test]
fn audio_skips_unknown_subchunk() {
    let buf: &[u8] = &[
        0x58, 0x58, 0x58, 0x58, 0x00, 0x02, 0xff, 0xff, 0x41, 0x41, 0x49, 0x54, 0x00, 0x04, 0x00,
        0x00, 0x00, 0x03,
    ];
    let (a, q) = Audio::read_be(buf, 0, buf.len() as u32).unwrap();
    assert_eq!(a.item, Some(3));
    assert_eq!(a.settings, None);
    assert_eq!(q, buf.len() as u64);
}

#[test]
fn subchunk_longer_than_its_length_field_is_refused() {
    let kind = ID4::new(*b"ABCD");
    let mut out = vec![1u8];
    assert_eq!(write_subchunk(&mut out, kind, &vec![0u8; 0x1_0000]), Err(ParseError::LengthOverflow));
    assert_eq!(out, vec![1u8]);
    // 0xffff bytes are padded to 0x1_0000, which no longer fits
    assert_eq!(write_subchunk(&mut out, kind, &vec![0u8; 0xffff]), Err(ParseError::LengthOverflow));
    assert_eq!(out, vec![1u8]);
    assert_eq!(write_subchunk(&mut out, kind, &vec![7u8; 0xfffe]), Ok(()));
    assert_eq!(out.len(), 1 + 6 + 0xfffe);
    assert_eq!(&out[1..7], &[b'A', b'B', b'C', b'D', 0xff, 0xfe]);
}

#[test]
fn subchunk_and_chunk_pad_odd_data() {
    let mut out = Vec::new();
    write_subchunk(&mut out, ID4::new(*b"ABCD"), &vec![9u8]).unwrap();
    assert_eq!(out, vec![b'A', b'B', b'C', b'D', 0, 2, 9, 0]);
    let mut out = Vec::new();
    write_chunk(&mut out, ID4::new(*b"ABCD"), &vec![9u8, 8, 7]).unwrap();
    assert_eq!(out, vec![b'A', b'B', b'C', b'D', 0, 0, 0, 4, 9, 8, 7, 0]);
}

#[test]
fn channel_data_longer_than_its_length_field_is_refused() {
    let mut out = Vec::new();
    assert_eq!(ChannelValue::Data(vec![0u8; 0x1_0000]).write_be(&mut out), Err(ParseError::LengthOverflow));
    assert!(out.is_empty());
    ChannelValue::Data(vec![5u8; 0xffff]).write_be(&mut out).unwrap();
    assert_eq!(out.len(), 2 + 0xffff);
    assert_eq!(&out[0..3], &[0xff, 0xff, 5]);
}

#[test]
fn reading_far_past_the_end_is_an_unexpected_end() {
    let buf: &[u8] = &[0u8; 4];
    assert_eq!(ChunkHeader::read_be(buf, 0x10_0000).unwrap_err(), ParseError::UnexpectedEof);
    assert_eq!(read_aligned_nullstring(buf, 0x1_0000_0000).unwrap_err(), ParseError::UnexpectedEof);
}
