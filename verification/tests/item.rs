use lxoxide::item::{
    read_channel_value,
    BoundingBox, Channel, ChannelDataMask, ChannelLink, DataBlock, EnvelopeInterpolationFlag,
    Gradient, Item, Layer, LayerVisibilityFlags, Package, Reference, StringChannel, TextHint,
    UserChannel, VectorChannel, VectorElement, VectorMode,
};
use lxoxide::primitives::{ChannelValue, ChunkHeader, NullString, Point, SubChunkHeader, ID4, VX};

fn ns(s: &str) -> NullString {
    NullString(s.as_bytes().to_vec())
}

fn f(x: f32) -> u32 {
    x.to_bits()
}

fn id(s: &[u8; 4]) -> ID4 {
    ID4::new(*s)
}

#[test]
fn reference() {
    let buf: &[u8] = &[
        0x58, 0x52, 0x45, 0x46, 0x00, 0x2e, 0x00, 0x00, 0x00, 0x7, 0x43, 0x3a, 0x50, 0x72,
            0x6f, 0x6a, 0x65, 0x63, 0x74, 0x2f, 0x50, 0x61, 0x74, 0x68, 0x2f, 0x54, 0x6f, 0x2f,
            0x52, 0x65, 0x66, 0x65, 0x72, 0x65, 0x6e, 0x63, 0x65, 0x2e, 0x6c, 0x78, 0x6f, 0x00,
            0x63, 0x61, 0x6d, 0x65, 0x72, 0x61, 0x30, 0x30, 0x36, 0x00,
    ];

    let (header, p) = SubChunkHeader::read_be(buf, 0).unwrap();
    let (xref, q) = Reference::read_be(buf, p).unwrap();

    assert_eq!(xref.index, 7);
    assert_eq!(xref.path, ns("C:Project/Path/To/Reference.lxo"));
    assert_eq!(xref.ident, ns("camera006"));

    assert_eq!(q, header.size as u64 + 6);

    let mut writer = Vec::new();
    header.write_be(&mut writer);
    xref.write_be(&mut writer);

    assert_eq!(writer, buf.to_vec());
}

#[test]
fn visible_background_layer() {
    let buf: &[u8] = &[
        0x4c, 0x41, 0x59, 0x52, 0x00, 0x0c, 0x00, 0x00, 0x00, 0x03, 0x00, 0x00, 0x00, 0x09,
            0xc8, 0xc8, 0xc8, 0xff,
    ];

    let (header, p) = SubChunkHeader::read_be(buf, 0).unwrap();
    let (layer, q) = Layer::read_be(buf, p).unwrap();

    assert_eq!(layer.index, 3);
    assert_eq!(
        layer.flags,
        LayerVisibilityFlags::Visible().union(LayerVisibilityFlags::Background())
    );
    assert_eq!(layer.color, [200, 200, 200, 255]);

    assert_eq!(q, header.size as u64 + 6);

    let mut writer = Vec::new();
    header.write_be(&mut writer);
    layer.write_be(&mut writer);

    assert_eq!(writer, buf.to_vec());
}

#[test]
fn uistate_package() {
    let buf: &[u8] = &[
        0x50, 0x41, 0x4b, 0x47, 0x00, 0x0c, 0x75, 0x69, 0x73, 0x74, 0x61, 0x74, 0x65, 0x00,
            0x00, 0x00, 0x00, 0x00,
    ];

    let (header, p) = SubChunkHeader::read_be(buf, 0).unwrap();
    let (package, q) = Package::read_be(buf, p).unwrap();

    assert_eq!(package.name, ns("uistate"));
    assert_eq!(package.size, 0);
    assert!(package.data.is_empty());

    assert_eq!(q, header.size as u64 + 6);

    let mut writer = Vec::new();
    header.write_be(&mut writer);
    package.write_be(&mut writer);

    assert_eq!(writer, buf.to_vec());
}

#[test]
fn channel_data_mask() {
    let mask = ChannelDataMask::from_bits_retain(2u16);
    assert!(mask.contains(ChannelDataMask::Float()));
    assert_eq!(mask, ChannelDataMask::Float());

    // An extra bit seen on colour related channel data types (renderer, environment, materials)
    let mask = ChannelDataMask::from_bits_retain(34u16);
    assert!(mask.contains(ChannelDataMask::Float()));
}

#[test]
fn position_vector_channel() {
    let buf: &[u8] = &[
        0x43, 0x48, 0x4e, 0x56, 0x00, 0x1a, 0x70, 0x6f, 0x73, 0x00, 0x00, 0x22, 0x00, 0x03,
            0x58, 0x00, 0x00, 0x00, 0x00, 0x00, 0x59, 0x00, 0x00, 0x00, 0x00, 0x00, 0x5a, 0x00,
            0x00, 0x00, 0x00, 0x00,
    ];

    let (header, p) = SubChunkHeader::read_be(buf, 0).unwrap();
    let (vc, q) = VectorChannel::read_be(buf, p).unwrap();

    assert_eq!(vc.name, ns("pos"));
    assert!(vc.kind.contains(ChannelDataMask::Float()));
    assert_eq!(vc.dimensions, 3);

    assert_eq!(
        vc.elements[0],
        VectorElement { name: ns("X"), value: ChannelValue::Float(f(0.0)) }
    );
    assert_eq!(
        vc.elements[1],
        VectorElement { name: ns("Y"), value: ChannelValue::Float(f(0.0)) }
    );
    assert_eq!(
        vc.elements[2],
        VectorElement { name: ns("Z"), value: ChannelValue::Float(f(0.0)) }
    );

    assert_eq!(q, header.size as u64 + 6);

    let mut writer = Vec::new();
    header.write_be(&mut writer);
    vc.write_be(&mut writer).unwrap();

    assert_eq!(writer, buf.to_vec());
}

#[test]
fn ambient_color_vector_channel() {
    let buf: &[u8] = &[
        0x43, 0x48, 0x4e, 0x56, 0x00, 0x20, 0x61, 0x6d, 0x62, 0x43, 0x6f, 0x6c, 0x6f, 0x72,
            0x00, 0x00, 0x00, 0x22, 0x00, 0x03, 0x52, 0x00, 0x3f, 0x80, 0x00, 0x00, 0x47, 0x00,
            0x3f, 0x80, 0x00, 0x00, 0x42, 0x00, 0x3f, 0x80, 0x00, 0x00,
    ];

    let (header, p) = SubChunkHeader::read_be(buf, 0).unwrap();
    let (vc, q) = VectorChannel::read_be(buf, p).unwrap();

    assert_eq!(vc.name, ns("ambColor"));
    assert!(vc.kind.contains(ChannelDataMask::Float()));
    assert_eq!(vc.dimensions, 3);

    assert_eq!(
        vc.elements[0],
        VectorElement { name: ns("R"), value: ChannelValue::Float(f(1.0)) }
    );
    assert_eq!(
        vc.elements[1],
        VectorElement { name: ns("G"), value: ChannelValue::Float(f(1.0)) }
    );
    assert_eq!(
        vc.elements[2],
        VectorElement { name: ns("B"), value: ChannelValue::Float(f(1.0)) }
    );

    assert_eq!(q, header.size as u64 + 6);

    let mut writer = Vec::new();
    header.write_be(&mut writer);
    vc.write_be(&mut writer).unwrap();

    assert_eq!(writer, buf.to_vec());
}

#[test]
fn integer_channel() {
    let buf: &[u8] = &[
        0x43, 0x48, 0x41, 0x4e, 0x00, 0x08, 0x01, 0xe8, 0x00, 0x01, 0x00, 0x00, 0x00, 0x01,
    ];

    let (header, p) = SubChunkHeader::read_be(buf, 0).unwrap();
    let (chan, q) = Channel::read_be(buf, p).unwrap();

    assert_eq!(chan.index, VX::U2(488));
    assert_eq!(chan.kind, 1);
    assert_eq!(chan.value, ChannelValue::Integer(1));

    assert_eq!(q, header.size as u64 + 6);
}

#[test]
fn integer_channel_undefined_action() {
    let buf: &[u8] = &[
        0x43, 0x48, 0x41, 0x4e, 0x00, 0x08, 0x00, 0xe0, 0x00, 0x21, 0x00, 0x00, 0x00, 0x01,
    ];

    let (header, p) = SubChunkHeader::read_be(buf, 0).unwrap();
    let (chan, q) = Channel::read_be(buf, p).unwrap();

    assert_eq!(chan.index, VX::U2(224));
    assert_eq!(chan.kind, 0x21);
    assert_eq!(chan.value, ChannelValue::Integer(1));

    assert_eq!(q, header.size as u64 + 6);
}

#[test]
fn float_channel() {
    let buf: &[u8] = &[
        0x43, 0x48, 0x41, 0x4e, 0x00, 0x08, 0x00, 0xbd, 0x00, 0x02, 0x3f, 0x80, 0x00, 0x00,
    ];

    let (header, p) = SubChunkHeader::read_be(buf, 0).unwrap();
    let (chan, q) = Channel::read_be(buf, p).unwrap();

    assert_eq!(chan.index, VX::U2(189));
    assert_eq!(chan.kind, 0x02);
    assert_eq!(chan.value, ChannelValue::Float(f(1.0)));

    assert_eq!(q, header.size as u64 + 6);
}

#[test]
fn float_channel_undefined_action() {
    let buf: &[u8] = &[
        0x43, 0x48, 0x41, 0x4e, 0x00, 0x08, 0x00, 0xee, 0x00, 0x22, 0x3f, 0x00, 0x00, 0x00,
    ];

    let (header, p) = SubChunkHeader::read_be(buf, 0).unwrap();
    let (chan, q) = Channel::read_be(buf, p).unwrap();

    assert_eq!(chan.index, VX::U2(238));
    assert_eq!(chan.kind, 0x22);
    assert_eq!(chan.value, ChannelValue::Float(f(0.5)));

    assert_eq!(q, header.size as u64 + 6);
}

#[test]
fn channel_with_string_value() {
    let buf: &[u8] = &[
        0x43, 0x48, 0x41, 0x4e, 0x00, 0x08, 0x00, 0xa4, 0x00, 0x03, 0x6f, 0x66, 0x66, 0x00,
    ];

    let (header, p) = SubChunkHeader::read_be(buf, 0).unwrap();
    let (chan, q) = Channel::read_be(buf, p).unwrap();

    assert_eq!(chan.index, VX::U2(164));
    assert_eq!(chan.kind, 0x03);
    assert_eq!(chan.value, ChannelValue::String(ns("off")));

    assert_eq!(q, header.size as u64 + 6);

    let mut writer = Vec::new();
    header.write_be(&mut writer);
    chan.write_be(&mut writer).unwrap();

    assert_eq!(writer, buf.to_vec());
}

#[test]
fn channel_with_string_value_and_undefined_action() {
    let buf: &[u8] = &[
        0x43, 0x48, 0x41, 0x4e, 0x00, 0x0c, 0x00, 0x47, 0x00, 0x23, 0x64, 0x65, 0x66, 0x61,
            0x75, 0x6c, 0x74, 0x00,
    ];

    let (header, p) = SubChunkHeader::read_be(buf, 0).unwrap();
    let (chan, q) = Channel::read_be(buf, p).unwrap();

    assert_eq!(chan.index, VX::U2(71));
    assert_eq!(chan.kind, 0x23);
    assert_eq!(chan.value, ChannelValue::String(ns("default")));

    assert_eq!(q, header.size as u64 + 6);

    let mut writer = Vec::new();
    header.write_be(&mut writer);
    chan.write_be(&mut writer).unwrap();

    assert_eq!(writer, buf.to_vec());
}

#[test]
fn gradient_channel() {
    let buf: &[u8] = &[
        0x47, 0x52, 0x41, 0x44, 0x00, 0x0e, 0x72, 0x61, 0x64, 0x47, 0x72, 0x61, 0x64, 0x00,
            0x00, 0x00, 0x00, 0x00, 0x00, 0x00,
    ];

    let (header, p) = SubChunkHeader::read_be(buf, 0).unwrap();
    let (grad, q) = Gradient::read_be(buf, p, 0).unwrap();

    assert_eq!(grad.name, ns("radGrad"));
    assert_eq!(grad.envelope_index, VX::U2(0));
    assert_eq!(grad.flags, EnvelopeInterpolationFlag::Curve);

    assert_eq!(grad.kind0, None);
    assert_eq!(grad.kind1, None);

    assert_eq!(q, header.size as u64 + 6);

    let mut writer = Vec::new();
    header.write_be(&mut writer);
    grad.write_be(&mut writer);

    assert_eq!(writer, buf.to_vec());
}

#[test]
fn gradient_channel_with_extra_strings() {
    let buf: &[u8] = &[
        0x47, 0x52, 0x41, 0x44, 0x00, 0x1a, 0x72, 0x61, 0x64, 0x47, 0x72, 0x61, 0x64, 0x00,
            0x00, 0x00, 0x00, 0x00, 0x00, 0x00, 0x66, 0x6c, 0x6f, 0x61, 0x74, 0x00, 0x66, 0x6c,
            0x6f, 0x61, 0x74, 0x00,
    ];

    let (header, p) = SubChunkHeader::read_be(buf, 0).unwrap();
    let (grad, q) = Gradient::read_be(buf, p, header.size).unwrap();

    assert_eq!(grad.name, ns("radGrad"));
    assert_eq!(grad.envelope_index, VX::U2(0));
    assert_eq!(grad.flags, EnvelopeInterpolationFlag::Curve);

    assert_eq!(grad.kind0, Some(ns("float")));
    assert_eq!(grad.kind1, Some(ns("float")));

    assert_eq!(q, header.size as u64 + 6);

    let mut writer = Vec::new();
    header.write_be(&mut writer);
    grad.write_be(&mut writer);

    assert_eq!(writer, buf.to_vec());
}

#[test]
fn output_pattern_string_channel() {
    let buf: &[u8] = &[
        0x43, 0x48, 0x4e, 0x53, 0x00, 0x2c, 0x6f, 0x75, 0x74, 0x50, 0x61, 0x74,
            0x00, 0x00, 0x2e, 0x5b, 0x3c, 0x70, 0x61, 0x73, 0x73, 0x3e, 0x2e, 0x5d,
            0x5b, 0x3c, 0x6f, 0x75, 0x74, 0x70, 0x75, 0x74, 0x3e, 0x2e, 0x5d, 0x5b,
            0x3c, 0x4c, 0x52, 0x3e, 0x2e, 0x5d, 0x3c, 0x46, 0x46, 0x46, 0x46, 0x3e,
            0x00, 0x00,
    ];

    let (header, p) = SubChunkHeader::read_be(buf, 0).unwrap();
    let (string_channel, q) = StringChannel::read_be(buf, p).unwrap();

    assert_eq!(string_channel.name, ns("outPat"));
    assert_eq!(string_channel.value, ns(".[<pass>.][<output>.][<LR>.]<FFFF>"));

    assert_eq!(q, header.size as u64 + 6);

    let mut writer = Vec::new();
    header.write_be(&mut writer);
    string_channel.write_be(&mut writer);

    assert_eq!(writer, buf.to_vec());
}

#[test]
fn matrix_user_channel() {
    let buf: &[u8] = &[
        0x55, 0x43, 0x48, 0x4e, 0x00, 0x34, 0x4d, 0x79, 0x4d, 0x61, 0x74, 0x72, 0x69, 0x78,
            0x00, 0x00, 0x6d, 0x61, 0x74, 0x72, 0x69, 0x78, 0x34, 0x00, 0x00, 0x00, 0x00, 0x00,
            0x00, 0x00, 0x00, 0x01, 0x00, 0x00, 0x00, 0x00, 0x00, 0x00, 0x00, 0x00, 0x00, 0x01,
            0x23, 0x4d, 0x79, 0x20, 0x4d, 0x61, 0x74, 0x72, 0x69, 0x78, 0x00, 0x00, 0x00, 0x00,
            0x00, 0x00,
    ];

    let (header, p) = SubChunkHeader::read_be(buf, 0).unwrap();
    let (user_channel, q) = UserChannel::read_be(buf, p).unwrap();
    assert_eq!(header.kind, id(b"UCHN"));
    assert_eq!(header.size, 52);

    assert_eq!(user_channel.name, ns("MyMatrix"));
    assert_eq!(user_channel.kind, ns("matrix4"));

    assert_eq!(q, header.size as u64 + 6);

    let mut writer = Vec::new();
    header.write_be(&mut writer);
    user_channel.write_be(&mut writer);

    assert_eq!(writer, buf.to_vec());
}

#[test]
fn pattern_user_channel() {
    let buf: &[u8] = &[
        0x55, 0x43, 0x48, 0x4e, 0x00, 0x36, 0x4d, 0x79, 0x50, 0x61, 0x74, 0x74, 0x65, 0x72,
            0x6e, 0x00, 0x2b, 0x70, 0x61, 0x74, 0x74, 0x65, 0x72, 0x6e, 0x00, 0x00, 0x00, 0x00,
            0x00, 0x00, 0x00, 0x00, 0x00, 0x01, 0x00, 0x00, 0x00, 0x00, 0x00, 0x00, 0x00, 0x00,
            0x00, 0x01, 0x23, 0x4d, 0x79, 0x20, 0x50, 0x61, 0x74, 0x74, 0x65, 0x72, 0x6e, 0x00,
            0x00, 0x00, 0x00, 0x00,
    ];

    let (header, p) = SubChunkHeader::read_be(buf, 0).unwrap();
    let (user_channel, q) = UserChannel::read_be(buf, p).unwrap();
    assert_eq!(header.kind, id(b"UCHN"));
    assert_eq!(header.size, 54);

    assert_eq!(user_channel.name, ns("MyPattern"));
    assert_eq!(user_channel.kind, ns("+pattern"));

    assert_eq!(q, header.size as u64 + 6);

    let mut writer = Vec::new();
    header.write_be(&mut writer);
    user_channel.write_be(&mut writer);

    assert_eq!(writer, buf.to_vec());
}

#[test]
fn int_range_user_channel() {
    let buf: &[u8] = &[
        0x55, 0x43, 0x48, 0x4e, 0x00, 0x36, 0x4d, 0x79, 0x4e, 0x75, 0x6d, 0x62, 0x65, 0x72,
            0x73, 0x00, 0x2b, 0x69, 0x6e, 0x74, 0x72, 0x61, 0x6e, 0x67, 0x65, 0x00, 0x00, 0x00,
            0x00, 0x00, 0x00, 0x00, 0x00, 0x01, 0x00, 0x00, 0x00, 0x00, 0x00, 0x00, 0x00, 0x00,
            0x00, 0x01, 0x23, 0x4d, 0x79, 0x20, 0x4e, 0x75, 0x6d, 0x62, 0x65, 0x72, 0x73, 0x00,
            0x00, 0x00, 0x00, 0x00,
    ];

    let (header, p) = SubChunkHeader::read_be(buf, 0).unwrap();
    let (user_channel, q) = UserChannel::read_be(buf, p).unwrap();
    assert_eq!(header.kind, id(b"UCHN"));
    assert_eq!(header.size, 54);

    assert_eq!(user_channel.name, ns("MyNumbers"));
    assert_eq!(user_channel.kind, ns("+intrange"));

    assert_eq!(q, header.size as u64 + 6);

    let mut writer = Vec::new();
    header.write_be(&mut writer);
    user_channel.write_be(&mut writer);

    assert_eq!(writer, buf.to_vec());
}

#[test]
fn gradient_user_channel() {
    let buf: &[u8] = &[
        0x55, 0x43, 0x48, 0x4e, 0x00, 0x38, 0x4d, 0x79, 0x47, 0x72, 0x61, 0x64, 0x69, 0x65,
            0x6e, 0x74, 0x00, 0x00, 0x63, 0x6f, 0x6c, 0x6f, 0x72, 0x31, 0x00, 0x00, 0x00, 0x00,
            0x00, 0x03, 0x00, 0x00, 0x00, 0x02, 0x00, 0x00, 0x00, 0x00, 0x00, 0x00, 0x00, 0x00,
            0x00, 0x01, 0x23, 0x4d, 0x79, 0x20, 0x47, 0x72, 0x61, 0x64, 0x69, 0x65, 0x6e, 0x74,
            0x00, 0x00, 0x00, 0x00, 0x00, 0x00,
    ];

    let (header, p) = SubChunkHeader::read_be(buf, 0).unwrap();
    let (user_channel, q) = UserChannel::read_be(buf, p).unwrap();
    assert_eq!(header.kind, id(b"UCHN"));
    assert_eq!(header.size, 56);

    assert_eq!(user_channel.name, ns("MyGradient"));
    assert_eq!(user_channel.kind, ns("color1"));

    assert_eq!(q, header.size as u64 + 6);

    let mut writer = Vec::new();
    header.write_be(&mut writer);
    user_channel.write_be(&mut writer);

    assert_eq!(writer, buf.to_vec());
}

#[test]
fn quaternion_user_channel() {
    let buf: &[u8] = &[
        0x55, 0x43, 0x48, 0x4e, 0x00, 0x40, 0x4d, 0x79, 0x51, 0x75, 0x61, 0x74, 0x65, 0x72,
            0x6e, 0x69, 0x6f, 0x6e, 0x00, 0x00, 0x71, 0x75, 0x61, 0x74, 0x65, 0x72, 0x6e, 0x69,
            0x6f, 0x6e, 0x00, 0x00, 0x00, 0x00, 0x00, 0x00, 0x00, 0x00, 0x00, 0x01, 0x00, 0x00,
            0x00, 0x00, 0x00, 0x00, 0x00, 0x00, 0x00, 0x01, 0x23, 0x4d, 0x79, 0x20, 0x51, 0x75,
            0x61, 0x74, 0x65, 0x72, 0x6e, 0x69, 0x6f, 0x6e, 0x00, 0x00, 0x00, 0x00, 0x00, 0x00,
    ];

    let (header, p) = SubChunkHeader::read_be(buf, 0).unwrap();
    let (user_channel, q) = UserChannel::read_be(buf, p).unwrap();
    assert_eq!(header.kind, id(b"UCHN"));
    assert_eq!(header.size, 64);

    assert_eq!(user_channel.name, ns("MyQuaternion"));
    assert_eq!(user_channel.kind, ns("quaternion"));

    assert_eq!(q, header.size as u64 + 6);

    let mut writer = Vec::new();
    header.write_be(&mut writer);
    user_channel.write_be(&mut writer);

    assert_eq!(writer, buf.to_vec());
}

#[test]
fn float_user_channel() {
    let buf: &[u8] = &[
        0x55, 0x43, 0x48, 0x4e, 0x00, 0x38, 0x4d, 0x79, 0x53, 0x69, 0x7a, 0x65, 0x00, 0x00,
            0x66, 0x6c, 0x6f, 0x61, 0x74, 0x00, 0x00, 0x00, 0x00, 0x00, 0x00, 0x00, 0x00, 0x00,
            0x00, 0x00, 0x00, 0x00, 0x3f, 0x80, 0x00, 0x00, 0x00, 0x02, 0x25, 0x6d, 0x69, 0x6e,
            0x00, 0x00, 0x00, 0x00, 0x03, 0xe8, 0x23, 0x4d, 0x79, 0x20, 0x53, 0x69, 0x7a, 0x65,
            0x00, 0x00, 0x00, 0x00, 0x00, 0x00,
    ];

    let (header, p) = SubChunkHeader::read_be(buf, 0).unwrap();
    let (user_channel, q) = UserChannel::read_be(buf, p).unwrap();
    assert_eq!(header.kind, id(b"UCHN"));
    assert_eq!(header.size, 56);

    assert_eq!(user_channel.name, ns("MySize"));
    assert_eq!(user_channel.kind, ns("float"));
    assert_eq!(user_channel.mode, VectorMode::Scalar);
    assert_eq!(user_channel.flag, 0);

    assert_eq!(user_channel.hints.len(), 2);
    assert!(user_channel.hints.contains(&TextHint { name: ns("#My Size"), value: 0 }));
    assert!(user_channel.hints.contains(&TextHint { name: ns("%min"), value: 1000 }));

    assert_eq!(q, header.size as u64 + 6);

    let mut writer = Vec::new();
    header.write_be(&mut writer);
    user_channel.write_be(&mut writer);

    assert_eq!(writer, buf.to_vec());
}

#[test]
fn test_item() {
    let buf: &[u8] = &[
        0x6d, 0x65, 0x73, 0x68, 0x00, 0x00, 0x00, 0x00, 0x00, 0x00, 0x00, 0x00, 0x4c, 0x41,
            0x59, 0x52, 0x00, 0x0c, 0x00, 0x00, 0x00, 0x00, 0x00, 0x00, 0x00, 0x05, 0xc8, 0xc8,
            0xc8, 0xff, 0x43, 0x48, 0x41, 0x4e, 0x00, 0x08, 0x00, 0xe0, 0x00, 0x21, 0x00, 0x00,
            0x00, 0x01, 0x43, 0x48, 0x41, 0x4e, 0x00, 0x08, 0x00, 0xe1, 0x00, 0x21, 0x00, 0x00,
            0x00, 0x01, 0x43, 0x48, 0x41, 0x4e, 0x00, 0x08, 0x00, 0xe2, 0x00, 0x21, 0x00, 0x00,
            0x00, 0x01, 0x43, 0x48, 0x41, 0x4e, 0x00, 0x0c, 0x01, 0xfa, 0x00, 0x23, 0x64, 0x65,
            0x66, 0x61, 0x75, 0x6c, 0x74, 0x00, 0x43, 0x48, 0x41, 0x4e, 0x00, 0x0c, 0x01, 0x74,
            0x00, 0x23, 0x64, 0x65, 0x66, 0x61, 0x75, 0x6c, 0x74, 0x00, 0x43, 0x48, 0x41, 0x4e,
            0x00, 0x0c, 0x01, 0x93, 0x00, 0x23, 0x64, 0x65, 0x66, 0x61, 0x75, 0x6c, 0x74, 0x00,
            0x43, 0x48, 0x41, 0x4e, 0x00, 0x0c, 0x01, 0x11, 0x00, 0x23, 0x64, 0x65, 0x66, 0x61,
            0x75, 0x6c, 0x74, 0x00, 0x43, 0x48, 0x41, 0x4e, 0x00, 0x08, 0x01, 0xa5, 0x00, 0x02,
            0x3f, 0x80, 0x00, 0x00, 0x43, 0x48, 0x41, 0x4e, 0x00, 0x0c, 0x00, 0x94, 0x00, 0x23,
            0x64, 0x65, 0x66, 0x61, 0x75, 0x6c, 0x74, 0x00, 0x43, 0x48, 0x41, 0x4e, 0x00, 0x0a,
            0x01, 0x0e, 0x00, 0x23, 0x6e, 0x6f, 0x6e, 0x65, 0x00, 0x00, 0x43, 0x48, 0x41, 0x4e,
            0x00, 0x0c, 0x00, 0x3e, 0x00, 0x23, 0x64, 0x65, 0x66, 0x61, 0x75, 0x6c, 0x74, 0x00,
            0x43, 0x48, 0x41, 0x4e, 0x00, 0x0c, 0x01, 0x45, 0x00, 0x23, 0x64, 0x65, 0x66, 0x61,
            0x75, 0x6c, 0x74, 0x00, 0x43, 0x48, 0x41, 0x4e, 0x00, 0x08, 0x00, 0x90, 0x00, 0x22,
            0x00, 0x00, 0x00, 0x00, 0x43, 0x48, 0x41, 0x4e, 0x00, 0x08, 0x00, 0xd5, 0x00, 0x21,
            0x00, 0x00, 0x00, 0x00, 0x43, 0x48, 0x41, 0x4e, 0x00, 0x08, 0x01, 0xa4, 0x00, 0x21,
            0x00, 0x00, 0x00, 0x00, 0x43, 0x48, 0x41, 0x4e, 0x00, 0x0a, 0x00, 0x67, 0x00, 0x23,
            0x77, 0x6f, 0x72, 0x6c, 0x64, 0x00, 0x43, 0x48, 0x41, 0x4e, 0x00, 0x08, 0x01, 0x44,
            0x00, 0x22, 0x00, 0x00, 0x00, 0x00, 0x43, 0x48, 0x41, 0x4e, 0x00, 0x08, 0x00, 0x5e,
            0x00, 0x21, 0x00, 0x00, 0x00, 0x00, 0x43, 0x48, 0x41, 0x4e, 0x00, 0x0c, 0x01, 0x53,
            0x00, 0x23, 0x6d, 0x65, 0x74, 0x65, 0x72, 0x73, 0x00, 0x00, 0x43, 0x48, 0x41, 0x4e,
            0x00, 0x08, 0x01, 0x55, 0x00, 0x22, 0x3d, 0x4c, 0xcc, 0xcd, 0x47, 0x52, 0x41, 0x44,
            0x00, 0x0e, 0x72, 0x61, 0x64, 0x47, 0x72, 0x61, 0x64, 0x00, 0x00, 0x00, 0x00, 0x00,
            0x00, 0x00, 0x47, 0x52, 0x41, 0x44, 0x00, 0x0e, 0x72, 0x6f, 0x74, 0x47, 0x72, 0x61,
            0x64, 0x00, 0x00, 0x01, 0x00, 0x00, 0x00, 0x00, 0x43, 0x48, 0x41, 0x4e, 0x00, 0x08,
            0x01, 0x47, 0x00, 0x21, 0x00, 0x00, 0x00, 0x00, 0x43, 0x48, 0x41, 0x4e, 0x00, 0x08,
            0x01, 0xa3, 0x00, 0x21, 0x00, 0x00, 0x00, 0x08, 0x43, 0x48, 0x41, 0x4e, 0x00, 0x08,
            0x01, 0xbf, 0x00, 0x22, 0x00, 0x00, 0x00, 0x00, 0x43, 0x48, 0x41, 0x4e, 0x00, 0x08,
            0x00, 0x9a, 0x00, 0x22, 0x3f, 0x80, 0x00, 0x00, 0x43, 0x48, 0x41, 0x4e, 0x00, 0x08,
            0x01, 0x42, 0x00, 0x21, 0x00, 0x00, 0x00, 0x01, 0x43, 0x48, 0x41, 0x4e, 0x00, 0x08,
            0x00, 0x65, 0x00, 0x21, 0x00, 0x00, 0x00, 0x00, 0x43, 0x48, 0x41, 0x4e, 0x00, 0x08,
            0x00, 0x64, 0x00, 0x21, 0x00, 0x00, 0x00, 0x01, 0x43, 0x48, 0x41, 0x4e, 0x00, 0x08,
            0x00, 0x66, 0x00, 0x21, 0x00, 0x00, 0x00, 0x01, 0x55, 0x4e, 0x49, 0x51, 0x00, 0x08,
            0x6d, 0x65, 0x73, 0x68, 0x30, 0x30, 0x32, 0x00, 0x55, 0x49, 0x44, 0x58, 0x00, 0x04,
            0x00, 0x00, 0x00, 0x01, 0x56, 0x4e, 0x41, 0x4d, 0x00, 0x06, 0x4d, 0x65, 0x73, 0x68,
            0x00, 0x00, 0x42, 0x42, 0x4f, 0x58, 0x00, 0x18, 0xbf, 0x00, 0x00, 0x00, 0xbf, 0x00,
            0x00, 0x00, 0xbf, 0x00, 0x00, 0x00, 0x3f, 0x00, 0x00, 0x00, 0x3f, 0x00, 0x00, 0x00,
            0x3f, 0x00, 0x00, 0x00,
    ];

    let (item, q) = Item::read_be(buf, 0, 564).unwrap();

    assert_eq!(item.kind, ns("mesh"));
    assert!(item.name.is_empty());
    assert_eq!(item.id, 0);

    assert!(item.reference.is_none());
    assert_eq!(
        item.layer,
        Some(Layer {
            index: 0,
            flags: LayerVisibilityFlags::Visible().union(LayerVisibilityFlags::Foreground()),
            color: [200, 200, 200, 255],
        })
    );
    assert!(item.links.is_empty());
    assert_eq!(item.channels.len(), 30);
    assert!(item.tags.is_empty());
    assert_eq!(item.ident, Some(ns("mesh002")));
    assert_eq!(item.index, Some(1));
    assert_eq!(item.visible_name, Some(ns("Mesh")));
    assert_eq!(
        item.bounds,
        Some(BoundingBox {
            min: Point([f(-0.5), f(-0.5), f(-0.5)]),
            max: Point([f(0.5), f(0.5), f(0.5)]),
        })
    );

    // all data was read
    assert_eq!(q, buf.len() as u64);

    let mut writer = Vec::new();
    item.write_be(&mut writer).unwrap();
    assert_eq!(writer, buf.to_vec());
}

#[test]
fn channel_link() {
    let buf: &[u8] = &[
        0x43, 0x4c, 0x4e, 0x4b, 0x00, 0x24, 0x63, 0x68, 0x61, 0x6e, 0x4c, 0x69,
            0x6e, 0x6b, 0x73, 0x00, 0x6f, 0x75, 0x74, 0x70, 0x75, 0x74, 0x00, 0x00,
            0x00, 0x00, 0x00, 0x27, 0x73, 0x69, 0x7a, 0x65, 0x59, 0x00, 0x00, 0x00,
            0x00, 0x01, 0x00, 0x00, 0x00, 0x00,
    ];

    let (header, p) = SubChunkHeader::read_be(buf, 0).unwrap();
    let (link, q) = ChannelLink::read_be(buf, p).unwrap();

    assert_eq!(link.graph, ns("chanLinks"));
    assert_eq!(link.from, ns("output"));
    assert_eq!(link.item, 39);
    assert_eq!(link.to, ns("sizeY"));
    assert_eq!(link.from_index, 1);
    assert_eq!(link.to_index, 0);

    assert_eq!(q, header.size as u64 + 6);

    let mut writer = Vec::new();
    header.write_be(&mut writer);
    link.write_be(&mut writer);

    assert_eq!(writer, buf.to_vec());
}

#[test]
fn data_block() {
    // These are related to user channels, and block channels
    let buf: &[u8] = &[
        0x44, 0x41, 0x54, 0x41, 0x00, 0x00, 0x00, 0x22, 0x00, 0x00, 0x00, 0x00, 0x00, 0x00,
            0x00, 0x00, 0x2b, 0x70, 0x61, 0x74, 0x74, 0x65, 0x72, 0x6e, 0x00, 0x00, 0x00, 0x00,
            0x00, 0x03, 0x00, 0x00, 0x00, 0x01, 0x00, 0x00, 0x00, 0x00, 0x00, 0x00, 0x00, 0x01,
            0x44, 0x41, 0x54, 0x41, 0x00, 0x00, 0x00, 0x1a, 0x00, 0x00, 0x00, 0x01, 0x00, 0x00,
            0x00, 0x00, 0x2b, 0x69, 0x6e, 0x74, 0x72, 0x61, 0x6e, 0x67, 0x65, 0x00, 0x33, 0x2c,
            0x37, 0x2c, 0x32, 0x2c, 0x31, 0x00,
    ];

    let (header, p) = ChunkHeader::read_be(buf, 0).unwrap();
    let (data, q) = DataBlock::read_be(buf, p, header.size).unwrap();
    assert_eq!(data.index, 0);
    assert_eq!(data.flag, 0);
    assert_eq!(data.name, ns("+pattern"));

    let (header, p) = ChunkHeader::read_be(buf, q).unwrap();
    let (data, q) = DataBlock::read_be(buf, p, header.size).unwrap();
    assert_eq!(data.index, 1);
    assert_eq!(data.flag, 0);
    assert_eq!(data.name, ns("+intrange"));

    assert_eq!(q, buf.len() as u64);
}

#[test]
fn channel_datatype_three_is_a_string() {
    let buf: &[u8] = &[0x61, 0x00];
    let (v, q) = read_channel_value(buf, 0, &ChannelDataMask::from_bits_retain(3)).unwrap();
    assert_eq!(v, ChannelValue::String(ns("a")));
    assert_eq!(q, 2);
    let (v, _) = read_channel_value(buf, 0, &ChannelDataMask::String()).unwrap();
    assert_eq!(v, ChannelValue::String(ns("a")));
}

#[test]
fn channel_datatype_four_is_length_prefixed_data() {
    let buf: &[u8] = &[0x00, 0x02, 0xab, 0xcd];
    let (v, q) = read_channel_value(buf, 0, &ChannelDataMask::from_bits_retain(4)).unwrap();
    assert_eq!(v, ChannelValue::Data(vec![0xab, 0xcd]));
    assert_eq!(q, 4);
    let (v, _) = read_channel_value(buf, 0, &ChannelDataMask::Data()).unwrap();
    assert_eq!(v, ChannelValue::Data(vec![0xab, 0xcd]));
}

#[test]
fn channel_datatype_ignores_colour_bit() {
    let buf: &[u8] = &[0x3f, 0x80, 0x00, 0x00];
    let (v, q) = read_channel_value(buf, 0, &ChannelDataMask::from_bits_retain(0x22)).unwrap();
    assert_eq!(v, ChannelValue::Float(f(1.0)));
    assert_eq!(q, 4);
    let (v, _) = read_channel_value(buf, 0, &ChannelDataMask::from_bits_retain(0x21)).unwrap();
    assert_eq!(v, ChannelValue::Integer(0x3f800000));
}

#[test]
fn channel_datatype_unknown_is_refused() {
    let buf: &[u8] = &[0x00, 0x00, 0x00, 0x00];
    assert!(read_channel_value(buf, 0, &ChannelDataMask::from_bits_retain(8)).is_err());
}

#[test]
fn item_with_trailing_fields_read_back() {
    let item = Item {
        kind: ns("mesh"),
        name: ns("a"),
        id: 5,
        reference: None,
        package: None,
        layer: None,
        user_channels: vec![],
        channel_links: vec![],
        links: vec![],
        channels: vec![],
        tags: vec![],
        ident: Some(ns("x1")),
        index: Some(3),
        visible_name: Some(ns("b")),
        bounds: Some(BoundingBox {
            min: Point([f(-1.0), f(-1.0), f(-1.0)]),
            max: Point([f(1.0), f(1.0), f(1.0)]),
        }),
    };
    let mut out = Vec::new();
    item.write_be(&mut out).unwrap();
    let (back, q) = Item::read_be(&out, 0, out.len() as u32).unwrap();
    assert_eq!(back.kind, item.kind);
    assert_eq!(back.name, item.name);
    assert_eq!(back.id, 5);
    assert_eq!(back.ident, Some(ns("x1")));
    assert_eq!(back.index, Some(3));
    assert_eq!(back.visible_name, Some(ns("b")));
    assert_eq!(back.bounds, item.bounds);
    assert!(back.channels.is_empty() && back.tags.is_empty() && back.reference.is_none());
    assert_eq!(q, out.len() as u64);
    // kind, name and id, then UNIQ, UIDX, VNAM and BBOX
    assert_eq!(&out[0..10], &[b'm', b'e', b's', b'h', 0, 0, b'a', 0, 0, 0]);
    assert_eq!(&out[12..18], &[b'U', b'N', b'I', b'Q', 0, 4]);
}

#[test]
fn item_skips_unknown_subchunk() {
    let buf: &[u8] = &[
        b'm', b'e', b's', b'h', 0, 0, b'a', 0, 0, 0, 0, 5, b'Z', b'Z', b'Z', b'Z', 0, 2, 0xff,
        0xff, b'U', b'I', b'D', b'X', 0, 4, 0, 0, 0, 3,
    ];
    let (item, q) = Item::read_be(buf, 0, buf.len() as u32).unwrap();
    assert_eq!(item.id, 5);
    assert_eq!(item.index, Some(3));
    assert!(item.channels.is_empty());
    assert_eq!(q, buf.len() as u64);
}

#[test]
fn item_with_too_long_identifier_is_refused() {
    let item = Item {
        kind: ns("mesh"),
        name: ns("a"),
        id: 5,
        reference: None,
        package: None,
        layer: None,
        user_channels: vec![],
        channel_links: vec![],
        links: vec![],
        channels: vec![],
        tags: vec![],
        ident: Some(NullString(vec![b'x'; 0x1_0000])),
        index: Some(3),
        visible_name: None,
        bounds: None,
    };
    let mut out = vec![9u8, 9];
    assert_eq!(item.write_be(&mut out), Err(lxoxide::ParseError::LengthOverflow));
    assert_eq!(out, vec![9u8, 9]);
}
