use lxoxide::animation::{
    Action, ActionChannel, ActionGradient, Behaviour, Break, Envelope, EnvelopeKind, Key, Slope,
    TangentIn, TangentOut, Weight,
};
use lxoxide::primitives::{ChannelValue, ChunkHeader, NullString, SubChunkHeader, VX};

fn ns(s: &str) -> NullString {
    NullString(s.as_bytes().to_vec())
}

fn f(x: f32) -> u32 {
    x.to_bits()
}

#[test]
fn test_parsing_envelope() {
    let buf: &[u8] = &[
        0x45, 0x4e, 0x56, 0x4c, 0x00, 0x00, 0x00, 0x5e, 0x00, 0x02, 0x00, 0x00, 0x00, 0x00,
            0x50, 0x52, 0x45, 0x20, 0x00, 0x02, 0x00, 0x01, 0x50, 0x4f, 0x53, 0x54, 0x00, 0x02,
            0x00, 0x01, 0x4b, 0x45, 0x59, 0x20, 0x00, 0x08, 0x00, 0x00, 0x00, 0x00, 0x3f, 0x80,
            0x00, 0x00, 0x54, 0x41, 0x4e, 0x49, 0x00, 0x10, 0x00, 0x40, 0x00, 0x00, 0x00, 0x00,
            0x00, 0x00, 0x00, 0x00, 0x00, 0x00, 0x3f, 0x80, 0x00, 0x00, 0x54, 0x41, 0x4e, 0x4f,
            0x00, 0x14, 0x00, 0x00, 0x00, 0x00, 0x00, 0x40, 0x00, 0x00, 0x00, 0x00, 0x00, 0x00,
            0x00, 0x00, 0x00, 0x00, 0x00, 0x00, 0x00, 0x00, 0x46, 0x4c, 0x41, 0x47, 0x00, 0x04,
            0x00, 0x00, 0x0f, 0x00,
    ];

    let (header, p) = ChunkHeader::read_be(buf, 0).unwrap();
    let (envelope, q) = Envelope::read_be(buf, p).unwrap();

    assert_eq!(envelope.index, VX::U2(2));
    assert_eq!(envelope.kind, EnvelopeKind::Float);
    assert_eq!(envelope.pre.behaviour, Behaviour::Constant);
    assert_eq!(envelope.post.behaviour, Behaviour::Constant);
    assert_eq!(envelope.key, Key::new(f(0.0), f(1.0)));
    assert_eq!(
        envelope.tangent_in,
        TangentIn::new(Slope::SmoothFlat(), Weight::Manual, f(0.0), f(0.0), f(1.0))
    );
    assert_eq!(
        envelope.tangent_out,
        TangentOut::new(Break::Value, Slope::SmoothFlat(), Weight::Manual, f(0.0), f(0.0), f(0.0))
    );

    assert_eq!(q, header.size as u64 + 8);

    let mut writer = Vec::new();
    header.write_be(&mut writer);
    envelope.write_be(&mut writer);

    assert_eq!(writer, buf.to_vec());
}

#[test]
fn scene_action() {
    let buf: &[u8] = &[
        0x41, 0x43, 0x54, 0x4e, 0x00, 0x00, 0x00, 0x1a, 0x73, 0x63, 0x65, 0x6e, 0x65, 0x00,
            0x73, 0x63, 0x65, 0x6e, 0x65, 0x00, 0x00, 0x00, 0x00, 0x01, 0x50, 0x52, 0x4e, 0x54,
            0x00, 0x04, 0x00, 0x00, 0x00, 0x02,
    ];

    let (header, p) = ChunkHeader::read_be(buf, 0).unwrap();
    let (action, _) = Action::read_be(buf, p, header.size).unwrap();

    assert_eq!(action.name, ns("scene"));
    assert_eq!(action.kind, ns("scene"));
    assert_eq!(action.reference, 1);
    assert_eq!(action.parent, Some(2));
    assert!(action.items.is_empty());
}

#[test]
fn float_action_channel() {
    let buf: &[u8] = &[
        0x43, 0x48, 0x41, 0x4e, 0x00, 0x0a, 0x01, 0xa5, 0x00, 0x02, 0x00, 0x00, 0x3f, 0x80,
            0x00, 0x00,
    ];

    let (header, p) = SubChunkHeader::read_be(buf, 0).unwrap();
    let (channel, q) = ActionChannel::read_be(buf, p).unwrap();

    assert_eq!(channel.channel_index, VX::U2(421));
    assert_eq!(channel.kind, 2);
    assert_eq!(channel.envelope_index, VX::U2(0));
    assert_eq!(channel.variable, ChannelValue::Float(f(1.0)));

    assert_eq!(q, header.size as u64 + 6);
}

#[test]
fn string_action_channel() {
    let buf: &[u8] = &[
        0x43, 0x48, 0x41, 0x4e, 0x00, 0x0e, 0x01, 0xd9, 0x00, 0x03, 0x00, 0x00, 0x66, 0x72,
            0x61, 0x6d, 0x65, 0x73, 0x00, 0x00,
    ];

    let (header, p) = SubChunkHeader::read_be(buf, 0).unwrap();
    let (chan, q) = ActionChannel::read_be(buf, p).unwrap();

    assert_eq!(chan.channel_index, VX::U2(473));
    assert_eq!(chan.kind, 3);
    assert_eq!(chan.envelope_index, VX::U2(0));
    assert_eq!(chan.variable, ChannelValue::String(ns("frames")));

    assert_eq!(q, header.size as u64 + 6);

    let mut writer = Vec::new();
    header.write_be(&mut writer);
    chan.write_be(&mut writer).unwrap();

    assert_eq!(writer, buf.to_vec());
}

#[test]
fn nameless_action_gradient() {
    let buf: &[u8] = &[
        0x47, 0x52, 0x41, 0x44, 0x00, 0x08, 0x01, 0x56, 0x00, 0x08, 0x00, 0x00, 0x00, 0x00,
    ];

    let (header, p) = SubChunkHeader::read_be(buf, 0).unwrap();
    let (channel, q) = ActionGradient::read_be(buf, p, header.size).unwrap();

    assert_eq!(channel.channel_index, VX::U2(342));
    assert_eq!(channel.envelope_index, VX::U2(8));
    assert_eq!(channel.flags, 0);
    assert_eq!(channel.name, None);

    assert_eq!(q, header.size as u64 + 6);

    let mut writer = Vec::new();
    header.write_be(&mut writer);
    channel.write_be(&mut writer);

    assert_eq!(writer, buf.to_vec());
}

#[test]
fn named_action_gradient() {
    let buf: &[u8] = &[
        0x47, 0x52, 0x41, 0x44, 0x00, 0x16, 0x00, 0x00, 0x00, 0x3a, 0x00, 0x00, 0x00, 0x00,
            0x4d, 0x79, 0x47, 0x72, 0x61, 0x64, 0x69, 0x65, 0x6e, 0x74, 0x2e, 0x42, 0x00, 0x00,
    ];

    let (header, p) = SubChunkHeader::read_be(buf, 0).unwrap();
    let (channel, q) = ActionGradient::read_be(buf, p, header.size).unwrap();

    assert_eq!(channel.channel_index, VX::U2(0));
    assert_eq!(channel.envelope_index, VX::U2(58));
    assert_eq!(channel.flags, 0);
    assert_eq!(channel.name, Some(ns("MyGradient.B")));

    assert_eq!(q, header.size as u64 + 6);

    let mut writer = Vec::new();
    header.write_be(&mut writer);
    channel.write_be(&mut writer);

    assert_eq!(writer, buf.to_vec());
}

#[test]
fn curve_item_action_gradient() {
    let buf: &[u8] = &[
        0x47, 0x52, 0x41, 0x44, 0x00, 0x16, 0x01, 0x23, 0x00, 0x14, 0x00, 0x00, 0x00, 0x00,
            0x00, 0x00, 0x66, 0x6c, 0x6f, 0x61, 0x74, 0x00, 0x66, 0x6c, 0x6f, 0x61, 0x74, 0x00,
    ];

    let (header, p) = SubChunkHeader::read_be(buf, 0).unwrap();
    let (channel, q) = ActionGradient::read_be(buf, p, header.size).unwrap();

    assert_eq!(channel.channel_index, VX::U2(291));
    assert_eq!(channel.envelope_index, VX::U2(20));
    assert_eq!(channel.flags, 0);
    assert_eq!(channel.name, Some(ns("")));
    // Items pointing to a layer with curves have the two extra strings, so far always "float"
    assert_eq!(channel.kind0, Some(ns("float")));
    assert_eq!(channel.kind1, Some(ns("float")));

    assert_eq!(q, header.size as u64 + 6);

    let mut writer = Vec::new();
    header.write_be(&mut writer);
    channel.write_be(&mut writer);

    assert_eq!(writer, buf.to_vec());
}

#[test]
fn action_written_with_reference() {
    let buf: &[u8] = &[
        0x41, 0x43, 0x54, 0x4e, 0x00, 0x00, 0x00, 0x10, 0x73, 0x63, 0x65, 0x6e, 0x65, 0x00,
            0x73, 0x63, 0x65, 0x6e, 0x65, 0x00, 0x00, 0x00, 0x00, 0x01,
    ];
    let (header, p) = ChunkHeader::read_be(buf, 0).unwrap();
    let (action, _) = Action::read_be(buf, p, header.size).unwrap();
    assert_eq!(action.reference, 1);
    assert_eq!(action.parent, None);

    let mut out = Vec::new();
    action.write_be(&mut out);
    assert_eq!(out, buf[8..].to_vec());
}
