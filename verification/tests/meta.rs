use lxoxide::meta::{
    ApplicationVersion, Description, Encoding, Flat, IncludeAsSubscene, ItemReference, ItemTags,
    Parent, Subscene, SubsceneReference, Version,
};
use lxoxide::primitives::{ChunkHeader, NullString, SubChunkHeader, ID4};

fn ns(s: &str) -> NullString {
    NullString(s.as_bytes().to_vec())
}

fn id(s: &[u8; 4]) -> ID4 {
    ID4::new(*s)
}

#[test]
fn version() {
    let buf: &[u8] = &[
        0x56, 0x52, 0x53, 0x4e, 0x00, 0x00, 0x00, 0x22, 0x00, 0x00, 0x00, 0x10, 0x00, 0x00,
            0x00, 0x00, 0x6e, 0x65, 0x78, 0x75, 0x73, 0x20, 0x32, 0x30, 0x30, 0x30, 0x20, 0x62,
            0x79, 0x20, 0x54, 0x68, 0x65, 0x20, 0x46, 0x6f, 0x75, 0x6e, 0x64, 0x72, 0x79, 0x00,
    ];

    let (header, p) = ChunkHeader::read_be(buf, 0).unwrap();
    assert_eq!(header.kind, id(b"VRSN"));

    let (version, q) = Version::read_be(buf, p).unwrap();
    assert_eq!(
        version,
        Version { major: 16, minor: 0, application: ns("nexus 2000 by The Foundry") }
    );

    assert_eq!(q, 42);

    let mut writer = Vec::new();
    header.write_be(&mut writer);
    version.write_be(&mut writer);

    assert_eq!(writer, buf.to_vec());
}

#[test]
fn application_version() {
    let buf: &[u8] = &[
        0x41, 0x50, 0x50, 0x56, 0x00, 0x00, 0x00, 0x1c, 0x00, 0x00, 0x07, 0xd0, 0x00, 0x00,
            0x07, 0xd0, 0x00, 0x00, 0x00, 0x00, 0x00, 0x0a, 0x17, 0xc6, 0x4d, 0x6f, 0x64, 0x6f,
            0x20, 0x31, 0x36, 0x2e, 0x30, 0x76, 0x31, 0x00,
    ];

    let (header, p) = ChunkHeader::read_be(buf, 0).unwrap();
    assert_eq!(header.kind, id(b"APPV"));

    let (application_version, q) = ApplicationVersion::read_be(buf, p).unwrap();
    assert_eq!(
        application_version,
        ApplicationVersion {
            base: 2000,
            major: 2000,
            minor: 0,
            build: 661446,
            application: ns("Modo 16.0v1"),
        }
    );

    assert_eq!(q, 36);

    let mut writer = Vec::new();
    header.write_be(&mut writer);
    application_version.write_be(&mut writer);

    assert_eq!(writer, buf.to_vec());
}

#[test]
fn encoding_utf8() {
    let buf: &[u8] = &[0x45, 0x4e, 0x43, 0x4f, 0x00, 0x00, 0x00, 0x04, 0x00, 0x00, 0x00, 0x02];
    let (header, p) = ChunkHeader::read_be(buf, 0).unwrap();
    assert_eq!(header.kind, id(b"ENCO"));
    assert_eq!(header.size, 4);

    let (encoding, _) = Encoding::read_be(buf, p).unwrap();
    assert_eq!(encoding, Encoding::Utf8);

    let mut writer = Vec::new();
    header.write_be(&mut writer);
    encoding.write_be(&mut writer);

    assert_eq!(writer, buf.to_vec());
}

#[test]
fn invalid_encoding() {
    let buf: &[u8] = &[0x45, 0x4e, 0x43, 0x4f, 0x00, 0x00, 0x00, 0x04, 0x00, 0x00, 0x0c, 0x02];
    let (header, p) = ChunkHeader::read_be(buf, 0).unwrap();
    assert_eq!(header.kind, id(b"ENCO"));
    assert_eq!(header.size, 4);

    let result = Encoding::read_be(buf, p);
    assert!(result.is_err());
}

#[test]
fn description() {
    let buf: &[u8] = &[
        0x44, 0x45, 0x53, 0x43, 0x00, 0x00, 0x00, 0x0a, 0x6c, 0x6f, 0x63, 0x61, 0x74, 0x6f,
            0x72, 0x00, 0x00, 0x00,
    ];
    let (header, p) = ChunkHeader::read_be(buf, 0).unwrap();
    let (desc, q) = Description::read_be(buf, p).unwrap();

    assert_eq!(desc.kind, ns("locator"));
    assert!(desc.description.is_empty());

    assert_eq!(q, 18);

    let mut writer = Vec::new();
    header.write_be(&mut writer);
    desc.write_be(&mut writer);

    assert_eq!(writer, buf.to_vec());
}

#[test]
fn empty_include_as_subscene() {
    let buf: &[u8] = &[0x49, 0x41, 0x53, 0x53, 0x00, 0x00, 0x00, 0x00];
    let (header, p) = ChunkHeader::read_be(buf, 0).unwrap();
    let (include_as_subscene, _) = IncludeAsSubscene::read_be(buf, p, header.size).unwrap();
    assert!(include_as_subscene.references.is_empty());
}

#[test]
fn include_as_subscene_with_one_reference() {
    let buf: &[u8] = &[
        0x49, 0x41, 0x53, 0x53, 0x00, 0x00, 0x00, 0x30, 0x58, 0x52, 0x45, 0x46, 0x00, 0x2a,
            0x6d, 0x79, 0x5f, 0x73, 0x63, 0x65, 0x6e, 0x65, 0x00, 0x00, 0x44, 0x3a, 0x5c, 0x70,
            0x72, 0x6f, 0x6a, 0x65, 0x63, 0x74, 0x5c, 0x73, 0x63, 0x65, 0x6e, 0x65, 0x73, 0x5c,
            0x6d, 0x79, 0x5f, 0x73, 0x63, 0x65, 0x6e, 0x65, 0x2e, 0x6c, 0x78, 0x6f, 0x00, 0x00,
    ];
    let (header, p) = ChunkHeader::read_be(buf, 0).unwrap();
    let (include_as_subscene, _) = IncludeAsSubscene::read_be(buf, p, header.size).unwrap();
    assert_eq!(include_as_subscene.references.len(), 1);
    assert_eq!(
        include_as_subscene.references[0],
        SubsceneReference {
            name: ns("my_scene"),
            path: ns("D:\\project\\scenes\\my_scene.lxo"),
        }
    );
}

#[test]
fn test_item_tags() {
    let buf: &[u8] = &[
        0x54, 0x41, 0x47, 0x53, 0x00, 0x00, 0x00, 0x10, 0x44, 0x65, 0x66, 0x61, 0x75, 0x6c,
            0x74, 0x00, 0x44, 0x65, 0x66, 0x61, 0x75, 0x6c, 0x74, 0x00,
    ];

    let (header, p) = ChunkHeader::read_be(buf, 0).unwrap();
    let (itags, _) = ItemTags::read_be(buf, p, header.size).unwrap();

    assert_eq!(itags.tags, vec![ns("Default"), ns("Default")]);
}

#[test]
fn item_reference() {
    let buf: &[u8] = &[
        0x49, 0x52, 0x45, 0x46, 0x00, 0x32, 0x72, 0x65, 0x6e, 0x64, 0x65, 0x72, 0x4f, 0x75,
            0x74, 0x70, 0x75, 0x74, 0x30, 0x32, 0x35, 0x00, 0x46, 0x69, 0x6e, 0x61, 0x6c, 0x20,
            0x43, 0x6f, 0x6c, 0x6f, 0x72, 0x20, 0x4f, 0x75, 0x74, 0x70, 0x75, 0x74, 0x00, 0x00,
            0x72, 0x65, 0x6e, 0x64, 0x65, 0x72, 0x4f, 0x75, 0x74, 0x70, 0x75, 0x74, 0x00, 0x00,
    ];

    let (header, p) = SubChunkHeader::read_be(buf, 0).unwrap();
    assert_eq!(header.kind, id(b"IREF"));
    assert_eq!(header.size, 50);

    let (iref, _) = ItemReference::read_be(buf, p).unwrap();

    assert_eq!(iref.ident, ns("renderOutput025"));
    assert_eq!(iref.name, ns("Final Color Output"));
    assert_eq!(iref.kind, ns("renderOutput"));
}

#[test]
fn parent() {
    let buf: &[u8] = &[
        0x50, 0x52, 0x4e, 0x54, 0x00, 0x00, 0x00, 0x0c, 0x28, 0x6e, 0x6f, 0x6e, 0x65, 0x29,
            0x00, 0x00, 0x00, 0x00, 0x00, 0x00,
    ];
    let (_, p) = ChunkHeader::read_be(buf, 0).unwrap();
    let (parent, q) = Parent::read_be(buf, p).unwrap();

    assert_eq!(parent.name, ns("(none)"));
    assert_eq!(parent.num, 0);

    assert_eq!(q, 20);
}

#[test]
fn clip() {
    let buf: &[u8] = &[
        0x49, 0x41, 0x53, 0x53, 0x00, 0x00, 0x00, 0x64, 0x46, 0x4c, 0x41, 0x54, 0x00, 0x5e,
            0x55, 0x6e, 0x74, 0x69, 0x74, 0x6c, 0x65, 0x64, 0x3a, 0x76, 0x69, 0x64, 0x65, 0x6f,
            0x53, 0x74, 0x69, 0x6c, 0x6c, 0x30, 0x30, 0x31, 0x00, 0x00, 0x66, 0x69, 0x6c, 0x65,
            0x6e, 0x61, 0x6d, 0x65, 0x00, 0x00, 0x76, 0x69, 0x64, 0x65, 0x6f, 0x53, 0x74, 0x69,
            0x6c, 0x6c, 0x00, 0x00, 0x69, 0x6d, 0x61, 0x67, 0x65, 0x00, 0x43, 0x3a, 0x5c, 0x55,
            0x73, 0x65, 0x72, 0x73, 0x5c, 0x76, 0x61, 0x6c, 0x65, 0x6e, 0x74, 0x69, 0x6e, 0x61,
            0x5c, 0x44, 0x6f, 0x63, 0x75, 0x6d, 0x65, 0x6e, 0x74, 0x73, 0x5c, 0x55, 0x6e, 0x74,
            0x69, 0x74, 0x6c, 0x65, 0x64, 0x2e, 0x74, 0x67, 0x61, 0x00,
    ];

    let (header, p) = ChunkHeader::read_be(buf, 0).unwrap();
    let (iass, q) = IncludeAsSubscene::read_be(buf, p, header.size).unwrap();

    assert_eq!(iass.clips.len(), 1);
    assert_eq!(
        iass.clips[0],
        Flat {
            name: ns("Untitled:videoStill001"),
            source: ns("filename"),
            kind: ns("videoStill"),
            subkind: ns("image"),
            path: ns("C:\\Users\\valentina\\Documents\\Untitled.tga"),
        }
    );

    assert_eq!(q, 108);
}

#[test]
fn subscene() {
    let buf: &[u8] = &[
        0x53, 0x55, 0x42, 0x53, 0x00, 0x00, 0x01, 0x70, 0x44, 0x6f, 0x77, 0x6e, 0x6c, 0x6f,
            0x61, 0x64, 0x73, 0x2f, 0x61, 0x61, 0x61, 0x2e, 0x6c, 0x78, 0x6f, 0x00, 0x6d, 0x65,
            0x73, 0x68, 0x00, 0x00, 0x49, 0x52, 0x45, 0x46, 0x00, 0x16, 0x73, 0x63, 0x65, 0x6e,
            0x65, 0x30, 0x30, 0x31, 0x00, 0x00, 0x53, 0x63, 0x65, 0x6e, 0x65, 0x00, 0x73, 0x63,
            0x65, 0x6e, 0x65, 0x00, 0x49, 0x52, 0x45, 0x46, 0x00, 0x26, 0x73, 0x68, 0x61, 0x64,
            0x65, 0x72, 0x46, 0x6f, 0x6c, 0x64, 0x65, 0x72, 0x30, 0x30, 0x38, 0x00, 0x4c, 0x69,
            0x67, 0x68, 0x74, 0x73, 0x00, 0x00, 0x73, 0x68, 0x61, 0x64, 0x65, 0x72, 0x46, 0x6f,
            0x6c, 0x64, 0x65, 0x72, 0x00, 0x00, 0x49, 0x52, 0x45, 0x46, 0x00, 0x2c, 0x73, 0x68,
            0x61, 0x64, 0x65, 0x72, 0x46, 0x6f, 0x6c, 0x64, 0x65, 0x72, 0x30, 0x30, 0x39, 0x00,
            0x45, 0x6e, 0x76, 0x69, 0x72, 0x6f, 0x6e, 0x6d, 0x65, 0x6e, 0x74, 0x73, 0x00, 0x00,
            0x73, 0x68, 0x61, 0x64, 0x65, 0x72, 0x46, 0x6f, 0x6c, 0x64, 0x65, 0x72, 0x00, 0x00,
            0x49, 0x52, 0x45, 0x46, 0x00, 0x1a, 0x63, 0x61, 0x6d, 0x65, 0x72, 0x61, 0x30, 0x30,
            0x33, 0x00, 0x43, 0x61, 0x6d, 0x65, 0x72, 0x61, 0x00, 0x00, 0x63, 0x61, 0x6d, 0x65,
            0x72, 0x61, 0x00, 0x00, 0x49, 0x52, 0x45, 0x46, 0x00, 0x2c, 0x72, 0x65, 0x6e, 0x64,
            0x65, 0x72, 0x4f, 0x75, 0x74, 0x70, 0x75, 0x74, 0x30, 0x32, 0x31, 0x00, 0x41, 0x6c,
            0x70, 0x68, 0x61, 0x20, 0x4f, 0x75, 0x74, 0x70, 0x75, 0x74, 0x00, 0x00, 0x72, 0x65,
            0x6e, 0x64, 0x65, 0x72, 0x4f, 0x75, 0x74, 0x70, 0x75, 0x74, 0x00, 0x00, 0x49, 0x52,
            0x45, 0x46, 0x00, 0x32, 0x72, 0x65, 0x6e, 0x64, 0x65, 0x72, 0x4f, 0x75, 0x74, 0x70,
            0x75, 0x74, 0x30, 0x32, 0x30, 0x00, 0x46, 0x69, 0x6e, 0x61, 0x6c, 0x20, 0x43, 0x6f,
            0x6c, 0x6f, 0x72, 0x20, 0x4f, 0x75, 0x74, 0x70, 0x75, 0x74, 0x00, 0x00, 0x72, 0x65,
            0x6e, 0x64, 0x65, 0x72, 0x4f, 0x75, 0x74, 0x70, 0x75, 0x74, 0x00, 0x00, 0x49, 0x52,
            0x45, 0x46, 0x00, 0x26, 0x73, 0x68, 0x61, 0x64, 0x65, 0x72, 0x46, 0x6f, 0x6c, 0x64,
            0x65, 0x72, 0x30, 0x31, 0x31, 0x00, 0x4c, 0x69, 0x62, 0x72, 0x61, 0x72, 0x79, 0x00,
            0x73, 0x68, 0x61, 0x64, 0x65, 0x72, 0x46, 0x6f, 0x6c, 0x64, 0x65, 0x72, 0x00, 0x00,
            0x49, 0x52, 0x45, 0x46, 0x00, 0x22, 0x70, 0x6f, 0x6c, 0x79, 0x52, 0x65, 0x6e, 0x64,
            0x65, 0x72, 0x30, 0x30, 0x36, 0x00, 0x52, 0x65, 0x6e, 0x64, 0x65, 0x72, 0x00, 0x00,
            0x70, 0x6f, 0x6c, 0x79, 0x52, 0x65, 0x6e, 0x64, 0x65, 0x72, 0x00, 0x00,
    ];

    let (header, p) = ChunkHeader::read_be(buf, 0).unwrap();
    let (subscene, _) = Subscene::read_be(buf, p, header.size).unwrap();

    assert_eq!(subscene.path, ns("Downloads/aaa.lxo"));
    assert_eq!(subscene.name, ns("mesh"));
    assert_eq!(subscene.item_references.len(), 8);
}
