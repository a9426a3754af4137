use lxoxide::primitives::{read_vx_from_bytes, NullString, ID4, VX};
use lxoxide::utils::read_nullstring_from_bytes;
use lxoxide::{Extension, Header};

#[test]
fn non_printable_ascii_id4_errors() {
    let buf: &[u8] = &[35u8, 47u8, 201u8, 7u8];
    let result = ID4::read_be(buf, 0);
    assert!(result.is_err());
}

#[test]
fn variable_index() {
    let buf: &[u8] = &[0xfe, 0xff, 0xff, 0x00, 0xff, 0x00];

    let (small_index, p) = VX::read_be(buf, 0).unwrap();
    let (big_index, _) = VX::read_be(buf, p).unwrap();

    assert_eq!(small_index, VX::U2(65_279));
    assert_eq!(big_index, VX::U4(65_280));

    let mut writer = Vec::new();

    small_index.write_be(&mut writer);
    big_index.write_be(&mut writer);

    assert_eq!(writer, buf.to_vec());
}

#[test]
fn nullstring_from_slice() {
    let bytes = [0x00, 0x00, 0x61, 0x61, 0x00, 0x00, 0x61, 0x00];

    let mut nullstrings: Vec<NullString> = Vec::with_capacity(3);
    let mut offset = 0;
    while offset < 8 {
        let (s, o) = read_nullstring_from_bytes(&bytes[offset..]).unwrap();
        offset += o;
        nullstrings.push(s);
    }

    assert_eq!(
        nullstrings,
        vec![NullString(b"".to_vec()), NullString(b"aa".to_vec()), NullString(b"a".to_vec())]
    );
}

#[test]
fn parse_lxo_header() {
    let buf: &[u8] = b"FORM\x00\x00\x61\x6aLXOB";
    let (header, _) = Header::read_be(buf, 0).unwrap();

    assert_eq!(header.kind, Extension::LXOB);
}

#[test]
#[should_panic]
fn parse_invalid_magic_header() {
    let buf: &[u8] = b"BAD \x00\x00\x61\x6aLXOB";
    let (header, _) = Header::read_be(buf, 0).unwrap();

    assert_eq!(header.kind, Extension::LXOB);
}
