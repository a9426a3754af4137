//! Scene meta data chunks: versions, encoding, description, preview, sub-scenes, references,
//! tags and channel names.

use crate::primitives::{
    ends_ok, lemma_nullstring_advances, lemma_views_push, parsed_as, pos_ok, read_bytes,
    read_magic, read_u16, read_u32, read_u32_array, spec_bytes, spec_magic,
    spec_subchunk_header, spec_u16, spec_u32, spec_u32_array, u32_bytes, views, write_u32,
    NullString, SubChunkHeader,
};
use crate::tags::{FLAT, IDEL, IREF, XMAN, XREF};
use crate::utils::{
    aligned_nullstring_write, nonempty_pieces, read_aligned_nullstring, spec_aligned_nullstring,
    split_null_separated, write_aligned_nullstring,
};
use crate::ParseError;
use vstd::prelude::*;

verus! {

broadcast use lemma_nullstring_advances;

/// The version chunk (`VRSN`).
#[derive(Debug, PartialEq)]
pub struct Version {
    pub major: u32,
    pub minor: u32,
    pub application: NullString,
}

impl View for Version {
    type V = (u32, u32, Seq<u8>);

    open spec fn view(&self) -> (u32, u32, Seq<u8>) {
        (self.major, self.minor, self.application@)
    }
}

pub open spec fn spec_version(s: Seq<u8>, p: int) -> Result<((u32, u32, Seq<u8>), int), ParseError> {
    match spec_u32(s, p) {
        Ok((major, q1)) => match spec_u32(s, q1) {
            Ok((minor, q2)) => match spec_aligned_nullstring(s, q2) {
                Ok((app, q3)) => Ok(((major, minor, app), q3)),
                Err(e) => Err(e),
            },
            Err(e) => Err(e),
        },
        Err(e) => Err(e),
    }
}

pub open spec fn version_write(out: Seq<u8>, v: (u32, u32, Seq<u8>)) -> Seq<u8> {
    aligned_nullstring_write(out + u32_bytes(v.0) + u32_bytes(v.1), v.2)
}

impl Version {
    pub fn read_be(buf: &[u8], pos: u64) -> (r: Result<(Version, u64), ParseError>)
        requires
            pos_ok(buf@, pos as int),
        ensures
            parsed_as(r, spec_version(buf@, pos as int)),
            ends_ok(r, buf@, pos as int),
    {
        let (major, q1) = read_u32(buf, pos)?;
        let (minor, q2) = read_u32(buf, q1)?;
        let (application, q3) = read_aligned_nullstring(buf, q2)?;
        Ok((Version { major, minor, application }, q3))
    }

    pub fn write_be(&self, out: &mut Vec<u8>)
        ensures
            final(out)@ == version_write(old(out)@, self@),
    {
        write_u32(out, self.major);
        write_u32(out, self.minor);
        write_aligned_nullstring(out, &self.application);
    }
}

/// The application version chunk (`APPV`).
#[derive(Debug, PartialEq)]
pub struct ApplicationVersion {
    pub base: u32,
    pub major: u32,
    pub minor: u32,
    pub build: u32,
    pub application: NullString,
}

impl View for ApplicationVersion {
    type V = (u32, u32, u32, u32, Seq<u8>);

    open spec fn view(&self) -> (u32, u32, u32, u32, Seq<u8>) {
        (self.base, self.major, self.minor, self.build, self.application@)
    }
}

pub open spec fn spec_application_version(s: Seq<u8>, p: int) -> Result<
    ((u32, u32, u32, u32, Seq<u8>), int),
    ParseError,
> {
    match spec_u32(s, p) {
        Ok((base, q1)) => match spec_u32(s, q1) {
            Ok((major, q2)) => match spec_u32(s, q2) {
                Ok((minor, q3)) => match spec_u32(s, q3) {
                    Ok((build, q4)) => match spec_aligned_nullstring(s, q4) {
                        Ok((app, q5)) => Ok(((base, major, minor, build, app), q5)),
                        Err(e) => Err(e),
                    },
                    Err(e) => Err(e),
                },
                Err(e) => Err(e),
            },
            Err(e) => Err(e),
        },
        Err(e) => Err(e),
    }
}

pub open spec fn application_version_write(
    out: Seq<u8>,
    v: (u32, u32, u32, u32, Seq<u8>),
) -> Seq<u8> {
    aligned_nullstring_write(
        out + u32_bytes(v.0) + u32_bytes(v.1) + u32_bytes(v.2) + u32_bytes(v.3),
        v.4,
    )
}

impl ApplicationVersion {
    pub fn read_be(buf: &[u8], pos: u64) -> (r: Result<(ApplicationVersion, u64), ParseError>)
        requires
            pos_ok(buf@, pos as int),
        ensures
            parsed_as(r, spec_application_version(buf@, pos as int)),
            ends_ok(r, buf@, pos as int),
    {
        let (base, q1) = read_u32(buf, pos)?;
        let (major, q2) = read_u32(buf, q1)?;
        let (minor, q3) = read_u32(buf, q2)?;
        let (build, q4) = read_u32(buf, q3)?;
        let (application, q5) = read_aligned_nullstring(buf, q4)?;
        Ok((ApplicationVersion { base, major, minor, build, application }, q5))
    }

    pub fn write_be(&self, out: &mut Vec<u8>)
        ensures
            final(out)@ == application_version_write(old(out)@, self@),
    {
        write_u32(out, self.base);
        write_u32(out, self.major);
        write_u32(out, self.minor);
        write_u32(out, self.build);
        write_aligned_nullstring(out, &self.application);
    }
}

/// Text encoding of the scene (`ENCO`), stored as a 32 bit number.
#[derive(Debug, Clone, Copy, PartialEq, Eq)]
pub enum Encoding {
    Default,
    Ansi,
    Utf8,
    ShiftJis,
    EucJp,
    EucKr,
    Gb2312,
    Big5,
}

impl View for Encoding {
    type V = Encoding;

    open spec fn view(&self) -> Encoding {
        *self
    }
}

/// The number that stores each encoding.
pub open spec fn encoding_number(e: Encoding) -> u32 {
    match e {
        Encoding::Default => 0,
        Encoding::Ansi => 1,
        Encoding::Utf8 => 2,
        Encoding::ShiftJis => 3,
        Encoding::EucJp => 4,
        Encoding::EucKr => 5,
        Encoding::Gb2312 => 6,
        Encoding::Big5 => 7,
    }
}

/// Grammar: a 32 bit number that must be the number of some encoding.
pub open spec fn spec_encoding(s: Seq<u8>, p: int) -> Result<(Encoding, int), ParseError> {
    match spec_u32(s, p) {
        Ok((n, q)) => if n < 8 {
            Ok((choose|e: Encoding| encoding_number(e) == n, q))
        } else {
            Err(ParseError::NoVariantMatch)
        },
        Err(e) => Err(e),
    }
}

impl Encoding {
    pub fn number(&self) -> (r: u32)
        ensures
            r == encoding_number(*self),
    {
        match self {
            Encoding::Default => 0,
            Encoding::Ansi => 1,
            Encoding::Utf8 => 2,
            Encoding::ShiftJis => 3,
            Encoding::EucJp => 4,
            Encoding::EucKr => 5,
            Encoding::Gb2312 => 6,
            Encoding::Big5 => 7,
        }
    }

    pub fn from_number(n: u32) -> (r: Option<Encoding>)
        ensures
            r matches Some(e) ==> encoding_number(e) == n,
            r is Some <==> n < 8,
    {
        match n {
            0 => Some(Encoding::Default),
            1 => Some(Encoding::Ansi),
            2 => Some(Encoding::Utf8),
            3 => Some(Encoding::ShiftJis),
            4 => Some(Encoding::EucJp),
            5 => Some(Encoding::EucKr),
            6 => Some(Encoding::Gb2312),
            7 => Some(Encoding::Big5),
            _ => None,
        }
    }

    pub fn read_be(buf: &[u8], pos: u64) -> (r: Result<(Encoding, u64), ParseError>)
        requires
            pos_ok(buf@, pos as int),
        ensures
            parsed_as(r, spec_encoding(buf@, pos as int)),
            ends_ok(r, buf@, pos as int),
    {
        let (n, q) = read_u32(buf, pos)?;
        match Encoding::from_number(n) {
            Some(e) => {
                proof {
                    lemma_encoding_number_injective(e);
                }
                Ok((e, q))
            },
            None => Err(ParseError::NoVariantMatch),
        }
    }

    pub fn write_be(&self, out: &mut Vec<u8>)
        ensures
            final(out)@ == old(out)@ + u32_bytes(encoding_number(*self)),
    {
        write_u32(out, self.number());
    }

    /// The usual name of the encoding.
    pub fn name(&self) -> (r: &'static str)
        ensures
            *self == Encoding::Default ==> r@ == "default"@,
            *self == Encoding::Ansi ==> r@ == "ANSI"@,
            *self == Encoding::Utf8 ==> r@ == "UTF-8"@,
            *self == Encoding::ShiftJis ==> r@ == "Shift JIS"@,
            *self == Encoding::EucJp ==> r@ == "EUC-JP"@,
            *self == Encoding::EucKr ==> r@ == "EUC-KR"@,
            *self == Encoding::Gb2312 ==> r@ == "GB2312"@,
            *self == Encoding::Big5 ==> r@ == "Big5"@,
    {
        match self {
            Encoding::Default => "default",
            Encoding::Ansi => "ANSI",
            Encoding::Utf8 => "UTF-8",
            Encoding::ShiftJis => "Shift JIS",
            Encoding::EucJp => "EUC-JP",
            Encoding::EucKr => "EUC-KR",
            Encoding::Gb2312 => "GB2312",
            Encoding::Big5 => "Big5",
        }
    }
}

/// Different encodings are stored as different numbers.
pub proof fn lemma_encoding_number_injective(e: Encoding)
    ensures
        (choose|f: Encoding| encoding_number(f) == encoding_number(e)) == e,
{
    let f = choose|f: Encoding| encoding_number(f) == encoding_number(e);
    assert(encoding_number(e) == encoding_number(e));
    assert(encoding_number(f) == encoding_number(e));
}

/// The description chunk (`DESC`).
#[derive(Debug, PartialEq)]
pub struct Description {
    pub kind: NullString,
    pub description: NullString,
}

impl View for Description {
    type V = (Seq<u8>, Seq<u8>);

    open spec fn view(&self) -> (Seq<u8>, Seq<u8>) {
        (self.kind@, self.description@)
    }
}

/// Grammar of two aligned null terminated strings in a row.
pub open spec fn spec_two_strings(s: Seq<u8>, p: int) -> Result<((Seq<u8>, Seq<u8>), int), ParseError> {
    match spec_aligned_nullstring(s, p) {
        Ok((a, q1)) => match spec_aligned_nullstring(s, q1) {
            Ok((b, q2)) => Ok(((a, b), q2)),
            Err(e) => Err(e),
        },
        Err(e) => Err(e),
    }
}

pub open spec fn two_strings_write(out: Seq<u8>, v: (Seq<u8>, Seq<u8>)) -> Seq<u8> {
    aligned_nullstring_write(aligned_nullstring_write(out, v.0), v.1)
}

impl Description {
    pub fn read_be(buf: &[u8], pos: u64) -> (r: Result<(Description, u64), ParseError>)
        requires
            pos_ok(buf@, pos as int),
        ensures
            parsed_as(r, spec_two_strings(buf@, pos as int)),
            ends_ok(r, buf@, pos as int),
    {
        let (kind, q1) = read_aligned_nullstring(buf, pos)?;
        let (description, q2) = read_aligned_nullstring(buf, q1)?;
        Ok((Description { kind, description }, q2))
    }

    pub fn write_be(&self, out: &mut Vec<u8>)
        ensures
            final(out)@ == two_strings_write(old(out)@, self@),
    {
        write_aligned_nullstring(out, &self.kind);
        write_aligned_nullstring(out, &self.description);
    }
}

/// Preview image for the scene, stored either from the 3D view or the latest render.
#[derive(Debug, PartialEq)]
pub struct Preview {
    pub width: u16,
    pub height: u16,
    /// Image pixel format
    pub kind: u32,
    /// Flags, 1 = PNG
    pub flags: u32,
    pub data: Vec<u8>,
}

impl View for Preview {
    type V = (u16, u16, u32, u32, Seq<u8>);

    open spec fn view(&self) -> (u16, u16, u32, u32, Seq<u8>) {
        (self.width, self.height, self.kind, self.flags, self.data@)
    }
}

/// The fields of a preview chunk of `size` (at least 12) bytes: the image data fills the chunk
/// after its 12 byte header.
pub open spec fn spec_preview_fields(s: Seq<u8>, p: int, size: u32) -> Result<
    ((u16, u16, u32, u32, Seq<u8>), int),
    ParseError,
> {
    match spec_u16(s, p) {
        Ok((w, q1)) => match spec_u16(s, q1) {
            Ok((h, q2)) => match spec_u32(s, q2) {
                Ok((k, q3)) => match spec_u32(s, q3) {
                    Ok((f, q4)) => match spec_bytes(s, q4, size - 12) {
                        Ok((d, q5)) => Ok(((w, h, k, f, d), q5)),
                        Err(e) => Err(e),
                    },
                    Err(e) => Err(e),
                },
                Err(e) => Err(e),
            },
            Err(e) => Err(e),
        },
        Err(e) => Err(e),
    }
}

/// Grammar of a preview chunk of `size` bytes: its fields, after which the chunk must turn out
/// larger than 80 bytes. A chunk smaller than its 12 byte header fails the same way.
pub open spec fn spec_preview(s: Seq<u8>, p: int, size: u32) -> Result<
    ((u16, u16, u32, u32, Seq<u8>), int),
    ParseError,
> {
    if size < 12 {
        Err(ParseError::AssertionFailed)
    } else {
        match spec_preview_fields(s, p, size) {
            Ok((v, q)) => if size <= 80 {
                Err(ParseError::AssertionFailed)
            } else {
                Ok((v, q))
            },
            Err(e) => Err(e),
        }
    }
}

impl Preview {
    pub fn read_be(buf: &[u8], pos: u64, size: u32) -> (r: Result<(Preview, u64), ParseError>)
        requires
            pos_ok(buf@, pos as int),
        ensures
            parsed_as(r, spec_preview(buf@, pos as int, size)),
            ends_ok(r, buf@, pos as int),
    {
        if size < 12 {
            return Err(ParseError::AssertionFailed);
        }
        let (width, q1) = read_u16(buf, pos)?;
        let (height, q2) = read_u16(buf, q1)?;
        let (kind, q3) = read_u32(buf, q2)?;
        let (flags, q4) = read_u32(buf, q3)?;
        let (data, q5) = read_bytes(buf, q4, (size - 12) as u64)?;
        if size <= 80 {
            return Err(ParseError::AssertionFailed);
        }
        Ok((Preview { width, height, kind, flags, data }, q5))
    }
}

/// A clip of an included sub-scene (`FLAT` sub-chunk of `IASS`).
#[derive(Debug, PartialEq)]
pub struct Flat {
    pub name: NullString,
    pub source: NullString,
    pub kind: NullString,
    pub subkind: NullString,
    pub path: NullString,
}

impl View for Flat {
    type V = (Seq<u8>, Seq<u8>, Seq<u8>, Seq<u8>, Seq<u8>);

    open spec fn view(&self) -> (Seq<u8>, Seq<u8>, Seq<u8>, Seq<u8>, Seq<u8>) {
        (self.name@, self.source@, self.kind@, self.subkind@, self.path@)
    }
}

pub open spec fn spec_flat(s: Seq<u8>, p: int) -> Result<
    ((Seq<u8>, Seq<u8>, Seq<u8>, Seq<u8>, Seq<u8>), int),
    ParseError,
> {
    match spec_aligned_nullstring(s, p) {
        Ok((a, q1)) => match spec_aligned_nullstring(s, q1) {
            Ok((b, q2)) => match spec_aligned_nullstring(s, q2) {
                Ok((c, q3)) => match spec_aligned_nullstring(s, q3) {
                    Ok((d, q4)) => match spec_aligned_nullstring(s, q4) {
                        Ok((e, q5)) => Ok(((a, b, c, d, e), q5)),
                        Err(e) => Err(e),
                    },
                    Err(e) => Err(e),
                },
                Err(e) => Err(e),
            },
            Err(e) => Err(e),
        },
        Err(e) => Err(e),
    }
}

impl Flat {
    pub fn read_be(buf: &[u8], pos: u64) -> (r: Result<(Flat, u64), ParseError>)
        requires
            pos_ok(buf@, pos as int),
        ensures
            parsed_as(r, spec_flat(buf@, pos as int)),
            ends_ok(r, buf@, pos as int),
    {
        let (name, q1) = read_aligned_nullstring(buf, pos)?;
        let (source, q2) = read_aligned_nullstring(buf, q1)?;
        let (kind, q3) = read_aligned_nullstring(buf, q2)?;
        let (subkind, q4) = read_aligned_nullstring(buf, q3)?;
        let (path, q5) = read_aligned_nullstring(buf, q4)?;
        Ok((Flat { name, source, kind, subkind, path }, q5))
    }
}

/// A referenced sub-scene (`XREF` sub-chunk of `IASS`).
#[derive(Debug, PartialEq)]
pub struct SubsceneReference {
    pub name: NullString,
    pub path: NullString,
}

impl View for SubsceneReference {
    type V = (Seq<u8>, Seq<u8>);

    open spec fn view(&self) -> (Seq<u8>, Seq<u8>) {
        (self.name@, self.path@)
    }
}

impl SubsceneReference {
    pub fn read_be(buf: &[u8], pos: u64) -> (r: Result<(SubsceneReference, u64), ParseError>)
        requires
            pos_ok(buf@, pos as int),
        ensures
            parsed_as(r, spec_two_strings(buf@, pos as int)),
            ends_ok(r, buf@, pos as int),
    {
        let (name, q1) = read_aligned_nullstring(buf, pos)?;
        let (path, q2) = read_aligned_nullstring(buf, q1)?;
        Ok((SubsceneReference { name, path }, q2))
    }
}

/// Sub-scenes and clips the scene includes (`IASS`).
#[derive(Debug)]
pub struct IncludeAsSubscene {
    pub references: Vec<SubsceneReference>,
    pub clips: Vec<Flat>,
}

pub type FlatView = (Seq<u8>, Seq<u8>, Seq<u8>, Seq<u8>, Seq<u8>);

impl View for IncludeAsSubscene {
    type V = (Seq<(Seq<u8>, Seq<u8>)>, Seq<FlatView>);

    open spec fn view(&self) -> (Seq<(Seq<u8>, Seq<u8>)>, Seq<FlatView>) {
        (views(self.references@), views(self.clips@))
    }
}

/// Measure of a sub-chunk loop that runs while `p - start < size`.
pub open spec fn loop_measure(start: int, size: int, p: int) -> int {
    if p < start + size {
        start + size - p
    } else {
        0
    }
}

/// The sub-chunk loop of `IASS`: while fewer than `size` bytes have been read since `start`,
/// a sub-chunk header is read; `XREF` holds a sub-scene reference, `FLAT` a clip, and any
/// other sub-chunk is skipped by its size.
pub open spec fn iass_loop(
    s: Seq<u8>,
    start: int,
    size: int,
    p: int,
    refs: Seq<(Seq<u8>, Seq<u8>)>,
    clips: Seq<FlatView>,
) -> Result<((Seq<(Seq<u8>, Seq<u8>)>, Seq<FlatView>), int), ParseError>
    decreases loop_measure(start, size, p),
{
    if p - start < size {
        match spec_subchunk_header(s, p) {
            Ok(((k, n), q)) => if k == XREF {
                match spec_two_strings(s, q) {
                    Ok((r, q2)) => iass_loop(s, start, size, q2, refs.push(r), clips),
                    Err(e) => Err(e),
                }
            } else if k == FLAT {
                match spec_flat(s, q) {
                    Ok((c, q2)) => iass_loop(s, start, size, q2, refs, clips.push(c)),
                    Err(e) => Err(e),
                }
            } else {
                iass_loop(s, start, size, q + n, refs, clips)
            },
            Err(e) => Err(e),
        }
    } else {
        Ok(((refs, clips), p))
    }
}

pub open spec fn spec_include_as_subscene(s: Seq<u8>, p: int, size: u32) -> Result<
    ((Seq<(Seq<u8>, Seq<u8>)>, Seq<FlatView>), int),
    ParseError,
> {
    iass_loop(s, p, size as int, p, seq![], seq![])
}

impl IncludeAsSubscene {
    pub fn read_be(buf: &[u8], pos: u64, size: u32) -> (r: Result<(IncludeAsSubscene, u64), ParseError>)
        requires
            pos_ok(buf@, pos as int),
        ensures
            parsed_as(r, spec_include_as_subscene(buf@, pos as int, size)),
            ends_ok(r, buf@, pos as int),
    {
        let start = pos;
        let mut p = pos;
        let mut references: Vec<SubsceneReference> = Vec::new();
        let mut clips: Vec<Flat> = Vec::new();
        assert(views(references@) =~= Seq::<(Seq<u8>, Seq<u8>)>::empty());
        assert(views(clips@) =~= Seq::<FlatView>::empty());
        while p - start < size as u64
            invariant
                start <= p,
                start == pos,
                pos_ok(buf@, p as int),
                iass_loop(buf@, start as int, size as int, p as int, views(references@), views(clips@))
                    == spec_include_as_subscene(buf@, pos as int, size),
            decreases loop_measure(start as int, size as int, p as int),
        {
            let (h, q) = SubChunkHeader::read_be(buf, p)?;
            let k = h.kind.code();
            if k == XREF {
                let (r, q2) = SubsceneReference::read_be(buf, q)?;
                proof {
                    lemma_views_push(references@, r);
                }
                references.push(r);
                p = q2;
            } else if k == FLAT {
                let (c, q2) = Flat::read_be(buf, q)?;
                proof {
                    lemma_views_push(clips@, c);
                }
                clips.push(c);
                p = q2;
            } else {
                p = q + h.size as u64;
            }
        }
        Ok((IncludeAsSubscene { references, clips }, p))
    }
}


/// A reference to an item of a sub-scene (`IREF` sub-chunk of `SUBS`).
#[derive(Debug, PartialEq)]
pub struct ItemReference {
    pub ident: NullString,
    pub name: NullString,
    pub kind: NullString,
}

impl View for ItemReference {
    type V = (Seq<u8>, Seq<u8>, Seq<u8>);

    open spec fn view(&self) -> (Seq<u8>, Seq<u8>, Seq<u8>) {
        (self.ident@, self.name@, self.kind@)
    }
}

pub open spec fn spec_three_strings(s: Seq<u8>, p: int) -> Result<
    ((Seq<u8>, Seq<u8>, Seq<u8>), int),
    ParseError,
> {
    match spec_aligned_nullstring(s, p) {
        Ok((a, q1)) => match spec_aligned_nullstring(s, q1) {
            Ok((b, q2)) => match spec_aligned_nullstring(s, q2) {
                Ok((c, q3)) => Ok(((a, b, c), q3)),
                Err(e) => Err(e),
            },
            Err(e) => Err(e),
        },
        Err(e) => Err(e),
    }
}

pub open spec fn three_strings_write(out: Seq<u8>, v: (Seq<u8>, Seq<u8>, Seq<u8>)) -> Seq<u8> {
    aligned_nullstring_write(aligned_nullstring_write(aligned_nullstring_write(out, v.0), v.1), v.2)
}

impl ItemReference {
    pub fn read_be(buf: &[u8], pos: u64) -> (r: Result<(ItemReference, u64), ParseError>)
        requires
            pos_ok(buf@, pos as int),
        ensures
            parsed_as(r, spec_three_strings(buf@, pos as int)),
            ends_ok(r, buf@, pos as int),
    {
        let (ident, q1) = read_aligned_nullstring(buf, pos)?;
        let (name, q2) = read_aligned_nullstring(buf, q1)?;
        let (kind, q3) = read_aligned_nullstring(buf, q2)?;
        Ok((ItemReference { ident, name, kind }, q3))
    }

    pub fn write_be(&self, out: &mut Vec<u8>)
        ensures
            final(out)@ == three_strings_write(old(out)@, self@),
    {
        write_aligned_nullstring(out, &self.ident);
        write_aligned_nullstring(out, &self.name);
        write_aligned_nullstring(out, &self.kind);
    }
}

/// A sub-scene (`SUBS`): its path, its name and references to its items.
#[derive(Debug)]
pub struct Subscene {
    pub path: NullString,
    pub name: NullString,
    pub item_references: Vec<ItemReference>,
}

pub type ItemReferenceView = (Seq<u8>, Seq<u8>, Seq<u8>);

impl View for Subscene {
    type V = (Seq<u8>, Seq<u8>, Seq<ItemReferenceView>);

    open spec fn view(&self) -> (Seq<u8>, Seq<u8>, Seq<ItemReferenceView>) {
        (self.path@, self.name@, views(self.item_references@))
    }
}

/// The sub-chunk loop of `SUBS`: `IREF` sub-chunks hold item references, any other
/// sub-chunk is skipped by its size.
pub open spec fn subs_loop(
    s: Seq<u8>,
    start: int,
    size: int,
    p: int,
    refs: Seq<ItemReferenceView>,
) -> Result<(Seq<ItemReferenceView>, int), ParseError>
    decreases loop_measure(start, size, p),
{
    if p - start < size {
        match spec_subchunk_header(s, p) {
            Ok(((k, n), q)) => if k == IREF {
                match spec_three_strings(s, q) {
                    Ok((r, q2)) => subs_loop(s, start, size, q2, refs.push(r)),
                    Err(e) => Err(e),
                }
            } else {
                subs_loop(s, start, size, q + n, refs)
            },
            Err(e) => Err(e),
        }
    } else {
        Ok((refs, p))
    }
}

/// Grammar of a `SUBS` chunk of `size` bytes: path and name, then the sub-chunk loop, which
/// counts the chunk's size from the chunk start.
pub open spec fn spec_subscene(s: Seq<u8>, p: int, size: u32) -> Result<
    ((Seq<u8>, Seq<u8>, Seq<ItemReferenceView>), int),
    ParseError,
> {
    match spec_two_strings(s, p) {
        Ok(((path, name), q)) => match subs_loop(s, p, size as int, q, seq![]) {
            Ok((refs, q2)) => Ok(((path, name, refs), q2)),
            Err(e) => Err(e),
        },
        Err(e) => Err(e),
    }
}

/// Output after writing the item references one after another.
pub open spec fn item_references_write(out: Seq<u8>, refs: Seq<ItemReferenceView>) -> Seq<u8>
    decreases refs.len(),
{
    if refs.len() == 0 {
        out
    } else {
        three_strings_write(item_references_write(out, refs.drop_last()), refs.last())
    }
}

pub open spec fn subscene_write(out: Seq<u8>, v: (Seq<u8>, Seq<u8>, Seq<ItemReferenceView>)) -> Seq<u8> {
    item_references_write(two_strings_write(out, (v.0, v.1)), v.2)
}

impl Subscene {
    pub fn read_be(buf: &[u8], pos: u64, size: u32) -> (r: Result<(Subscene, u64), ParseError>)
        requires
            pos_ok(buf@, pos as int),
        ensures
            parsed_as(r, spec_subscene(buf@, pos as int, size)),
            ends_ok(r, buf@, pos as int),
    {
        let start = pos;
        let (path, q1) = read_aligned_nullstring(buf, pos)?;
        let (name, q2) = read_aligned_nullstring(buf, q1)?;
        let mut p = q2;
        let mut item_references: Vec<ItemReference> = Vec::new();
        assert(views(item_references@) =~= Seq::<ItemReferenceView>::empty());
        while p - start < size as u64
            invariant
                start <= p,
                start == pos,
                pos_ok(buf@, p as int),
                spec_two_strings(buf@, pos as int) == Ok::<((Seq<u8>, Seq<u8>), int), ParseError>(
                    ((path@, name@), q2 as int),
                ),
                subs_loop(buf@, start as int, size as int, p as int, views(item_references@))
                    == subs_loop(buf@, start as int, size as int, q2 as int, seq![]),
            decreases loop_measure(start as int, size as int, p as int),
        {
            let (h, q) = SubChunkHeader::read_be(buf, p)?;
            if h.kind.code() == IREF {
                let (r, q3) = ItemReference::read_be(buf, q)?;
                proof {
                    lemma_views_push(item_references@, r);
                }
                item_references.push(r);
                p = q3;
            } else {
                p = q + h.size as u64;
            }
        }
        Ok((Subscene { path, name, item_references }, p))
    }

    pub fn write_be(&self, out: &mut Vec<u8>)
        ensures
            final(out)@ == subscene_write(old(out)@, self@),
    {
        write_aligned_nullstring(out, &self.path);
        write_aligned_nullstring(out, &self.name);
        let ghost base = out@;
        let mut i: usize = 0;
        assert(views(self.item_references@).take(0) =~= Seq::<ItemReferenceView>::empty());
        while i < self.item_references.len()
            invariant
                i <= self.item_references@.len(),
                base == two_strings_write(old(out)@, (self.path@, self.name@)),
                out@ == item_references_write(base, views(self.item_references@).take(i as int)),
            decreases self.item_references@.len() - i,
        {
            self.item_references[i].write_be(out);
            assert(views(self.item_references@).take(i + 1).drop_last() =~= views(
                self.item_references@,
            ).take(i as int));
            i = i + 1;
        }
        assert(views(self.item_references@).take(i as int) =~= views(self.item_references@));
    }
}

/// Item deletion list of a reference (`IDEL`): a byte size and the deleted item indices.
#[derive(Debug)]
pub struct ItemDeletion {
    pub size: u16,
    pub items: Vec<u32>,
}

impl View for ItemDeletion {
    type V = (u16, Seq<u32>);

    open spec fn view(&self) -> (u16, Seq<u32>) {
        (self.size, self.items@)
    }
}

/// Grammar: the tag `IDEL`, a 16 bit size, then size / 4 item indices.
pub open spec fn spec_item_deletion(s: Seq<u8>, p: int) -> Result<((u16, Seq<u32>), int), ParseError> {
    match spec_magic(s, p, IDEL) {
        Ok((_, q1)) => match spec_u16(s, q1) {
            Ok((n, q2)) => match spec_u32_array(s, q2, n as int / 4) {
                Ok((items, q3)) => Ok(((n, items), q3)),
                Err(e) => Err(e),
            },
            Err(e) => Err(e),
        },
        Err(e) => Err(e),
    }
}

impl ItemDeletion {
    pub fn read_be(buf: &[u8], pos: u64) -> (r: Result<(ItemDeletion, u64), ParseError>)
        requires
            pos_ok(buf@, pos as int),
        ensures
            parsed_as(r, spec_item_deletion(buf@, pos as int)),
            ends_ok(r, buf@, pos as int),
    {
        let (_, q1) = read_magic(buf, pos, IDEL)?;
        let (size, q2) = read_u16(buf, q1)?;
        let (items, q3) = read_u32_array(buf, q2, (size / 4) as u64)?;
        Ok((ItemDeletion { size, items }, q3))
    }
}

/// Reference manager of a reference (`XMAN`): a byte size and a mode.
#[derive(Debug, Clone, Copy, PartialEq, Eq)]
pub struct ReferenceManager {
    pub size: u16,
    pub mode: u32,
}

impl View for ReferenceManager {
    type V = (u16, u32);

    open spec fn view(&self) -> (u16, u32) {
        (self.size, self.mode)
    }
}

pub open spec fn spec_reference_manager(s: Seq<u8>, p: int) -> Result<((u16, u32), int), ParseError> {
    match spec_magic(s, p, XMAN) {
        Ok((_, q1)) => match spec_u16(s, q1) {
            Ok((n, q2)) => match spec_u32(s, q2) {
                Ok((m, q3)) => Ok(((n, m), q3)),
                Err(e) => Err(e),
            },
            Err(e) => Err(e),
        },
        Err(e) => Err(e),
    }
}

impl ReferenceManager {
    pub fn read_be(buf: &[u8], pos: u64) -> (r: Result<(ReferenceManager, u64), ParseError>)
        requires
            pos_ok(buf@, pos as int),
        ensures
            parsed_as(r, spec_reference_manager(buf@, pos as int)),
            ends_ok(r, buf@, pos as int),
    {
        let (_, q1) = read_magic(buf, pos, XMAN)?;
        let (size, q2) = read_u16(buf, q1)?;
        let (mode, q3) = read_u32(buf, q2)?;
        Ok((ReferenceManager { size, mode }, q3))
    }
}

/// An external scene reference (`XREF` chunk).
#[derive(Debug)]
pub struct Reference {
    pub subscene: u32,
    pub subscene_name: NullString,
    pub item_deletion: ItemDeletion,
    pub reference_manager: ReferenceManager,
}

impl View for Reference {
    type V = (u32, Seq<u8>, (u16, Seq<u32>), (u16, u32));

    open spec fn view(&self) -> (u32, Seq<u8>, (u16, Seq<u32>), (u16, u32)) {
        (self.subscene, self.subscene_name@, self.item_deletion@, self.reference_manager@)
    }
}

pub open spec fn spec_reference(s: Seq<u8>, p: int) -> Result<
    ((u32, Seq<u8>, (u16, Seq<u32>), (u16, u32)), int),
    ParseError,
> {
    match spec_u32(s, p) {
        Ok((sub, q1)) => match spec_aligned_nullstring(s, q1) {
            Ok((name, q2)) => match spec_item_deletion(s, q2) {
                Ok((del, q3)) => match spec_reference_manager(s, q3) {
                    Ok((man, q4)) => Ok(((sub, name, del, man), q4)),
                    Err(e) => Err(e),
                },
                Err(e) => Err(e),
            },
            Err(e) => Err(e),
        },
        Err(e) => Err(e),
    }
}

impl Reference {
    pub fn read_be(buf: &[u8], pos: u64) -> (r: Result<(Reference, u64), ParseError>)
        requires
            pos_ok(buf@, pos as int),
        ensures
            parsed_as(r, spec_reference(buf@, pos as int)),
            ends_ok(r, buf@, pos as int),
    {
        let (subscene, q1) = read_u32(buf, pos)?;
        let (subscene_name, q2) = read_aligned_nullstring(buf, q1)?;
        let (item_deletion, q3) = ItemDeletion::read_be(buf, q2)?;
        let (reference_manager, q4) = ReferenceManager::read_be(buf, q3)?;
        Ok((Reference { subscene, subscene_name, item_deletion, reference_manager }, q4))
    }
}

/// Item tags of the scene (`TAGS`).
#[derive(Debug)]
pub struct ItemTags {
    pub tags: Vec<NullString>,
}

impl View for ItemTags {
    type V = Seq<Seq<u8>>;

    open spec fn view(&self) -> Seq<Seq<u8>> {
        views(self.tags@)
    }
}

/// Grammar: `size` bytes, split at zero bytes with empty pieces left out.
pub open spec fn spec_item_tags(s: Seq<u8>, p: int, size: u32) -> Result<(Seq<Seq<u8>>, int), ParseError> {
    match spec_bytes(s, p, size as int) {
        Ok((data, q)) => Ok((nonempty_pieces(data), q)),
        Err(e) => Err(e),
    }
}

impl ItemTags {
    pub fn read_be(buf: &[u8], pos: u64, size: u32) -> (r: Result<(ItemTags, u64), ParseError>)
        requires
            pos_ok(buf@, pos as int),
        ensures
            parsed_as(r, spec_item_tags(buf@, pos as int, size)),
            ends_ok(r, buf@, pos as int),
    {
        let (data, q) = read_bytes(buf, pos, size as u64)?;
        let tags = split_null_separated(data.as_slice());
        Ok((ItemTags { tags }, q))
    }
}

/// Channel names of the scene (`CHNM`): a count and the names.
#[derive(Debug)]
pub struct ChannelNames {
    pub count: u32,
    pub names: Vec<NullString>,
}

impl View for ChannelNames {
    type V = (u32, Seq<Seq<u8>>);

    open spec fn view(&self) -> (u32, Seq<Seq<u8>>) {
        (self.count, views(self.names@))
    }
}

/// Grammar of a `CHNM` chunk of `size` bytes: a count, then the remaining `size - 4` bytes
/// split at zero bytes with empty pieces left out. A chunk of fewer than 4 bytes is refused.
pub open spec fn spec_channel_names(s: Seq<u8>, p: int, size: u32) -> Result<
    ((u32, Seq<Seq<u8>>), int),
    ParseError,
> {
    match spec_u32(s, p) {
        Ok((count, q1)) => if size < 4 {
            Err(ParseError::InvalidSize)
        } else {
            match spec_bytes(s, q1, size - 4) {
                Ok((data, q2)) => Ok(((count, nonempty_pieces(data)), q2)),
                Err(e) => Err(e),
            }
        },
        Err(e) => Err(e),
    }
}

impl ChannelNames {
    pub fn read_be(buf: &[u8], pos: u64, size: u32) -> (r: Result<(ChannelNames, u64), ParseError>)
        requires
            pos_ok(buf@, pos as int),
        ensures
            parsed_as(r, spec_channel_names(buf@, pos as int, size)),
            ends_ok(r, buf@, pos as int),
    {
        let (count, q1) = read_u32(buf, pos)?;
        if size < 4 {
            return Err(ParseError::InvalidSize);
        }
        let (data, q2) = read_bytes(buf, q1, (size - 4) as u64)?;
        let names = split_null_separated(data.as_slice());
        Ok((ChannelNames { count, names }, q2))
    }
}

/// Parent of a chunk: a name and a number.
#[derive(Debug, PartialEq)]
pub struct Parent {
    pub name: NullString,
    pub num: u32,
}

impl View for Parent {
    type V = (Seq<u8>, u32);

    open spec fn view(&self) -> (Seq<u8>, u32) {
        (self.name@, self.num)
    }
}

pub open spec fn spec_parent(s: Seq<u8>, p: int) -> Result<((Seq<u8>, u32), int), ParseError> {
    match spec_aligned_nullstring(s, p) {
        Ok((name, q1)) => match spec_u32(s, q1) {
            Ok((num, q2)) => Ok(((name, num), q2)),
            Err(e) => Err(e),
        },
        Err(e) => Err(e),
    }
}

impl Parent {
    pub fn read_be(buf: &[u8], pos: u64) -> (r: Result<(Parent, u64), ParseError>)
        requires
            pos_ok(buf@, pos as int),
        ensures
            parsed_as(r, spec_parent(buf@, pos as int)),
            ends_ok(r, buf@, pos as int),
    {
        let (name, q1) = read_aligned_nullstring(buf, pos)?;
        let (num, q2) = read_u32(buf, q1)?;
        Ok((Parent { name, num }, q2))
    }
}

} // verus!
