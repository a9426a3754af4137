//! Scene items (`ITEM`) and their sub-chunks, and data blocks (`DATA`).

use crate::meta::loop_measure;
use crate::tags::{
    BBOX, BCHN, CHAN, CHNL, CHNS, CHNV, CLNK, GRAD, ITAG, LAYR, LINK, PAKG, UCHN, UIDX, UNIQ, VNAM,
    XREF,
};
use crate::primitives::{
    channel_value_fits, channel_value_write, ends_ok, view_opt, i32_bits, id4_bytes, lemma_nullstring_advances,
    lemma_views_push, parsed_as, point_bytes, pos_ok, read_bytes, read_i32, read_u16, read_u32,
    spec_bytes, spec_channel_value, spec_i32, spec_id4, spec_point, spec_subchunk_header,
    spec_u16, spec_u32, spec_vx, u16_bytes, u32_bytes, views, vx_bytes, write_bytes, write_i32,
    write_u16, write_u32, ChannelValue, ChannelValueView, NullString, Point, SubChunkHeader, ID4,
    VX,
};
use crate::utils::{
    aligned_nullstring_write, pad2, pad_even, read_aligned_nullstring, spec_aligned_nullstring,
    write_aligned_nullstring,
};
use crate::ParseError;
use vstd::prelude::*;

verus! {

broadcast use lemma_nullstring_advances;

/// Visibility flags of an item's layer.
#[derive(Debug, Clone, Copy, PartialEq, Eq, Structural)]
pub struct LayerVisibilityFlags {
    pub bits: u32,
}

#[allow(non_snake_case)]
impl LayerVisibilityFlags {
    pub fn Visible() -> (r: Self)
        ensures
            r.bits == 1,
    {
        LayerVisibilityFlags { bits: 1 }
    }

    pub fn Hidden() -> (r: Self)
        ensures
            r.bits == 2,
    {
        LayerVisibilityFlags { bits: 2 }
    }

    pub fn Foreground() -> (r: Self)
        ensures
            r.bits == 4,
    {
        LayerVisibilityFlags { bits: 4 }
    }

    pub fn Background() -> (r: Self)
        ensures
            r.bits == 8,
    {
        LayerVisibilityFlags { bits: 8 }
    }

    pub fn BoundingBox() -> (r: Self)
        ensures
            r.bits == 16,
    {
        LayerVisibilityFlags { bits: 16 }
    }

    pub fn LinearSubdivUv() -> (r: Self)
        ensures
            r.bits == 128,
    {
        LayerVisibilityFlags { bits: 128 }
    }

    pub fn from_bits_retain(bits: u32) -> (r: Self)
        ensures
            r.bits == bits,
    {
        LayerVisibilityFlags { bits }
    }

    pub fn bits(&self) -> (r: u32)
        ensures
            r == self.bits,
    {
        self.bits
    }

    pub fn contains(&self, other: Self) -> (r: bool)
        ensures
            r == (self.bits & other.bits == other.bits),
    {
        self.bits & other.bits == other.bits
    }

    pub fn union(self, other: Self) -> (r: Self)
        ensures
            r.bits == self.bits | other.bits,
    {
        LayerVisibilityFlags { bits: self.bits | other.bits }
    }
}

/// Layer specific features of an item (`LAYR` sub-chunk): index, flags and wireframe color.
#[derive(Debug, Clone, Copy, PartialEq, Eq)]
pub struct Layer {
    /// Index of the layer in the Layer List
    pub index: u32,
    /// Flags describing layer-specific properties
    pub flags: LayerVisibilityFlags,
    /// RGBA element (wireframe) color in the UI
    pub color: [u8; 4],
}

impl View for Layer {
    type V = (u32, u32, Seq<u8>);

    open spec fn view(&self) -> (u32, u32, Seq<u8>) {
        (self.index, self.flags.bits, self.color@)
    }
}

pub open spec fn spec_item_layer(s: Seq<u8>, p: int) -> Result<((u32, u32, Seq<u8>), int), ParseError> {
    match spec_u32(s, p) {
        Ok((index, q1)) => match spec_u32(s, q1) {
            Ok((flags, q2)) => match spec_bytes(s, q2, 4) {
                Ok((color, q3)) => Ok(((index, flags, color), q3)),
                Err(e) => Err(e),
            },
            Err(e) => Err(e),
        },
        Err(e) => Err(e),
    }
}

pub open spec fn item_layer_bytes(v: (u32, u32, Seq<u8>)) -> Seq<u8> {
    u32_bytes(v.0) + u32_bytes(v.1) + v.2
}

impl Layer {
    pub fn read_be(buf: &[u8], pos: u64) -> (r: Result<(Layer, u64), ParseError>)
        requires
            pos_ok(buf@, pos as int),
        ensures
            parsed_as(r, spec_item_layer(buf@, pos as int)),
            ends_ok(r, buf@, pos as int),
    {
        let (index, q1) = read_u32(buf, pos)?;
        let (flags, q2) = read_u32(buf, q1)?;
        let len = buf.len() as u64;
        if !(q2 <= len && len - q2 >= 4) {
            return Err(ParseError::UnexpectedEof);
        }
        let i = q2 as usize;
        let color = [buf[i], buf[i + 1], buf[i + 2], buf[i + 3]];
        assert(color@ =~= buf@.subrange(i as int, i + 4));
        Ok((Layer { index, flags: LayerVisibilityFlags { bits: flags }, color }, q2 + 4))
    }

    pub fn write_be(&self, out: &mut Vec<u8>)
        ensures
            final(out)@ == old(out)@ + item_layer_bytes(self@),
    {
        write_u32(out, self.index);
        write_u32(out, self.flags.bits);
        write_bytes(out, self.color.as_slice());
        assert(out@ =~= old(out)@ + item_layer_bytes(self@));
    }
}

/// An external reference item (`XREF` sub-chunk).
#[derive(Debug, Clone, PartialEq)]
pub struct Reference {
    /// Index for the sub-scene in XREF chunk
    pub index: u32,
    /// Filename containing the source scene being referenced
    pub path: NullString,
    /// Item identifier in the source scene
    pub ident: NullString,
}

impl View for Reference {
    type V = (u32, Seq<u8>, Seq<u8>);

    open spec fn view(&self) -> (u32, Seq<u8>, Seq<u8>) {
        (self.index, self.path@, self.ident@)
    }
}

pub open spec fn spec_item_reference(s: Seq<u8>, p: int) -> Result<((u32, Seq<u8>, Seq<u8>), int), ParseError> {
    match spec_u32(s, p) {
        Ok((index, q1)) => match spec_aligned_nullstring(s, q1) {
            Ok((path, q2)) => match spec_aligned_nullstring(s, q2) {
                Ok((ident, q3)) => Ok(((index, path, ident), q3)),
                Err(e) => Err(e),
            },
            Err(e) => Err(e),
        },
        Err(e) => Err(e),
    }
}

pub open spec fn item_reference_write(out: Seq<u8>, v: (u32, Seq<u8>, Seq<u8>)) -> Seq<u8> {
    aligned_nullstring_write(aligned_nullstring_write(out + u32_bytes(v.0), v.1), v.2)
}

impl Reference {
    pub fn read_be(buf: &[u8], pos: u64) -> (r: Result<(Reference, u64), ParseError>)
        requires
            pos_ok(buf@, pos as int),
        ensures
            parsed_as(r, spec_item_reference(buf@, pos as int)),
            ends_ok(r, buf@, pos as int),
    {
        let (index, q1) = read_u32(buf, pos)?;
        let (path, q2) = read_aligned_nullstring(buf, q1)?;
        let (ident, q3) = read_aligned_nullstring(buf, q2)?;
        Ok((Reference { index, path, ident }, q3))
    }

    pub fn write_be(&self, out: &mut Vec<u8>)
        ensures
            final(out)@ == item_reference_write(old(out)@, self@),
    {
        write_u32(out, self.index);
        write_aligned_nullstring(out, &self.path);
        write_aligned_nullstring(out, &self.ident);
    }
}

/// A package of an item (`PAKG`): name, data size and data.
#[derive(Debug, Clone, PartialEq)]
pub struct Package {
    /// Package name that is used to add the package and load and save its state
    pub name: NullString,
    /// Package data size in bytes. Note that zero is a valid size
    pub size: u32,
    /// The package's data stored as raw bytes
    pub data: Vec<u8>,
}

impl View for Package {
    type V = (Seq<u8>, u32, Seq<u8>);

    open spec fn view(&self) -> (Seq<u8>, u32, Seq<u8>) {
        (self.name@, self.size, self.data@)
    }
}

/// Grammar: name, size, then `size` bytes of data and a skip to the next even position.
pub open spec fn spec_package(s: Seq<u8>, p: int) -> Result<((Seq<u8>, u32, Seq<u8>), int), ParseError> {
    match spec_aligned_nullstring(s, p) {
        Ok((name, q1)) => match spec_u32(s, q1) {
            Ok((size, q2)) => match spec_bytes(s, q2, size as int) {
                Ok((data, q3)) => Ok(((name, size, data), crate::utils::align2(q3))),
                Err(e) => Err(e),
            },
            Err(e) => Err(e),
        },
        Err(e) => Err(e),
    }
}

pub open spec fn package_write(out: Seq<u8>, v: (Seq<u8>, u32, Seq<u8>)) -> Seq<u8> {
    pad2(aligned_nullstring_write(out, v.0) + u32_bytes(v.1) + v.2)
}

impl Package {
    pub fn read_be(buf: &[u8], pos: u64) -> (r: Result<(Package, u64), ParseError>)
        requires
            pos_ok(buf@, pos as int),
        ensures
            parsed_as(r, spec_package(buf@, pos as int)),
            ends_ok(r, buf@, pos as int),
    {
        let (name, q1) = read_aligned_nullstring(buf, pos)?;
        let (size, q2) = read_u32(buf, q1)?;
        let (data, q3) = read_bytes(buf, q2, size as u64)?;
        let q4 = if q3 % 2 != 0 {
            q3 + 1
        } else {
            q3
        };
        Ok((Package { name, size, data }, q4))
    }

    pub fn write_be(&self, out: &mut Vec<u8>)
        ensures
            final(out)@ == package_write(old(out)@, self@),
    {
        write_aligned_nullstring(out, &self.name);
        write_u32(out, self.size);
        write_bytes(out, self.data.as_slice());
        pad_even(out);
    }
}

/// A channel value by index into the `CHNM` names (`CHAN` sub-chunk).
#[derive(Debug, Clone, PartialEq)]
pub struct Channel {
    pub index: VX,
    pub kind: u16,
    pub value: ChannelValue,
}

impl View for Channel {
    type V = (VX, u16, ChannelValueView);

    open spec fn view(&self) -> (VX, u16, ChannelValueView) {
        (self.index, self.kind, self.value@)
    }
}

pub open spec fn spec_channel(s: Seq<u8>, p: int) -> Result<((VX, u16, ChannelValueView), int), ParseError> {
    match spec_vx(s, p) {
        Ok((index, q1)) => match spec_u16(s, q1) {
            Ok((kind, q2)) => match spec_channel_value(s, q2, kind) {
                Ok((v, q3)) => Ok(((index, kind, v), q3)),
                Err(e) => Err(e),
            },
            Err(e) => Err(e),
        },
        Err(e) => Err(e),
    }
}

pub open spec fn channel_write(out: Seq<u8>, v: (VX, u16, ChannelValueView)) -> Seq<u8> {
    channel_value_write(out + vx_bytes(v.0) + u16_bytes(v.1), v.2)
}

impl Channel {
    pub fn read_be(buf: &[u8], pos: u64) -> (r: Result<(Channel, u64), ParseError>)
        requires
            pos_ok(buf@, pos as int),
        ensures
            parsed_as(r, spec_channel(buf@, pos as int)),
            ends_ok(r, buf@, pos as int),
    {
        let (index, q1) = VX::read_be(buf, pos)?;
        let (kind, q2) = read_u16(buf, q1)?;
        let (value, q3) = ChannelValue::read_be(buf, q2, kind)?;
        Ok((Channel { index, kind, value }, q3))
    }

    /// Writes the channel; a value that cannot be written (see `channel_value_fits`) is
    /// refused and nothing is written.
    pub fn write_be(&self, out: &mut Vec<u8>) -> (r: Result<(), ParseError>)
        ensures
            r is Ok <==> channel_value_fits(self.value@),
            r is Ok ==> final(out)@ == channel_write(old(out)@, self@),
            r is Err ==> r == Err::<(), ParseError>(ParseError::LengthOverflow) && final(out)@
                == old(out)@,
    {
        if !self.value.fits() {
            return Err(ParseError::LengthOverflow);
        }
        self.index.write_be(out);
        write_u16(out, self.kind);
        self.value.write_be(out)
    }
}

/// A link of one item to another (`LINK` sub-chunk): graph name, target item id, link index.
#[derive(Debug, Clone, PartialEq)]
pub struct Link {
    /// The name of the graph that this link belongs to, such as parent
    pub name: NullString,
    /// The ID of the item in the scene
    pub id: u32,
    /// The index of the link
    pub index: u32,
}

impl View for Link {
    type V = (Seq<u8>, u32, u32);

    open spec fn view(&self) -> (Seq<u8>, u32, u32) {
        (self.name@, self.id, self.index)
    }
}

pub open spec fn spec_link(s: Seq<u8>, p: int) -> Result<((Seq<u8>, u32, u32), int), ParseError> {
    match spec_aligned_nullstring(s, p) {
        Ok((name, q1)) => match spec_u32(s, q1) {
            Ok((id, q2)) => match spec_u32(s, q2) {
                Ok((index, q3)) => Ok(((name, id, index), q3)),
                Err(e) => Err(e),
            },
            Err(e) => Err(e),
        },
        Err(e) => Err(e),
    }
}

pub open spec fn link_write(out: Seq<u8>, v: (Seq<u8>, u32, u32)) -> Seq<u8> {
    aligned_nullstring_write(out, v.0) + u32_bytes(v.1) + u32_bytes(v.2)
}

impl Link {
    pub fn read_be(buf: &[u8], pos: u64) -> (r: Result<(Link, u64), ParseError>)
        requires
            pos_ok(buf@, pos as int),
        ensures
            parsed_as(r, spec_link(buf@, pos as int)),
            ends_ok(r, buf@, pos as int),
    {
        let (name, q1) = read_aligned_nullstring(buf, pos)?;
        let (id, q2) = read_u32(buf, q1)?;
        let (index, q3) = read_u32(buf, q2)?;
        Ok((Link { name, id, index }, q3))
    }

    pub fn write_be(&self, out: &mut Vec<u8>)
        ensures
            final(out)@ == link_write(old(out)@, self@),
    {
        write_aligned_nullstring(out, &self.name);
        write_u32(out, self.id);
        write_u32(out, self.index);
    }
}

/// Interpolation of a gradient's envelope, stored as a 32 bit number.
#[derive(Debug, Clone, Copy, PartialEq, Eq)]
pub enum EnvelopeInterpolationFlag {
    Curve,
    Linear,
    Stepped,
}

pub open spec fn interpolation_from(n: u32) -> Option<EnvelopeInterpolationFlag> {
    match n {
        0 => Some(EnvelopeInterpolationFlag::Curve),
        1 => Some(EnvelopeInterpolationFlag::Linear),
        2 => Some(EnvelopeInterpolationFlag::Stepped),
        _ => None,
    }
}

pub open spec fn interpolation_number(f: EnvelopeInterpolationFlag) -> u32 {
    match f {
        EnvelopeInterpolationFlag::Curve => 0,
        EnvelopeInterpolationFlag::Linear => 1,
        EnvelopeInterpolationFlag::Stepped => 2,
    }
}

impl EnvelopeInterpolationFlag {
    pub fn from_number(n: u32) -> (r: Option<EnvelopeInterpolationFlag>)
        ensures
            r == interpolation_from(n),
    {
        match n {
            0 => Some(EnvelopeInterpolationFlag::Curve),
            1 => Some(EnvelopeInterpolationFlag::Linear),
            2 => Some(EnvelopeInterpolationFlag::Stepped),
            _ => None,
        }
    }

    pub fn number(&self) -> (r: u32)
        ensures
            r == interpolation_number(*self),
    {
        match self {
            EnvelopeInterpolationFlag::Curve => 0,
            EnvelopeInterpolationFlag::Linear => 1,
            EnvelopeInterpolationFlag::Stepped => 2,
        }
    }
}

/// A gradient channel of an item (`GRAD` sub-chunk).
#[derive(Debug, Clone, PartialEq)]
pub struct Gradient {
    pub name: NullString,
    pub envelope_index: VX,
    pub flags: EnvelopeInterpolationFlag,
    pub kind0: Option<NullString>,
    pub kind1: Option<NullString>,
}

pub type GradientView = (Seq<u8>, VX, EnvelopeInterpolationFlag, Option<Seq<u8>>, Option<Seq<u8>>);

impl View for Gradient {
    type V = GradientView;

    open spec fn view(&self) -> GradientView {
        (
            self.name@,
            self.envelope_index,
            self.flags,
            crate::animation::opt_view(self.kind0),
            crate::animation::opt_view(self.kind1),
        )
    }
}

/// Grammar of an item's `GRAD` sub-chunk of `size` bytes: name, envelope index, interpolation,
/// then up to two strings, each present while the sub-chunk has bytes left.
pub open spec fn spec_gradient(s: Seq<u8>, p: int, size: u16) -> Result<(GradientView, int), ParseError> {
    match spec_aligned_nullstring(s, p) {
        Ok((name, q1)) => match spec_vx(s, q1) {
            Ok((ei, q2)) => match spec_u32(s, q2) {
                Ok((n, q3)) => match interpolation_from(n) {
                    Some(flags) => match crate::animation::spec_opt_string(s, p, size as int, q3) {
                        Ok((k0, q4)) => match crate::animation::spec_opt_string(
                            s,
                            p,
                            size as int,
                            q4,
                        ) {
                            Ok((k1, q5)) => Ok(((name, ei, flags, k0, k1), q5)),
                            Err(e) => Err(e),
                        },
                        Err(e) => Err(e),
                    },
                    None => Err(ParseError::NoVariantMatch),
                },
                Err(e) => Err(e),
            },
            Err(e) => Err(e),
        },
        Err(e) => Err(e),
    }
}

pub open spec fn gradient_write(out: Seq<u8>, v: GradientView) -> Seq<u8> {
    crate::animation::opt_string_write(
        crate::animation::opt_string_write(
            aligned_nullstring_write(out, v.0) + vx_bytes(v.1) + u32_bytes(interpolation_number(v.2)),
            v.3,
        ),
        v.4,
    )
}

impl Gradient {
    pub fn read_be(buf: &[u8], pos: u64, size: u16) -> (r: Result<(Gradient, u64), ParseError>)
        requires
            pos_ok(buf@, pos as int),
        ensures
            parsed_as(r, spec_gradient(buf@, pos as int, size)),
            ends_ok(r, buf@, pos as int),
    {
        let (name, q1) = read_aligned_nullstring(buf, pos)?;
        let (envelope_index, q2) = VX::read_be(buf, q1)?;
        let (n, q3) = read_u32(buf, q2)?;
        let flags = match EnvelopeInterpolationFlag::from_number(n) {
            Some(f) => f,
            None => {
                return Err(ParseError::NoVariantMatch);
            },
        };
        let (kind0, q4) = crate::animation::read_opt_string(buf, pos, size as u64, q3)?;
        let (kind1, q5) = crate::animation::read_opt_string(buf, pos, size as u64, q4)?;
        Ok((Gradient { name, envelope_index, flags, kind0, kind1 }, q5))
    }

    pub fn write_be(&self, out: &mut Vec<u8>)
        ensures
            final(out)@ == gradient_write(old(out)@, self@),
    {
        write_aligned_nullstring(out, &self.name);
        self.envelope_index.write_be(out);
        write_u32(out, self.flags.number());
        crate::animation::write_opt_string(out, &self.kind0);
        crate::animation::write_opt_string(out, &self.kind1);
    }
}

/// Bounding box of an item (`BBOX` sub-chunk); corners hold float bit patterns.
#[derive(Debug, Clone, Copy, PartialEq, Eq)]
pub struct BoundingBox {
    pub min: Point,
    pub max: Point,
}

impl View for BoundingBox {
    type V = ((u32, u32, u32), (u32, u32, u32));

    open spec fn view(&self) -> ((u32, u32, u32), (u32, u32, u32)) {
        (self.min@, self.max@)
    }
}

pub open spec fn spec_bounding_box(s: Seq<u8>, p: int) -> Result<
    (((u32, u32, u32), (u32, u32, u32)), int),
    ParseError,
> {
    match spec_point(s, p) {
        Ok((min, q1)) => match spec_point(s, q1) {
            Ok((max, q2)) => Ok(((min, max), q2)),
            Err(e) => Err(e),
        },
        Err(e) => Err(e),
    }
}

pub open spec fn bounding_box_bytes(v: ((u32, u32, u32), (u32, u32, u32))) -> Seq<u8> {
    point_bytes(v.0) + point_bytes(v.1)
}

impl BoundingBox {
    pub fn read_be(buf: &[u8], pos: u64) -> (r: Result<(BoundingBox, u64), ParseError>)
        requires
            pos_ok(buf@, pos as int),
        ensures
            parsed_as(r, spec_bounding_box(buf@, pos as int)),
            ends_ok(r, buf@, pos as int),
    {
        let (min, q1) = Point::read_be(buf, pos)?;
        let (max, q2) = Point::read_be(buf, q1)?;
        Ok((BoundingBox { min, max }, q2))
    }

    pub fn write_be(&self, out: &mut Vec<u8>)
        ensures
            final(out)@ == old(out)@ + bounding_box_bytes(self@),
    {
        self.min.write_be(out);
        self.max.write_be(out);
        assert(out@ =~= old(out)@ + bounding_box_bytes(self@));
    }
}


/// The datatype of a channel value as stored: 1 a signed integer, 2 a float, 3 a null
/// terminated string, 4 a 16 bit length followed by that much data; colour channels also set
/// the 0x20 bit.
#[derive(Debug, Clone, Copy, PartialEq, Eq, Structural)]
pub struct ChannelDataMask {
    pub bits: u16,
}

#[allow(non_snake_case)]
impl ChannelDataMask {
    pub fn Integer() -> (r: Self)
        ensures
            r.bits == 1,
    {
        ChannelDataMask { bits: 1 }
    }

    pub fn Float() -> (r: Self)
        ensures
            r.bits == 2,
    {
        ChannelDataMask { bits: 2 }
    }

    pub fn String() -> (r: Self)
        ensures
            r.bits == 3,
    {
        ChannelDataMask { bits: 3 }
    }

    pub fn Data() -> (r: Self)
        ensures
            r.bits == 4,
    {
        ChannelDataMask { bits: 4 }
    }

    pub fn from_bits_retain(bits: u16) -> (r: Self)
        ensures
            r.bits == bits,
    {
        ChannelDataMask { bits }
    }

    pub fn bits(&self) -> (r: u16)
        ensures
            r == self.bits,
    {
        self.bits
    }

    pub fn contains(&self, other: Self) -> (r: bool)
        ensures
            r == (self.bits & other.bits == other.bits),
    {
        self.bits & other.bits == other.bits
    }
}

/// The datatype of a channel: the stored value with the 0x20 bit (seen on colour channels)
/// cleared.
pub open spec fn channel_datatype(mask: u16) -> u16 {
    mask & 0xffdf
}

/// Grammar of a value of a channel datatype: 1 is a signed integer, 2 a float, 3 an even
/// aligned null terminated string, 4 a 16 bit length and that many bytes of data.
pub open spec fn spec_masked_value(s: Seq<u8>, p: int, mask: u16) -> Result<
    (ChannelValueView, int),
    ParseError,
> {
    let t = channel_datatype(mask);
    if t == 1 {
        match spec_i32(s, p) {
            Ok((v, q)) => Ok((ChannelValueView::Integer(v), q)),
            Err(e) => Err(e),
        }
    } else if t == 2 {
        match spec_u32(s, p) {
            Ok((v, q)) => Ok((ChannelValueView::Float(v), q)),
            Err(e) => Err(e),
        }
    } else if t == 3 {
        match spec_aligned_nullstring(s, p) {
            Ok((v, q)) => Ok((ChannelValueView::String(v), q)),
            Err(e) => Err(e),
        }
    } else if t == 4 {
        match spec_u16(s, p) {
            Ok((n, q1)) => match spec_bytes(s, q1, n as int) {
                Ok((d, q2)) => Ok((ChannelValueView::Data(d), q2)),
                Err(e) => Err(e),
            },
            Err(e) => Err(e),
        }
    } else {
        Err(ParseError::InvalidChannelDataMask)
    }
}

pub fn read_channel_value(buf: &[u8], pos: u64, kind: &ChannelDataMask) -> (r: Result<
    (ChannelValue, u64),
    ParseError,
>)
    requires
        pos_ok(buf@, pos as int),
    ensures
        parsed_as(r, spec_masked_value(buf@, pos as int, kind.bits)),
        ends_ok(r, buf@, pos as int),
{
    let t = kind.bits & 0xffdf;
    if t == 1 {
        let (v, q) = read_i32(buf, pos)?;
        Ok((ChannelValue::Integer(v), q))
    } else if t == 2 {
        let (v, q) = read_u32(buf, pos)?;
        Ok((ChannelValue::Float(v), q))
    } else if t == 3 {
        let (v, q) = read_aligned_nullstring(buf, pos)?;
        Ok((ChannelValue::String(v), q))
    } else if t == 4 {
        let (n, q1) = read_u16(buf, pos)?;
        let (d, q2) = read_bytes(buf, q1, n as u64)?;
        Ok((ChannelValue::Data(d), q2))
    } else {
        Err(ParseError::InvalidChannelDataMask)
    }
}

/// One named element of a vector channel.
#[derive(Debug, Clone, PartialEq)]
pub struct VectorElement {
    pub name: NullString,
    pub value: ChannelValue,
}

impl View for VectorElement {
    type V = (Seq<u8>, ChannelValueView);

    open spec fn view(&self) -> (Seq<u8>, ChannelValueView) {
        (self.name@, self.value@)
    }
}

pub open spec fn spec_vector_element(s: Seq<u8>, p: int, mask: u16) -> Result<
    ((Seq<u8>, ChannelValueView), int),
    ParseError,
> {
    match spec_aligned_nullstring(s, p) {
        Ok((name, q1)) => match spec_masked_value(s, q1, mask) {
            Ok((v, q2)) => Ok(((name, v), q2)),
            Err(e) => Err(e),
        },
        Err(e) => Err(e),
    }
}

pub open spec fn vector_element_write(out: Seq<u8>, v: (Seq<u8>, ChannelValueView)) -> Seq<u8> {
    channel_value_write(aligned_nullstring_write(out, v.0), v.1)
}

impl VectorElement {
    pub fn read_be(buf: &[u8], pos: u64, kind: &ChannelDataMask) -> (r: Result<(VectorElement, u64), ParseError>)
        requires
            pos_ok(buf@, pos as int),
        ensures
            parsed_as(r, spec_vector_element(buf@, pos as int, kind.bits)),
            ends_ok(r, buf@, pos as int),
    {
        let (name, q1) = read_aligned_nullstring(buf, pos)?;
        let (value, q2) = read_channel_value(buf, q1, kind)?;
        Ok((VectorElement { name, value }, q2))
    }

    /// Writes the element; a value that cannot be written (see `channel_value_fits`) is
    /// refused and nothing is written.
    pub fn write_be(&self, out: &mut Vec<u8>) -> (r: Result<(), ParseError>)
        ensures
            r is Ok <==> channel_value_fits(self.value@),
            r is Ok ==> final(out)@ == vector_element_write(old(out)@, self@),
            r is Err ==> r == Err::<(), ParseError>(ParseError::LengthOverflow) && final(out)@
                == old(out)@,
    {
        if !self.value.fits() {
            return Err(ParseError::LengthOverflow);
        }
        write_aligned_nullstring(out, &self.name);
        self.value.write_be(out)
    }
}

/// A vector channel of an item (`CHNV` sub-chunk): name, type mask, dimension count and one
/// element per dimension.
#[derive(Debug, Clone, PartialEq)]
pub struct VectorChannel {
    pub name: NullString,
    pub kind: ChannelDataMask,
    pub dimensions: u16,
    pub elements: Vec<VectorElement>,
}

pub type VectorElementView = (Seq<u8>, ChannelValueView);

impl View for VectorChannel {
    type V = (Seq<u8>, u16, u16, Seq<VectorElementView>);

    open spec fn view(&self) -> (Seq<u8>, u16, u16, Seq<VectorElementView>) {
        (self.name@, self.kind.bits, self.dimensions, views(self.elements@))
    }
}

/// `n` more vector elements in a row, appended to `acc`.
pub open spec fn spec_vector_elements(
    s: Seq<u8>,
    p: int,
    mask: u16,
    n: nat,
    acc: Seq<VectorElementView>,
) -> Result<(Seq<VectorElementView>, int), ParseError>
    decreases n,
{
    if n == 0 {
        Ok((acc, p))
    } else {
        match spec_vector_element(s, p, mask) {
            Ok((e, q)) => spec_vector_elements(s, q, mask, (n - 1) as nat, acc.push(e)),
            Err(e) => Err(e),
        }
    }
}

pub open spec fn spec_vector_channel(s: Seq<u8>, p: int) -> Result<
    ((Seq<u8>, u16, u16, Seq<VectorElementView>), int),
    ParseError,
> {
    match spec_aligned_nullstring(s, p) {
        Ok((name, q1)) => match spec_u16(s, q1) {
            Ok((mask, q2)) => match spec_u16(s, q2) {
                Ok((dims, q3)) => match spec_vector_elements(s, q3, mask, dims as nat, seq![]) {
                    Ok((es, q4)) => Ok(((name, mask, dims, es), q4)),
                    Err(e) => Err(e),
                },
                Err(e) => Err(e),
            },
            Err(e) => Err(e),
        },
        Err(e) => Err(e),
    }
}

pub open spec fn vector_elements_write(out: Seq<u8>, es: Seq<VectorElementView>) -> Seq<u8>
    decreases es.len(),
{
    if es.len() == 0 {
        out
    } else {
        vector_element_write(vector_elements_write(out, es.drop_last()), es.last())
    }
}

/// Whether every element's value can be written (see `channel_value_fits`).
pub open spec fn vector_elements_fit(es: Seq<VectorElementView>) -> bool {
    forall|j: int| 0 <= j < es.len() ==> channel_value_fits(#[trigger] es[j].1)
}

pub open spec fn vector_channel_write(out: Seq<u8>, v: (Seq<u8>, u16, u16, Seq<VectorElementView>)) -> Seq<u8> {
    vector_elements_write(aligned_nullstring_write(out, v.0) + u16_bytes(v.1) + u16_bytes(v.2), v.3)
}

impl VectorChannel {
    pub fn read_be(buf: &[u8], pos: u64) -> (r: Result<(VectorChannel, u64), ParseError>)
        requires
            pos_ok(buf@, pos as int),
        ensures
            parsed_as(r, spec_vector_channel(buf@, pos as int)),
            ends_ok(r, buf@, pos as int),
    {
        let (name, q1) = read_aligned_nullstring(buf, pos)?;
        let (mask, q2) = read_u16(buf, q1)?;
        let kind = ChannelDataMask { bits: mask };
        let (dimensions, q3) = read_u16(buf, q2)?;
        let mut elements: Vec<VectorElement> = Vec::new();
        let mut i: u16 = 0;
        let mut p = q3;
        assert(views(elements@) =~= Seq::<VectorElementView>::empty());
        while i < dimensions
            invariant
                i <= dimensions,
                pos <= p,
                pos_ok(buf@, p as int),
                kind.bits == mask,
                spec_aligned_nullstring(buf@, pos as int) == Ok::<(Seq<u8>, int), ParseError>(
                    (name@, q1 as int),
                ),
                spec_u16(buf@, q1 as int) == Ok::<(u16, int), ParseError>((mask, q2 as int)),
                spec_u16(buf@, q2 as int) == Ok::<(u16, int), ParseError>((dimensions, q3 as int)),
                spec_vector_elements(buf@, p as int, mask, (dimensions - i) as nat, views(elements@))
                    == spec_vector_elements(buf@, q3 as int, mask, dimensions as nat, seq![]),
            decreases dimensions - i,
        {
            let (e, q) = VectorElement::read_be(buf, p, &kind)?;
            proof {
                lemma_views_push(elements@, e);
            }
            elements.push(e);
            p = q;
            i = i + 1;
        }
        Ok((VectorChannel { name, kind, dimensions, elements }, p))
    }

    /// Whether every element's value can be written.
    pub fn fits(&self) -> (r: bool)
        ensures
            r == vector_elements_fit(views(self.elements@)),
    {
        let mut i: usize = 0;
        while i < self.elements.len()
            invariant
                i <= self.elements@.len(),
                forall|j: int| 0 <= j < i ==> channel_value_fits(#[trigger] views(self.elements@)[j].1),
            decreases self.elements@.len() - i,
        {
            if !self.elements[i].value.fits() {
                assert(views(self.elements@)[i as int].1 == self.elements@[i as int].value@);
                return false;
            }
            i = i + 1;
        }
        true
    }

    /// Writes the channel; when an element's value cannot be written (see
    /// `channel_value_fits`) the channel is refused and nothing is written.
    pub fn write_be(&self, out: &mut Vec<u8>) -> (r: Result<(), ParseError>)
        ensures
            r is Ok <==> vector_elements_fit(views(self.elements@)),
            r is Ok ==> final(out)@ == vector_channel_write(old(out)@, self@),
            r is Err ==> r == Err::<(), ParseError>(ParseError::LengthOverflow) && final(out)@
                == old(out)@,
    {
        if !self.fits() {
            return Err(ParseError::LengthOverflow);
        }
        write_aligned_nullstring(out, &self.name);
        write_u16(out, self.kind.bits);
        write_u16(out, self.dimensions);
        let ghost base = out@;
        let mut i: usize = 0;
        assert(views(self.elements@).take(0) =~= Seq::<VectorElementView>::empty());
        while i < self.elements.len()
            invariant
                i <= self.elements@.len(),
                base == aligned_nullstring_write(old(out)@, self.name@) + u16_bytes(self.kind.bits)
                    + u16_bytes(self.dimensions),
                out@ == vector_elements_write(base, views(self.elements@).take(i as int)),
                vector_elements_fit(views(self.elements@)),
            decreases self.elements@.len() - i,
        {
            assert(channel_value_fits(views(self.elements@)[i as int].1));
            let _ = self.elements[i].write_be(out);
            assert(views(self.elements@).take(i + 1).drop_last() =~= views(self.elements@).take(
                i as int,
            ));
            i = i + 1;
        }
        assert(views(self.elements@).take(i as int) =~= views(self.elements@));
        Ok(())
    }
}

/// A string channel (`CHNS` sub-chunk): channel name and string value.
#[derive(Debug, Clone, PartialEq)]
pub struct StringChannel {
    /// Channel name
    pub name: NullString,
    /// String value assigned to the channel
    pub value: NullString,
}

impl View for StringChannel {
    type V = (Seq<u8>, Seq<u8>);

    open spec fn view(&self) -> (Seq<u8>, Seq<u8>) {
        (self.name@, self.value@)
    }
}

impl StringChannel {
    pub fn read_be(buf: &[u8], pos: u64) -> (r: Result<(StringChannel, u64), ParseError>)
        requires
            pos_ok(buf@, pos as int),
        ensures
            parsed_as(r, crate::meta::spec_two_strings(buf@, pos as int)),
            ends_ok(r, buf@, pos as int),
    {
        let (name, q1) = read_aligned_nullstring(buf, pos)?;
        let (value, q2) = read_aligned_nullstring(buf, q1)?;
        Ok((StringChannel { name, value }, q2))
    }

    pub fn write_be(&self, out: &mut Vec<u8>)
        ensures
            final(out)@ == crate::meta::two_strings_write(old(out)@, self@),
    {
        write_aligned_nullstring(out, &self.name);
        write_aligned_nullstring(out, &self.value);
    }
}

/// A tag of an item (`ITAG` sub-chunk): tag kind and text.
#[derive(Debug, Clone, PartialEq)]
pub struct ItemTag {
    pub kind: ID4,
    pub tag: NullString,
}

impl View for ItemTag {
    type V = (u32, Seq<u8>);

    open spec fn view(&self) -> (u32, Seq<u8>) {
        (self.kind@, self.tag@)
    }
}

pub open spec fn spec_item_tag(s: Seq<u8>, p: int) -> Result<((u32, Seq<u8>), int), ParseError> {
    match spec_id4(s, p) {
        Ok((kind, q1)) => match spec_aligned_nullstring(s, q1) {
            Ok((tag, q2)) => Ok(((kind, tag), q2)),
            Err(e) => Err(e),
        },
        Err(e) => Err(e),
    }
}

impl ItemTag {
    pub fn read_be(buf: &[u8], pos: u64) -> (r: Result<(ItemTag, u64), ParseError>)
        requires
            pos_ok(buf@, pos as int),
        ensures
            parsed_as(r, spec_item_tag(buf@, pos as int)),
            ends_ok(r, buf@, pos as int),
    {
        let (kind, q1) = ID4::read_be(buf, pos)?;
        let (tag, q2) = read_aligned_nullstring(buf, q1)?;
        Ok((ItemTag { kind, tag }, q2))
    }

    pub fn write_be(&self, out: &mut Vec<u8>)
        ensures
            final(out)@ == aligned_nullstring_write(old(out)@ + id4_bytes(self.kind), self.tag@),
    {
        self.kind.write_be(out);
        write_aligned_nullstring(out, &self.tag);
    }
}

/// A scalar channel (`CHNL` sub-chunk): name, type mask and a value of that type.
#[derive(Debug, Clone, PartialEq)]
pub struct ScalarChannel {
    pub name: NullString,
    pub kind: ChannelDataMask,
    pub value: ChannelValue,
}

impl View for ScalarChannel {
    type V = (Seq<u8>, u16, ChannelValueView);

    open spec fn view(&self) -> (Seq<u8>, u16, ChannelValueView) {
        (self.name@, self.kind.bits, self.value@)
    }
}

pub open spec fn spec_scalar_channel(s: Seq<u8>, p: int) -> Result<
    ((Seq<u8>, u16, ChannelValueView), int),
    ParseError,
> {
    match spec_aligned_nullstring(s, p) {
        Ok((name, q1)) => match spec_u16(s, q1) {
            Ok((mask, q2)) => match spec_masked_value(s, q2, mask) {
                Ok((v, q3)) => Ok(((name, mask, v), q3)),
                Err(e) => Err(e),
            },
            Err(e) => Err(e),
        },
        Err(e) => Err(e),
    }
}

pub open spec fn scalar_channel_write(out: Seq<u8>, v: (Seq<u8>, u16, ChannelValueView)) -> Seq<u8> {
    channel_value_write(aligned_nullstring_write(out, v.0) + u16_bytes(v.1), v.2)
}

impl ScalarChannel {
    pub fn read_be(buf: &[u8], pos: u64) -> (r: Result<(ScalarChannel, u64), ParseError>)
        requires
            pos_ok(buf@, pos as int),
        ensures
            parsed_as(r, spec_scalar_channel(buf@, pos as int)),
            ends_ok(r, buf@, pos as int),
    {
        let (name, q1) = read_aligned_nullstring(buf, pos)?;
        let (mask, q2) = read_u16(buf, q1)?;
        let kind = ChannelDataMask { bits: mask };
        let (value, q3) = read_channel_value(buf, q2, &kind)?;
        Ok((ScalarChannel { name, kind, value }, q3))
    }

    /// Writes the channel; a value that cannot be written (see `channel_value_fits`) is
    /// refused and nothing is written.
    pub fn write_be(&self, out: &mut Vec<u8>) -> (r: Result<(), ParseError>)
        ensures
            r is Ok <==> channel_value_fits(self.value@),
            r is Ok ==> final(out)@ == scalar_channel_write(old(out)@, self@),
            r is Err ==> r == Err::<(), ParseError>(ParseError::LengthOverflow) && final(out)@
                == old(out)@,
    {
        if !self.value.fits() {
            return Err(ParseError::LengthOverflow);
        }
        write_aligned_nullstring(out, &self.name);
        write_u16(out, self.kind.bits);
        self.value.write_be(out)
    }
}

/// A block channel (`BCHN` sub-chunk): name and index of a data block.
#[derive(Debug, Clone, PartialEq)]
pub struct BlockChannel {
    pub name: NullString,
    pub index: u32,
}

impl View for BlockChannel {
    type V = (Seq<u8>, u32);

    open spec fn view(&self) -> (Seq<u8>, u32) {
        (self.name@, self.index)
    }
}

impl BlockChannel {
    pub fn read_be(buf: &[u8], pos: u64) -> (r: Result<(BlockChannel, u64), ParseError>)
        requires
            pos_ok(buf@, pos as int),
        ensures
            parsed_as(r, crate::meta::spec_parent(buf@, pos as int)),
            ends_ok(r, buf@, pos as int),
    {
        let (name, q1) = read_aligned_nullstring(buf, pos)?;
        let (index, q2) = read_u32(buf, q1)?;
        Ok((BlockChannel { name, index }, q2))
    }

    pub fn write_be(&self, out: &mut Vec<u8>)
        ensures
            final(out)@ == aligned_nullstring_write(old(out)@, self.name@) + u32_bytes(self.index),
    {
        write_aligned_nullstring(out, &self.name);
        write_u32(out, self.index);
    }
}

/// The channels of an item, in the order they were read.
#[derive(Debug, Clone, PartialEq)]
pub enum Channels {
    CHAN(Channel),
    GRAD(Gradient),
    CHNL(ScalarChannel),
    CHNV(VectorChannel),
    CHNS(StringChannel),
    BCHN(BlockChannel),
}

pub enum ChannelsView {
    CHAN((VX, u16, ChannelValueView)),
    GRAD(GradientView),
    CHNL((Seq<u8>, u16, ChannelValueView)),
    CHNV((Seq<u8>, u16, u16, Seq<VectorElementView>)),
    CHNS((Seq<u8>, Seq<u8>)),
    BCHN((Seq<u8>, u32)),
}

impl View for Channels {
    type V = ChannelsView;

    open spec fn view(&self) -> ChannelsView {
        match self {
            Channels::CHAN(c) => ChannelsView::CHAN(c@),
            Channels::GRAD(c) => ChannelsView::GRAD(c@),
            Channels::CHNL(c) => ChannelsView::CHNL(c@),
            Channels::CHNV(c) => ChannelsView::CHNV(c@),
            Channels::CHNS(c) => ChannelsView::CHNS(c@),
            Channels::BCHN(c) => ChannelsView::BCHN(c@),
        }
    }
}

/// The sub-chunk kind each channel is stored under.
pub open spec fn channels_kind(c: ChannelsView) -> u32 {
    match c {
        ChannelsView::CHAN(_) => crate::tags::CHAN,
        ChannelsView::GRAD(_) => crate::tags::GRAD,
        ChannelsView::CHNL(_) => crate::tags::CHNL,
        ChannelsView::CHNV(_) => crate::tags::CHNV,
        ChannelsView::CHNS(_) => crate::tags::CHNS,
        ChannelsView::BCHN(_) => crate::tags::BCHN,
    }
}

/// Whether every value a channel holds can be written (see `channel_value_fits`).
pub open spec fn channels_fit(c: ChannelsView) -> bool {
    match c {
        ChannelsView::CHAN(v) => channel_value_fits(v.2),
        ChannelsView::CHNL(v) => channel_value_fits(v.2),
        ChannelsView::CHNV(v) => vector_elements_fit(v.3),
        _ => true,
    }
}

/// Output after writing a channel's body.
pub open spec fn channels_write(out: Seq<u8>, c: ChannelsView) -> Seq<u8> {
    match c {
        ChannelsView::CHAN(v) => channel_write(out, v),
        ChannelsView::GRAD(v) => gradient_write(out, v),
        ChannelsView::CHNL(v) => scalar_channel_write(out, v),
        ChannelsView::CHNV(v) => vector_channel_write(out, v),
        ChannelsView::CHNS(v) => crate::meta::two_strings_write(out, v),
        ChannelsView::BCHN(v) => aligned_nullstring_write(out, v.0) + u32_bytes(v.1),
    }
}

impl Channels {
    pub fn subchunk_kind(&self) -> (r: ID4)
        ensures
            r@ == channels_kind(self@),
            id4_bytes(r) == u32_bytes(channels_kind(self@)),
    {
        match self {
            Channels::CHAN(_) => ID4::from_code(crate::tags::CHAN),
            Channels::GRAD(_) => ID4::from_code(crate::tags::GRAD),
            Channels::CHNL(_) => ID4::from_code(crate::tags::CHNL),
            Channels::CHNV(_) => ID4::from_code(crate::tags::CHNV),
            Channels::CHNS(_) => ID4::from_code(crate::tags::CHNS),
            Channels::BCHN(_) => ID4::from_code(crate::tags::BCHN),
        }
    }

    /// Writes the channel's body; a channel holding a value that cannot be written (see
    /// `channels_fit`) is refused and nothing is written.
    pub fn write_be(&self, out: &mut Vec<u8>) -> (r: Result<(), ParseError>)
        ensures
            r is Ok <==> channels_fit(self@),
            r is Ok ==> final(out)@ == channels_write(old(out)@, self@),
            r is Err ==> r == Err::<(), ParseError>(ParseError::LengthOverflow) && final(out)@
                == old(out)@,
    {
        match self {
            Channels::CHAN(c) => c.write_be(out),
            Channels::GRAD(c) => {
                c.write_be(out);
                Ok(())
            },
            Channels::CHNL(c) => c.write_be(out),
            Channels::CHNV(c) => c.write_be(out),
            Channels::CHNS(c) => {
                c.write_be(out);
                Ok(())
            },
            Channels::BCHN(c) => {
                c.write_be(out);
                Ok(())
            },
        }
    }
}

/// A data block (`DATA`): index, flag, name and the remaining bytes of the chunk.
#[derive(Debug)]
pub struct DataBlock {
    pub index: u32,
    pub flag: u32,
    pub name: NullString,
    pub data: Vec<u8>,
}

impl View for DataBlock {
    type V = (u32, u32, Seq<u8>, Seq<u8>);

    open spec fn view(&self) -> (u32, u32, Seq<u8>, Seq<u8>) {
        (self.index, self.flag, self.name@, self.data@)
    }
}

/// Grammar of a `DATA` chunk of `size` bytes: index, flag, name, then the rest of the chunk as
/// data. A chunk whose header already runs past `size` is refused.
pub open spec fn spec_data_block(s: Seq<u8>, p: int, size: u32) -> Result<
    ((u32, u32, Seq<u8>, Seq<u8>), int),
    ParseError,
> {
    match spec_u32(s, p) {
        Ok((index, q1)) => match spec_u32(s, q1) {
            Ok((flag, q2)) => match spec_aligned_nullstring(s, q2) {
                Ok((name, q3)) => if q3 - p > size {
                    Err(ParseError::InvalidSize)
                } else {
                    match spec_bytes(s, q3, size - (q3 - p)) {
                        Ok((data, q4)) => Ok(((index, flag, name, data), q4)),
                        Err(e) => Err(e),
                    }
                },
                Err(e) => Err(e),
            },
            Err(e) => Err(e),
        },
        Err(e) => Err(e),
    }
}

impl DataBlock {
    pub fn read_be(buf: &[u8], pos: u64, size: u32) -> (r: Result<(DataBlock, u64), ParseError>)
        requires
            pos_ok(buf@, pos as int),
        ensures
            parsed_as(r, spec_data_block(buf@, pos as int, size)),
            ends_ok(r, buf@, pos as int),
    {
        let (index, q1) = read_u32(buf, pos)?;
        let (flag, q2) = read_u32(buf, q1)?;
        let (name, q3) = read_aligned_nullstring(buf, q2)?;
        if q3 - pos > size as u64 {
            return Err(ParseError::InvalidSize);
        }
        let (data, q4) = read_bytes(buf, q3, size as u64 - (q3 - pos))?;
        Ok((DataBlock { index, flag, name, data }, q4))
    }
}

/// A link between channels (`CLNK` sub-chunk).
#[derive(Debug, Clone, PartialEq)]
pub struct ChannelLink {
    pub graph: NullString,
    pub from: NullString,
    pub item: u32,
    pub to: NullString,
    pub from_index: u32,
    pub to_index: u32,
}

pub type ChannelLinkView = (Seq<u8>, Seq<u8>, u32, Seq<u8>, u32, u32);

impl View for ChannelLink {
    type V = ChannelLinkView;

    open spec fn view(&self) -> ChannelLinkView {
        (self.graph@, self.from@, self.item, self.to@, self.from_index, self.to_index)
    }
}

pub open spec fn spec_channel_link(s: Seq<u8>, p: int) -> Result<(ChannelLinkView, int), ParseError> {
    match spec_aligned_nullstring(s, p) {
        Ok((graph, q1)) => match spec_aligned_nullstring(s, q1) {
            Ok((from, q2)) => match spec_u32(s, q2) {
                Ok((item, q3)) => match spec_aligned_nullstring(s, q3) {
                    Ok((to, q4)) => match spec_u32(s, q4) {
                        Ok((fi, q5)) => match spec_u32(s, q5) {
                            Ok((ti, q6)) => Ok(((graph, from, item, to, fi, ti), q6)),
                            Err(e) => Err(e),
                        },
                        Err(e) => Err(e),
                    },
                    Err(e) => Err(e),
                },
                Err(e) => Err(e),
            },
            Err(e) => Err(e),
        },
        Err(e) => Err(e),
    }
}

pub open spec fn channel_link_write(out: Seq<u8>, v: ChannelLinkView) -> Seq<u8> {
    aligned_nullstring_write(
        two_aligned(out, v.0, v.1) + u32_bytes(v.2),
        v.3,
    ) + u32_bytes(v.4) + u32_bytes(v.5)
}

pub open spec fn two_aligned(out: Seq<u8>, a: Seq<u8>, b: Seq<u8>) -> Seq<u8> {
    aligned_nullstring_write(aligned_nullstring_write(out, a), b)
}

impl ChannelLink {
    pub fn read_be(buf: &[u8], pos: u64) -> (r: Result<(ChannelLink, u64), ParseError>)
        requires
            pos_ok(buf@, pos as int),
        ensures
            parsed_as(r, spec_channel_link(buf@, pos as int)),
            ends_ok(r, buf@, pos as int),
    {
        let (graph, q1) = read_aligned_nullstring(buf, pos)?;
        let (from, q2) = read_aligned_nullstring(buf, q1)?;
        let (item, q3) = read_u32(buf, q2)?;
        let (to, q4) = read_aligned_nullstring(buf, q3)?;
        let (from_index, q5) = read_u32(buf, q4)?;
        let (to_index, q6) = read_u32(buf, q5)?;
        Ok((ChannelLink { graph, from, item, to, from_index, to_index }, q6))
    }

    pub fn write_be(&self, out: &mut Vec<u8>)
        ensures
            final(out)@ == channel_link_write(old(out)@, self@),
    {
        write_aligned_nullstring(out, &self.graph);
        write_aligned_nullstring(out, &self.from);
        write_u32(out, self.item);
        write_aligned_nullstring(out, &self.to);
        write_u32(out, self.from_index);
        write_u32(out, self.to_index);
    }
}

/// Vector mode of a user channel, stored as a 32 bit number.
#[derive(Debug, Clone, Copy, PartialEq, Eq)]
pub enum VectorMode {
    Scalar,
    XY,
    XYZ,
    RGB,
    RGBA,
}

pub open spec fn vector_mode_from(n: u32) -> Option<VectorMode> {
    match n {
        0 => Some(VectorMode::Scalar),
        1 => Some(VectorMode::XY),
        2 => Some(VectorMode::XYZ),
        3 => Some(VectorMode::RGB),
        4 => Some(VectorMode::RGBA),
        _ => None,
    }
}

pub open spec fn vector_mode_number(m: VectorMode) -> u32 {
    match m {
        VectorMode::Scalar => 0,
        VectorMode::XY => 1,
        VectorMode::XYZ => 2,
        VectorMode::RGB => 3,
        VectorMode::RGBA => 4,
    }
}

impl VectorMode {
    pub fn from_number(n: u32) -> (r: Option<VectorMode>)
        ensures
            r == vector_mode_from(n),
    {
        match n {
            0 => Some(VectorMode::Scalar),
            1 => Some(VectorMode::XY),
            2 => Some(VectorMode::XYZ),
            3 => Some(VectorMode::RGB),
            4 => Some(VectorMode::RGBA),
            _ => None,
        }
    }

    pub fn number(&self) -> (r: u32)
        ensures
            r == vector_mode_number(*self),
    {
        match self {
            VectorMode::Scalar => 0,
            VectorMode::XY => 1,
            VectorMode::XYZ => 2,
            VectorMode::RGB => 3,
            VectorMode::RGBA => 4,
        }
    }
}

/// A hint of a user channel: a name and a value.
#[derive(Debug, Clone, PartialEq)]
pub struct TextHint {
    pub name: NullString,
    pub value: i32,
}

impl View for TextHint {
    type V = (Seq<u8>, i32);

    open spec fn view(&self) -> (Seq<u8>, i32) {
        (self.name@, self.value)
    }
}

pub open spec fn spec_text_hint(s: Seq<u8>, p: int) -> Result<((Seq<u8>, i32), int), ParseError> {
    match spec_aligned_nullstring(s, p) {
        Ok((name, q1)) => match spec_i32(s, q1) {
            Ok((v, q2)) => Ok(((name, v), q2)),
            Err(e) => Err(e),
        },
        Err(e) => Err(e),
    }
}

pub open spec fn text_hint_write(out: Seq<u8>, v: (Seq<u8>, i32)) -> Seq<u8> {
    aligned_nullstring_write(out, v.0) + u32_bytes(i32_bits(v.1))
}

impl TextHint {
    pub fn read_be(buf: &[u8], pos: u64) -> (r: Result<(TextHint, u64), ParseError>)
        requires
            pos_ok(buf@, pos as int),
        ensures
            parsed_as(r, spec_text_hint(buf@, pos as int)),
            ends_ok(r, buf@, pos as int),
    {
        let (name, q1) = read_aligned_nullstring(buf, pos)?;
        let (value, q2) = read_i32(buf, q1)?;
        Ok((TextHint { name, value }, q2))
    }

    pub fn write_be(&self, out: &mut Vec<u8>)
        ensures
            final(out)@ == text_hint_write(old(out)@, self@),
    {
        write_aligned_nullstring(out, &self.name);
        write_i32(out, self.value);
    }
}

/// A user defined channel (`UCHN` sub-chunk).
#[derive(Debug, Clone, PartialEq)]
pub struct UserChannel {
    pub name: NullString,
    pub kind: NullString,
    pub mode: VectorMode,
    pub flag: u32,
    pub default_int: i32,
    /// Default float value, as its bit pattern
    pub default_float: u32,
    pub num_hints: u16,
    pub hints: Vec<TextHint>,
}

pub type UserChannelView = (Seq<u8>, Seq<u8>, VectorMode, u32, i32, u32, u16, Seq<(Seq<u8>, i32)>);

impl View for UserChannel {
    type V = UserChannelView;

    open spec fn view(&self) -> UserChannelView {
        (
            self.name@,
            self.kind@,
            self.mode,
            self.flag,
            self.default_int,
            self.default_float,
            self.num_hints,
            views(self.hints@),
        )
    }
}

/// `n` more text hints in a row, appended to `acc`.
pub open spec fn spec_text_hints(s: Seq<u8>, p: int, n: nat, acc: Seq<(Seq<u8>, i32)>) -> Result<
    (Seq<(Seq<u8>, i32)>, int),
    ParseError,
>
    decreases n,
{
    if n == 0 {
        Ok((acc, p))
    } else {
        match spec_text_hint(s, p) {
            Ok((h, q)) => spec_text_hints(s, q, (n - 1) as nat, acc.push(h)),
            Err(e) => Err(e),
        }
    }
}

/// Name, kind, vector mode, flag, defaults and the hint count, before the hints.
pub open spec fn spec_user_channel_head(s: Seq<u8>, p: int) -> Result<
    ((Seq<u8>, Seq<u8>, VectorMode, u32, i32, u32, u16), int),
    ParseError,
> {
    match spec_aligned_nullstring(s, p) {
        Ok((name, q1)) => match spec_aligned_nullstring(s, q1) {
            Ok((kind, q2)) => match spec_u32(s, q2) {
                Ok((m, q3)) => match vector_mode_from(m) {
                    Some(mode) => match spec_u32(s, q3) {
                        Ok((flag, q4)) => match spec_i32(s, q4) {
                            Ok((di, q5)) => match spec_u32(s, q5) {
                                Ok((df, q6)) => match spec_u16(s, q6) {
                                    Ok((nh, q7)) => Ok(((name, kind, mode, flag, di, df, nh), q7)),
                                    Err(e) => Err(e),
                                },
                                Err(e) => Err(e),
                            },
                            Err(e) => Err(e),
                        },
                        Err(e) => Err(e),
                    },
                    None => Err(ParseError::NoVariantMatch),
                },
                Err(e) => Err(e),
            },
            Err(e) => Err(e),
        },
        Err(e) => Err(e),
    }
}

pub open spec fn spec_user_channel(s: Seq<u8>, p: int) -> Result<(UserChannelView, int), ParseError> {
    match spec_user_channel_head(s, p) {
        Ok((h, q)) => match spec_text_hints(s, q, h.6 as nat, seq![]) {
            Ok((hs, q2)) => Ok(((h.0, h.1, h.2, h.3, h.4, h.5, h.6, hs), q2)),
            Err(e) => Err(e),
        },
        Err(e) => Err(e),
    }
}

pub open spec fn text_hints_write(out: Seq<u8>, hs: Seq<(Seq<u8>, i32)>) -> Seq<u8>
    decreases hs.len(),
{
    if hs.len() == 0 {
        out
    } else {
        text_hint_write(text_hints_write(out, hs.drop_last()), hs.last())
    }
}

pub open spec fn user_channel_write(out: Seq<u8>, v: UserChannelView) -> Seq<u8> {
    text_hints_write(
        two_aligned(out, v.0, v.1) + u32_bytes(vector_mode_number(v.2)) + u32_bytes(v.3)
            + u32_bytes(i32_bits(v.4)) + u32_bytes(v.5) + u16_bytes(v.6),
        v.7,
    )
}

impl UserChannel {
    pub fn read_be(buf: &[u8], pos: u64) -> (r: Result<(UserChannel, u64), ParseError>)
        requires
            pos_ok(buf@, pos as int),
        ensures
            parsed_as(r, spec_user_channel(buf@, pos as int)),
            ends_ok(r, buf@, pos as int),
    {
        let (name, q1) = read_aligned_nullstring(buf, pos)?;
        let (kind, q2) = read_aligned_nullstring(buf, q1)?;
        let (m, q3) = read_u32(buf, q2)?;
        let mode = match VectorMode::from_number(m) {
            Some(v) => v,
            None => {
                return Err(ParseError::NoVariantMatch);
            },
        };
        let (flag, q4) = read_u32(buf, q3)?;
        let (default_int, q5) = read_i32(buf, q4)?;
        let (default_float, q6) = read_u32(buf, q5)?;
        let (num_hints, q7) = read_u16(buf, q6)?;
        let mut hints: Vec<TextHint> = Vec::new();
        let mut i: u16 = 0;
        let mut p = q7;
        assert(views(hints@) =~= Seq::<(Seq<u8>, i32)>::empty());
        while i < num_hints
            invariant
                i <= num_hints,
                pos <= p,
                pos_ok(buf@, p as int),
                spec_user_channel_head(buf@, pos as int) == Ok::<
                    ((Seq<u8>, Seq<u8>, VectorMode, u32, i32, u32, u16), int),
                    ParseError,
                >(((name@, kind@, mode, flag, default_int, default_float, num_hints), q7 as int)),
                spec_text_hints(buf@, p as int, (num_hints - i) as nat, views(hints@))
                    == spec_text_hints(buf@, q7 as int, num_hints as nat, seq![]),
            decreases num_hints - i,
        {
            let (h, q) = TextHint::read_be(buf, p)?;
            proof {
                lemma_views_push(hints@, h);
            }
            hints.push(h);
            p = q;
            i = i + 1;
        }
        Ok((
            UserChannel { name, kind, mode, flag, default_int, default_float, num_hints, hints },
            p,
        ))
    }

    pub fn write_be(&self, out: &mut Vec<u8>)
        ensures
            final(out)@ == user_channel_write(old(out)@, self@),
    {
        write_aligned_nullstring(out, &self.name);
        write_aligned_nullstring(out, &self.kind);
        write_u32(out, self.mode.number());
        write_u32(out, self.flag);
        write_i32(out, self.default_int);
        write_u32(out, self.default_float);
        write_u16(out, self.num_hints);
        let ghost base = out@;
        let mut i: usize = 0;
        assert(views(self.hints@).take(0) =~= Seq::<(Seq<u8>, i32)>::empty());
        while i < self.hints.len()
            invariant
                i <= self.hints@.len(),
                base == two_aligned(old(out)@, self.name@, self.kind@) + u32_bytes(
                    vector_mode_number(self.mode),
                ) + u32_bytes(self.flag) + u32_bytes(i32_bits(self.default_int)) + u32_bytes(
                    self.default_float,
                ) + u16_bytes(self.num_hints),
                out@ == text_hints_write(base, views(self.hints@).take(i as int)),
            decreases self.hints@.len() - i,
        {
            self.hints[i].write_be(out);
            assert(views(self.hints@).take(i + 1).drop_last() =~= views(self.hints@).take(i as int));
            i = i + 1;
        }
        assert(views(self.hints@).take(i as int) =~= views(self.hints@));
    }
}


/// A scene item (`ITEM`).
#[derive(Debug)]
pub struct Item {
    pub kind: NullString,
    pub name: NullString,
    pub id: u32,
    pub reference: Option<Reference>,
    pub package: Option<Package>,
    pub layer: Option<Layer>,
    pub user_channels: Vec<UserChannel>,
    pub channel_links: Vec<ChannelLink>,
    pub links: Vec<Link>,
    pub channels: Vec<Channels>,
    pub tags: Vec<ItemTag>,
    pub ident: Option<NullString>,
    pub index: Option<u32>,
    pub visible_name: Option<NullString>,
    pub bounds: Option<BoundingBox>,
}

/// View of an item.
#[verifier::ext_equal]
pub struct ItemView {
    pub kind: Seq<u8>,
    pub name: Seq<u8>,
    pub id: u32,
    pub reference: Option<(u32, Seq<u8>, Seq<u8>)>,
    pub package: Option<(Seq<u8>, u32, Seq<u8>)>,
    pub layer: Option<(u32, u32, Seq<u8>)>,
    pub user_channels: Seq<UserChannelView>,
    pub channel_links: Seq<ChannelLinkView>,
    pub links: Seq<(Seq<u8>, u32, u32)>,
    pub channels: Seq<ChannelsView>,
    pub tags: Seq<(u32, Seq<u8>)>,
    pub ident: Option<Seq<u8>>,
    pub index: Option<u32>,
    pub visible_name: Option<Seq<u8>>,
    pub bounds: Option<((u32, u32, u32), (u32, u32, u32))>,
}

impl View for Item {
    type V = ItemView;

    open spec fn view(&self) -> ItemView {
        ItemView {
            kind: self.kind@,
            name: self.name@,
            id: self.id,
            reference: view_opt(self.reference),
            package: view_opt(self.package),
            layer: view_opt(self.layer),
            user_channels: views(self.user_channels@),
            channel_links: views(self.channel_links@),
            links: views(self.links@),
            channels: views(self.channels@),
            tags: views(self.tags@),
            ident: view_opt(self.ident),
            index: self.index,
            visible_name: view_opt(self.visible_name),
            bounds: view_opt(self.bounds),
        }
    }
}

/// An item with the given kind, name and id and no sub-chunk content.
pub open spec fn empty_item(kind: Seq<u8>, name: Seq<u8>, id: u32) -> ItemView {
    ItemView {
        kind,
        name,
        id,
        reference: None,
        package: None,
        layer: None,
        user_channels: seq![],
        channel_links: seq![],
        links: seq![],
        channels: seq![],
        tags: seq![],
        ident: None,
        index: None,
        visible_name: None,
        bounds: None,
    }
}

/// Sub-chunk kinds that an item reads.
pub open spec fn is_item_subchunk_kind(k: u32) -> bool {
    k == XREF || k == LAYR || k == PAKG || k == UCHN || k == CLNK || k == LINK || k == GRAD
        || k == CHNL || k == CHNV || k == CHNS || k == CHAN || k == BCHN || k == ITAG || k == UNIQ
        || k == UIDX || k == VNAM || k == BBOX
}

/// One sub-chunk of an item with kind `k` and size `n`, whose body starts at `q`. Single
/// valued sub-chunks replace the earlier value, repeated ones are appended in order; `GRAD`,
/// `CHNL`, `CHNV`, `CHNS`, `CHAN` and `BCHN` all go to the channels. Unknown sub-chunks are
/// skipped by their size.
#[verifier::opaque]
pub open spec fn item_step(s: Seq<u8>, q: int, k: u32, n: u16, acc: ItemView) -> Result<
    (ItemView, int),
    ParseError,
> {
    if k == XREF {
        match spec_item_reference(s, q) {
            Ok((v, q2)) => Ok((ItemView { reference: Some(v), ..acc }, q2)),
            Err(e) => Err(e),
        }
    } else if k == LAYR {
        match spec_item_layer(s, q) {
            Ok((v, q2)) => Ok((ItemView { layer: Some(v), ..acc }, q2)),
            Err(e) => Err(e),
        }
    } else if k == PAKG {
        match spec_package(s, q) {
            Ok((v, q2)) => Ok((ItemView { package: Some(v), ..acc }, q2)),
            Err(e) => Err(e),
        }
    } else if k == UCHN {
        match spec_user_channel(s, q) {
            Ok((v, q2)) => Ok((ItemView { user_channels: acc.user_channels.push(v), ..acc }, q2)),
            Err(e) => Err(e),
        }
    } else if k == CLNK {
        match spec_channel_link(s, q) {
            Ok((v, q2)) => Ok((ItemView { channel_links: acc.channel_links.push(v), ..acc }, q2)),
            Err(e) => Err(e),
        }
    } else if k == LINK {
        match spec_link(s, q) {
            Ok((v, q2)) => Ok((ItemView { links: acc.links.push(v), ..acc }, q2)),
            Err(e) => Err(e),
        }
    } else if k == GRAD {
        match spec_gradient(s, q, n) {
            Ok((v, q2)) => Ok(
                (ItemView { channels: acc.channels.push(ChannelsView::GRAD(v)), ..acc }, q2),
            ),
            Err(e) => Err(e),
        }
    } else if k == CHNL {
        match spec_scalar_channel(s, q) {
            Ok((v, q2)) => Ok(
                (ItemView { channels: acc.channels.push(ChannelsView::CHNL(v)), ..acc }, q2),
            ),
            Err(e) => Err(e),
        }
    } else if k == CHNV {
        match spec_vector_channel(s, q) {
            Ok((v, q2)) => Ok(
                (ItemView { channels: acc.channels.push(ChannelsView::CHNV(v)), ..acc }, q2),
            ),
            Err(e) => Err(e),
        }
    } else if k == CHNS {
        match crate::meta::spec_two_strings(s, q) {
            Ok((v, q2)) => Ok(
                (ItemView { channels: acc.channels.push(ChannelsView::CHNS(v)), ..acc }, q2),
            ),
            Err(e) => Err(e),
        }
    } else if k == CHAN {
        match spec_channel(s, q) {
            Ok((v, q2)) => Ok(
                (ItemView { channels: acc.channels.push(ChannelsView::CHAN(v)), ..acc }, q2),
            ),
            Err(e) => Err(e),
        }
    } else if k == BCHN {
        match crate::meta::spec_parent(s, q) {
            Ok((v, q2)) => Ok(
                (ItemView { channels: acc.channels.push(ChannelsView::BCHN(v)), ..acc }, q2),
            ),
            Err(e) => Err(e),
        }
    } else if k == ITAG {
        match spec_item_tag(s, q) {
            Ok((v, q2)) => Ok((ItemView { tags: acc.tags.push(v), ..acc }, q2)),
            Err(e) => Err(e),
        }
    } else if k == UNIQ {
        match spec_aligned_nullstring(s, q) {
            Ok((v, q2)) => Ok((ItemView { ident: Some(v), ..acc }, q2)),
            Err(e) => Err(e),
        }
    } else if k == UIDX {
        match spec_u32(s, q) {
            Ok((v, q2)) => Ok((ItemView { index: Some(v), ..acc }, q2)),
            Err(e) => Err(e),
        }
    } else if k == VNAM {
        match spec_aligned_nullstring(s, q) {
            Ok((v, q2)) => Ok((ItemView { visible_name: Some(v), ..acc }, q2)),
            Err(e) => Err(e),
        }
    } else if k == BBOX {
        match spec_bounding_box(s, q) {
            Ok((v, q2)) => Ok((ItemView { bounds: Some(v), ..acc }, q2)),
            Err(e) => Err(e),
        }
    } else {
        Ok((acc, q + n))
    }
}

pub proof fn lemma_vector_elements_advance(
    s: Seq<u8>,
    p: int,
    mask: u16,
    n: nat,
    acc: Seq<VectorElementView>,
)
    ensures
        spec_vector_elements(s, p, mask, n, acc) matches Ok((_, q)) ==> p <= q,
    decreases n,
{
    if n > 0 {
        if let Ok((e, q)) = spec_vector_element(s, p, mask) {
            lemma_vector_elements_advance(s, q, mask, (n - 1) as nat, acc.push(e));
        }
    }
}

pub proof fn lemma_text_hints_advance(s: Seq<u8>, p: int, n: nat, acc: Seq<(Seq<u8>, i32)>)
    ensures
        spec_text_hints(s, p, n, acc) matches Ok((_, q)) ==> p <= q,
    decreases n,
{
    if n > 0 {
        if let Ok((h, q)) = spec_text_hint(s, p) {
            lemma_text_hints_advance(s, q, (n - 1) as nat, acc.push(h));
        }
    }
}

/// Reading an item sub-chunk never moves backwards.
pub proof fn lemma_item_step_advances(s: Seq<u8>, q: int, k: u32, n: u16, acc: ItemView)
    ensures
        item_step(s, q, k, n, acc) matches Ok((_, q2)) ==> q <= q2,
{
    reveal(item_step);
    if k == UCHN {
        if let Ok((h, q1)) = spec_user_channel_head(s, q) {
            lemma_text_hints_advance(s, q1, h.6 as nat, seq![]);
        }
        assert(spec_user_channel(s, q) matches Ok((_, q2)) ==> q <= q2);
    } else if k == CHNV {
        if let Ok((name, q1)) = spec_aligned_nullstring(s, q) {
            if let Ok((mask, q2)) = spec_u16(s, q1) {
                if let Ok((dims, q3)) = spec_u16(s, q2) {
                    lemma_vector_elements_advance(s, q3, mask, dims as nat, seq![]);
                }
            }
        }
        assert(spec_vector_channel(s, q) matches Ok((_, q2)) ==> q <= q2);
    } else if k == XREF {
        assert(spec_item_reference(s, q) matches Ok((_, q2)) ==> q <= q2);
    } else if k == LAYR {
        assert(spec_item_layer(s, q) matches Ok((_, q2)) ==> q <= q2);
    } else if k == PAKG {
        assert(spec_package(s, q) matches Ok((_, q2)) ==> q <= q2);
    } else if k == CLNK {
        assert(spec_channel_link(s, q) matches Ok((_, q2)) ==> q <= q2);
    } else if k == LINK {
        assert(spec_link(s, q) matches Ok((_, q2)) ==> q <= q2);
    } else if k == GRAD {
        assert(spec_gradient(s, q, n) matches Ok((_, q2)) ==> q <= q2);
    } else if k == CHNL {
        assert(spec_scalar_channel(s, q) matches Ok((_, q2)) ==> q <= q2);
    } else if k == CHNS {
        assert(crate::meta::spec_two_strings(s, q) matches Ok((_, q2)) ==> q <= q2);
    } else if k == CHAN {
        assert(spec_channel(s, q) matches Ok((_, q2)) ==> q <= q2);
    } else if k == BCHN {
        assert(crate::meta::spec_parent(s, q) matches Ok((_, q2)) ==> q <= q2);
    } else if k == ITAG {
        assert(spec_item_tag(s, q) matches Ok((_, q2)) ==> q <= q2);
    } else if k == BBOX {
        assert(spec_bounding_box(s, q) matches Ok((_, q2)) ==> q <= q2);
    }
}

/// The sub-chunk loop of an item: while fewer than `size` bytes have been read since `start`,
/// one sub-chunk is read.
pub open spec fn item_loop(s: Seq<u8>, start: int, size: int, p: int, acc: ItemView) -> Result<
    (ItemView, int),
    ParseError,
>
    decreases loop_measure(start, size, p),
{
    if p - start < size {
        match spec_subchunk_header(s, p) {
            Ok(((k, n), q)) => match item_step(s, q, k, n, acc) {
                Ok((acc2, q2)) => {
                    proof {
                        lemma_item_step_advances(s, q, k, n, acc);
                    }
                    item_loop(s, start, size, q2, acc2)
                },
                Err(e) => Err(e),
            },
            Err(e) => Err(e),
        }
    } else {
        Ok((acc, p))
    }
}

/// A sub-chunk of a kind that an item does not read is skipped by its size: the item read so
/// far is unchanged, and reading goes on right after the sub-chunk.
pub proof fn law_unknown_item_subchunk_skipped(
    s: Seq<u8>,
    start: int,
    size: int,
    p: int,
    acc: ItemView,
)
    requires
        p - start < size,
        spec_subchunk_header(s, p) is Ok,
        !is_item_subchunk_kind((spec_subchunk_header(s, p)->Ok_0).0.0),
    ensures
        item_loop(s, start, size, p, acc) == item_loop(
            s,
            start,
            size,
            p + 6 + (spec_subchunk_header(s, p)->Ok_0).0.1,
            acc,
        ),
{
    reveal(item_step);
}

/// Grammar of an `ITEM` chunk of `size` bytes: kind, name, id, then the sub-chunk loop, which
/// counts the chunk's size from the chunk start.
pub open spec fn spec_item(s: Seq<u8>, p: int, size: u32) -> Result<(ItemView, int), ParseError> {
    match spec_aligned_nullstring(s, p) {
        Ok((kind, q1)) => match spec_aligned_nullstring(s, q1) {
            Ok((name, q2)) => match spec_u32(s, q2) {
                Ok((id, q3)) => item_loop(s, p, size as int, q3, empty_item(kind, name, id)),
                Err(e) => Err(e),
            },
            Err(e) => Err(e),
        },
        Err(e) => Err(e),
    }
}

/// Reads the body of one item sub-chunk into `item`.
fn read_item_subchunk(buf: &[u8], q: u64, h: SubChunkHeader, item: &mut Item) -> (r: Result<
    u64,
    ParseError,
>)
    requires
        pos_ok(buf@, q as int),
        q <= buf@.len(),
    ensures
        match r {
            Ok(q2) => item_step(buf@, q as int, h.kind@, h.size, old(item)@) == Ok::<
                (ItemView, int),
                ParseError,
            >((final(item)@, q2 as int)),
            Err(e) => item_step(buf@, q as int, h.kind@, h.size, old(item)@) == Err::<
                (ItemView, int),
                ParseError,
            >(e),
        },
        r matches Ok(q2) ==> pos_ok(buf@, q2 as int),
{
    reveal(item_step);
    let k = h.kind.code();
    if k == XREF {
        let (v, q2) = Reference::read_be(buf, q)?;
        item.reference = Some(v);
        Ok(q2)
    } else if k == LAYR {
        let (v, q2) = Layer::read_be(buf, q)?;
        item.layer = Some(v);
        Ok(q2)
    } else if k == PAKG {
        let (v, q2) = Package::read_be(buf, q)?;
        item.package = Some(v);
        Ok(q2)
    } else if k == UCHN {
        let (v, q2) = UserChannel::read_be(buf, q)?;
        proof {
            lemma_views_push(item.user_channels@, v);
        }
        item.user_channels.push(v);
        Ok(q2)
    } else if k == CLNK {
        let (v, q2) = ChannelLink::read_be(buf, q)?;
        proof {
            lemma_views_push(item.channel_links@, v);
        }
        item.channel_links.push(v);
        Ok(q2)
    } else if k == LINK {
        let (v, q2) = Link::read_be(buf, q)?;
        proof {
            lemma_views_push(item.links@, v);
        }
        item.links.push(v);
        Ok(q2)
    } else if k == GRAD || k == CHNL || k == CHNV || k == CHNS || k == CHAN || k == BCHN {
        let (c, q2) = if k == GRAD {
            let (v, q2) = Gradient::read_be(buf, q, h.size)?;
            (Channels::GRAD(v), q2)
        } else if k == CHNL {
            let (v, q2) = ScalarChannel::read_be(buf, q)?;
            (Channels::CHNL(v), q2)
        } else if k == CHNV {
            let (v, q2) = VectorChannel::read_be(buf, q)?;
            (Channels::CHNV(v), q2)
        } else if k == CHNS {
            let (v, q2) = StringChannel::read_be(buf, q)?;
            (Channels::CHNS(v), q2)
        } else if k == CHAN {
            let (v, q2) = Channel::read_be(buf, q)?;
            (Channels::CHAN(v), q2)
        } else {
            let (v, q2) = BlockChannel::read_be(buf, q)?;
            (Channels::BCHN(v), q2)
        };
        proof {
            lemma_views_push(item.channels@, c);
        }
        item.channels.push(c);
        Ok(q2)
    } else if k == ITAG {
        let (v, q2) = ItemTag::read_be(buf, q)?;
        proof {
            lemma_views_push(item.tags@, v);
        }
        item.tags.push(v);
        Ok(q2)
    } else if k == UNIQ {
        let (v, q2) = read_aligned_nullstring(buf, q)?;
        item.ident = Some(v);
        Ok(q2)
    } else if k == UIDX {
        let (v, q2) = read_u32(buf, q)?;
        item.index = Some(v);
        Ok(q2)
    } else if k == VNAM {
        let (v, q2) = read_aligned_nullstring(buf, q)?;
        item.visible_name = Some(v);
        Ok(q2)
    } else if k == BBOX {
        let (v, q2) = BoundingBox::read_be(buf, q)?;
        item.bounds = Some(v);
        Ok(q2)
    } else {
        Ok(q + h.size as u64)
    }
}

impl Item {
    pub fn read_be(buf: &[u8], pos: u64, size: u32) -> (r: Result<(Item, u64), ParseError>)
        requires
            pos_ok(buf@, pos as int),
        ensures
            parsed_as(r, spec_item(buf@, pos as int, size)),
            ends_ok(r, buf@, pos as int),
    {
        let start = pos;
        let (kind, q1) = read_aligned_nullstring(buf, pos)?;
        let (name, q2) = read_aligned_nullstring(buf, q1)?;
        let (id, q3) = read_u32(buf, q2)?;
        let mut item = Item {
            kind,
            name,
            id,
            reference: None,
            package: None,
            layer: None,
            user_channels: Vec::new(),
            channel_links: Vec::new(),
            links: Vec::new(),
            channels: Vec::new(),
            tags: Vec::new(),
            ident: None,
            index: None,
            visible_name: None,
            bounds: None,
        };
        assert(item@ =~= empty_item(item.kind@, item.name@, id));
        let ghost init = item@;
        let mut p = q3;
        while p - start < size as u64
            invariant
                start <= p,
                start == pos,
                pos_ok(buf@, p as int),
                spec_item(buf@, pos as int, size) == item_loop(
                    buf@,
                    pos as int,
                    size as int,
                    q3 as int,
                    init,
                ),
                item_loop(buf@, start as int, size as int, p as int, item@) == item_loop(
                    buf@,
                    start as int,
                    size as int,
                    q3 as int,
                    init,
                ),
            decreases loop_measure(start as int, size as int, p as int),
        {
            let (h, q) = SubChunkHeader::read_be(buf, p)?;
            proof {
                lemma_item_step_advances(buf@, q as int, h.kind@, h.size, item@);
            }
            p = read_item_subchunk(buf, q, h, &mut item)?;
        }
        Ok((item, p))
    }
}


/// A sub-chunk of an item as it is written: kind, the data length (a 16 bit field, see
/// `body_fits`), data.
pub open spec fn raw_subchunk(kind: u32, data: Seq<u8>) -> Seq<u8> {
    u32_bytes(kind) + u16_bytes(data.len() as u16) + data
}

/// Whether an encoded sub-chunk body has a length that the 16 bit length field can state.
pub open spec fn body_fits(data: Seq<u8>) -> bool {
    data.len() <= 0xffff
}

/// `new` is `old` followed by zero or more bytes.
pub open spec fn extends(old: Seq<u8>, new: Seq<u8>) -> bool {
    old.len() <= new.len() && new.subrange(0, old.len() as int) == old
}

proof fn lemma_extends_trans(a: Seq<u8>, b: Seq<u8>, c: Seq<u8>)
    requires
        extends(a, b),
        extends(b, c),
    ensures
        extends(a, c),
{
    assert(c.subrange(0, a.len() as int) =~= c.subrange(0, b.len() as int).subrange(0, a.len() as int));
}

/// A channel list with a channel that cannot be written does not fit.
proof fn lemma_channel_list_not_fit(xs: Seq<ChannelsView>, i: int)
    requires
        0 <= i < xs.len(),
        !channel_entry_fits(xs[i]),
    ensures
        !channel_list_fits(xs),
{
}

proof fn lemma_extends_more(a: Seq<u8>, b: Seq<u8>, x: Seq<u8>)
    requires
        extends(a, b),
    ensures
        extends(a, b + x),
{
    assert((b + x).subrange(0, b.len() as int) =~= b);
    lemma_extends_trans(a, b, b + x);
}

pub open spec fn user_channels_bytes(xs: Seq<UserChannelView>) -> Seq<u8>
    decreases xs.len(),
{
    if xs.len() == 0 {
        Seq::empty()
    } else {
        user_channels_bytes(xs.drop_last()) + raw_subchunk(
            UCHN,
            user_channel_write(Seq::empty(), xs.last()),
        )
    }
}

pub open spec fn channel_links_bytes(xs: Seq<ChannelLinkView>) -> Seq<u8>
    decreases xs.len(),
{
    if xs.len() == 0 {
        Seq::empty()
    } else {
        channel_links_bytes(xs.drop_last()) + raw_subchunk(
            CLNK,
            channel_link_write(Seq::empty(), xs.last()),
        )
    }
}

pub open spec fn links_bytes(xs: Seq<(Seq<u8>, u32, u32)>) -> Seq<u8>
    decreases xs.len(),
{
    if xs.len() == 0 {
        Seq::empty()
    } else {
        links_bytes(xs.drop_last()) + raw_subchunk(LINK, link_write(Seq::empty(), xs.last()))
    }
}

pub open spec fn channels_bytes(xs: Seq<ChannelsView>) -> Seq<u8>
    decreases xs.len(),
{
    if xs.len() == 0 {
        Seq::empty()
    } else {
        channels_bytes(xs.drop_last()) + raw_subchunk(
            channels_kind(xs.last()),
            channels_write(Seq::empty(), xs.last()),
        )
    }
}

pub open spec fn item_tag_write(out: Seq<u8>, v: (u32, Seq<u8>)) -> Seq<u8> {
    aligned_nullstring_write(out + u32_bytes(v.0), v.1)
}

pub open spec fn tags_bytes(xs: Seq<(u32, Seq<u8>)>) -> Seq<u8>
    decreases xs.len(),
{
    if xs.len() == 0 {
        Seq::empty()
    } else {
        tags_bytes(xs.drop_last()) + raw_subchunk(ITAG, item_tag_write(Seq::empty(), xs.last()))
    }
}

pub open spec fn item_head_write(out: Seq<u8>, v: ItemView) -> Seq<u8> {
    aligned_nullstring_write(aligned_nullstring_write(out, v.kind), v.name) + u32_bytes(v.id)
}

pub open spec fn item_leading_write(out: Seq<u8>, v: ItemView) -> Seq<u8> {
    out + (match v.reference {
        Some(r) => raw_subchunk(XREF, item_reference_write(Seq::empty(), r)),
        None => Seq::empty(),
    }) + (match v.layer {
        Some(l) => u32_bytes(LAYR) + u16_bytes(12) + item_layer_bytes(l),
        None => Seq::empty(),
    }) + (match v.package {
        Some(pk) => raw_subchunk(PAKG, package_write(Seq::empty(), pk)),
        None => Seq::empty(),
    })
}

pub open spec fn item_lists_write(out: Seq<u8>, v: ItemView) -> Seq<u8> {
    out + user_channels_bytes(v.user_channels) + channel_links_bytes(v.channel_links)
        + links_bytes(v.links) + channels_bytes(v.channels) + tags_bytes(v.tags)
}

pub open spec fn item_trailing_write(out: Seq<u8>, v: ItemView) -> Seq<u8> {
    out + (match v.ident {
        Some(i) => raw_subchunk(UNIQ, aligned_nullstring_write(Seq::empty(), i)),
        None => Seq::empty(),
    }) + (match v.index {
        Some(i) => u32_bytes(UIDX) + u16_bytes(4) + u32_bytes(i),
        None => Seq::empty(),
    }) + (match v.visible_name {
        Some(n) => raw_subchunk(VNAM, aligned_nullstring_write(Seq::empty(), n)),
        None => Seq::empty(),
    }) + (match v.bounds {
        Some(b) => u32_bytes(BBOX) + u16_bytes(24) + bounding_box_bytes(b),
        None => Seq::empty(),
    })
}

/// Output after writing an item: kind, name and id, then its sub-chunks in a fixed order
/// (reference, layer, package, user channels, channel links, links, channels, tags, unique
/// identifier, index, visible name, bounds). Each sub-chunk's body is encoded on its own, so
/// its strings are aligned relative to the body start.
pub open spec fn item_write(out: Seq<u8>, v: ItemView) -> Seq<u8> {
    item_trailing_write(item_lists_write(item_leading_write(item_head_write(out, v), v), v), v)
}

/// Whether each user channel's encoded body fits its sub-chunk (see `body_fits`).
pub open spec fn user_channels_fit(xs: Seq<UserChannelView>) -> bool {
    forall|j: int| 0 <= j < xs.len() ==> body_fits(#[trigger] user_channel_write(Seq::empty(), xs[j]))
}

/// Whether each channel link's encoded body fits its sub-chunk.
pub open spec fn channel_links_fit(xs: Seq<ChannelLinkView>) -> bool {
    forall|j: int| 0 <= j < xs.len() ==> body_fits(#[trigger] channel_link_write(Seq::empty(), xs[j]))
}

/// Whether each link's encoded body fits its sub-chunk.
pub open spec fn links_fit(xs: Seq<(Seq<u8>, u32, u32)>) -> bool {
    forall|j: int| 0 <= j < xs.len() ==> body_fits(#[trigger] link_write(Seq::empty(), xs[j]))
}

/// Whether a channel's values can be written and its encoded body fits its sub-chunk.
pub open spec fn channel_entry_fits(c: ChannelsView) -> bool {
    channels_fit(c) && body_fits(channels_write(Seq::empty(), c))
}

/// Whether each channel of a list can be written (see `channel_entry_fits`).
pub open spec fn channel_list_fits(xs: Seq<ChannelsView>) -> bool {
    forall|j: int| 0 <= j < xs.len() ==> #[trigger] channel_entry_fits(xs[j])
}

/// Whether each tag's encoded body fits its sub-chunk.
pub open spec fn tags_fit(xs: Seq<(u32, Seq<u8>)>) -> bool {
    forall|j: int| 0 <= j < xs.len() ==> body_fits(#[trigger] item_tag_write(Seq::empty(), xs[j]))
}

/// Whether the reference and package bodies of an item fit their sub-chunks.
pub open spec fn leading_fits(v: ItemView) -> bool {
    &&& (v.reference matches Some(x) ==> body_fits(item_reference_write(Seq::empty(), x)))
    &&& (v.package matches Some(x) ==> body_fits(package_write(Seq::empty(), x)))
}

/// Whether the identifier and visible name bodies of an item fit their sub-chunks.
pub open spec fn trailing_fits(v: ItemView) -> bool {
    &&& (v.ident matches Some(x) ==> body_fits(aligned_nullstring_write(Seq::empty(), x)))
    &&& (v.visible_name matches Some(x) ==> body_fits(aligned_nullstring_write(Seq::empty(), x)))
}

/// Whether every part of an item can be written: each sub-chunk body fits its 16 bit length
/// field (see `body_fits`), and each channel's values can be written (see `channels_fit`).
pub open spec fn item_fits(v: ItemView) -> bool {
    &&& leading_fits(v)
    &&& user_channels_fit(v.user_channels)
    &&& channel_links_fit(v.channel_links)
    &&& links_fit(v.links)
    &&& channel_list_fits(v.channels)
    &&& tags_fit(v.tags)
    &&& trailing_fits(v)
}

/// The result of writing part of an item: `Ok` exactly when the part `fits`, then `new` is
/// `old` followed by `bytes`; otherwise `LengthOverflow`, with `new` extending `old`.
pub open spec fn part_written(
    r: Result<(), ParseError>,
    fits: bool,
    old: Seq<u8>,
    new: Seq<u8>,
    bytes: Seq<u8>,
) -> bool {
    &&& (r is Ok <==> fits)
    &&& r is Ok ==> new == old + bytes
    &&& r is Err ==> r == Err::<(), ParseError>(ParseError::LengthOverflow) && extends(old, new)
}

fn write_raw_subchunk(out: &mut Vec<u8>, kind: u32, data: &Vec<u8>) -> (r: Result<(), ParseError>)
    ensures
        part_written(r, body_fits(data@), old(out)@, final(out)@, raw_subchunk(kind, data@)),
{
    if data.len() > 0xffff {
        assert(out@.subrange(0, out@.len() as int) =~= out@);
        return Err(ParseError::LengthOverflow);
    }
    write_u32(out, kind);
    write_u16(out, data.len() as u16);
    write_bytes(out, data.as_slice());
    assert(out@ =~= old(out)@ + raw_subchunk(kind, data@));
    Ok(())
}

impl Item {
    #[verifier::spinoff_prover]
    #[verifier::rlimit(40)]
    fn write_user_channels(&self, out: &mut Vec<u8>) -> (r: Result<(), ParseError>)
        ensures
            part_written(
                r,
                user_channels_fit(views(self.user_channels@)),
                old(out)@,
                final(out)@,
                user_channels_bytes(views(self.user_channels@)),
            ),
    {
        let ghost base = out@;
        let mut i: usize = 0;
        assert(views(self.user_channels@).take(0) =~= Seq::<UserChannelView>::empty());
        assert(out@ =~= base + user_channels_bytes(views(self.user_channels@).take(0)));
        while i < self.user_channels.len()
            invariant
                i <= self.user_channels@.len(),
                out@ == base + user_channels_bytes(views(self.user_channels@).take(i as int)),
                base == old(out)@,
                forall|j: int|
                    0 <= j < i ==> body_fits(
                        #[trigger] user_channel_write(Seq::empty(), views(self.user_channels@)[j]),
                    ),
            decreases self.user_channels@.len() - i,
        {
            let mut data: Vec<u8> = Vec::new();
            self.user_channels[i].write_be(&mut data);
            assert(views(self.user_channels@)[i as int] == self.user_channels@[i as int]@);
            let ghost before = out@;
            let w = write_raw_subchunk(out, UCHN, &data);
            if w.is_err() {
                proof {
                    assert(before.subrange(0, base.len() as int) =~= base);
                    lemma_extends_trans(base, before, out@);
                }
                return w;
            }
            assert(views(self.user_channels@).take(i + 1).drop_last() =~= views(self.user_channels@).take(
                i as int,
            ));
            i = i + 1;
            assert(out@ =~= base + user_channels_bytes(views(self.user_channels@).take(i as int)));
        }
        assert(views(self.user_channels@).take(i as int) =~= views(self.user_channels@));
        Ok(())
    }

    #[verifier::spinoff_prover]
    #[verifier::rlimit(40)]
    fn write_channel_links(&self, out: &mut Vec<u8>) -> (r: Result<(), ParseError>)
        ensures
            part_written(
                r,
                channel_links_fit(views(self.channel_links@)),
                old(out)@,
                final(out)@,
                channel_links_bytes(views(self.channel_links@)),
            ),
    {
        let ghost base = out@;
        let mut i: usize = 0;
        assert(views(self.channel_links@).take(0) =~= Seq::<ChannelLinkView>::empty());
        assert(out@ =~= base + channel_links_bytes(views(self.channel_links@).take(0)));
        while i < self.channel_links.len()
            invariant
                i <= self.channel_links@.len(),
                out@ == base + channel_links_bytes(views(self.channel_links@).take(i as int)),
                base == old(out)@,
                forall|j: int|
                    0 <= j < i ==> body_fits(
                        #[trigger] channel_link_write(Seq::empty(), views(self.channel_links@)[j]),
                    ),
            decreases self.channel_links@.len() - i,
        {
            let mut data: Vec<u8> = Vec::new();
            self.channel_links[i].write_be(&mut data);
            assert(views(self.channel_links@)[i as int] == self.channel_links@[i as int]@);
            let ghost before = out@;
            let w = write_raw_subchunk(out, CLNK, &data);
            if w.is_err() {
                proof {
                    assert(before.subrange(0, base.len() as int) =~= base);
                    lemma_extends_trans(base, before, out@);
                }
                return w;
            }
            assert(views(self.channel_links@).take(i + 1).drop_last() =~= views(self.channel_links@).take(
                i as int,
            ));
            i = i + 1;
            assert(out@ =~= base + channel_links_bytes(views(self.channel_links@).take(i as int)));
        }
        assert(views(self.channel_links@).take(i as int) =~= views(self.channel_links@));
        Ok(())
    }

    #[verifier::spinoff_prover]
    #[verifier::rlimit(40)]
    fn write_links(&self, out: &mut Vec<u8>) -> (r: Result<(), ParseError>)
        ensures
            part_written(
                r,
                links_fit(views(self.links@)),
                old(out)@,
                final(out)@,
                links_bytes(views(self.links@)),
            ),
    {
        let ghost base = out@;
        let mut i: usize = 0;
        assert(views(self.links@).take(0) =~= Seq::<(Seq<u8>, u32, u32)>::empty());
        assert(out@ =~= base + links_bytes(views(self.links@).take(0)));
        while i < self.links.len()
            invariant
                i <= self.links@.len(),
                out@ == base + links_bytes(views(self.links@).take(i as int)),
                base == old(out)@,
                forall|j: int|
                    0 <= j < i ==> body_fits(
                        #[trigger] link_write(Seq::empty(), views(self.links@)[j]),
                    ),
            decreases self.links@.len() - i,
        {
            let mut data: Vec<u8> = Vec::new();
            self.links[i].write_be(&mut data);
            assert(views(self.links@)[i as int] == self.links@[i as int]@);
            let ghost before = out@;
            let w = write_raw_subchunk(out, LINK, &data);
            if w.is_err() {
                proof {
                    assert(before.subrange(0, base.len() as int) =~= base);
                    lemma_extends_trans(base, before, out@);
                }
                return w;
            }
            assert(views(self.links@).take(i + 1).drop_last() =~= views(self.links@).take(
                i as int,
            ));
            i = i + 1;
            assert(out@ =~= base + links_bytes(views(self.links@).take(i as int)));
        }
        assert(views(self.links@).take(i as int) =~= views(self.links@));
        Ok(())
    }

    #[verifier::spinoff_prover]
    #[verifier::rlimit(80)]
    fn write_tags(&self, out: &mut Vec<u8>) -> (r: Result<(), ParseError>)
        ensures
            part_written(
                r,
                tags_fit(views(self.tags@)),
                old(out)@,
                final(out)@,
                tags_bytes(views(self.tags@)),
            ),
    {
        let ghost base = out@;
        let mut i: usize = 0;
        assert(views(self.tags@).take(0) =~= Seq::<(u32, Seq<u8>)>::empty());
        assert(out@ =~= base + tags_bytes(views(self.tags@).take(0)));
        while i < self.tags.len()
            invariant
                i <= self.tags@.len(),
                out@ == base + tags_bytes(views(self.tags@).take(i as int)),
                base == old(out)@,
                forall|j: int|
                    0 <= j < i ==> body_fits(
                        #[trigger] item_tag_write(Seq::empty(), views(self.tags@)[j]),
                    ),
            decreases self.tags@.len() - i,
        {
            let mut data: Vec<u8> = Vec::new();
            proof {
                ID4::lemma_bytes_of_code(self.tags@[i as int].kind);
            }
            self.tags[i].write_be(&mut data);
            assert(views(self.tags@)[i as int] == self.tags@[i as int]@);
            assert(data@ == item_tag_write(Seq::empty(), views(self.tags@)[i as int]));
            let ghost before = out@;
            let w = write_raw_subchunk(out, ITAG, &data);
            if w.is_err() {
                proof {
                    assert(before.subrange(0, base.len() as int) =~= base);
                    lemma_extends_trans(base, before, out@);
                }
                return w;
            }
            assert(views(self.tags@).take(i + 1).drop_last() =~= views(self.tags@).take(
                i as int,
            ));
            i = i + 1;
            assert(out@ =~= base + tags_bytes(views(self.tags@).take(i as int)));
        }
        assert(views(self.tags@).take(i as int) =~= views(self.tags@));
        Ok(())
    }

    #[verifier::spinoff_prover]
    #[verifier::rlimit(40)]
    fn write_channels(&self, out: &mut Vec<u8>) -> (r: Result<(), ParseError>)
        ensures
            part_written(
                r,
                channel_list_fits(views(self.channels@)),
                old(out)@,
                final(out)@,
                channels_bytes(views(self.channels@)),
            ),
    {
        let ghost base = out@;
        let mut i: usize = 0;
        assert(views(self.channels@).take(0) =~= Seq::<ChannelsView>::empty());
        assert(out@ =~= base + channels_bytes(views(self.channels@).take(0)));
        while i < self.channels.len()
            invariant
                i <= self.channels@.len(),
                out@ == base + channels_bytes(views(self.channels@).take(i as int)),
                base == old(out)@,
                forall|j: int| 0 <= j < i ==> #[trigger] channel_entry_fits(views(self.channels@)[j]),
            decreases self.channels@.len() - i,
        {
            let mut data: Vec<u8> = Vec::new();
            let c = self.channels[i].write_be(&mut data);
            assert(views(self.channels@)[i as int] == self.channels@[i as int]@);
            if c.is_err() {
                proof {
                    lemma_channel_list_not_fit(views(self.channels@), i as int);
                    assert(out@.subrange(0, base.len() as int) =~= base);
                }
                return c;
            }
            let kind = self.channels[i].subchunk_kind();
            let ghost before = out@;
            let w = write_raw_subchunk(out, kind.code(), &data);
            if w.is_err() {
                proof {
                    assert(before.subrange(0, base.len() as int) =~= base);
                    lemma_extends_trans(base, before, out@);
                    lemma_channel_list_not_fit(views(self.channels@), i as int);
                }
                return w;
            }
            assert(channel_entry_fits(views(self.channels@)[i as int]));
            assert(views(self.channels@).take(i + 1).drop_last() =~= views(self.channels@).take(
                i as int,
            ));
            i = i + 1;
            assert(out@ =~= base + channels_bytes(views(self.channels@).take(i as int)));
        }
        assert(views(self.channels@).take(i as int) =~= views(self.channels@));
        Ok(())
    }

    fn write_leading(&self, out: &mut Vec<u8>) -> (r: Result<(), ParseError>)
        ensures
            part_written(
                r,
                leading_fits(self@),
                old(out)@,
                final(out)@,
                item_leading_write(Seq::empty(), self@),
            ),
    {
        let ghost v = self@;
        let ghost o1 = out@;
        if let Some(reference) = &self.reference {
            let mut data: Vec<u8> = Vec::new();
            reference.write_be(&mut data);
            let w = write_raw_subchunk(out, XREF, &data);
            if w.is_err() {
                return w;
            }
        } else {
            assert(out@ =~= o1 + Seq::<u8>::empty());
        }
        let ghost o2 = out@;
        if let Some(layer) = &self.layer {
            write_u32(out, LAYR);
            write_u16(out, 12);
            layer.write_be(out);
            assert(out@ =~= o2 + (u32_bytes(LAYR) + u16_bytes(12) + item_layer_bytes(layer@)));
        } else {
            assert(out@ =~= o2 + Seq::<u8>::empty());
        }
        let ghost o3 = out@;
        if let Some(package) = &self.package {
            let mut data: Vec<u8> = Vec::new();
            package.write_be(&mut data);
            let w = write_raw_subchunk(out, PAKG, &data);
            if w.is_err() {
                proof {
                    assert(o3.subrange(0, o1.len() as int) =~= o1);
                    lemma_extends_trans(o1, o3, out@);
                }
                return w;
            }
        } else {
            assert(out@ =~= o3 + Seq::<u8>::empty());
        }
        assert(out@ =~= o1 + item_leading_write(Seq::empty(), v));
        Ok(())
    }

    fn write_trailing(&self, out: &mut Vec<u8>) -> (r: Result<(), ParseError>)
        ensures
            part_written(
                r,
                trailing_fits(self@),
                old(out)@,
                final(out)@,
                item_trailing_write(Seq::empty(), self@),
            ),
    {
        let ghost v = self@;
        let ghost o5 = out@;
        if let Some(ident) = &self.ident {
            let mut data: Vec<u8> = Vec::new();
            write_aligned_nullstring(&mut data, ident);
            let w = write_raw_subchunk(out, UNIQ, &data);
            if w.is_err() {
                return w;
            }
        } else {
            assert(out@ =~= o5 + Seq::<u8>::empty());
        }
        let ghost o6 = out@;
        if let Some(index) = self.index {
            write_u32(out, UIDX);
            write_u16(out, 4);
            write_u32(out, index);
            assert(out@ =~= o6 + (u32_bytes(UIDX) + u16_bytes(4) + u32_bytes(index)));
        } else {
            assert(out@ =~= o6 + Seq::<u8>::empty());
        }
        let ghost o7 = out@;
        if let Some(visible_name) = &self.visible_name {
            let mut data: Vec<u8> = Vec::new();
            write_aligned_nullstring(&mut data, visible_name);
            let w = write_raw_subchunk(out, VNAM, &data);
            if w.is_err() {
                proof {
                    assert(o7.subrange(0, o5.len() as int) =~= o5);
                    lemma_extends_trans(o5, o7, out@);
                }
                return w;
            }
        } else {
            assert(out@ =~= o7 + Seq::<u8>::empty());
        }
        let ghost o8 = out@;
        if let Some(bounds) = &self.bounds {
            write_u32(out, BBOX);
            write_u16(out, 24);
            bounds.write_be(out);
            assert(out@ =~= o8 + (u32_bytes(BBOX) + u16_bytes(24) + bounding_box_bytes(bounds@)));
        } else {
            assert(out@ =~= o8 + Seq::<u8>::empty());
        }
        assert(out@ =~= o5 + item_trailing_write(Seq::empty(), v));
        Ok(())
    }

    /// Writes everything after kind, name and id, stopping at the first part that cannot be
    /// written.
    #[verifier::spinoff_prover]
    #[verifier::rlimit(40)]
    fn write_parts(&self, out: &mut Vec<u8>) -> (r: Result<(), ParseError>)
        ensures
            part_written(
                r,
                item_fits(self@),
                old(out)@,
                final(out)@,
                item_trailing_write(
                    item_lists_write(item_leading_write(Seq::empty(), self@), self@),
                    self@,
                ),
            ),
    {
        let ghost v = self@;
        let ghost o0 = out@;
        assert(o0.subrange(0, o0.len() as int) =~= o0);
        let r = self.write_leading(out);
        if r.is_err() {
            return r;
        }
        let ghost o1 = out@;
        proof { lemma_extends_more(o0, o0, item_leading_write(Seq::empty(), v)); }
        let r = self.write_user_channels(out);
        if r.is_err() {
            proof { lemma_extends_trans(o0, o1, out@); }
            return r;
        }
        let ghost o2 = out@;
        proof { lemma_extends_more(o0, o1, user_channels_bytes(v.user_channels)); }
        let r = self.write_channel_links(out);
        if r.is_err() {
            proof { lemma_extends_trans(o0, o2, out@); }
            return r;
        }
        let ghost o3 = out@;
        proof { lemma_extends_more(o0, o2, channel_links_bytes(v.channel_links)); }
        let r = self.write_links(out);
        if r.is_err() {
            proof { lemma_extends_trans(o0, o3, out@); }
            return r;
        }
        let ghost o4 = out@;
        proof { lemma_extends_more(o0, o3, links_bytes(v.links)); }
        let r = self.write_channels(out);
        if r.is_err() {
            proof { lemma_extends_trans(o0, o4, out@); }
            return r;
        }
        let ghost o5 = out@;
        proof { lemma_extends_more(o0, o4, channels_bytes(v.channels)); }
        let r = self.write_tags(out);
        if r.is_err() {
            proof { lemma_extends_trans(o0, o5, out@); }
            return r;
        }
        let ghost o6 = out@;
        proof { lemma_extends_more(o0, o5, tags_bytes(v.tags)); }
        let r = self.write_trailing(out);
        if r.is_err() {
            proof { lemma_extends_trans(o0, o6, out@); }
            return r;
        }
        assert(out@ =~= o0 + item_trailing_write(
            item_lists_write(item_leading_write(Seq::empty(), v), v),
            v,
        ));
        Ok(())
    }

    /// Writes the item and its sub-chunks. When a part cannot be written (see `item_fits`)
    /// the item is refused with `LengthOverflow` and nothing is written.
    pub fn write_be(&self, out: &mut Vec<u8>) -> (r: Result<(), ParseError>)
        ensures
            r is Ok <==> item_fits(self@),
            r is Ok ==> final(out)@ == item_write(old(out)@, self@),
            r is Err ==> r == Err::<(), ParseError>(ParseError::LengthOverflow) && final(out)@
                == old(out)@,
    {
        let n0 = out.len();
        write_aligned_nullstring(out, &self.kind);
        write_aligned_nullstring(out, &self.name);
        write_u32(out, self.id);
        let ghost h = out@;
        let r = self.write_parts(out);
        if r.is_err() {
            proof {
                assert(h.subrange(0, n0 as int) =~= old(out)@);
                lemma_extends_trans(old(out)@, h, out@);
            }
            out.truncate(n0);
            return r;
        }
        proof {
            lemma_item_write_split(old(out)@, self@);
        }
        Ok(())
    }
}

proof fn lemma_leading_shift(h: Seq<u8>, v: ItemView)
    ensures
        item_leading_write(h, v) == h + item_leading_write(Seq::empty(), v),
{
    assert(item_leading_write(h, v) =~= h + item_leading_write(Seq::empty(), v));
}

proof fn lemma_lists_shift(h: Seq<u8>, x: Seq<u8>, v: ItemView)
    ensures
        item_lists_write(h + x, v) == h + item_lists_write(x, v),
{
    assert(item_lists_write(h + x, v) =~= h + item_lists_write(x, v));
}

proof fn lemma_trailing_shift(h: Seq<u8>, x: Seq<u8>, v: ItemView)
    ensures
        item_trailing_write(h + x, v) == h + item_trailing_write(x, v),
{
    assert(item_trailing_write(h + x, v) =~= h + item_trailing_write(x, v));
}

/// Writing an item is writing its kind, name and id, then its parts on their own.
proof fn lemma_item_write_split(out: Seq<u8>, v: ItemView)
    ensures
        item_write(out, v) == item_head_write(out, v) + item_trailing_write(
            item_lists_write(item_leading_write(Seq::empty(), v), v),
            v,
        ),
{
    let h = item_head_write(out, v);
    let l = item_leading_write(Seq::empty(), v);
    lemma_leading_shift(h, v);
    lemma_lists_shift(h, l, v);
    let m = item_lists_write(l, v);
    lemma_trailing_shift(h, m, v);
}

} // verus!
