//! Layer geometry: `LAYR`, `PNTS`, `BBOX`, `VMPA`, `VMAP`, `VMED`, `VMAD`, `POLS`, `PTAG`.

use crate::meta::loop_measure;
use crate::primitives::{
    be_u16, be_u32, ends_ok, lemma_nullstring_advances, lemma_views_push, parsed_as, pos_ok,
    read_bytes, read_i32, read_u16, read_u32, read_u32_array, spec_bytes, spec_i32, spec_id4,
    spec_u16, spec_u32, spec_u32_array, spec_vx, u16_bytes, u32_bytes, view_opt,
    views, vx_bytes, write_bytes, write_u16, write_u32, NullString, Point, ID4, VX, point_bytes,
    i32_bits, write_i32,
    nullstring_bytes, u32_seq_bytes, write_u32_seq, write_nullstring, MAX_INPUT,
};
use crate::utils::{read_aligned_nullstring, spec_aligned_nullstring, write_aligned_nullstring, aligned_nullstring_write};
use crate::tags::{BCRV, BSPL, HCRV, LINE};
use crate::ParseError;
use std::collections::BTreeMap;
use vstd::prelude::*;

verus! {

broadcast use lemma_nullstring_advances;

/// Flags of a geometry layer.
#[derive(Debug, Clone, Copy, PartialEq, Eq, Structural)]
pub struct LayerFlag {
    pub bits: u16,
}

#[allow(non_snake_case)]
impl LayerFlag {
    pub fn Visible() -> (r: Self)
        ensures
            r.bits == 0x0001,
    {
        LayerFlag { bits: 0x0001 }
    }

    pub fn Hidden() -> (r: Self)
        ensures
            r.bits == 0x0002,
    {
        LayerFlag { bits: 0x0002 }
    }

    pub fn Foreground() -> (r: Self)
        ensures
            r.bits == 0x0004,
    {
        LayerFlag { bits: 0x0004 }
    }

    pub fn Background() -> (r: Self)
        ensures
            r.bits == 0x0008,
    {
        LayerFlag { bits: 0x0008 }
    }

    pub fn Boundingbox() -> (r: Self)
        ensures
            r.bits == 0x0010,
    {
        LayerFlag { bits: 0x0010 }
    }

    pub fn LinearUv() -> (r: Self)
        ensures
            r.bits == 0x0080,
    {
        LayerFlag { bits: 0x0080 }
    }

    pub fn Multiresolution() -> (r: Self)
        ensures
            r.bits == 0x2000,
    {
        LayerFlag { bits: 0x2000 }
    }

    /// Visible and in the foreground.
    pub fn Default() -> (r: Self)
        ensures
            r.bits == 0x0005,
    {
        LayerFlag { bits: 0x0005 }
    }

    pub fn from_bits_retain(bits: u16) -> (r: Self)
        ensures
            r.bits == bits,
    {
        LayerFlag { bits }
    }

    pub fn bits(&self) -> (r: u16)
        ensures
            r == self.bits,
    {
        self.bits
    }

    pub fn contains(&self, other: Self) -> (r: bool)
        ensures
            r == (self.bits & other.bits == other.bits),
    {
        self.bits & other.bits == other.bits
    }

    pub fn union(self, other: Self) -> (r: Self)
        ensures
            r.bits == self.bits | other.bits,
    {
        LayerFlag { bits: self.bits | other.bits }
    }
}

/// Subdivision boundary rules, stored as a 16 bit number.
#[derive(Debug, Clone, Copy, PartialEq, Eq)]
pub enum BoundaryRules {
    SmoothAll,
    CreaseAll,
    CreaseEdges,
}

pub open spec fn boundary_rules_from(n: u16) -> Option<BoundaryRules> {
    match n {
        0 => Some(BoundaryRules::SmoothAll),
        1 => Some(BoundaryRules::CreaseAll),
        2 => Some(BoundaryRules::CreaseEdges),
        _ => None,
    }
}

pub open spec fn boundary_rules_number(b: BoundaryRules) -> u16 {
    match b {
        BoundaryRules::SmoothAll => 0,
        BoundaryRules::CreaseAll => 1,
        BoundaryRules::CreaseEdges => 2,
    }
}

impl View for BoundaryRules {
    type V = BoundaryRules;

    open spec fn view(&self) -> BoundaryRules {
        *self
    }
}

impl BoundaryRules {
    pub fn from_number(n: u16) -> (r: Option<BoundaryRules>)
        ensures
            r == boundary_rules_from(n),
    {
        match n {
            0 => Some(BoundaryRules::SmoothAll),
            1 => Some(BoundaryRules::CreaseAll),
            2 => Some(BoundaryRules::CreaseEdges),
            _ => None,
        }
    }

    pub fn number(&self) -> (r: u16)
        ensures
            r == boundary_rules_number(*self),
    {
        match self {
            BoundaryRules::SmoothAll => 0,
            BoundaryRules::CreaseAll => 1,
            BoundaryRules::CreaseEdges => 2,
        }
    }
}

/// Smoothing of a layer, stored as a 16 bit number.
#[derive(Debug, Clone, Copy, PartialEq, Eq)]
pub enum Smoothing {
    AlwaysEnabled,
    DisabledWithDeformers,
    AlwaysDisabled,
}

pub open spec fn smoothing_from(n: u16) -> Option<Smoothing> {
    match n {
        0 => Some(Smoothing::AlwaysEnabled),
        1 => Some(Smoothing::DisabledWithDeformers),
        2 => Some(Smoothing::AlwaysDisabled),
        _ => None,
    }
}

pub open spec fn smoothing_number(s: Smoothing) -> u16 {
    match s {
        Smoothing::AlwaysEnabled => 0,
        Smoothing::DisabledWithDeformers => 1,
        Smoothing::AlwaysDisabled => 2,
    }
}

impl View for Smoothing {
    type V = Smoothing;

    open spec fn view(&self) -> Smoothing {
        *self
    }
}

impl Smoothing {
    pub fn from_number(n: u16) -> (r: Option<Smoothing>)
        ensures
            r == smoothing_from(n),
    {
        match n {
            0 => Some(Smoothing::AlwaysEnabled),
            1 => Some(Smoothing::DisabledWithDeformers),
            2 => Some(Smoothing::AlwaysDisabled),
            _ => None,
        }
    }

    pub fn number(&self) -> (r: u16)
        ensures
            r == smoothing_number(*self),
    {
        match self {
            Smoothing::AlwaysEnabled => 0,
            Smoothing::DisabledWithDeformers => 1,
            Smoothing::AlwaysDisabled => 2,
        }
    }
}

/// Subdivision of UVs of a vertex map, stored as a signed 32 bit number.
#[derive(Debug, Clone, Copy, PartialEq, Eq)]
pub enum UvSubdivisionKind {
    Linear,
    Subpatch,
    SubpatchLinearCorners,
    SubpatchLinearEdges,
    SubpatchDiscoEdges,
}

pub open spec fn uv_subdivision_from(n: i32) -> Option<UvSubdivisionKind> {
    match n {
        0 => Some(UvSubdivisionKind::Linear),
        1 => Some(UvSubdivisionKind::Subpatch),
        2 => Some(UvSubdivisionKind::SubpatchLinearCorners),
        3 => Some(UvSubdivisionKind::SubpatchLinearEdges),
        4 => Some(UvSubdivisionKind::SubpatchDiscoEdges),
        _ => None,
    }
}

pub open spec fn uv_subdivision_number(k: UvSubdivisionKind) -> i32 {
    match k {
        UvSubdivisionKind::Linear => 0,
        UvSubdivisionKind::Subpatch => 1,
        UvSubdivisionKind::SubpatchLinearCorners => 2,
        UvSubdivisionKind::SubpatchLinearEdges => 3,
        UvSubdivisionKind::SubpatchDiscoEdges => 4,
    }
}

impl UvSubdivisionKind {
    pub fn number(&self) -> (r: i32)
        ensures
            r == uv_subdivision_number(*self),
    {
        match self {
            UvSubdivisionKind::Linear => 0,
            UvSubdivisionKind::Subpatch => 1,
            UvSubdivisionKind::SubpatchLinearCorners => 2,
            UvSubdivisionKind::SubpatchLinearEdges => 3,
            UvSubdivisionKind::SubpatchDiscoEdges => 4,
        }
    }

    pub fn from_number(n: i32) -> (r: Option<UvSubdivisionKind>)
        ensures
            r == uv_subdivision_from(n),
    {
        match n {
            0 => Some(UvSubdivisionKind::Linear),
            1 => Some(UvSubdivisionKind::Subpatch),
            2 => Some(UvSubdivisionKind::SubpatchLinearCorners),
            3 => Some(UvSubdivisionKind::SubpatchLinearEdges),
            4 => Some(UvSubdivisionKind::SubpatchDiscoEdges),
            _ => None,
        }
    }
}

/// Vertex map parameters (`VMPA`).
#[derive(Debug, Clone, Copy, PartialEq, Eq)]
pub struct VertexMapParameter {
    pub uv_subdivision: UvSubdivisionKind,
    pub sketch_color: i32,
}

impl View for VertexMapParameter {
    type V = (UvSubdivisionKind, i32);

    open spec fn view(&self) -> (UvSubdivisionKind, i32) {
        (self.uv_subdivision, self.sketch_color)
    }
}

pub open spec fn spec_vertex_map_parameter(s: Seq<u8>, p: int) -> Result<
    ((UvSubdivisionKind, i32), int),
    ParseError,
> {
    match spec_i32(s, p) {
        Ok((n, q1)) => match uv_subdivision_from(n) {
            Some(k) => match spec_i32(s, q1) {
                Ok((c, q2)) => Ok(((k, c), q2)),
                Err(e) => Err(e),
            },
            None => Err(ParseError::NoVariantMatch),
        },
        Err(e) => Err(e),
    }
}

impl VertexMapParameter {
    pub fn read_be(buf: &[u8], pos: u64) -> (r: Result<(VertexMapParameter, u64), ParseError>)
        requires
            pos_ok(buf@, pos as int),
        ensures
            parsed_as(r, spec_vertex_map_parameter(buf@, pos as int)),
            ends_ok(r, buf@, pos as int),
    {
        let (n, q1) = read_i32(buf, pos)?;
        let uv_subdivision = match UvSubdivisionKind::from_number(n) {
            Some(k) => k,
            None => {
                return Err(ParseError::NoVariantMatch);
            },
        };
        let (sketch_color, q2) = read_i32(buf, q1)?;
        Ok((VertexMapParameter { uv_subdivision, sketch_color }, q2))
    }

    pub fn write_be(&self, out: &mut Vec<u8>)
        ensures
            final(out)@ == old(out)@ + u32_bytes(i32_bits(uv_subdivision_number(self.uv_subdivision)))
                + u32_bytes(i32_bits(self.sketch_color)),
    {
        write_i32(out, self.uv_subdivision.number());
        write_i32(out, self.sketch_color);
    }
}

/// Points of a layer (`PNTS`); coordinates are float bit patterns.
#[derive(Debug, Clone, PartialEq)]
pub struct Points(pub Vec<Point>);

impl View for Points {
    type V = Seq<(u32, u32, u32)>;

    open spec fn view(&self) -> Seq<(u32, u32, u32)> {
        views(self.0@)
    }
}

/// `count` points in a row.
pub open spec fn spec_points(s: Seq<u8>, p: int, count: u32) -> Result<
    (Seq<(u32, u32, u32)>, int),
    ParseError,
> {
    match spec_u32_array(s, p, 3 * count as int) {
        Ok((vals, q)) => Ok(
            (
                Seq::new(count as nat, |i: int| (vals[3 * i], vals[3 * i + 1], vals[3 * i + 2])),
                q,
            ),
        ),
        Err(e) => Err(e),
    }
}

impl Points {
    pub fn read_be(buf: &[u8], pos: u64, count: u32) -> (r: Result<(Points, u64), ParseError>)
        requires
            pos_ok(buf@, pos as int),
        ensures
            parsed_as(r, spec_points(buf@, pos as int, count)),
            ends_ok(r, buf@, pos as int),
    {
        let (vals, q) = read_u32_array(buf, pos, 3 * count as u64)?;
        let n = vals.len();
        let mut points: Vec<Point> = Vec::new();
        let mut i: usize = 0;
        while i < count as usize
            invariant
                i <= count,
                n == vals@.len(),
                vals@.len() == 3 * count,
                views(points@) == Seq::new(
                    i as nat,
                    |j: int| (vals@[3 * j], vals@[3 * j + 1], vals@[3 * j + 2]),
                ),
            decreases count - i,
        {
            let pt = Point([vals[3 * i], vals[3 * i + 1], vals[3 * i + 2]]);
            proof {
                lemma_views_push(points@, pt);
            }
            points.push(pt);
            i = i + 1;
            assert(views(points@) =~= Seq::new(
                i as nat,
                |j: int| (vals@[3 * j], vals@[3 * j + 1], vals@[3 * j + 2]),
            ));
        }
        Ok((Points(points), q))
    }

    pub fn len(&self) -> (r: usize)
        ensures
            r == self@.len(),
    {
        self.0.len()
    }

    pub fn write_be(&self, out: &mut Vec<u8>)
        ensures
            final(out)@ == old(out)@ + points_bytes(self@),
    {
        let mut i: usize = 0;
        assert(views(self.0@).take(0) =~= Seq::<(u32, u32, u32)>::empty());
        while i < self.0.len()
            invariant
                i <= self.0@.len(),
                out@ == old(out)@ + points_bytes(views(self.0@).take(i as int)),
            decreases self.0@.len() - i,
        {
            self.0[i].write_be(out);
            assert(views(self.0@).take(i + 1).drop_last() =~= views(self.0@).take(i as int));
            i = i + 1;
        }
        assert(views(self.0@).take(i as int) =~= views(self.0@));
    }
}

/// The encodings of points one after the other.
pub open spec fn points_bytes(ps: Seq<(u32, u32, u32)>) -> Seq<u8>
    decreases ps.len(),
{
    if ps.len() == 0 {
        Seq::empty()
    } else {
        points_bytes(ps.drop_last()) + point_bytes(ps.last())
    }
}

/// Bounding box of a layer (`BBOX`).
#[derive(Debug, Clone, Copy, PartialEq, Eq)]
pub struct BoundingBox {
    pub min: Point,
    pub max: Point,
}

impl View for BoundingBox {
    type V = ((u32, u32, u32), (u32, u32, u32));

    open spec fn view(&self) -> ((u32, u32, u32), (u32, u32, u32)) {
        (self.min@, self.max@)
    }
}

impl BoundingBox {
    pub fn read_be(buf: &[u8], pos: u64) -> (r: Result<(BoundingBox, u64), ParseError>)
        requires
            pos_ok(buf@, pos as int),
        ensures
            parsed_as(r, crate::item::spec_bounding_box(buf@, pos as int)),
            ends_ok(r, buf@, pos as int),
    {
        let (min, q1) = Point::read_be(buf, pos)?;
        let (max, q2) = Point::read_be(buf, q1)?;
        Ok((BoundingBox { min, max }, q2))
    }

    pub fn write_be(&self, out: &mut Vec<u8>)
        ensures
            final(out)@ == old(out)@ + crate::item::bounding_box_bytes(self@),
    {
        self.min.write_be(out);
        self.max.write_be(out);
        assert(out@ =~= old(out)@ + crate::item::bounding_box_bytes(self@));
    }
}

/// Optional layer data of a multiresolution layer.
#[derive(Debug, Clone, PartialEq)]
pub struct Multiresolution {
    /// Eight bytes of unknown meaning
    pub unk0: Vec<u8>,
    pub name: NullString,
    /// Thirty-four bytes of unknown meaning
    pub unk1: Vec<u8>,
}

impl View for Multiresolution {
    type V = (Seq<u8>, Seq<u8>, Seq<u8>);

    open spec fn view(&self) -> (Seq<u8>, Seq<u8>, Seq<u8>) {
        (self.unk0@, self.name@, self.unk1@)
    }
}

pub open spec fn spec_multiresolution(s: Seq<u8>, p: int) -> Result<((Seq<u8>, Seq<u8>, Seq<u8>), int), ParseError> {
    match spec_bytes(s, p, 8) {
        Ok((a, q1)) => match spec_aligned_nullstring(s, q1) {
            Ok((name, q2)) => match spec_bytes(s, q2, 34) {
                Ok((b, q3)) => Ok(((a, name, b), q3)),
                Err(e) => Err(e),
            },
            Err(e) => Err(e),
        },
        Err(e) => Err(e),
    }
}

/// Output after writing multiresolution data: the first bytes, the even aligned name, the
/// last bytes.
pub open spec fn multires_write(out: Seq<u8>, m: (Seq<u8>, Seq<u8>, Seq<u8>)) -> Seq<u8> {
    aligned_nullstring_write(out + m.0, m.1) + m.2
}

impl Multiresolution {
    pub fn read_be(buf: &[u8], pos: u64) -> (r: Result<(Multiresolution, u64), ParseError>)
        requires
            pos_ok(buf@, pos as int),
        ensures
            parsed_as(r, spec_multiresolution(buf@, pos as int)),
            ends_ok(r, buf@, pos as int),
    {
        let (unk0, q1) = read_bytes(buf, pos, 8)?;
        let (name, q2) = read_aligned_nullstring(buf, q1)?;
        let (unk1, q3) = read_bytes(buf, q2, 34)?;
        Ok((Multiresolution { unk0, name, unk1 }, q3))
    }

    pub fn write_be(&self, out: &mut Vec<u8>)
        ensures
            final(out)@ == multires_write(old(out)@, self@),
    {
        write_bytes(out, self.unk0.as_slice());
        write_aligned_nullstring(out, &self.name);
        write_bytes(out, self.unk1.as_slice());
    }
}


/// A per-vertex map (`VMAP`): for each listed vertex, `dimension` float values (as bits).
#[derive(Debug, Clone, PartialEq)]
pub struct VertexMap {
    pub kind: ID4,
    pub dimension: u16,
    pub name: NullString,
    pub data: Vec<(VX, Vec<u32>)>,
}

pub type VertexMapView = (u32, u16, Seq<u8>, Seq<(VX, Seq<u32>)>);

impl View for VertexMap {
    type V = VertexMapView;

    open spec fn view(&self) -> VertexMapView {
        (self.kind@, self.dimension, self.name@, views(self.data@))
    }
}

/// The entry loop of `VMAP`: while fewer than `size` bytes have been read since `start`, a
/// vertex index followed by `dim` values.
pub open spec fn vmap_loop(
    s: Seq<u8>,
    start: int,
    size: int,
    p: int,
    dim: u16,
    acc: Seq<(VX, Seq<u32>)>,
) -> Result<(Seq<(VX, Seq<u32>)>, int), ParseError>
    decreases loop_measure(start, size, p),
{
    if p - start < size {
        match spec_vx(s, p) {
            Ok((v, q)) => match spec_u32_array(s, q, dim as int) {
                Ok((vals, q2)) => vmap_loop(s, start, size, q2, dim, acc.push((v, vals))),
                Err(e) => Err(e),
            },
            Err(e) => Err(e),
        }
    } else {
        Ok((acc, p))
    }
}

/// Grammar of a `VMAP` chunk of `size` bytes: kind, dimension, even aligned name, entries.
pub open spec fn spec_vertex_map(s: Seq<u8>, p: int, size: u32) -> Result<(VertexMapView, int), ParseError> {
    match spec_id4(s, p) {
        Ok((kind, q1)) => match spec_u16(s, q1) {
            Ok((dim, q2)) => match spec_aligned_nullstring(s, q2) {
                Ok((name, q3)) => match vmap_loop(s, p, size as int, q3, dim, seq![]) {
                    Ok((data, q4)) => Ok(((kind, dim, name, data), q4)),
                    Err(e) => Err(e),
                },
                Err(e) => Err(e),
            },
            Err(e) => Err(e),
        },
        Err(e) => Err(e),
    }
}

pub open spec fn vmap_entries_bytes(es: Seq<(VX, Seq<u32>)>) -> Seq<u8>
    decreases es.len(),
{
    if es.len() == 0 {
        Seq::empty()
    } else {
        vmap_entries_bytes(es.drop_last()) + vx_bytes(es.last().0) + u32_seq_bytes(es.last().1)
    }
}

/// Written form of a vertex map: the name is written as a plain null terminated string.
pub open spec fn vertex_map_bytes(v: VertexMapView) -> Seq<u8> {
    u32_bytes(v.0) + u16_bytes(v.1) + nullstring_bytes(v.2) + vmap_entries_bytes(v.3)
}

impl VertexMap {
    pub fn read_be(buf: &[u8], pos: u64, size: u32) -> (r: Result<(VertexMap, u64), ParseError>)
        requires
            pos_ok(buf@, pos as int),
        ensures
            parsed_as(r, spec_vertex_map(buf@, pos as int, size)),
            ends_ok(r, buf@, pos as int),
    {
        let start = pos;
        let (kind, q1) = ID4::read_be(buf, pos)?;
        let (dimension, q2) = read_u16(buf, q1)?;
        let (name, q3) = read_aligned_nullstring(buf, q2)?;
        let mut data: Vec<(VX, Vec<u32>)> = Vec::new();
        let mut p = q3;
        assert(views(data@) =~= Seq::<(VX, Seq<u32>)>::empty());
        while p - start < size as u64
            invariant
                start <= p,
                start == pos,
                pos_ok(buf@, p as int),
                spec_id4(buf@, pos as int) == Ok::<(u32, int), ParseError>((kind@, q1 as int)),
                spec_u16(buf@, q1 as int) == Ok::<(u16, int), ParseError>((dimension, q2 as int)),
                spec_aligned_nullstring(buf@, q2 as int) == Ok::<(Seq<u8>, int), ParseError>(
                    (name@, q3 as int),
                ),
                vmap_loop(buf@, start as int, size as int, p as int, dimension, views(data@))
                    == vmap_loop(buf@, start as int, size as int, q3 as int, dimension, seq![]),
            decreases loop_measure(start as int, size as int, p as int),
        {
            let (v, q) = VX::read_be(buf, p)?;
            let (vals, q2) = read_u32_array(buf, q, dimension as u64)?;
            let e = (v, vals);
            proof {
                lemma_views_push(data@, e);
            }
            data.push(e);
            p = q2;
        }
        Ok((VertexMap { kind, dimension, name, data }, p))
    }

    pub fn write_be(&self, out: &mut Vec<u8>)
        ensures
            final(out)@ == old(out)@ + vertex_map_bytes(self@),
    {
        proof {
            ID4::lemma_bytes_of_code(self.kind);
        }
        self.kind.write_be(out);
        write_u16(out, self.dimension);
        write_nullstring(out, &self.name);
        let ghost base = out@;
        let mut i: usize = 0;
        assert(views(self.data@).take(0) =~= Seq::<(VX, Seq<u32>)>::empty());
        while i < self.data.len()
            invariant
                i <= self.data@.len(),
                base == old(out)@ + u32_bytes(self.kind@) + u16_bytes(self.dimension)
                    + nullstring_bytes(self.name@),
                out@ == base + vmap_entries_bytes(views(self.data@).take(i as int)),
            decreases self.data@.len() - i,
        {
            let e = &self.data[i];
            e.0.write_be(out);
            write_u32_seq(out, e.1.as_slice());
            assert(views(self.data@).take(i + 1).drop_last() =~= views(self.data@).take(i as int));
            i = i + 1;
            assert(out@ =~= base + vmap_entries_bytes(views(self.data@).take(i as int)));
        }
        assert(views(self.data@).take(i as int) =~= views(self.data@));
        assert(out@ =~= old(out)@ + vertex_map_bytes(self@));
    }
}


/// Entries of a two-index vertex map: two indices and their values.
pub type PairEntriesView = Seq<(VX, VX, Seq<u32>)>;

pub type VertexPairMapView = (u32, u16, Seq<u8>, PairEntriesView);

/// The entry loop of `VMED` and `VMAD`: while fewer than `size` bytes have been read since
/// `start`, two indices followed by `dim` values.
pub open spec fn pair_map_loop(
    s: Seq<u8>,
    start: int,
    size: int,
    p: int,
    dim: u16,
    acc: PairEntriesView,
) -> Result<(PairEntriesView, int), ParseError>
    decreases loop_measure(start, size, p),
{
    if p - start < size {
        match spec_vx(s, p) {
            Ok((a, q1)) => match spec_vx(s, q1) {
                Ok((b, q)) => match spec_u32_array(s, q, dim as int) {
                    Ok((vals, q2)) => pair_map_loop(s, start, size, q2, dim, acc.push((a, b, vals))),
                    Err(e) => Err(e),
                },
                Err(e) => Err(e),
            },
            Err(e) => Err(e),
        }
    } else {
        Ok((acc, p))
    }
}

/// Grammar of a `VMED` or `VMAD` chunk of `size` bytes: kind, dimension, even aligned name,
/// entries.
pub open spec fn spec_vertex_pair_map(s: Seq<u8>, p: int, size: u32) -> Result<
    (VertexPairMapView, int),
    ParseError,
> {
    match spec_id4(s, p) {
        Ok((kind, q1)) => match spec_u16(s, q1) {
            Ok((dim, q2)) => match spec_aligned_nullstring(s, q2) {
                Ok((name, q3)) => match pair_map_loop(s, p, size as int, q3, dim, seq![]) {
                    Ok((data, q4)) => Ok(((kind, dim, name, data), q4)),
                    Err(e) => Err(e),
                },
                Err(e) => Err(e),
            },
            Err(e) => Err(e),
        },
        Err(e) => Err(e),
    }
}

pub open spec fn pair_entries_bytes(es: PairEntriesView) -> Seq<u8>
    decreases es.len(),
{
    if es.len() == 0 {
        Seq::empty()
    } else {
        pair_entries_bytes(es.drop_last()) + vx_bytes(es.last().0) + vx_bytes(es.last().1)
            + u32_seq_bytes(es.last().2)
    }
}

/// Written form of a two-index vertex map; the name is a plain null terminated string.
pub open spec fn vertex_pair_map_bytes(v: VertexPairMapView) -> Seq<u8> {
    u32_bytes(v.0) + u16_bytes(v.1) + nullstring_bytes(v.2) + pair_entries_bytes(v.3)
}

fn read_pair_map(buf: &[u8], pos: u64, size: u32) -> (r: Result<
    ((ID4, u16, NullString, Vec<(VX, VX, Vec<u32>)>), u64),
    ParseError,
>)
    requires
        pos_ok(buf@, pos as int),
    ensures
        match r {
            Ok(((kind, dim, name, data), q)) => spec_vertex_pair_map(buf@, pos as int, size)
                == Ok::<(VertexPairMapView, int), ParseError>(
                ((kind@, dim, name@, views(data@)), q as int),
            ),
            Err(e) => spec_vertex_pair_map(buf@, pos as int, size) == Err::<
                (VertexPairMapView, int),
                ParseError,
            >(e),
        },
        ends_ok(r, buf@, pos as int),
{
    let start = pos;
    let (kind, q1) = ID4::read_be(buf, pos)?;
    let (dimension, q2) = read_u16(buf, q1)?;
    let (name, q3) = read_aligned_nullstring(buf, q2)?;
    let mut data: Vec<(VX, VX, Vec<u32>)> = Vec::new();
    let mut p = q3;
    assert(views(data@) =~= Seq::<(VX, VX, Seq<u32>)>::empty());
    while p - start < size as u64
        invariant
            start <= p,
            start == pos,
            pos_ok(buf@, p as int),
            spec_id4(buf@, pos as int) == Ok::<(u32, int), ParseError>((kind@, q1 as int)),
            spec_u16(buf@, q1 as int) == Ok::<(u16, int), ParseError>((dimension, q2 as int)),
            spec_aligned_nullstring(buf@, q2 as int) == Ok::<(Seq<u8>, int), ParseError>(
                (name@, q3 as int),
            ),
            pair_map_loop(buf@, start as int, size as int, p as int, dimension, views(data@))
                == pair_map_loop(buf@, start as int, size as int, q3 as int, dimension, seq![]),
        decreases loop_measure(start as int, size as int, p as int),
    {
        let (a, qa) = VX::read_be(buf, p)?;
        let (b, q) = VX::read_be(buf, qa)?;
        let (vals, q2) = read_u32_array(buf, q, dimension as u64)?;
        let e = (a, b, vals);
        proof {
            lemma_views_push(data@, e);
        }
        data.push(e);
        p = q2;
    }
    Ok(((kind, dimension, name, data), p))
}

fn write_pair_map(
    out: &mut Vec<u8>,
    kind: ID4,
    dimension: u16,
    name: &NullString,
    data: &Vec<(VX, VX, Vec<u32>)>,
)
    ensures
        final(out)@ == old(out)@ + vertex_pair_map_bytes((kind@, dimension, name@, views(data@))),
{
    proof {
        ID4::lemma_bytes_of_code(kind);
    }
    kind.write_be(out);
    write_u16(out, dimension);
    write_nullstring(out, name);
    let ghost base = out@;
    let mut i: usize = 0;
    assert(views(data@).take(0) =~= Seq::<(VX, VX, Seq<u32>)>::empty());
    while i < data.len()
        invariant
            i <= data@.len(),
            base == old(out)@ + u32_bytes(kind@) + u16_bytes(dimension) + nullstring_bytes(name@),
            out@ == base + pair_entries_bytes(views(data@).take(i as int)),
        decreases data@.len() - i,
    {
        let e = &data[i];
        e.0.write_be(out);
        e.1.write_be(out);
        write_u32_seq(out, e.2.as_slice());
        assert(views(data@).take(i + 1).drop_last() =~= views(data@).take(i as int));
        i = i + 1;
        assert(out@ =~= base + pair_entries_bytes(views(data@).take(i as int)));
    }
    assert(views(data@).take(i as int) =~= views(data@));
    assert(out@ =~= old(out)@ + vertex_pair_map_bytes((kind@, dimension, name@, views(data@))));
}

/// Vertex map of edge discontinuities (`VMED`): two vertex indices and their values.
#[derive(Debug, Clone, PartialEq)]
pub struct VertexEdgeMap {
    pub kind: ID4,
    pub dimension: u16,
    pub name: NullString,
    pub data: Vec<(VX, VX, Vec<u32>)>,
}

impl View for VertexEdgeMap {
    type V = VertexPairMapView;

    open spec fn view(&self) -> VertexPairMapView {
        (self.kind@, self.dimension, self.name@, views(self.data@))
    }
}

impl VertexEdgeMap {
    pub fn read_be(buf: &[u8], pos: u64, size: u32) -> (r: Result<(VertexEdgeMap, u64), ParseError>)
        requires
            pos_ok(buf@, pos as int),
        ensures
            parsed_as(r, spec_vertex_pair_map(buf@, pos as int, size)),
            ends_ok(r, buf@, pos as int),
    {
        let ((kind, dimension, name, data), q) = read_pair_map(buf, pos, size)?;
        Ok((VertexEdgeMap { kind, dimension, name, data }, q))
    }

    pub fn write_be(&self, out: &mut Vec<u8>)
        ensures
            final(out)@ == old(out)@ + vertex_pair_map_bytes(self@),
    {
        write_pair_map(out, self.kind, self.dimension, &self.name, &self.data);
    }
}

/// Discontinuous vertex map (`VMAD`): a vertex index, a polygon index and their values.
#[derive(Debug, Clone, PartialEq)]
pub struct DiscontinousVertexMap {
    pub kind: ID4,
    pub dimension: u16,
    pub name: NullString,
    pub data: Vec<(VX, VX, Vec<u32>)>,
}

impl View for DiscontinousVertexMap {
    type V = VertexPairMapView;

    open spec fn view(&self) -> VertexPairMapView {
        (self.kind@, self.dimension, self.name@, views(self.data@))
    }
}

impl DiscontinousVertexMap {
    pub fn read_be(buf: &[u8], pos: u64, size: u32) -> (r: Result<(DiscontinousVertexMap, u64), ParseError>)
        requires
            pos_ok(buf@, pos as int),
        ensures
            parsed_as(r, spec_vertex_pair_map(buf@, pos as int, size)),
            ends_ok(r, buf@, pos as int),
    {
        let ((kind, dimension, name, data), q) = read_pair_map(buf, pos, size)?;
        Ok((DiscontinousVertexMap { kind, dimension, name, data }, q))
    }

    pub fn write_be(&self, out: &mut Vec<u8>)
        ensures
            final(out)@ == old(out)@ + vertex_pair_map_bytes(self@),
    {
        write_pair_map(out, self.kind, self.dimension, &self.name, &self.data);
    }
}


/// One polygon: its vertex count, its vertex indices and, for curves, a flags word.
#[derive(Debug, Clone, PartialEq)]
pub struct Polygon {
    pub vertex_count: u16,
    pub vertex_index: Vec<VX>,
    pub flags: Option<u32>,
}

pub type PolygonView = (u16, Seq<VX>, Option<u32>);

impl View for Polygon {
    type V = PolygonView;

    open spec fn view(&self) -> PolygonView {
        (self.vertex_count, self.vertex_index@, self.flags)
    }
}

/// Handle flags of a curve polygon.
#[derive(Debug, Clone, Copy, PartialEq, Eq, Structural)]
pub struct CurveHandle {
    pub bits: u8,
}

#[allow(non_snake_case)]
impl CurveHandle {
    pub fn Start() -> (r: Self)
        ensures
            r.bits == 0x1,
    {
        CurveHandle { bits: 0x1 }
    }

    pub fn End() -> (r: Self)
        ensures
            r.bits == 0x2,
    {
        CurveHandle { bits: 0x2 }
    }

    pub fn Closed() -> (r: Self)
        ensures
            r.bits == 0x3,
    {
        CurveHandle { bits: 0x3 }
    }

    pub fn from_bits_retain(bits: u8) -> (r: Self)
        ensures
            r.bits == bits,
    {
        CurveHandle { bits }
    }

    pub fn bits(&self) -> (r: u8)
        ensures
            r == self.bits,
    {
        self.bits
    }

    pub fn contains(&self, other: Self) -> (r: bool)
        ensures
            r == (self.bits & other.bits == other.bits),
    {
        self.bits & other.bits == other.bits
    }
}

/// Polygon kinds whose polygons carry a flags word after the vertex count.
pub open spec fn is_curve_kind(kind: u32) -> bool {
    kind == HCRV || kind == BCRV || kind == BSPL || kind == LINE
}

/// `n` vertex indices in a row.
pub open spec fn spec_vx_list(s: Seq<u8>, p: int, n: nat) -> Result<(Seq<VX>, int), ParseError>
    decreases n,
{
    if n == 0 {
        Ok((seq![], p))
    } else {
        match spec_vx_list(s, p, (n - 1) as nat) {
            Ok((vs, q)) => match spec_vx(s, q) {
                Ok((v, q2)) => Ok((vs.push(v), q2)),
                Err(e) => Err(e),
            },
            Err(e) => Err(e),
        }
    }
}

/// Grammar of one polygon of a list of kind `kind`: a 16 bit vertex count, a flags word for
/// curve kinds, then the vertex indices.
/// The flags word of a polygon, present for curve kinds only.
pub open spec fn spec_polygon_flags(s: Seq<u8>, p: int, kind: u32) -> Result<(Option<u32>, int), ParseError> {
    if is_curve_kind(kind) {
        match spec_u32(s, p) {
            Ok((f, q)) => Ok((Some(f), q)),
            Err(e) => Err(e),
        }
    } else {
        Ok((None, p))
    }
}

/// Grammar of one polygon of a list of kind `kind`: a 16 bit vertex count, a flags word for
/// curve kinds, then the vertex indices.
pub open spec fn spec_polygon(s: Seq<u8>, p: int, kind: u32) -> Result<(PolygonView, int), ParseError> {
    match spec_u16(s, p) {
        Ok((count, q1)) => match spec_polygon_flags(s, q1, kind) {
            Ok((flags, q2)) => match spec_vx_list(s, q2, count as nat) {
                Ok((vs, q3)) => Ok(((count, vs, flags), q3)),
                Err(e) => Err(e),
            },
            Err(e) => Err(e),
        },
        Err(e) => Err(e),
    }
}

/// Once reading the first `i` indices fails, reading more fails the same way.
pub proof fn lemma_vx_list_err(s: Seq<u8>, p: int, i: nat, n: nat)
    requires
        i <= n,
        spec_vx_list(s, p, i) is Err,
    ensures
        spec_vx_list(s, p, n) == spec_vx_list(s, p, i),
    decreases n - i,
{
    if i < n {
        lemma_vx_list_err(s, p, i, (n - 1) as nat);
    }
}

pub proof fn lemma_vx_list_advances(s: Seq<u8>, p: int, n: nat)
    ensures
        spec_vx_list(s, p, n) matches Ok((_, q)) ==> q >= p && (p <= s.len() ==> q <= s.len()),
    decreases n,
{
    if n > 0 {
        lemma_vx_list_advances(s, p, (n - 1) as nat);
    }
}

pub proof fn lemma_polygon_advances(s: Seq<u8>, p: int, kind: u32)
    ensures
        spec_polygon(s, p, kind) matches Ok((_, q)) ==> p + 2 <= q <= s.len(),
{
    if let Ok((count, q1)) = spec_u16(s, p) {
        lemma_vx_list_advances(s, q1, count as nat);
        if let Ok((_, q)) = spec_u32(s, q1) {
            lemma_vx_list_advances(s, q, count as nat);
        }
    }
}

/// Reads one polygon at `pos` of a list of kind `kind`.
pub fn read_polygon(buf: &[u8], pos: u64, kind: ID4) -> (r: Result<(Polygon, u64), ParseError>)
    requires
        pos_ok(buf@, pos as int),
    ensures
        parsed_as(r, spec_polygon(buf@, pos as int, kind@)),
        ends_ok(r, buf@, pos as int),
{
    let (vertex_count, q1) = read_u16(buf, pos)?;
    let k = kind.code();
    let mut p = q1;
    let flags = if k == HCRV || k == BCRV || k == BSPL || k == LINE {
        let (f, q) = read_u32(buf, q1)?;
        p = q;
        Some(f)
    } else {
        None
    };
    let ghost q2: int = p as int;
    let mut vertex_index: Vec<VX> = Vec::new();
    let mut i: u16 = 0;
    while i < vertex_count
        invariant
            i <= vertex_count,
            pos <= p,
            pos_ok(buf@, p as int),
            spec_u16(buf@, pos as int) == Ok::<(u16, int), ParseError>((vertex_count, q1 as int)),
            spec_polygon_flags(buf@, q1 as int, kind@) == Ok::<(Option<u32>, int), ParseError>(
                (flags, q2),
            ),
            spec_vx_list(buf@, q2, i as nat) == Ok::<(Seq<VX>, int), ParseError>(
                (vertex_index@, p as int),
            ),
        decreases vertex_count - i,
    {
        match VX::read_be(buf, p) {
            Ok((v, q)) => {
                vertex_index.push(v);
                p = q;
                i = i + 1;
            },
            Err(e) => {
                proof {
                    lemma_vx_list_err(buf@, q2, (i + 1) as nat, vertex_count as nat);
                }
                return Err(e);
            },
        }
    }
    Ok((Polygon { vertex_count, vertex_index, flags }, p))
}

/// A read vertex index takes as many bytes as its encoding: two for `U2`, four for `U4`.
pub proof fn lemma_vx_length(s: Seq<u8>, p: int)
    ensures
        spec_vx(s, p) matches Ok((v, q)) ==> q == p + vx_bytes(v).len(),
{
}

/// `n` read vertex indices are `n` indices, taking as many bytes as their encodings.
pub proof fn lemma_vx_list_length(s: Seq<u8>, p: int, n: nat)
    ensures
        spec_vx_list(s, p, n) matches Ok((vs, q)) ==> vs.len() == n && q == p + vx_seq_bytes(
            vs,
        ).len(),
    decreases n,
{
    if n > 0 {
        lemma_vx_list_length(s, p, (n - 1) as nat);
        if let Ok((vs, q)) = spec_vx_list(s, p, (n - 1) as nat) {
            lemma_vx_length(s, q);
            if let Ok((v, q2)) = spec_vx(s, q) {
                assert(vs.push(v).drop_last() =~= vs);
            }
        }
    }
}

/// Reads one polygon from the start of a byte slice, returning it with the number of bytes
/// it took: the vertex count, the flags word for curve and line kinds, then as many vertex
/// indices as the count says, two bytes for each `U2` index and four for each `U4` one.
pub fn read_polygon_from_bytes(buf: &[u8], kind: ID4) -> (r: Result<(Polygon, usize), ParseError>)
    requires
        buf@.len() <= MAX_INPUT,
    ensures
        match r {
            Ok((poly, n)) => spec_polygon(buf@, 0, kind@) == Ok::<(PolygonView, int), ParseError>(
                (poly@, n as int),
            ),
            Err(e) => spec_polygon(buf@, 0, kind@) == Err::<(PolygonView, int), ParseError>(e),
        },
        r matches Ok((poly, n)) ==> {
            &&& poly.vertex_index@.len() == poly.vertex_count
            &&& poly.vertex_count == be_u16(buf@[0], buf@[1])
            &&& (poly.flags is Some <==> is_curve_kind(kind@))
            &&& (poly.flags matches Some(f) ==> f == be_u32(buf@[2], buf@[3], buf@[4], buf@[5]))
            &&& n == 2 + (if poly.flags is Some {
                4int
            } else {
                0int
            }) + vx_seq_bytes(poly.vertex_index@).len()
            &&& n <= buf@.len()
        },
{
    let n = buf.len();
    let (poly, q) = read_polygon(buf, 0, kind)?;
    proof {
        lemma_polygon_advances(buf@, 0, kind@);
        let (count, q1) = spec_u16(buf@, 0)->Ok_0;
        let (flags, q2) = spec_polygon_flags(buf@, q1, kind@)->Ok_0;
        lemma_vx_list_length(buf@, q2, count as nat);
    }
    assert(q <= n);
    Ok((poly, q as usize))
}

pub open spec fn vx_seq_bytes(vs: Seq<VX>) -> Seq<u8>
    decreases vs.len(),
{
    if vs.len() == 0 {
        Seq::empty()
    } else {
        vx_seq_bytes(vs.drop_last()) + vx_bytes(vs.last())
    }
}

/// Written form of a polygon: count, the flags word when there is one, then the vertex
/// indices, in the order in which they are read.
pub open spec fn polygon_bytes(v: PolygonView) -> Seq<u8> {
    u16_bytes(v.0) + match v.2 {
        Some(f) => u32_bytes(f),
        None => Seq::empty(),
    } + vx_seq_bytes(v.1)
}

impl Polygon {
    pub fn write_be(&self, out: &mut Vec<u8>)
        ensures
            final(out)@ == old(out)@ + polygon_bytes(self@),
    {
        write_u16(out, self.vertex_count);
        match self.flags {
            Some(f) => write_u32(out, f),
            None => {},
        }
        let ghost base = out@;
        let mut i: usize = 0;
        assert(self.vertex_index@.take(0) =~= Seq::<VX>::empty());
        while i < self.vertex_index.len()
            invariant
                i <= self.vertex_index@.len(),
                base == old(out)@ + u16_bytes(self.vertex_count) + match self.flags {
                    Some(f) => u32_bytes(f),
                    None => Seq::empty(),
                },
                out@ == base + vx_seq_bytes(self.vertex_index@.take(i as int)),
            decreases self.vertex_index@.len() - i,
        {
            self.vertex_index[i].write_be(out);
            assert(self.vertex_index@.take(i + 1).drop_last() =~= self.vertex_index@.take(i as int));
            i = i + 1;
            assert(out@ =~= base + vx_seq_bytes(self.vertex_index@.take(i as int)));
        }
        assert(self.vertex_index@.take(i as int) =~= self.vertex_index@);
        assert(out@ =~= old(out)@ + polygon_bytes(self@));
    }
}


/// A polygon list (`POLS`): the polygon kind and its polygons.
///
/// Each polygon is defined by a vertex count followed by a list of indices into the most
/// recent `PNTS` chunk. Curve kinds (`HCRV`, `BCRV`, `BSPL`) and lines (`LINE`) carry a
/// separate flags word after the count, which lets the count use all 16 bits.
#[derive(Debug, Clone, PartialEq)]
pub struct PolygonList {
    pub kind: ID4,
    pub polygons: Vec<Polygon>,
}

pub type PolygonListView = (u32, Seq<PolygonView>);

impl View for PolygonList {
    type V = PolygonListView;

    open spec fn view(&self) -> PolygonListView {
        (self.kind@, views(self.polygons@))
    }
}

/// Polygons of kind `kind` from offset `off` to the end of the chunk data `w`.
pub open spec fn pols_loop(w: Seq<u8>, off: int, kind: u32, acc: Seq<PolygonView>) -> Result<
    Seq<PolygonView>,
    ParseError,
>
    decreases w.len() - off,
{
    if 0 <= off < w.len() {
        match spec_polygon(w, off, kind) {
            Ok((poly, q)) => {
                proof {
                    lemma_polygon_advances(w, off, kind);
                }
                pols_loop(w, q, kind, acc.push(poly))
            },
            Err(e) => Err(e),
        }
    } else {
        Ok(acc)
    }
}

/// Grammar of a `POLS` chunk of `size` bytes. Its data is taken whole; within it, the kind
/// is followed by polygons up to its end (a polygon may not run past it).
pub open spec fn spec_polygon_list(s: Seq<u8>, p: int, size: u32) -> Result<
    (PolygonListView, int),
    ParseError,
> {
    if !(0 <= p && p + size <= s.len()) {
        Err(ParseError::UnexpectedEof)
    } else if size < 4 {
        Err(ParseError::InvalidSize)
    } else {
        let w = s.subrange(p, p + size);
        match spec_id4(w, 0) {
            Ok((kind, _)) => match pols_loop(w, 4, kind, seq![]) {
                Ok(polys) => Ok(((kind, polys), p + size)),
                Err(e) => Err(e),
            },
            Err(e) => Err(e),
        }
    }
}

pub open spec fn polygons_bytes(ps: Seq<PolygonView>) -> Seq<u8>
    decreases ps.len(),
{
    if ps.len() == 0 {
        Seq::empty()
    } else {
        polygons_bytes(ps.drop_last()) + polygon_bytes(ps.last())
    }
}

pub open spec fn polygon_list_bytes(v: PolygonListView) -> Seq<u8> {
    u32_bytes(v.0) + polygons_bytes(v.1)
}

impl PolygonList {
    pub fn read_be(buf: &[u8], pos: u64, size: u32) -> (r: Result<(PolygonList, u64), ParseError>)
        requires
            pos_ok(buf@, pos as int),
        ensures
            parsed_as(r, spec_polygon_list(buf@, pos as int, size)),
            ends_ok(r, buf@, pos as int),
    {
        let len = buf.len() as u64;
        if !(pos <= len && len - pos >= size as u64) {
            return Err(ParseError::UnexpectedEof);
        }
        if size < 4 {
            return Err(ParseError::InvalidSize);
        }
        let w = &buf[pos as usize..(pos + size as u64) as usize];
        assert(w@ == buf@.subrange(pos as int, pos + size));
        let (kind, _) = ID4::read_be(w, 0)?;
        let wl = w.len() as u64;
        let mut polygons: Vec<Polygon> = Vec::new();
        let mut off: u64 = 4;
        assert(views(polygons@) =~= Seq::<PolygonView>::empty());
        while off < wl
            invariant
                wl == w@.len(),
                w@.len() <= MAX_INPUT,
                w@ == buf@.subrange(pos as int, pos + size),
                pos + size <= buf@.len(),
                4 <= size,
                spec_id4(w@, 0) == Ok::<(u32, int), ParseError>((kind@, 4)),
                4 <= off,
                pos_ok(w@, off as int),
                pols_loop(w@, off as int, kind@, views(polygons@)) == pols_loop(w@, 4, kind@, seq![]),
            decreases wl - off,
        {
            let (poly, q) = read_polygon(w, off, kind)?;
            proof {
                lemma_polygon_advances(w@, off as int, kind@);
                lemma_views_push(polygons@, poly);
            }
            polygons.push(poly);
            off = q;
        }
        Ok((PolygonList { kind, polygons }, pos + size as u64))
    }

    pub fn write_be(&self, out: &mut Vec<u8>)
        ensures
            final(out)@ == old(out)@ + polygon_list_bytes(self@),
    {
        proof {
            ID4::lemma_bytes_of_code(self.kind);
        }
        self.kind.write_be(out);
        let ghost base = out@;
        let mut i: usize = 0;
        assert(views(self.polygons@).take(0) =~= Seq::<PolygonView>::empty());
        while i < self.polygons.len()
            invariant
                i <= self.polygons@.len(),
                base == old(out)@ + u32_bytes(self.kind@),
                out@ == base + polygons_bytes(views(self.polygons@).take(i as int)),
            decreases self.polygons@.len() - i,
        {
            self.polygons[i].write_be(out);
            assert(views(self.polygons@).take(i + 1).drop_last() =~= views(self.polygons@).take(i as int));
            i = i + 1;
            assert(out@ =~= base + polygons_bytes(views(self.polygons@).take(i as int)));
        }
        assert(views(self.polygons@).take(i as int) =~= views(self.polygons@));
        assert(out@ =~= old(out)@ + polygon_list_bytes(self@));
    }
}


/// Rank by which polygon indices are ordered: every two-byte index before every four-byte
/// one, and by value within each width.
pub open spec fn vx_rank(v: VX) -> int {
    match v {
        VX::U2(a) => a as int,
        VX::U4(b) => 0x1_0000 + b,
    }
}

fn vx_rank_exec(v: VX) -> (r: u64)
    ensures
        r == vx_rank(v),
{
    match v {
        VX::U2(a) => a as u64,
        VX::U4(b) => 0x1_0000 + b as u64,
    }
}

/// Entries in strictly increasing order of their polygon index.
pub open spec fn sorted_tags(s: Seq<(VX, u16)>) -> bool {
    forall|i: int, j: int| 0 <= i < j < s.len() ==> vx_rank(s[i].0) < vx_rank(s[j].0)
}

/// Whether position `i` is where index `k` belongs among the entries `s`.
pub open spec fn is_tag_slot(s: Seq<(VX, u16)>, k: VX, i: int) -> bool {
    &&& 0 <= i <= s.len()
    &&& forall|j: int| 0 <= j < i ==> vx_rank(#[trigger] s[j].0) < vx_rank(k)
    &&& i < s.len() ==> vx_rank(s[i].0) >= vx_rank(k)
}

pub open spec fn tag_slot(s: Seq<(VX, u16)>, k: VX) -> int {
    choose|i: int| is_tag_slot(s, k, i)
}

/// The entries after mapping `k` to `v`: a present index has its value replaced, an absent
/// one is inserted at its place in the order.
pub open spec fn tags_insert(s: Seq<(VX, u16)>, k: VX, v: u16) -> Seq<(VX, u16)> {
    let i = tag_slot(s, k);
    if i < s.len() && s[i].0 == k {
        s.update(i, (k, v))
    } else {
        s.insert(i, (k, v))
    }
}

pub open spec fn tags_contains(s: Seq<(VX, u16)>, k: VX) -> bool {
    exists|i: int| 0 <= i < s.len() && s[i].0 == k
}

pub open spec fn tags_value(s: Seq<(VX, u16)>, k: VX) -> u16 {
    s[choose|i: int| 0 <= i < s.len() && s[i].0 == k].1
}

/// The entries taken as a map from polygon index to tag.
pub open spec fn tags_map(s: Seq<(VX, u16)>) -> Map<VX, u16> {
    Map::new(|k: VX| tags_contains(s, k), |k: VX| tags_value(s, k))
}

pub proof fn lemma_vx_rank_injective(a: VX, b: VX)
    ensures
        vx_rank(a) == vx_rank(b) <==> a == b,
{
}

/// In sorted entries the slot of an index is unique.
pub proof fn lemma_tag_slot_unique(s: Seq<(VX, u16)>, k: VX, i: int)
    requires
        is_tag_slot(s, k, i),
    ensures
        tag_slot(s, k) == i,
{
    let c = tag_slot(s, k);
    assert(is_tag_slot(s, k, c));
    if c < i {
        assert(vx_rank(s[c].0) < vx_rank(k));
    } else if i < c {
        assert(vx_rank(s[i].0) < vx_rank(k));
    }
}

/// The tags of one polygon tag kind: a map from polygon index to tag, kept in increasing
/// order of the index (`U2` indices before `U4` ones, each by value). The entries are held
/// in a sorted vector so that this order, which the written form follows, is part of the
/// type's invariant and of what its methods state.
#[derive(Debug)]
pub struct PolygonTags {
    entries: Vec<(VX, u16)>,
}

impl View for PolygonTags {
    type V = Seq<(VX, u16)>;

    closed spec fn view(&self) -> Seq<(VX, u16)> {
        self.entries@
    }
}

impl PolygonTags {
    #[verifier::type_invariant]
    spec fn inv(self) -> bool {
        sorted_tags(self.entries@)
    }

    pub fn new() -> (r: Self)
        ensures
            r@ == Seq::<(VX, u16)>::empty(),
    {
        PolygonTags { entries: Vec::new() }
    }

    /// Maps `k` to `v`, returning the value `k` had before.
    pub fn insert(&mut self, k: VX, v: u16) -> (r: Option<u16>)
        ensures
            final(self)@ == tags_insert(old(self)@, k, v),
            r == (if tags_contains(old(self)@, k) {
                Some(tags_value(old(self)@, k))
            } else {
                None
            }),
    {
        proof {
            use_type_invariant(&*self);
        }
        let mut entries: Vec<(VX, u16)> = Vec::new();
        std::mem::swap(&mut entries, &mut self.entries);
        let ghost s = entries@;
        let kr = vx_rank_exec(k);
        let mut i: usize = 0;
        while i < entries.len()
            invariant_except_break
                i <= s.len(),
                entries@ == s,
                kr == vx_rank(k),
                forall|j: int| 0 <= j < i ==> vx_rank(#[trigger] s[j].0) < vx_rank(k),
            ensures
                is_tag_slot(s, k, i as int),
                entries@ == s,
            decreases s.len() - i,
        {
            if vx_rank_exec(entries[i].0) >= kr {
                break;
            }
            assert(vx_rank(s[i as int].0) < vx_rank(k));
            i = i + 1;
        }
        proof {
            lemma_tag_slot_unique(s, k, i as int);
        }
        if i < entries.len() && vx_rank_exec(entries[i].0) == kr {
            proof {
                lemma_vx_rank_injective(entries[i as int].0, k);
                assert forall|j: int| 0 <= j < s.len() && s[j].0 == k implies j == i by {
                    lemma_vx_rank_injective(s[j].0, k);
                }
            }
            let old_v = entries[i].1;
            entries.set(i, (k, v));
            self.entries = entries;
            Some(old_v)
        } else {
            proof {
                assert forall|j: int| 0 <= j < s.len() implies s[j].0 != k by {
                    if j >= i {
                        lemma_vx_rank_injective(s[i as int].0, k);
                    }
                }
            }
            entries.insert(i, (k, v));
            assert(sorted_tags(entries@)) by {
                assert forall|a: int, b: int| 0 <= a < b < entries@.len() implies vx_rank(
                    entries@[a].0,
                ) < vx_rank(entries@[b].0) by {
                    if b < i {
                    } else if b == i {
                    } else if a < i {
                    } else if a == i {
                    } else {
                    }
                }
            }
            self.entries = entries;
            None
        }
    }

    /// The tag of polygon `k`, if it has one.
    pub fn get(&self, k: &VX) -> (r: Option<&u16>)
        ensures
            r is Some <==> tags_contains(self@, *k),
            r matches Some(x) ==> *x == tags_value(self@, *k),
    {
        proof {
            use_type_invariant(self);
        }
        let kr = vx_rank_exec(*k);
        let mut i: usize = 0;
        while i < self.entries.len()
            invariant
                i <= self@.len(),
                sorted_tags(self@),
                kr == vx_rank(*k),
                forall|j: int| 0 <= j < i ==> self@[j].0 != *k,
            decreases self@.len() - i,
        {
            if vx_rank_exec(self.entries[i].0) == kr {
                proof {
                    lemma_vx_rank_injective(self@[i as int].0, *k);
                    assert forall|j: int| 0 <= j < self@.len() && self@[j].0 == *k implies j == i by {
                        lemma_vx_rank_injective(self@[j].0, *k);
                    }
                }
                return Some(&self.entries[i].1);
            }
            proof {
                lemma_vx_rank_injective(self@[i as int].0, *k);
            }
            i = i + 1;
        }
        None
    }

    pub fn len(&self) -> (r: usize)
        ensures
            r == self@.len(),
    {
        self.entries.len()
    }

    pub fn is_empty(&self) -> (r: bool)
        ensures
            r == (self@.len() == 0),
    {
        self.entries.len() == 0
    }

    /// The entries in increasing order of the polygon index.
    pub fn as_slice(&self) -> (r: &[(VX, u16)])
        ensures
            r@ == self@,
    {
        self.entries.as_slice()
    }
}


/// Polygon tags of one kind (`PTAG`): a tag for each listed polygon.
#[derive(Debug)]
pub struct PolygonTagMapping {
    pub kind: ID4,
    pub tags: PolygonTags,
}

pub type PolygonTagMappingView = (u32, Seq<(VX, u16)>);

impl View for PolygonTagMapping {
    type V = PolygonTagMappingView;

    open spec fn view(&self) -> PolygonTagMappingView {
        (self.kind@, self.tags@)
    }
}

/// The entry loop of `PTAG`: while fewer than `size` bytes have been read since `start`, a
/// polygon index and its tag; a later entry for the same polygon replaces an earlier one.
pub open spec fn ptag_loop(
    s: Seq<u8>,
    start: int,
    size: int,
    p: int,
    acc: Seq<(VX, u16)>,
) -> Result<(Seq<(VX, u16)>, int), ParseError>
    decreases loop_measure(start, size, p),
{
    if p - start < size {
        match spec_vx(s, p) {
            Ok((v, q)) => match spec_u16(s, q) {
                Ok((t, q2)) => ptag_loop(s, start, size, q2, tags_insert(acc, v, t)),
                Err(e) => Err(e),
            },
            Err(e) => Err(e),
        }
    } else {
        Ok((acc, p))
    }
}

/// Grammar of a `PTAG` chunk of `size` bytes: the tag kind, then the entries.
pub open spec fn spec_polygon_tag_mapping(s: Seq<u8>, p: int, size: u32) -> Result<
    (PolygonTagMappingView, int),
    ParseError,
> {
    match spec_id4(s, p) {
        Ok((kind, q1)) => match ptag_loop(s, p, size as int, q1, seq![]) {
            Ok((tags, q2)) => Ok(((kind, tags), q2)),
            Err(e) => Err(e),
        },
        Err(e) => Err(e),
    }
}

pub open spec fn tag_entries_bytes(es: Seq<(VX, u16)>) -> Seq<u8>
    decreases es.len(),
{
    if es.len() == 0 {
        Seq::empty()
    } else {
        tag_entries_bytes(es.drop_last()) + vx_bytes(es.last().0) + u16_bytes(es.last().1)
    }
}

/// Written form: the kind, then each polygon index with its tag in increasing index order.
pub open spec fn polygon_tag_mapping_bytes(v: PolygonTagMappingView) -> Seq<u8> {
    u32_bytes(v.0) + tag_entries_bytes(v.1)
}

impl PolygonTagMapping {
    pub fn read_be(buf: &[u8], pos: u64, size: u32) -> (r: Result<(PolygonTagMapping, u64), ParseError>)
        requires
            pos_ok(buf@, pos as int),
        ensures
            parsed_as(r, spec_polygon_tag_mapping(buf@, pos as int, size)),
            ends_ok(r, buf@, pos as int),
    {
        let start = pos;
        let (kind, q1) = ID4::read_be(buf, pos)?;
        let mut tags = PolygonTags::new();
        let mut p = q1;
        while p - start < size as u64
            invariant
                start <= p,
                start == pos,
                pos_ok(buf@, p as int),
                spec_id4(buf@, pos as int) == Ok::<(u32, int), ParseError>((kind@, q1 as int)),
                ptag_loop(buf@, start as int, size as int, p as int, tags@)
                    == ptag_loop(buf@, start as int, size as int, q1 as int, seq![]),
            decreases loop_measure(start as int, size as int, p as int),
        {
            let (v, q) = VX::read_be(buf, p)?;
            let (t, q2) = read_u16(buf, q)?;
            tags.insert(v, t);
            p = q2;
        }
        Ok((PolygonTagMapping { kind, tags }, p))
    }

    pub fn write_be(&self, out: &mut Vec<u8>)
        ensures
            final(out)@ == old(out)@ + polygon_tag_mapping_bytes(self@),
    {
        proof {
            ID4::lemma_bytes_of_code(self.kind);
        }
        self.kind.write_be(out);
        let es = self.tags.as_slice();
        let ghost base = out@;
        let mut i: usize = 0;
        assert(es@.take(0) =~= Seq::<(VX, u16)>::empty());
        while i < es.len()
            invariant
                i <= es@.len(),
                base == old(out)@ + u32_bytes(self.kind@),
                out@ == base + tag_entries_bytes(es@.take(i as int)),
            decreases es@.len() - i,
        {
            es[i].0.write_be(out);
            write_u16(out, es[i].1);
            assert(es@.take(i + 1).drop_last() =~= es@.take(i as int));
            i = i + 1;
            assert(out@ =~= base + tag_entries_bytes(es@.take(i as int)));
        }
        assert(es@.take(i as int) =~= es@);
        assert(out@ =~= old(out)@ + polygon_tag_mapping_bytes(self@));
    }
}


/// A polygon list with the discontinuous vertex maps and polygon tags that follow it.
#[derive(Debug)]
pub struct PolygonGroup {
    pub polygons: PolygonList,
    pub vertex_maps: Vec<DiscontinousVertexMap>,
    pub tags: Vec<PolygonTagMapping>,
}

pub type PolygonGroupView = (PolygonListView, Seq<VertexPairMapView>, Seq<PolygonTagMappingView>);

impl View for PolygonGroup {
    type V = PolygonGroupView;

    open spec fn view(&self) -> PolygonGroupView {
        (self.polygons@, views(self.vertex_maps@), views(self.tags@))
    }
}

impl PolygonGroup {
    pub fn new(polygons: PolygonList) -> (r: PolygonGroup)
        ensures
            r@ == (polygons@, Seq::<VertexPairMapView>::empty(), Seq::<PolygonTagMappingView>::empty()),
    {
        let vertex_maps: Vec<DiscontinousVertexMap> = Vec::new();
        let tags: Vec<PolygonTagMapping> = Vec::new();
        let r = PolygonGroup { polygons, vertex_maps, tags };
        assert(views(r.vertex_maps@) =~= Seq::<VertexPairMapView>::empty());
        assert(views(r.tags@) =~= Seq::<PolygonTagMappingView>::empty());
        r
    }
}

/// The polygon groups of a layer keyed by the code of their polygon kind, taken by their
/// views.
pub open spec fn groups_view(m: BTreeMap<u32, PolygonGroup>) -> Map<u32, PolygonGroupView> {
    Map::new(|k: u32| m@.dom().contains(k), |k: u32| m@[k]@)
}

/// The geometry chunks that follow a layer.
#[derive(Debug)]
pub struct LayerGeometry {
    pub points: Option<Points>,
    pub bounds: Option<BoundingBox>,
    pub vertex_map_parameters: Vec<VertexMapParameter>,
    pub vertex_maps: Vec<VertexMap>,
    pub vertex_edge_maps: Vec<VertexEdgeMap>,
    pub polygons: BTreeMap<u32, PolygonGroup>,
}

#[verifier::ext_equal]
pub struct LayerGeometryView {
    pub points: Option<Seq<(u32, u32, u32)>>,
    pub bounds: Option<((u32, u32, u32), (u32, u32, u32))>,
    pub vertex_map_parameters: Seq<(UvSubdivisionKind, i32)>,
    pub vertex_maps: Seq<VertexMapView>,
    pub vertex_edge_maps: Seq<VertexPairMapView>,
    pub polygons: Map<u32, PolygonGroupView>,
}

impl View for LayerGeometry {
    type V = LayerGeometryView;

    open spec fn view(&self) -> LayerGeometryView {
        LayerGeometryView {
            points: view_opt(self.points),
            bounds: view_opt(self.bounds),
            vertex_map_parameters: views(self.vertex_map_parameters@),
            vertex_maps: views(self.vertex_maps@),
            vertex_edge_maps: views(self.vertex_edge_maps@),
            polygons: groups_view(self.polygons),
        }
    }
}

/// Geometry with nothing in it.
pub open spec fn empty_geometry() -> LayerGeometryView {
    LayerGeometryView {
        points: None,
        bounds: None,
        vertex_map_parameters: Seq::empty(),
        vertex_maps: Seq::empty(),
        vertex_edge_maps: Seq::empty(),
        polygons: Map::empty(),
    }
}

impl LayerGeometry {
    pub fn new() -> (r: LayerGeometry)
        ensures
            r@ == empty_geometry(),
    {
        let r = LayerGeometry {
            points: None,
            bounds: None,
            vertex_map_parameters: Vec::new(),
            vertex_maps: Vec::new(),
            vertex_edge_maps: Vec::new(),
            polygons: BTreeMap::new(),
        };
        assert(r@ =~= empty_geometry());
        r
    }
}

impl Default for LayerGeometry {
    fn default() -> (r: LayerGeometry)
        ensures
            r@ == empty_geometry(),
    {
        LayerGeometry::new()
    }
}


/// A geometry layer (`LAYR`). Float fields hold IEEE-754 bit patterns. The geometry is not
/// part of the chunk: it is filled from the chunks that follow it in a file.
#[derive(Debug)]
pub struct Layer {
    pub index: u16,
    pub flags: LayerFlag,
    pub pivot: [u32; 3],
    pub name: NullString,
    pub parent: u16,
    pub subdivision_level: u32,
    pub curve_angle: u32,
    /// 3x3 matrix for scale and rotation
    pub matrix: [u32; 9],
    pub reference: u32,
    pub spline_patch_level: u16,
    pub future_expansion: [u16; 3],
    pub boundary_rules: BoundaryRules,
    pub catmull_render_level: u16,
    pub catmull_subdivision_level: u16,
    pub subdivision_render_level: u16,
    pub cache_normal_vectors: bool,
    pub catmull_current_level: u16,
    pub smoothing: Smoothing,
    pub multires: Option<Multiresolution>,
    pub geometry: LayerGeometry,
}

/// The fields of a layer that come before its parent.
pub type LayerHeadView = (u16, u16, Seq<u32>, Seq<u8>);

/// Parent, subdivision level, curve angle, matrix and reference.
pub type LayerMidView = (u16, u32, u32, Seq<u32>, u32);

/// Spline patch level, future expansion, boundary rules, the three levels, normal caching,
/// current level and smoothing.
pub type LayerTailView = (u16, Seq<u16>, BoundaryRules, u16, u16, u16, bool, u16, Smoothing);

#[verifier::ext_equal]
pub struct LayerView {
    pub head: LayerHeadView,
    pub mid: LayerMidView,
    pub tail: LayerTailView,
    pub multires: Option<(Seq<u8>, Seq<u8>, Seq<u8>)>,
    pub geometry: LayerGeometryView,
}

impl View for Layer {
    type V = LayerView;

    open spec fn view(&self) -> LayerView {
        LayerView {
            head: (self.index, self.flags.bits, self.pivot@, self.name@),
            mid: (self.parent, self.subdivision_level, self.curve_angle, self.matrix@, self.reference),
            tail: (
                self.spline_patch_level,
                self.future_expansion@,
                self.boundary_rules,
                self.catmull_render_level,
                self.catmull_subdivision_level,
                self.subdivision_render_level,
                self.cache_normal_vectors,
                self.catmull_current_level,
                self.smoothing,
            ),
            multires: view_opt(self.multires),
            geometry: self.geometry@,
        }
    }
}

pub open spec fn spec_layer_head(s: Seq<u8>, p: int) -> Result<(LayerHeadView, int), ParseError> {
    match spec_u16(s, p) {
        Ok((index, q1)) => match spec_u16(s, q1) {
            Ok((flags, q2)) => match spec_u32_array(s, q2, 3) {
                Ok((pivot, q3)) => match spec_aligned_nullstring(s, q3) {
                    Ok((name, q4)) => Ok(((index, flags, pivot, name), q4)),
                    Err(e) => Err(e),
                },
                Err(e) => Err(e),
            },
            Err(e) => Err(e),
        },
        Err(e) => Err(e),
    }
}

pub open spec fn spec_layer_mid(s: Seq<u8>, p: int) -> Result<(LayerMidView, int), ParseError> {
    match spec_u16(s, p) {
        Ok((parent, q1)) => match spec_u32(s, q1) {
            Ok((subdiv, q2)) => match spec_u32(s, q2) {
                Ok((curve, q3)) => match spec_u32_array(s, q3, 9) {
                    Ok((matrix, q4)) => match spec_u32(s, q4) {
                        Ok((reference, q5)) => Ok(((parent, subdiv, curve, matrix, reference), q5)),
                        Err(e) => Err(e),
                    },
                    Err(e) => Err(e),
                },
                Err(e) => Err(e),
            },
            Err(e) => Err(e),
        },
        Err(e) => Err(e),
    }
}

/// Three 16 bit values.
pub open spec fn spec_u16_triple(s: Seq<u8>, p: int) -> Result<(Seq<u16>, int), ParseError> {
    match spec_u16(s, p) {
        Ok((a, q1)) => match spec_u16(s, q1) {
            Ok((b, q2)) => match spec_u16(s, q2) {
                Ok((c, q3)) => Ok((seq![a, b, c], q3)),
                Err(e) => Err(e),
            },
            Err(e) => Err(e),
        },
        Err(e) => Err(e),
    }
}

/// The boundary rules and the three levels after them.
pub open spec fn spec_layer_levels(s: Seq<u8>, p: int) -> Result<((BoundaryRules, u16, u16, u16), int), ParseError> {
    match spec_u16(s, p) {
        Ok((b, q1)) => match boundary_rules_from(b) {
            Some(rules) => match spec_u16(s, q1) {
                Ok((cr, q2)) => match spec_u16(s, q2) {
                    Ok((cs, q3)) => match spec_u16(s, q3) {
                        Ok((sr, q4)) => Ok(((rules, cr, cs, sr), q4)),
                        Err(e) => Err(e),
                    },
                    Err(e) => Err(e),
                },
                Err(e) => Err(e),
            },
            None => Err(ParseError::NoVariantMatch),
        },
        Err(e) => Err(e),
    }
}

pub open spec fn spec_layer_tail(s: Seq<u8>, p: int) -> Result<(LayerTailView, int), ParseError> {
    match spec_u16(s, p) {
        Ok((spline, q1)) => match spec_u16_triple(s, q1) {
            Ok((future, q2)) => match spec_layer_levels(s, q2) {
                Ok(((rules, cr, cs, sr), q3)) => match spec_u16(s, q3) {
                    Ok((cache, q4)) => match spec_u16(s, q4) {
                        Ok((cc, q5)) => match spec_u16(s, q5) {
                            Ok((sm, q6)) => match smoothing_from(sm) {
                                Some(smoothing) => Ok(
                                    ((spline, future, rules, cr, cs, sr, cache != 0, cc, smoothing), q6),
                                ),
                                None => Err(ParseError::NoVariantMatch),
                            },
                            Err(e) => Err(e),
                        },
                        Err(e) => Err(e),
                    },
                    Err(e) => Err(e),
                },
                Err(e) => Err(e),
            },
            Err(e) => Err(e),
        },
        Err(e) => Err(e),
    }
}

/// Whether the layer flags announce multiresolution data.
pub open spec fn has_multires(flags: u16) -> bool {
    flags & 0x2000 == 0x2000
}

/// Grammar of a `LAYR` chunk: head, middle and tail fields, then multiresolution data when the
/// flags announce it. The geometry of a parsed layer is empty.
pub open spec fn spec_layer(s: Seq<u8>, p: int) -> Result<(LayerView, int), ParseError> {
    match spec_layer_head(s, p) {
        Ok((head, q1)) => match spec_layer_mid(s, q1) {
            Ok((mid, q2)) => match spec_layer_tail(s, q2) {
                Ok((tail, q3)) => if has_multires(head.1) {
                    match spec_multiresolution(s, q3) {
                        Ok((m, q4)) => Ok(
                            (
                                LayerView {
                                    head,
                                    mid,
                                    tail,
                                    multires: Some(m),
                                    geometry: empty_geometry(),
                                },
                                q4,
                            ),
                        ),
                        Err(e) => Err(e),
                    }
                } else {
                    Ok(
                        (
                            LayerView { head, mid, tail, multires: None, geometry: empty_geometry() },
                            q3,
                        ),
                    )
                },
                Err(e) => Err(e),
            },
            Err(e) => Err(e),
        },
        Err(e) => Err(e),
    }
}

fn read_layer_head(buf: &[u8], pos: u64) -> (r: Result<((u16, u16, [u32; 3], NullString), u64), ParseError>)
    requires
        pos_ok(buf@, pos as int),
    ensures
        parsed_as(r, spec_layer_head(buf@, pos as int)),
        ends_ok(r, buf@, pos as int),
{
    let (index, q1) = read_u16(buf, pos)?;
    let (flags, q2) = read_u16(buf, q1)?;
    let (pv, q3) = read_u32_array(buf, q2, 3)?;
    let pivot = [pv[0], pv[1], pv[2]];
    assert(pivot@ =~= pv@);
    let (name, q4) = read_aligned_nullstring(buf, q3)?;
    Ok(((index, flags, pivot, name), q4))
}

fn read_layer_mid(buf: &[u8], pos: u64) -> (r: Result<((u16, u32, u32, [u32; 9], u32), u64), ParseError>)
    requires
        pos_ok(buf@, pos as int),
    ensures
        parsed_as(r, spec_layer_mid(buf@, pos as int)),
        ends_ok(r, buf@, pos as int),
{
    let (parent, q1) = read_u16(buf, pos)?;
    let (subdiv, q2) = read_u32(buf, q1)?;
    let (curve, q3) = read_u32(buf, q2)?;
    let (m, q4) = read_u32_array(buf, q3, 9)?;
    let matrix = [m[0], m[1], m[2], m[3], m[4], m[5], m[6], m[7], m[8]];
    assert(matrix@ =~= m@);
    let (reference, q5) = read_u32(buf, q4)?;
    Ok(((parent, subdiv, curve, matrix, reference), q5))
}

fn read_layer_tail(buf: &[u8], pos: u64) -> (r: Result<
    ((u16, [u16; 3], BoundaryRules, u16, u16, u16, bool, u16, Smoothing), u64),
    ParseError,
>)
    requires
        pos_ok(buf@, pos as int),
    ensures
        parsed_as(r, spec_layer_tail(buf@, pos as int)),
        ends_ok(r, buf@, pos as int),
{
    let (spline, q1) = read_u16(buf, pos)?;
    let (a, qa) = read_u16(buf, q1)?;
    let (b, qb) = read_u16(buf, qa)?;
    let (c, q2) = read_u16(buf, qb)?;
    let future = [a, b, c];
    assert(future@ =~= seq![a, b, c]);
    let (br, qr) = read_u16(buf, q2)?;
    let rules = match BoundaryRules::from_number(br) {
        Some(x) => x,
        None => {
            return Err(ParseError::NoVariantMatch);
        },
    };
    let (cr, qc1) = read_u16(buf, qr)?;
    let (cs, qc2) = read_u16(buf, qc1)?;
    let (sr, q3) = read_u16(buf, qc2)?;
    let (cache, q4) = read_u16(buf, q3)?;
    let (cc, q5) = read_u16(buf, q4)?;
    let (sm, q6) = read_u16(buf, q5)?;
    let smoothing = match Smoothing::from_number(sm) {
        Some(x) => x,
        None => {
            return Err(ParseError::NoVariantMatch);
        },
    };
    Ok(((spline, future, rules, cr, cs, sr, cache != 0, cc, smoothing), q6))
}

impl Layer {
    pub fn read_be(buf: &[u8], pos: u64) -> (r: Result<(Layer, u64), ParseError>)
        requires
            pos_ok(buf@, pos as int),
        ensures
            parsed_as(r, spec_layer(buf@, pos as int)),
            ends_ok(r, buf@, pos as int),
    {
        let ((index, flags, pivot, name), q1) = read_layer_head(buf, pos)?;
        let ((parent, subdivision_level, curve_angle, matrix, reference), q2) = read_layer_mid(
            buf,
            q1,
        )?;
        let (
            (
                spline_patch_level,
                future_expansion,
                boundary_rules,
                catmull_render_level,
                catmull_subdivision_level,
                subdivision_render_level,
                cache_normal_vectors,
                catmull_current_level,
                smoothing,
            ),
            q3,
        ) = read_layer_tail(buf, q2)?;
        let flags = LayerFlag::from_bits_retain(flags);
        let mut q = q3;
        let multires = if flags.contains(LayerFlag::Multiresolution()) {
            let (m, q4) = Multiresolution::read_be(buf, q3)?;
            q = q4;
            Some(m)
        } else {
            None
        };
        let geometry = LayerGeometry::new();
        let layer = Layer {
            index,
            flags,
            pivot,
            name,
            parent,
            subdivision_level,
            curve_angle,
            matrix,
            reference,
            spline_patch_level,
            future_expansion,
            boundary_rules,
            catmull_render_level,
            catmull_subdivision_level,
            subdivision_render_level,
            cache_normal_vectors,
            catmull_current_level,
            smoothing,
            multires,
            geometry,
        };
        Ok((layer, q))
    }
}


/// Output after writing a layer; its geometry is not written.
pub open spec fn layer_write(out: Seq<u8>, v: LayerView) -> Seq<u8> {
    let h = v.head;
    let m = v.mid;
    let t = v.tail;
    let a = aligned_nullstring_write(out + u16_bytes(h.0) + u16_bytes(h.1) + u32_seq_bytes(h.2), h.3);
    let b = a + u16_bytes(m.0) + u32_bytes(m.1) + u32_bytes(m.2) + u32_seq_bytes(m.3) + u32_bytes(m.4);
    let c = b + u16_bytes(t.0) + u16_bytes(t.1[0]) + u16_bytes(t.1[1]) + u16_bytes(t.1[2])
        + u16_bytes(boundary_rules_number(t.2)) + u16_bytes(t.3) + u16_bytes(t.4) + u16_bytes(t.5)
        + u16_bytes(if t.6 { 1 } else { 0 }) + u16_bytes(t.7) + u16_bytes(smoothing_number(t.8));
    match v.multires {
        Some(mr) => multires_write(c, mr),
        None => c,
    }
}

impl Layer {
    pub fn write_be(&self, out: &mut Vec<u8>)
        ensures
            final(out)@ == layer_write(old(out)@, self@),
    {
        write_u16(out, self.index);
        write_u16(out, self.flags.bits());
        write_u32_seq(out, &self.pivot);
        write_aligned_nullstring(out, &self.name);
        let ghost a = out@;
        write_u16(out, self.parent);
        write_u32(out, self.subdivision_level);
        write_u32(out, self.curve_angle);
        write_u32_seq(out, &self.matrix);
        write_u32(out, self.reference);
        let ghost b = out@;
        write_u16(out, self.spline_patch_level);
        write_u16(out, self.future_expansion[0]);
        write_u16(out, self.future_expansion[1]);
        write_u16(out, self.future_expansion[2]);
        write_u16(out, self.boundary_rules.number());
        write_u16(out, self.catmull_render_level);
        write_u16(out, self.catmull_subdivision_level);
        write_u16(out, self.subdivision_render_level);
        write_u16(out, if self.cache_normal_vectors { 1 } else { 0 });
        write_u16(out, self.catmull_current_level);
        write_u16(out, self.smoothing.number());
        let ghost c = out@;
        match &self.multires {
            Some(m) => m.write_be(out),
            None => {},
        }
    }
}

} // verus!
