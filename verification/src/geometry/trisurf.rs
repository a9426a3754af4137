//! Trisurf geometry: `3GRP`, `3SRF`, `VRTS`, `TRIS`, `VVEC` and `TTGS`.
//!
//! Trisurfs are a simplified, frozen and triangulated geometry used by static meshes. A
//! `3GRP` chunk starts a group of `3SRF` trisurfaces; each trisurface is followed by its
//! vertex positions, triangles, vertex vectors and tags.

use crate::geometry::layer::{points_bytes, spec_points, Points};
use crate::meta::loop_measure;
use crate::primitives::{
    ends_ok, lemma_nullstring_advances, lemma_views_push, parsed_as, pos_ok, read_u32,
    read_u32_array, spec_id4, spec_u32, spec_u32_array, u32_bytes, u32_seq_bytes, views,
    write_u32, write_u32_seq, NullString, Point, ID4,
};
use crate::utils::{
    aligned_nullstring_write, read_aligned_nullstring, spec_aligned_nullstring,
    write_aligned_nullstring,
};
use crate::ParseError;
use vstd::prelude::*;

verus! {

broadcast use lemma_nullstring_advances;

/// Vertex positions of a trisurface (`VRTS`): three float bit patterns per vertex.
#[derive(Debug, Clone, PartialEq)]
pub struct TriSurfVertices(pub Vec<Point>);

impl View for TriSurfVertices {
    type V = Seq<(u32, u32, u32)>;

    open spec fn view(&self) -> Seq<(u32, u32, u32)> {
        views(self.0@)
    }
}

impl TriSurfVertices {
    /// Reads `count` vertices.
    pub fn read_be(buf: &[u8], pos: u64, count: u32) -> (r: Result<(TriSurfVertices, u64), ParseError>)
        requires
            pos_ok(buf@, pos as int),
        ensures
            parsed_as(r, spec_points(buf@, pos as int, count)),
            ends_ok(r, buf@, pos as int),
    {
        let (pts, q) = Points::read_be(buf, pos, count)?;
        Ok((TriSurfVertices(pts.0), q))
    }

    pub fn write_be(&self, out: &mut Vec<u8>)
        ensures
            final(out)@ == old(out)@ + points_bytes(self@),
    {
        let mut i: usize = 0;
        assert(views(self.0@).take(0) =~= Seq::<(u32, u32, u32)>::empty());
        while i < self.0.len()
            invariant
                i <= self.0@.len(),
                out@ == old(out)@ + points_bytes(views(self.0@).take(i as int)),
            decreases self.0@.len() - i,
        {
            self.0[i].write_be(out);
            assert(views(self.0@).take(i + 1).drop_last() =~= views(self.0@).take(i as int));
            i = i + 1;
        }
        assert(views(self.0@).take(i as int) =~= views(self.0@));
    }

    pub fn as_slice(&self) -> (r: &[Point])
        ensures
            r@ == self.0@,
    {
        self.0.as_slice()
    }

    pub fn len(&self) -> (r: usize)
        ensures
            r == self@.len(),
    {
        self.0.len()
    }

    pub fn is_empty(&self) -> (r: bool)
        ensures
            r == (self@.len() == 0),
    {
        self.0.len() == 0
    }
}

/// Triangles of a trisurface (`TRIS`): three vertex indices per triangle.
#[derive(Debug, Clone, PartialEq)]
pub struct TriSurfTriangles(pub Vec<u32>);

impl View for TriSurfTriangles {
    type V = Seq<u32>;

    open spec fn view(&self) -> Seq<u32> {
        self.0@
    }
}

impl TriSurfTriangles {
    /// Reads `count` triangles, that is `3 * count` indices.
    pub fn read_be(buf: &[u8], pos: u64, count: u32) -> (r: Result<(TriSurfTriangles, u64), ParseError>)
        requires
            pos_ok(buf@, pos as int),
        ensures
            parsed_as(r, spec_u32_array(buf@, pos as int, 3 * count)),
            ends_ok(r, buf@, pos as int),
    {
        let (v, q) = read_u32_array(buf, pos, 3 * count as u64)?;
        Ok((TriSurfTriangles(v), q))
    }

    pub fn write_be(&self, out: &mut Vec<u8>)
        ensures
            final(out)@ == old(out)@ + u32_seq_bytes(self@),
    {
        write_u32_seq(out, self.0.as_slice());
    }
}

/// A vertex vector of a trisurface (`VVEC`), such as colours or a morph. The values are float
/// bit patterns.
#[derive(Debug, Clone, PartialEq)]
pub struct TriSurfVertexVectors {
    pub kind: ID4,
    pub dimensions: u32,
    pub name: NullString,
    pub vectors: Vec<u32>,
}

pub type VertexVectorsView = (u32, u32, Seq<u8>, Seq<u32>);

impl View for TriSurfVertexVectors {
    type V = VertexVectorsView;

    open spec fn view(&self) -> VertexVectorsView {
        (self.kind@, self.dimensions, self.name@, self.vectors@)
    }
}

/// Grammar of a `VVEC` chunk of `size` bytes: kind, dimensions and even aligned name; the rest
/// of the chunk is values, so it must be a whole number of 4 byte values.
pub open spec fn spec_vertex_vectors(s: Seq<u8>, p: int, size: u32) -> Result<
    (VertexVectorsView, int),
    ParseError,
> {
    match spec_id4(s, p) {
        Ok((kind, q1)) => match spec_u32(s, q1) {
            Ok((dims, q2)) => match spec_aligned_nullstring(s, q2) {
                Ok((name, q3)) => {
                    let read = q3 - p;
                    if read > size {
                        Err(ParseError::InvalidSize)
                    } else if (size - read) % 4 != 0 {
                        Err(ParseError::InvalidSize)
                    } else {
                        match spec_u32_array(s, q3, (size - read) / 4) {
                            Ok((vectors, q4)) => Ok(((kind, dims, name, vectors), q4)),
                            Err(e) => Err(e),
                        }
                    }
                },
                Err(e) => Err(e),
            },
            Err(e) => Err(e),
        },
        Err(e) => Err(e),
    }
}

pub open spec fn vertex_vectors_write(out: Seq<u8>, v: VertexVectorsView) -> Seq<u8> {
    aligned_nullstring_write(out + u32_bytes(v.0) + u32_bytes(v.1), v.2) + u32_seq_bytes(v.3)
}

impl TriSurfVertexVectors {
    pub fn read_be(buf: &[u8], pos: u64, size: u32) -> (r: Result<(TriSurfVertexVectors, u64), ParseError>)
        requires
            pos_ok(buf@, pos as int),
        ensures
            parsed_as(r, spec_vertex_vectors(buf@, pos as int, size)),
            ends_ok(r, buf@, pos as int),
    {
        let (kind, q1) = ID4::read_be(buf, pos)?;
        let (dimensions, q2) = read_u32(buf, q1)?;
        let (name, q3) = read_aligned_nullstring(buf, q2)?;
        let read = q3 - pos;
        if read > size as u64 {
            return Err(ParseError::InvalidSize);
        }
        let left = size as u64 - read;
        if left % 4 != 0 {
            return Err(ParseError::InvalidSize);
        }
        let (vectors, q4) = read_u32_array(buf, q3, left / 4)?;
        Ok((TriSurfVertexVectors { kind, dimensions, name, vectors }, q4))
    }

    pub fn write_be(&self, out: &mut Vec<u8>)
        ensures
            final(out)@ == vertex_vectors_write(old(out)@, self@),
    {
        proof {
            ID4::lemma_bytes_of_code(self.kind);
        }
        self.kind.write_be(out);
        write_u32(out, self.dimensions);
        write_aligned_nullstring(out, &self.name);
        write_u32_seq(out, self.vectors.as_slice());
    }
}

/// One trisurface tag: a kind and an even aligned name.
#[derive(Debug, Clone, PartialEq, Eq)]
pub struct TriSurfTag {
    pub kind: ID4,
    pub name: NullString,
}

impl View for TriSurfTag {
    type V = (u32, Seq<u8>);

    open spec fn view(&self) -> (u32, Seq<u8>) {
        (self.kind@, self.name@)
    }
}

pub open spec fn spec_trisurf_tag(s: Seq<u8>, p: int) -> Result<((u32, Seq<u8>), int), ParseError> {
    match spec_id4(s, p) {
        Ok((kind, q1)) => match spec_aligned_nullstring(s, q1) {
            Ok((name, q2)) => Ok(((kind, name), q2)),
            Err(e) => Err(e),
        },
        Err(e) => Err(e),
    }
}

pub open spec fn trisurf_tag_write(out: Seq<u8>, v: (u32, Seq<u8>)) -> Seq<u8> {
    aligned_nullstring_write(out + u32_bytes(v.0), v.1)
}

impl TriSurfTag {
    pub fn read_be(buf: &[u8], pos: u64) -> (r: Result<(TriSurfTag, u64), ParseError>)
        requires
            pos_ok(buf@, pos as int),
        ensures
            parsed_as(r, spec_trisurf_tag(buf@, pos as int)),
            ends_ok(r, buf@, pos as int),
    {
        let (kind, q1) = ID4::read_be(buf, pos)?;
        let (name, q2) = read_aligned_nullstring(buf, q1)?;
        Ok((TriSurfTag { kind, name }, q2))
    }

    pub fn write_be(&self, out: &mut Vec<u8>)
        ensures
            final(out)@ == trisurf_tag_write(old(out)@, self@),
    {
        proof {
            ID4::lemma_bytes_of_code(self.kind);
        }
        self.kind.write_be(out);
        write_aligned_nullstring(out, &self.name);
    }
}

/// Tags of a trisurface (`TTGS`).
#[derive(Debug, Clone, PartialEq)]
pub struct TriSurfTags(pub Vec<TriSurfTag>);

impl View for TriSurfTags {
    type V = Seq<(u32, Seq<u8>)>;

    open spec fn view(&self) -> Seq<(u32, Seq<u8>)> {
        views(self.0@)
    }
}

/// The tag loop of `TTGS`: tags while fewer than `size` bytes have been read since `start`.
pub open spec fn ttgs_loop(
    s: Seq<u8>,
    start: int,
    size: int,
    p: int,
    acc: Seq<(u32, Seq<u8>)>,
) -> Result<(Seq<(u32, Seq<u8>)>, int), ParseError>
    decreases loop_measure(start, size, p),
{
    if p - start < size {
        match spec_trisurf_tag(s, p) {
            Ok((t, q)) => ttgs_loop(s, start, size, q, acc.push(t)),
            Err(e) => Err(e),
        }
    } else {
        Ok((acc, p))
    }
}

pub open spec fn spec_trisurf_tags(s: Seq<u8>, p: int, size: u32) -> Result<
    (Seq<(u32, Seq<u8>)>, int),
    ParseError,
> {
    ttgs_loop(s, p, size as int, p, seq![])
}

pub open spec fn trisurf_tags_write(out: Seq<u8>, ts: Seq<(u32, Seq<u8>)>) -> Seq<u8>
    decreases ts.len(),
{
    if ts.len() == 0 {
        out
    } else {
        trisurf_tag_write(trisurf_tags_write(out, ts.drop_last()), ts.last())
    }
}

impl TriSurfTags {
    pub fn read_be(buf: &[u8], pos: u64, size: u32) -> (r: Result<(TriSurfTags, u64), ParseError>)
        requires
            pos_ok(buf@, pos as int),
        ensures
            parsed_as(r, spec_trisurf_tags(buf@, pos as int, size)),
            ends_ok(r, buf@, pos as int),
    {
        let start = pos;
        let mut p = pos;
        let mut tags: Vec<TriSurfTag> = Vec::new();
        assert(views(tags@) =~= Seq::<(u32, Seq<u8>)>::empty());
        while p - start < size as u64
            invariant
                start <= p,
                start == pos,
                pos_ok(buf@, p as int),
                ttgs_loop(buf@, start as int, size as int, p as int, views(tags@))
                    == spec_trisurf_tags(buf@, pos as int, size),
            decreases loop_measure(start as int, size as int, p as int),
        {
            let (t, q) = TriSurfTag::read_be(buf, p)?;
            proof {
                lemma_views_push(tags@, t);
            }
            tags.push(t);
            p = q;
        }
        Ok((TriSurfTags(tags), p))
    }

    pub fn write_be(&self, out: &mut Vec<u8>)
        ensures
            final(out)@ == trisurf_tags_write(old(out)@, self@),
    {
        let mut i: usize = 0;
        assert(views(self.0@).take(0) =~= Seq::<(u32, Seq<u8>)>::empty());
        while i < self.0.len()
            invariant
                i <= self.0@.len(),
                out@ == trisurf_tags_write(old(out)@, views(self.0@).take(i as int)),
            decreases self.0@.len() - i,
        {
            self.0[i].write_be(out);
            assert(views(self.0@).take(i + 1).drop_last() =~= views(self.0@).take(i as int));
            i = i + 1;
        }
        assert(views(self.0@).take(i as int) =~= views(self.0@));
    }

    pub fn as_slice(&self) -> (r: &[TriSurfTag])
        ensures
            r@ == self.0@,
    {
        self.0.as_slice()
    }

    pub fn len(&self) -> (r: usize)
        ensures
            r == self@.len(),
    {
        self.0.len()
    }

    pub fn is_empty(&self) -> (r: bool)
        ensures
            r == (self@.len() == 0),
    {
        self.0.len() == 0
    }
}

/// A trisurface (`3SRF`): the counts of its parts and the parts read so far.
#[derive(Debug)]
pub struct TriSurfDataHeader {
    /// Number of vertices in the `VRTS` chunk.
    pub vertex_count: u32,
    /// Number of triangles in the `TRIS` chunk.
    pub triangle_count: u32,
    /// Number of `VVEC` chunks.
    pub vertex_vector_count: u32,
    /// Number of tags in the `TTGS` chunk.
    pub tag_count: u32,
    /// Flags for future expansion.
    pub flags: u32,
    pub vertices: Option<TriSurfVertices>,
    pub triangles: Option<TriSurfTriangles>,
    pub vectors: Vec<TriSurfVertexVectors>,
    pub tags: Option<TriSurfTags>,
}

#[verifier::ext_equal]
pub struct TriSurfDataView {
    /// Vertex, triangle, vertex vector and tag counts, and flags.
    pub counts: (u32, u32, u32, u32, u32),
    pub vertices: Option<Seq<(u32, u32, u32)>>,
    pub triangles: Option<Seq<u32>>,
    pub vectors: Seq<VertexVectorsView>,
    pub tags: Option<Seq<(u32, Seq<u8>)>>,
}

pub open spec fn opt_view_vertices(o: Option<TriSurfVertices>) -> Option<Seq<(u32, u32, u32)>> {
    match o {
        Some(v) => Some(v@),
        None => None,
    }
}

impl View for TriSurfDataHeader {
    type V = TriSurfDataView;

    open spec fn view(&self) -> TriSurfDataView {
        TriSurfDataView {
            counts: (
                self.vertex_count,
                self.triangle_count,
                self.vertex_vector_count,
                self.tag_count,
                self.flags,
            ),
            vertices: opt_view_vertices(self.vertices),
            triangles: match self.triangles {
                Some(t) => Some(t@),
                None => None,
            },
            vectors: views(self.vectors@),
            tags: match self.tags {
                Some(t) => Some(t@),
                None => None,
            },
        }
    }
}

/// A trisurface with the given counts and no parts.
pub open spec fn bare_trisurf(counts: (u32, u32, u32, u32, u32)) -> TriSurfDataView {
    TriSurfDataView { counts, vertices: None, triangles: None, vectors: Seq::empty(), tags: None }
}

/// Grammar of a `3SRF` chunk: five 32 bit values.
pub open spec fn spec_trisurf_data(s: Seq<u8>, p: int) -> Result<(TriSurfDataView, int), ParseError> {
    match spec_u32_array(s, p, 5) {
        Ok((v, q)) => Ok((bare_trisurf((v[0], v[1], v[2], v[3], v[4])), q)),
        Err(e) => Err(e),
    }
}

impl TriSurfDataHeader {
    pub fn read_be(buf: &[u8], pos: u64) -> (r: Result<(TriSurfDataHeader, u64), ParseError>)
        requires
            pos_ok(buf@, pos as int),
        ensures
            parsed_as(r, spec_trisurf_data(buf@, pos as int)),
            ends_ok(r, buf@, pos as int),
    {
        let (v, q) = read_u32_array(buf, pos, 5)?;
        let h = TriSurfDataHeader {
            vertex_count: v[0],
            triangle_count: v[1],
            vertex_vector_count: v[2],
            tag_count: v[3],
            flags: v[4],
            vertices: None,
            triangles: None,
            vectors: Vec::new(),
            tags: None,
        };
        assert(h@ =~= bare_trisurf((v@[0], v@[1], v@[2], v@[3], v@[4])));
        Ok((h, q))
    }

    /// Writes the five values of the `3SRF` chunk; the parts are chunks of their own.
    pub fn write_be(&self, out: &mut Vec<u8>)
        ensures
            final(out)@ == old(out)@ + u32_bytes(self.vertex_count) + u32_bytes(self.triangle_count)
                + u32_bytes(self.vertex_vector_count) + u32_bytes(self.tag_count) + u32_bytes(
                self.flags,
            ),
    {
        write_u32(out, self.vertex_count);
        write_u32(out, self.triangle_count);
        write_u32(out, self.vertex_vector_count);
        write_u32(out, self.tag_count);
        write_u32(out, self.flags);
    }
}

/// A trisurface group (`3GRP`) and the trisurfaces read after it.
#[derive(Debug)]
pub struct TriSurfGroupHeader {
    /// Number of trisurfaces in the group.
    pub trisurf_count: u32,
    /// Item reference index that this group belongs to.
    pub item_reference: u32,
    /// Flags for future expansion.
    pub flags: u32,
    pub trisurfaces: Vec<TriSurfDataHeader>,
}

pub type TriSurfGroupView = ((u32, u32, u32), Seq<TriSurfDataView>);

impl View for TriSurfGroupHeader {
    type V = TriSurfGroupView;

    open spec fn view(&self) -> TriSurfGroupView {
        ((self.trisurf_count, self.item_reference, self.flags), views(self.trisurfaces@))
    }
}

/// Grammar of a `3GRP` chunk: three 32 bit values; the group has no trisurfaces yet.
pub open spec fn spec_trisurf_group(s: Seq<u8>, p: int) -> Result<(TriSurfGroupView, int), ParseError> {
    match spec_u32_array(s, p, 3) {
        Ok((v, q)) => Ok((((v[0], v[1], v[2]), Seq::empty()), q)),
        Err(e) => Err(e),
    }
}

impl TriSurfGroupHeader {
    pub fn read_be(buf: &[u8], pos: u64) -> (r: Result<(TriSurfGroupHeader, u64), ParseError>)
        requires
            pos_ok(buf@, pos as int),
        ensures
            parsed_as(r, spec_trisurf_group(buf@, pos as int)),
            ends_ok(r, buf@, pos as int),
    {
        let (v, q) = read_u32_array(buf, pos, 3)?;
        let h = TriSurfGroupHeader {
            trisurf_count: v[0],
            item_reference: v[1],
            flags: v[2],
            trisurfaces: Vec::new(),
        };
        assert(views(h.trisurfaces@) =~= Seq::<TriSurfDataView>::empty());
        Ok((h, q))
    }

    /// Writes the three values of the `3GRP` chunk; the trisurfaces are chunks of their own.
    pub fn write_be(&self, out: &mut Vec<u8>)
        ensures
            final(out)@ == old(out)@ + u32_bytes(self.trisurf_count) + u32_bytes(self.item_reference)
                + u32_bytes(self.flags),
    {
        write_u32(out, self.trisurf_count);
        write_u32(out, self.item_reference);
        write_u32(out, self.flags);
    }
}

} // verus!
