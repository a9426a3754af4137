//! A whole scene file: the `FORM` header and the top level chunks that follow it.

use crate::animation::{spec_action, spec_envelope, Action, ActionView, Envelope};
use crate::geometry::layer::Layer;
use crate::geometry::trisurf::TriSurfGroupHeader;
use crate::item::{spec_data_block, spec_item, DataBlock, Item, ItemView};
use crate::media::{spec_audio, Audio};
use crate::meta::{
    spec_application_version, spec_channel_names, spec_encoding, spec_include_as_subscene,
    spec_item_tags, spec_preview, spec_reference, spec_subscene, spec_two_strings, spec_version,
    ApplicationVersion, ChannelNames, Description, Encoding, FlatView, IncludeAsSubscene,
    ItemReferenceView, ItemTags, Preview, Reference, Subscene, Version,
};
use crate::geometry::layer::{
    spec_layer, spec_points, spec_polygon_list, spec_polygon_tag_mapping,
    spec_vertex_map, spec_vertex_map_parameter, spec_vertex_pair_map, BoundingBox,
    DiscontinousVertexMap, LayerGeometryView, LayerView, Points, PolygonGroup, PolygonGroupView,
    PolygonList, PolygonTagMapping, VertexEdgeMap, VertexMap, VertexMapParameter, groups_view,
};
use crate::item::spec_bounding_box;
use crate::geometry::trisurf::{
    spec_trisurf_data, spec_trisurf_group, spec_trisurf_tags, spec_vertex_vectors,
    TriSurfDataHeader, TriSurfDataView, TriSurfGroupView, TriSurfTags, TriSurfTriangles,
    TriSurfVertexVectors, TriSurfVertices,
};
use crate::primitives::{
    ends_ok, id4_of_code, lemma_views_push, parsed_as, pos_ok, read_u32, spec_chunk_header,
    spec_u32, spec_u32_array, views, view_opt, ChunkHeader, ID4, MAX_INPUT,
};
use crate::tags::{
    AANI, ACTN, APPV, BBOX, CHNM, DATA, DESC, ENCO, ENVL, FORM, GRP3, IASS, ITEM, LAYR, LXOB,
    LXPE, LXPM, LXPR, PNTS, POLS, PRVW, PTAG, SRF3, SUBS, TAGS, TRIS, TTGS, VMAD, VMAP, VMED,
    UNKN, VMPA, VRSN, VRTS, VVEC, XREF,
};
use crate::ParseError;
use vstd::prelude::*;

verus! {

/// The kind of scene file, stored as a four character code after the file size.
#[derive(Debug, Clone, Copy, PartialEq, Eq, Structural)]
pub enum Extension {
    /// scene file
    LXOB,
    /// preset assembly
    LXPR,
    /// preset environment
    LXPE,
    /// preset item
    LXPM,
}

impl View for Extension {
    type V = Extension;

    open spec fn view(&self) -> Extension {
        *self
    }
}

pub open spec fn extension_from(value: u32) -> Option<Extension> {
    if value == LXOB {
        Some(Extension::LXOB)
    } else if value == LXPR {
        Some(Extension::LXPR)
    } else if value == LXPE {
        Some(Extension::LXPE)
    } else if value == LXPM {
        Some(Extension::LXPM)
    } else {
        None
    }
}

pub open spec fn extension_code(e: Extension) -> u32 {
    match e {
        Extension::LXOB => LXOB,
        Extension::LXPR => LXPR,
        Extension::LXPE => LXPE,
        Extension::LXPM => LXPM,
    }
}

impl Extension {
    pub fn from_u32(value: u32) -> (r: Option<Self>)
        ensures
            r == extension_from(value),
    {
        if value == LXOB {
            Some(Extension::LXOB)
        } else if value == LXPR {
            Some(Extension::LXPR)
        } else if value == LXPE {
            Some(Extension::LXPE)
        } else if value == LXPM {
            Some(Extension::LXPM)
        } else {
            None
        }
    }

    /// The four character code of the extension.
    pub fn code(&self) -> (r: u32)
        ensures
            r == extension_code(*self),
    {
        match self {
            Extension::LXOB => LXOB,
            Extension::LXPR => LXPR,
            Extension::LXPE => LXPE,
            Extension::LXPM => LXPM,
        }
    }

    /// The extension with code `value`, or `NonSupportedExtension`.
    pub fn try_from_u32(value: u32) -> (r: Result<Self, ParseError>)
        ensures
            r == match extension_from(value) {
                Some(e) => Ok::<Extension, ParseError>(e),
                None => Err(ParseError::NonSupportedExtension),
            },
    {
        match Extension::from_u32(value) {
            Some(e) => Ok(e),
            None => Err(ParseError::NonSupportedExtension),
        }
    }
}

/// The file header: `FORM`, the size of what follows the size field, and the extension.
#[derive(Debug, Clone, Copy, PartialEq, Eq)]
pub struct Header {
    pub size: u32,
    pub kind: Extension,
}

impl View for Header {
    type V = (u32, Extension);

    open spec fn view(&self) -> (u32, Extension) {
        (self.size, self.kind)
    }
}

/// Grammar of the file header: the tag `FORM`, the size and a supported extension.
pub open spec fn spec_header(s: Seq<u8>, p: int) -> Result<((u32, Extension), int), ParseError> {
    match spec_u32(s, p) {
        Ok((magic, q1)) => if magic != FORM {
            Err(ParseError::InvalidMagicNumber)
        } else {
            match spec_u32(s, q1) {
                Ok((size, q2)) => match spec_u32(s, q2) {
                    Ok((k, q3)) => match extension_from(k) {
                        Some(kind) => Ok(((size, kind), q3)),
                        None => Err(ParseError::NonSupportedExtension),
                    },
                    Err(e) => Err(e),
                },
                Err(e) => Err(e),
            }
        },
        Err(e) => Err(e),
    }
}

impl Header {
    pub fn read_be(buf: &[u8], pos: u64) -> (r: Result<(Header, u64), ParseError>)
        requires
            pos_ok(buf@, pos as int),
        ensures
            parsed_as(r, spec_header(buf@, pos as int)),
            ends_ok(r, buf@, pos as int),
    {
        let (magic, q1) = read_u32(buf, pos)?;
        if magic != FORM {
            return Err(ParseError::InvalidMagicNumber);
        }
        let (size, q2) = read_u32(buf, q1)?;
        let (k, q3) = read_u32(buf, q2)?;
        let kind = Extension::try_from_u32(k)?;
        Ok((Header { size, kind }, q3))
    }
}


/// Everything a scene file holds after its header, taken by views.
#[verifier::ext_equal]
pub struct SceneView {
    pub preview: Option<(u16, u16, u32, u32, Seq<u8>)>,
    pub description: Option<(Seq<u8>, Seq<u8>)>,
    pub version: Option<(u32, u32, Seq<u8>)>,
    pub application_version: Option<(u32, u32, u32, u32, Seq<u8>)>,
    pub encoding: Option<Encoding>,
    pub included_subscene: Option<(Seq<(Seq<u8>, Seq<u8>)>, Seq<FlatView>)>,
    pub subscenes: Seq<(Seq<u8>, Seq<u8>, Seq<ItemReferenceView>)>,
    pub references: Seq<(u32, Seq<u8>, (u16, Seq<u32>), (u16, u32))>,
    pub item_tags: Option<Seq<Seq<u8>>>,
    pub channel_names: Option<(u32, Seq<Seq<u8>>)>,
    pub layers: Seq<LayerView>,
    pub trisurfs: Seq<TriSurfGroupView>,
    pub items: Seq<ItemView>,
    pub envelopes: Seq<Envelope>,
    pub actions: Seq<ActionView>,
    pub data_blocks: Seq<(u32, u32, Seq<u8>, Seq<u8>)>,
    pub audio: Option<(Option<u32>, Option<(u16, u16, u16, u32)>)>,
}

/// A scene before any chunk has been read.
pub open spec fn empty_scene() -> SceneView {
    SceneView {
        preview: None,
        description: None,
        version: None,
        application_version: None,
        encoding: None,
        included_subscene: None,
        subscenes: Seq::empty(),
        references: Seq::empty(),
        item_tags: None,
        channel_names: None,
        layers: Seq::empty(),
        trisurfs: Seq::empty(),
        items: Seq::empty(),
        envelopes: Seq::empty(),
        actions: Seq::empty(),
        data_blocks: Seq::empty(),
        audio: None,
    }
}

/// A parsed scene file.
#[derive(Debug)]
pub struct LuxologyFile {
    pub header: Header,
    /// Optional thumbnail for the scene
    pub preview: Option<Preview>,
    pub description: Option<Description>,
    pub version: Option<Version>,
    pub application_version: Option<ApplicationVersion>,
    pub encoding: Option<Encoding>,
    /// Even scenes without sub-scenes tend to have this chunk
    pub included_subscene: Option<IncludeAsSubscene>,
    /// References are included as sub-scenes and references, `SUBS` and `XREF` chunks
    pub subscenes: Vec<Subscene>,
    pub references: Vec<Reference>,
    pub item_tags: Option<ItemTags>,
    pub channel_names: Option<ChannelNames>,
    /// A layer chunk is followed by the chunks of its geometry
    pub layers: Vec<Layer>,
    pub trisurfs: Vec<TriSurfGroupHeader>,
    pub items: Vec<Item>,
    pub envelopes: Vec<Envelope>,
    pub actions: Vec<Action>,
    pub data_blocks: Vec<DataBlock>,
    /// Files tend to end with audio
    pub audio: Option<Audio>,
}

impl View for LuxologyFile {
    type V = ((u32, Extension), SceneView);

    open spec fn view(&self) -> ((u32, Extension), SceneView) {
        (
            self.header@,
            SceneView {
                preview: view_opt(self.preview),
                description: view_opt(self.description),
                version: view_opt(self.version),
                application_version: view_opt(self.application_version),
                encoding: self.encoding,
                included_subscene: view_opt(self.included_subscene),
                subscenes: views(self.subscenes@),
                references: views(self.references@),
                item_tags: view_opt(self.item_tags),
                channel_names: view_opt(self.channel_names),
                layers: views(self.layers@),
                trisurfs: views(self.trisurfs@),
                items: views(self.items@),
                envelopes: self.envelopes@,
                actions: views(self.actions@),
                data_blocks: views(self.data_blocks@),
                audio: view_opt(self.audio),
            },
        )
    }
}

/// Chunks of scene meta data: preview, description, versions, encoding, sub-scenes,
/// references, item tags and channel names.
pub open spec fn is_meta_kind(kind: u32) -> bool {
    kind == PRVW || kind == DESC || kind == VRSN || kind == APPV || kind == ENCO || kind == IASS
        || kind == SUBS || kind == XREF || kind == TAGS || kind == CHNM
}

/// What a meta data chunk of kind `kind` and `size` bytes, whose data starts at `q`, does to
/// the scene: it sets (or, for sub-scenes and references, appends) its value.
pub open spec fn meta_step(s: Seq<u8>, q: int, kind: u32, size: u32, sc: SceneView) -> Result<
    (SceneView, int),
    ParseError,
> {
    if kind == PRVW {
        match spec_preview(s, q, size) {
            Ok((v, q2)) => Ok((SceneView { preview: Some(v), ..sc }, q2)),
            Err(e) => Err(e),
        }
    } else if kind == DESC {
        match spec_two_strings(s, q) {
            Ok((v, q2)) => Ok((SceneView { description: Some(v), ..sc }, q2)),
            Err(e) => Err(e),
        }
    } else if kind == VRSN {
        match spec_version(s, q) {
            Ok((v, q2)) => Ok((SceneView { version: Some(v), ..sc }, q2)),
            Err(e) => Err(e),
        }
    } else if kind == APPV {
        match spec_application_version(s, q) {
            Ok((v, q2)) => Ok((SceneView { application_version: Some(v), ..sc }, q2)),
            Err(e) => Err(e),
        }
    } else if kind == ENCO {
        match spec_encoding(s, q) {
            Ok((v, q2)) => Ok((SceneView { encoding: Some(v), ..sc }, q2)),
            Err(e) => Err(e),
        }
    } else if kind == IASS {
        match spec_include_as_subscene(s, q, size) {
            Ok((v, q2)) => Ok((SceneView { included_subscene: Some(v), ..sc }, q2)),
            Err(e) => Err(e),
        }
    } else if kind == SUBS {
        match spec_subscene(s, q, size) {
            Ok((v, q2)) => Ok((SceneView { subscenes: sc.subscenes.push(v), ..sc }, q2)),
            Err(e) => Err(e),
        }
    } else if kind == XREF {
        match spec_reference(s, q) {
            Ok((v, q2)) => Ok((SceneView { references: sc.references.push(v), ..sc }, q2)),
            Err(e) => Err(e),
        }
    } else if kind == TAGS {
        match spec_item_tags(s, q, size) {
            Ok((v, q2)) => Ok((SceneView { item_tags: Some(v), ..sc }, q2)),
            Err(e) => Err(e),
        }
    } else {
        match spec_channel_names(s, q, size) {
            Ok((v, q2)) => Ok((SceneView { channel_names: Some(v), ..sc }, q2)),
            Err(e) => Err(e),
        }
    }
}

/// Chunks of items, envelopes, actions, data blocks and audio.
pub open spec fn is_scene_kind(kind: u32) -> bool {
    kind == ITEM || kind == ENVL || kind == ACTN || kind == DATA || kind == AANI
}

pub open spec fn scene_step(s: Seq<u8>, q: int, kind: u32, size: u32, sc: SceneView) -> Result<
    (SceneView, int),
    ParseError,
> {
    if kind == ITEM {
        match spec_item(s, q, size) {
            Ok((v, q2)) => Ok((SceneView { items: sc.items.push(v), ..sc }, q2)),
            Err(e) => Err(e),
        }
    } else if kind == ENVL {
        match spec_envelope(s, q) {
            Ok((v, q2)) => Ok((SceneView { envelopes: sc.envelopes.push(v), ..sc }, q2)),
            Err(e) => Err(e),
        }
    } else if kind == ACTN {
        match spec_action(s, q, size) {
            Ok((v, q2)) => Ok((SceneView { actions: sc.actions.push(v), ..sc }, q2)),
            Err(e) => Err(e),
        }
    } else if kind == DATA {
        match spec_data_block(s, q, size) {
            Ok((v, q2)) => Ok((SceneView { data_blocks: sc.data_blocks.push(v), ..sc }, q2)),
            Err(e) => Err(e),
        }
    } else {
        match spec_audio(s, q, size) {
            Ok((v, q2)) => Ok((SceneView { audio: Some(v), ..sc }, q2)),
            Err(e) => Err(e),
        }
    }
}

/// The exact result of a chunk step that updates the scene part of `file`.
pub open spec fn step_done(
    r: Result<u64, ParseError>,
    spec: Result<(SceneView, int), ParseError>,
    s: Seq<u8>,
    q: int,
    old_file: ((u32, Extension), SceneView),
    new_file: ((u32, Extension), SceneView),
) -> bool {
    match r {
        Ok(q2) => spec == Ok::<(SceneView, int), ParseError>((new_file.1, q2 as int)) && q <= q2
            && pos_ok(s, q2 as int) && new_file.0 == old_file.0,
        Err(e) => spec == Err::<(SceneView, int), ParseError>(e),
    }
}

fn read_meta_chunk(buf: &[u8], q: u64, kind: u32, size: u32, file: &mut LuxologyFile) -> (r: Result<
    u64,
    ParseError,
>)
    requires
        pos_ok(buf@, q as int),
        is_meta_kind(kind),
    ensures
        step_done(r, meta_step(buf@, q as int, kind, size, old(file)@.1), buf@, q as int, old(file)@, final(file)@),
{
    if kind == PRVW {
        let (v, q2) = Preview::read_be(buf, q, size)?;
        file.preview = Some(v);
        Ok(q2)
    } else if kind == DESC {
        let (v, q2) = Description::read_be(buf, q)?;
        file.description = Some(v);
        Ok(q2)
    } else if kind == VRSN {
        let (v, q2) = Version::read_be(buf, q)?;
        file.version = Some(v);
        Ok(q2)
    } else if kind == APPV {
        let (v, q2) = ApplicationVersion::read_be(buf, q)?;
        file.application_version = Some(v);
        Ok(q2)
    } else if kind == ENCO {
        let (v, q2) = Encoding::read_be(buf, q)?;
        file.encoding = Some(v);
        Ok(q2)
    } else if kind == IASS {
        let (v, q2) = IncludeAsSubscene::read_be(buf, q, size)?;
        file.included_subscene = Some(v);
        Ok(q2)
    } else if kind == SUBS {
        let (v, q2) = Subscene::read_be(buf, q, size)?;
        proof {
            lemma_views_push(file.subscenes@, v);
        }
        file.subscenes.push(v);
        Ok(q2)
    } else if kind == XREF {
        let (v, q2) = Reference::read_be(buf, q)?;
        proof {
            lemma_views_push(file.references@, v);
        }
        file.references.push(v);
        Ok(q2)
    } else if kind == TAGS {
        let (v, q2) = ItemTags::read_be(buf, q, size)?;
        file.item_tags = Some(v);
        Ok(q2)
    } else {
        let (v, q2) = ChannelNames::read_be(buf, q, size)?;
        file.channel_names = Some(v);
        Ok(q2)
    }
}

fn read_scene_chunk(buf: &[u8], q: u64, kind: u32, size: u32, file: &mut LuxologyFile) -> (r: Result<
    u64,
    ParseError,
>)
    requires
        pos_ok(buf@, q as int),
        is_scene_kind(kind),
    ensures
        step_done(r, scene_step(buf@, q as int, kind, size, old(file)@.1), buf@, q as int, old(file)@, final(file)@),
{
    if kind == ITEM {
        let (v, q2) = Item::read_be(buf, q, size)?;
        proof {
            lemma_views_push(file.items@, v);
        }
        file.items.push(v);
        Ok(q2)
    } else if kind == ENVL {
        let (v, q2) = Envelope::read_be(buf, q)?;
        file.envelopes.push(v);
        Ok(q2)
    } else if kind == ACTN {
        let (v, q2) = Action::read_be(buf, q, size)?;
        proof {
            lemma_views_push(file.actions@, v);
        }
        file.actions.push(v);
        Ok(q2)
    } else if kind == DATA {
        let (v, q2) = DataBlock::read_be(buf, q, size)?;
        proof {
            lemma_views_push(file.data_blocks@, v);
        }
        file.data_blocks.push(v);
        Ok(q2)
    } else {
        let (v, q2) = Audio::read_be(buf, q, size)?;
        file.audio = Some(v);
        Ok(q2)
    }
}


/// The views of a sequence whose last element was replaced.
pub proof fn lemma_views_replace_last<T: View>(v: Seq<T>, x: T)
    requires
        v.len() > 0,
    ensures
        views(v.drop_last().push(x)) == views(v).update(v.len() - 1, x@),
{
    assert(views(v.drop_last().push(x)) =~= views(v).update(v.len() - 1, x@));
}

/// The layers with the geometry of the last one replaced by `g`.
pub open spec fn set_last_geometry(layers: Seq<LayerView>, g: LayerGeometryView) -> Seq<LayerView> {
    layers.update(layers.len() - 1, LayerView { geometry: g, ..layers.last() })
}

/// Chunks of a layer and of its geometry.
pub open spec fn is_layer_kind(kind: u32) -> bool {
    kind == LAYR || kind == PNTS || kind == BBOX || kind == VMPA || kind == VMAP || kind == VMED
        || kind == POLS || kind == VMAD || kind == PTAG
}

/// What a layer chunk does to the scene and to the kind of the last polygon list `last`.
/// Geometry chunks belong to the last layer (`MissingLayer` when there is none); `VMAD` and
/// `PTAG` belong to the polygon group of kind `last` (`MissingPolygonsList` when the last layer
/// has none); `POLS` needs points in the last layer and replaces the group of its kind.
pub open spec fn layer_step(s: Seq<u8>, q: int, kind: u32, size: u32, sc: SceneView, last: u32) -> Result<
    ((SceneView, u32), int),
    ParseError,
> {
    let ls = sc.layers;
    let g = ls.last().geometry;
    if kind == LAYR {
        match spec_layer(s, q) {
            Ok((l, q2)) => Ok(((SceneView { layers: ls.push(l), ..sc }, last), q2)),
            Err(e) => Err(e),
        }
    } else if kind == PNTS {
        match spec_points(s, q, size / 12) {
            Ok((pts, q2)) => if ls.len() == 0 {
                Err(ParseError::MissingLayer)
            } else {
                let g2 = LayerGeometryView { points: Some(pts), ..g };
                Ok(((SceneView { layers: set_last_geometry(ls, g2), ..sc }, last), q2))
            },
            Err(e) => Err(e),
        }
    } else if kind == BBOX {
        match spec_bounding_box(s, q) {
            Ok((b, q2)) => if ls.len() == 0 {
                Err(ParseError::MissingLayer)
            } else {
                let g2 = LayerGeometryView { bounds: Some(b), ..g };
                Ok(((SceneView { layers: set_last_geometry(ls, g2), ..sc }, last), q2))
            },
            Err(e) => Err(e),
        }
    } else if ls.len() == 0 && kind != POLS {
        Err(ParseError::MissingLayer)
    } else if kind == VMPA {
        match spec_vertex_map_parameter(s, q) {
            Ok((v, q2)) => {
                let g2 = LayerGeometryView {
                    vertex_map_parameters: g.vertex_map_parameters.push(v),
                    ..g
                };
                Ok(((SceneView { layers: set_last_geometry(ls, g2), ..sc }, last), q2))
            },
            Err(e) => Err(e),
        }
    } else if kind == VMAP {
        match spec_vertex_map(s, q, size) {
            Ok((v, q2)) => {
                let g2 = LayerGeometryView { vertex_maps: g.vertex_maps.push(v), ..g };
                Ok(((SceneView { layers: set_last_geometry(ls, g2), ..sc }, last), q2))
            },
            Err(e) => Err(e),
        }
    } else if kind == VMED {
        match spec_vertex_pair_map(s, q, size) {
            Ok((v, q2)) => {
                let g2 = LayerGeometryView { vertex_edge_maps: g.vertex_edge_maps.push(v), ..g };
                Ok(((SceneView { layers: set_last_geometry(ls, g2), ..sc }, last), q2))
            },
            Err(e) => Err(e),
        }
    } else if kind == POLS {
        match spec_polygon_list(s, q, size) {
            Ok((pl, q2)) => if ls.len() == 0 {
                Err(ParseError::MissingLayer)
            } else if g.points is None {
                Err(ParseError::MissingPoints)
            } else {
                let grp: PolygonGroupView = (pl, Seq::empty(), Seq::empty());
                let g2 = LayerGeometryView { polygons: g.polygons.insert(pl.0, grp), ..g };
                Ok(((SceneView { layers: set_last_geometry(ls, g2), ..sc }, pl.0), q2))
            },
            Err(e) => Err(e),
        }
    } else if !g.polygons.dom().contains(last) {
        Err(ParseError::MissingPolygonsList)
    } else if kind == VMAD {
        match spec_vertex_pair_map(s, q, size) {
            Ok((m, q2)) => {
                let grp = g.polygons[last];
                let g2 = LayerGeometryView {
                    polygons: g.polygons.insert(last, (grp.0, grp.1.push(m), grp.2)),
                    ..g
                };
                Ok(((SceneView { layers: set_last_geometry(ls, g2), ..sc }, last), q2))
            },
            Err(e) => Err(e),
        }
    } else {
        match spec_polygon_tag_mapping(s, q, size) {
            Ok((t, q2)) => {
                let grp = g.polygons[last];
                let g2 = LayerGeometryView {
                    polygons: g.polygons.insert(last, (grp.0, grp.1, grp.2.push(t))),
                    ..g
                };
                Ok(((SceneView { layers: set_last_geometry(ls, g2), ..sc }, last), q2))
            },
            Err(e) => Err(e),
        }
    }
}

/// The exact result of a layer chunk step.
pub open spec fn layer_step_done(
    r: Result<u64, ParseError>,
    spec: Result<((SceneView, u32), int), ParseError>,
    s: Seq<u8>,
    q: int,
    old_file: ((u32, Extension), SceneView),
    new_file: ((u32, Extension), SceneView),
    new_last: u32,
) -> bool {
    match r {
        Ok(q2) => spec == Ok::<((SceneView, u32), int), ParseError>(((new_file.1, new_last), q2 as int))
            && q <= q2 && pos_ok(s, q2 as int) && new_file.0 == old_file.0,
        Err(e) => spec == Err::<((SceneView, u32), int), ParseError>(e),
    }
}

fn read_layer_chunk(
    buf: &[u8],
    q: u64,
    kind: u32,
    size: u32,
    file: &mut LuxologyFile,
    last: &mut ID4,
) -> (r: Result<u64, ParseError>)
    requires
        pos_ok(buf@, q as int),
        is_layer_kind(kind),
    ensures
        layer_step_done(
            r,
            layer_step(buf@, q as int, kind, size, old(file)@.1, old(last)@),
            buf@,
            q as int,
            old(file)@,
            final(file)@,
            final(last)@,
        ),
{
    if kind == LAYR {
        let (v, q2) = Layer::read_be(buf, q)?;
        proof {
            lemma_views_push(file.layers@, v);
        }
        file.layers.push(v);
        return Ok(q2);
    }
    if kind == PNTS {
        let (pts, q2) = Points::read_be(buf, q, size / 12)?;
        let mut layer = match file.layers.pop() {
            Some(l) => l,
            None => {
                return Err(ParseError::MissingLayer);
            },
        };
        layer.geometry.points = Some(pts);
        proof {
            lemma_views_replace_last(old(file).layers@, layer);
        }
        file.layers.push(layer);
        return Ok(q2);
    }
    if kind == BBOX {
        let (b, q2) = BoundingBox::read_be(buf, q)?;
        let mut layer = match file.layers.pop() {
            Some(l) => l,
            None => {
                return Err(ParseError::MissingLayer);
            },
        };
        layer.geometry.bounds = Some(b);
        proof {
            lemma_views_replace_last(old(file).layers@, layer);
        }
        file.layers.push(layer);
        return Ok(q2);
    }
    if kind == POLS {
        let (pl, q2) = PolygonList::read_be(buf, q, size)?;
        let k = pl.kind.code();
        *last = pl.kind;
        let mut layer = match file.layers.pop() {
            Some(l) => l,
            None => {
                return Err(ParseError::MissingLayer);
            },
        };
        if layer.geometry.points.is_none() {
            return Err(ParseError::MissingPoints);
        }
        let ghost old_groups = groups_view(layer.geometry.polygons);
        let grp = PolygonGroup::new(pl);
        let ghost gv = grp@;
        layer.geometry.polygons.insert(k, grp);
        assert(groups_view(layer.geometry.polygons) =~= old_groups.insert(k, gv));
        proof {
            lemma_views_replace_last(old(file).layers@, layer);
        }
        file.layers.push(layer);
        return Ok(q2);
    }
    let mut layer = match file.layers.pop() {
        Some(l) => l,
        None => {
            return Err(ParseError::MissingLayer);
        },
    };
    if kind == VMPA {
        let (v, q2) = VertexMapParameter::read_be(buf, q)?;
        proof {
            lemma_views_push(layer.geometry.vertex_map_parameters@, v);
        }
        layer.geometry.vertex_map_parameters.push(v);
        proof {
            lemma_views_replace_last(old(file).layers@, layer);
        }
        file.layers.push(layer);
        return Ok(q2);
    }
    if kind == VMAP {
        let (v, q2) = VertexMap::read_be(buf, q, size)?;
        proof {
            lemma_views_push(layer.geometry.vertex_maps@, v);
        }
        layer.geometry.vertex_maps.push(v);
        proof {
            lemma_views_replace_last(old(file).layers@, layer);
        }
        file.layers.push(layer);
        return Ok(q2);
    }
    if kind == VMED {
        let (v, q2) = VertexEdgeMap::read_be(buf, q, size)?;
        proof {
            lemma_views_push(layer.geometry.vertex_edge_maps@, v);
        }
        layer.geometry.vertex_edge_maps.push(v);
        proof {
            lemma_views_replace_last(old(file).layers@, layer);
        }
        file.layers.push(layer);
        return Ok(q2);
    }
    let k = last.code();
    let ghost old_groups = groups_view(layer.geometry.polygons);
    let mut grp = match layer.geometry.polygons.remove(&k) {
        Some(g) => g,
        None => {
            return Err(ParseError::MissingPolygonsList);
        },
    };
    if kind == VMAD {
        let (m, q2) = DiscontinousVertexMap::read_be(buf, q, size)?;
        proof {
            lemma_views_push(grp.vertex_maps@, m);
        }
        grp.vertex_maps.push(m);
        let ghost gv = grp@;
        layer.geometry.polygons.insert(k, grp);
        assert(groups_view(layer.geometry.polygons) =~= old_groups.insert(k, gv));
        proof {
            lemma_views_replace_last(old(file).layers@, layer);
        }
        file.layers.push(layer);
        Ok(q2)
    } else {
        let (t, q2) = PolygonTagMapping::read_be(buf, q, size)?;
        proof {
            lemma_views_push(grp.tags@, t);
        }
        grp.tags.push(t);
        let ghost gv = grp@;
        layer.geometry.polygons.insert(k, grp);
        assert(groups_view(layer.geometry.polygons) =~= old_groups.insert(k, gv));
        proof {
            lemma_views_replace_last(old(file).layers@, layer);
        }
        file.layers.push(layer);
        Ok(q2)
    }
}


/// Chunks of trisurface groups and of their trisurfaces.
pub open spec fn is_trisurf_kind(kind: u32) -> bool {
    kind == GRP3 || kind == SRF3 || kind == VRTS || kind == TRIS || kind == VVEC || kind == TTGS
}

/// The groups with the last trisurface of the last group replaced by `d`.
pub open spec fn set_last_trisurf(ts: Seq<TriSurfGroupView>, d: TriSurfDataView) -> Seq<TriSurfGroupView> {
    let grp = ts.last();
    ts.update(ts.len() - 1, (grp.0, grp.1.update(grp.1.len() - 1, d)))
}

/// What a trisurface chunk does to the scene. `3SRF` belongs to the last group; the other
/// parts belong to the last trisurface of the last group, and `VRTS` and `TRIS` must hold as
/// many elements as that trisurface announced (12 bytes each).
pub open spec fn trisurf_step(s: Seq<u8>, q: int, kind: u32, size: u32, sc: SceneView) -> Result<
    (SceneView, int),
    ParseError,
> {
    let ts = sc.trisurfs;
    let grp = ts.last();
    let d = grp.1.last();
    if kind == GRP3 {
        match spec_trisurf_group(s, q) {
            Ok((g, q2)) => Ok((SceneView { trisurfs: ts.push(g), ..sc }, q2)),
            Err(e) => Err(e),
        }
    } else if ts.len() == 0 {
        Err(ParseError::MissingTriSurfGroupHeader)
    } else if kind == SRF3 {
        match spec_trisurf_data(s, q) {
            Ok((n, q2)) => Ok(
                (SceneView { trisurfs: ts.update(ts.len() - 1, (grp.0, grp.1.push(n))), ..sc }, q2),
            ),
            Err(e) => Err(e),
        }
    } else if grp.1.len() == 0 {
        Err(ParseError::MissingTriSurfDataHeader)
    } else if kind == VRTS {
        if d.counts.0 != size / 12 {
            Err(ParseError::InvalidSize)
        } else {
            match spec_points(s, q, d.counts.0) {
                Ok((v, q2)) => Ok(
                    (
                        SceneView {
                            trisurfs: set_last_trisurf(ts, TriSurfDataView { vertices: Some(v), ..d }),
                            ..sc
                        },
                        q2,
                    ),
                ),
                Err(e) => Err(e),
            }
        }
    } else if kind == TRIS {
        if d.counts.1 != size / 12 {
            Err(ParseError::InvalidSize)
        } else {
            match spec_u32_array(s, q, 3 * d.counts.1) {
                Ok((t, q2)) => Ok(
                    (
                        SceneView {
                            trisurfs: set_last_trisurf(ts, TriSurfDataView { triangles: Some(t), ..d }),
                            ..sc
                        },
                        q2,
                    ),
                ),
                Err(e) => Err(e),
            }
        }
    } else if kind == VVEC {
        match spec_vertex_vectors(s, q, size) {
            Ok((v, q2)) => Ok(
                (
                    SceneView {
                        trisurfs: set_last_trisurf(ts, TriSurfDataView { vectors: d.vectors.push(v), ..d }),
                        ..sc
                    },
                    q2,
                ),
            ),
            Err(e) => Err(e),
        }
    } else {
        match spec_trisurf_tags(s, q, size) {
            Ok((t, q2)) => Ok(
                (
                    SceneView {
                        trisurfs: set_last_trisurf(ts, TriSurfDataView { tags: Some(t), ..d }),
                        ..sc
                    },
                    q2,
                ),
            ),
            Err(e) => Err(e),
        }
    }
}

/// The last trisurface of the last group, or the matching error when there is no group or the
/// last group has no trisurface.
fn get_last_trisurf(trisurfs: &Vec<TriSurfGroupHeader>) -> (r: Result<&TriSurfDataHeader, ParseError>)
    ensures
        trisurfs@.len() == 0 ==> r == Err::<&TriSurfDataHeader, ParseError>(
            ParseError::MissingTriSurfGroupHeader,
        ),
        trisurfs@.len() > 0 && trisurfs@.last().trisurfaces@.len() == 0 ==> r == Err::<
            &TriSurfDataHeader,
            ParseError,
        >(ParseError::MissingTriSurfDataHeader),
        r is Ok <==> trisurfs@.len() > 0 && trisurfs@.last().trisurfaces@.len() > 0,
        r matches Ok(d) ==> *d == trisurfs@.last().trisurfaces@.last(),
{
    let n = trisurfs.len();
    if n == 0 {
        return Err(ParseError::MissingTriSurfGroupHeader);
    }
    let g = &trisurfs[n - 1];
    let m = g.trisurfaces.len();
    if m == 0 {
        return Err(ParseError::MissingTriSurfDataHeader);
    }
    Ok(&g.trisurfaces[m - 1])
}

/// Takes the last trisurface of the last group out of `trisurfs`, with that group.
fn take_last_trisurf(trisurfs: &mut Vec<TriSurfGroupHeader>) -> (r: (
    TriSurfGroupHeader,
    TriSurfDataHeader,
))
    requires
        old(trisurfs)@.len() > 0,
        old(trisurfs)@.last().trisurfaces@.len() > 0,
    ensures
        final(trisurfs)@ == old(trisurfs)@.drop_last(),
        r.1 == old(trisurfs)@.last().trisurfaces@.last(),
        r.0.trisurfaces@ == old(trisurfs)@.last().trisurfaces@.drop_last(),
        r.0.trisurf_count == old(trisurfs)@.last().trisurf_count,
        r.0.item_reference == old(trisurfs)@.last().item_reference,
        r.0.flags == old(trisurfs)@.last().flags,
{
    let mut g = trisurfs.pop().unwrap();
    let d = g.trisurfaces.pop().unwrap();
    (g, d)
}

/// Puts a trisurface and its group back in place.
fn put_last_trisurf(
    trisurfs: &mut Vec<TriSurfGroupHeader>,
    g: TriSurfGroupHeader,
    d: TriSurfDataHeader,
    Ghost(before): Ghost<Seq<TriSurfGroupHeader>>,
)
    requires
        before.len() > 0,
        before.last().trisurfaces@.len() > 0,
        old(trisurfs)@ == before.drop_last(),
        g.trisurfaces@ == before.last().trisurfaces@.drop_last(),
        g.trisurf_count == before.last().trisurf_count,
        g.item_reference == before.last().item_reference,
        g.flags == before.last().flags,
    ensures
        views(final(trisurfs)@) == set_last_trisurf(views(before), d@),
{
    let mut g = g;
    proof {
        lemma_views_replace_last(before.last().trisurfaces@, d);
    }
    g.trisurfaces.push(d);
    proof {
        lemma_views_replace_last(before, g);
    }
    trisurfs.push(g);
}

fn read_trisurf_chunk(buf: &[u8], q: u64, kind: u32, size: u32, file: &mut LuxologyFile) -> (r: Result<
    u64,
    ParseError,
>)
    requires
        pos_ok(buf@, q as int),
        is_trisurf_kind(kind),
    ensures
        step_done(r, trisurf_step(buf@, q as int, kind, size, old(file)@.1), buf@, q as int, old(file)@, final(file)@),
{
    if kind == GRP3 {
        let (g, q2) = TriSurfGroupHeader::read_be(buf, q)?;
        proof {
            lemma_views_push(file.trisurfs@, g);
        }
        file.trisurfs.push(g);
        return Ok(q2);
    }
    if kind == SRF3 {
        let mut g = match file.trisurfs.pop() {
            Some(g) => g,
            None => {
                return Err(ParseError::MissingTriSurfGroupHeader);
            },
        };
        let (n, q2) = TriSurfDataHeader::read_be(buf, q)?;
        proof {
            lemma_views_push(g.trisurfaces@, n);
        }
        g.trisurfaces.push(n);
        proof {
            lemma_views_replace_last(old(file).trisurfs@, g);
        }
        file.trisurfs.push(g);
        return Ok(q2);
    }
    let ghost before = file.trisurfs@;
    let (vertex_count, triangle_count) = {
        let d = get_last_trisurf(&file.trisurfs)?;
        (d.vertex_count, d.triangle_count)
    };
    if kind == VRTS {
        if vertex_count != size / 12 {
            return Err(ParseError::InvalidSize);
        }
        let (v, q2) = TriSurfVertices::read_be(buf, q, vertex_count)?;
        let (g, mut d) = take_last_trisurf(&mut file.trisurfs);
        d.vertices = Some(v);
        put_last_trisurf(&mut file.trisurfs, g, d, Ghost(before));
        Ok(q2)
    } else if kind == TRIS {
        if triangle_count != size / 12 {
            return Err(ParseError::InvalidSize);
        }
        let (t, q2) = TriSurfTriangles::read_be(buf, q, triangle_count)?;
        let (g, mut d) = take_last_trisurf(&mut file.trisurfs);
        d.triangles = Some(t);
        put_last_trisurf(&mut file.trisurfs, g, d, Ghost(before));
        Ok(q2)
    } else if kind == VVEC {
        let (v, q2) = TriSurfVertexVectors::read_be(buf, q, size)?;
        let (g, mut d) = take_last_trisurf(&mut file.trisurfs);
        proof {
            lemma_views_push(d.vectors@, v);
        }
        d.vectors.push(v);
        put_last_trisurf(&mut file.trisurfs, g, d, Ghost(before));
        Ok(q2)
    } else {
        let (t, q2) = TriSurfTags::read_be(buf, q, size)?;
        let (g, mut d) = take_last_trisurf(&mut file.trisurfs);
        d.tags = Some(t);
        put_last_trisurf(&mut file.trisurfs, g, d, Ghost(before));
        Ok(q2)
    }
}


/// A scene step that leaves the kind of the last polygon list as it is.
pub open spec fn keep_last(r: Result<(SceneView, int), ParseError>, last: u32) -> Result<
    ((SceneView, u32), int),
    ParseError,
> {
    match r {
        Ok((sc, q)) => Ok(((sc, last), q)),
        Err(e) => Err(e),
    }
}

/// What the data of a chunk of kind `kind` and `size` bytes, starting at `q`, does to the scene
/// and to the kind of the last polygon list. Unknown chunks are skipped.
pub open spec fn chunk_step(s: Seq<u8>, q: int, kind: u32, size: u32, sc: SceneView, last: u32) -> Result<
    ((SceneView, u32), int),
    ParseError,
> {
    if is_meta_kind(kind) {
        keep_last(meta_step(s, q, kind, size, sc), last)
    } else if is_layer_kind(kind) {
        layer_step(s, q, kind, size, sc, last)
    } else if is_trisurf_kind(kind) {
        keep_last(trisurf_step(s, q, kind, size, sc), last)
    } else if is_scene_kind(kind) {
        keep_last(scene_step(s, q, kind, size, sc), last)
    } else {
        Ok(((sc, last), q + size))
    }
}

/// The chunk loop of a file from position `p` to its end. A chunk header that the data ends
/// in the middle of (or right before) ends the file. Each chunk must fit in what is left of
/// the file and have an even size, and its data must be read to exactly its size.
pub open spec fn file_loop(s: Seq<u8>, p: int, sc: SceneView, last: u32) -> Result<SceneView, ParseError>
    decreases s.len() - p,
{
    match spec_chunk_header(s, p) {
        Ok(((kind, size), q)) => if size + 8 > s.len() - p {
            Err(ParseError::InvalidSize)
        } else if size % 2 != 0 {
            Err(ParseError::OddChunkSize { kind: id4_of_code(kind), size })
        } else {
            match chunk_step(s, q, kind, size, sc, last) {
                Ok(((sc2, last2), q2)) => if q2 - q != size {
                    Err(
                        ParseError::ChunkBoundaryMismatch {
                            kind: id4_of_code(kind),
                            expected: size,
                            consumed: (q2 - q) as u64,
                        },
                    )
                } else {
                    file_loop(s, q2, sc2, last2)
                },
                Err(e) => Err(e),
            }
        },
        Err(e) => if e == ParseError::UnexpectedEof {
            Ok(sc)
        } else {
            Err(e)
        },
    }
}

/// A chunk whose kind makes a list of the scene (items, envelopes, actions, data blocks,
/// sub-scenes, references, layers, trisurface groups), of an even size that fits in the file,
/// and whose data reads to exactly that size, appends its one element at the end of its list
/// and leaves the rest of the scene and the kind of the last polygon list as they were; the
/// file is then read on after the chunk.
pub proof fn law_list_chunk_appends(s: Seq<u8>, p: int, sc: SceneView, last: u32)
    requires
        spec_chunk_header(s, p) is Ok,
        ({
            let ((kind, size), _) = spec_chunk_header(s, p)->Ok_0;
            &&& size + 8 <= s.len() - p
            &&& size % 2 == 0
        }),
    ensures
        ({
            let ((kind, size), q) = spec_chunk_header(s, p)->Ok_0;
            let e = q + size;
            &&& kind == ITEM ==> (spec_item(s, q, size) matches Ok((v, q2)) ==> (q2 == e
                ==> file_loop(s, p, sc, last) == file_loop(
                s,
                e,
                (SceneView { items: sc.items.push(v), ..sc }),
                last,
            )))
            &&& kind == ENVL ==> (spec_envelope(s, q) matches Ok((v, q2)) ==> (q2 == e
                ==> file_loop(s, p, sc, last) == file_loop(
                s,
                e,
                (SceneView { envelopes: sc.envelopes.push(v), ..sc }),
                last,
            )))
            &&& kind == ACTN ==> (spec_action(s, q, size) matches Ok((v, q2)) ==> (q2 == e
                ==> file_loop(s, p, sc, last) == file_loop(
                s,
                e,
                (SceneView { actions: sc.actions.push(v), ..sc }),
                last,
            )))
            &&& kind == DATA ==> (spec_data_block(s, q, size) matches Ok((v, q2)) ==> (q2 == e
                ==> file_loop(s, p, sc, last) == file_loop(
                s,
                e,
                (SceneView { data_blocks: sc.data_blocks.push(v), ..sc }),
                last,
            )))
            &&& kind == SUBS ==> (spec_subscene(s, q, size) matches Ok((v, q2)) ==> (q2 == e
                ==> file_loop(s, p, sc, last) == file_loop(
                s,
                e,
                (SceneView { subscenes: sc.subscenes.push(v), ..sc }),
                last,
            )))
            &&& kind == XREF ==> (spec_reference(s, q) matches Ok((v, q2)) ==> (q2 == e
                ==> file_loop(s, p, sc, last) == file_loop(
                s,
                e,
                (SceneView { references: sc.references.push(v), ..sc }),
                last,
            )))
            &&& kind == LAYR ==> (spec_layer(s, q) matches Ok((v, q2)) ==> (q2 == e
                ==> file_loop(s, p, sc, last) == file_loop(
                s,
                e,
                (SceneView { layers: sc.layers.push(v), ..sc }),
                last,
            )))
            &&& kind == GRP3 ==> (spec_trisurf_group(s, q) matches Ok((v, q2)) ==> (q2 == e
                ==> file_loop(s, p, sc, last) == file_loop(
                s,
                e,
                (SceneView { trisurfs: sc.trisurfs.push(v), ..sc }),
                last,
            )))
        }),
{
}

/// A chunk whose kind holds one value of the scene (preview, description, versions,
/// encoding, included sub-scene, item tags, channel names, audio), of an even size that fits
/// in the file, and whose data reads to exactly that size, replaces that value and leaves the
/// rest of the scene as it was: the value a file ends with is that of the last such chunk.
pub proof fn law_value_chunk_replaces(s: Seq<u8>, p: int, sc: SceneView, last: u32)
    requires
        spec_chunk_header(s, p) is Ok,
        ({
            let ((kind, size), _) = spec_chunk_header(s, p)->Ok_0;
            &&& size + 8 <= s.len() - p
            &&& size % 2 == 0
        }),
    ensures
        ({
            let ((kind, size), q) = spec_chunk_header(s, p)->Ok_0;
            let e = q + size;
            &&& kind == PRVW ==> (spec_preview(s, q, size) matches Ok((v, q2)) ==> (q2 == e
                ==> file_loop(s, p, sc, last) == file_loop(
                s,
                e,
                (SceneView { preview: Some(v), ..sc }),
                last,
            )))
            &&& kind == DESC ==> (spec_two_strings(s, q) matches Ok((v, q2)) ==> (q2 == e
                ==> file_loop(s, p, sc, last) == file_loop(
                s,
                e,
                (SceneView { description: Some(v), ..sc }),
                last,
            )))
            &&& kind == VRSN ==> (spec_version(s, q) matches Ok((v, q2)) ==> (q2 == e
                ==> file_loop(s, p, sc, last) == file_loop(
                s,
                e,
                (SceneView { version: Some(v), ..sc }),
                last,
            )))
            &&& kind == APPV ==> (spec_application_version(s, q) matches Ok((v, q2)) ==> (q2 == e
                ==> file_loop(s, p, sc, last) == file_loop(
                s,
                e,
                (SceneView { application_version: Some(v), ..sc }),
                last,
            )))
            &&& kind == ENCO ==> (spec_encoding(s, q) matches Ok((v, q2)) ==> (q2 == e
                ==> file_loop(s, p, sc, last) == file_loop(
                s,
                e,
                (SceneView { encoding: Some(v), ..sc }),
                last,
            )))
            &&& kind == IASS ==> (spec_include_as_subscene(s, q, size) matches Ok((v, q2)) ==> (q2 == e
                ==> file_loop(s, p, sc, last) == file_loop(
                s,
                e,
                (SceneView { included_subscene: Some(v), ..sc }),
                last,
            )))
            &&& kind == TAGS ==> (spec_item_tags(s, q, size) matches Ok((v, q2)) ==> (q2 == e
                ==> file_loop(s, p, sc, last) == file_loop(
                s,
                e,
                (SceneView { item_tags: Some(v), ..sc }),
                last,
            )))
            &&& kind == CHNM ==> (spec_channel_names(s, q, size) matches Ok((v, q2)) ==> (q2 == e
                ==> file_loop(s, p, sc, last) == file_loop(
                s,
                e,
                (SceneView { channel_names: Some(v), ..sc }),
                last,
            )))
            &&& kind == AANI ==> (spec_audio(s, q, size) matches Ok((v, q2)) ==> (q2 == e
                ==> file_loop(s, p, sc, last) == file_loop(
                s,
                e,
                (SceneView { audio: Some(v), ..sc }),
                last,
            )))
        }),
{
}

/// A geometry chunk (points, bounds, vertex map parameters, vertex maps, edge maps) of an even
/// size that fits in the file, whose data reads to exactly that size, fills the geometry of
/// the latest layer and leaves the other layers and the rest of the scene as they were.
pub proof fn law_geometry_chunk_fills_latest_layer(s: Seq<u8>, p: int, sc: SceneView, last: u32)
    requires
        spec_chunk_header(s, p) is Ok,
        ({
            let ((kind, size), _) = spec_chunk_header(s, p)->Ok_0;
            &&& size + 8 <= s.len() - p
            &&& size % 2 == 0
        }),
        sc.layers.len() > 0,
    ensures
        ({
            let ((kind, size), q) = spec_chunk_header(s, p)->Ok_0;
            let e = q + size;
            let g = sc.layers.last().geometry;
            &&& kind == PNTS ==> (spec_points(s, q, size / 12) matches Ok((v, q2)) ==> (q2 == e
                ==> file_loop(s, p, sc, last) == file_loop(
                s,
                e,
                (SceneView { layers: set_last_geometry(sc.layers, (LayerGeometryView { points: Some(v), ..g })), ..sc }),
                last,
            )))
            &&& kind == BBOX ==> (spec_bounding_box(s, q) matches Ok((v, q2)) ==> (q2 == e
                ==> file_loop(s, p, sc, last) == file_loop(
                s,
                e,
                (SceneView { layers: set_last_geometry(sc.layers, (LayerGeometryView { bounds: Some(v), ..g })), ..sc }),
                last,
            )))
            &&& kind == VMPA ==> (spec_vertex_map_parameter(s, q) matches Ok((v, q2)) ==> (q2 == e
                ==> file_loop(s, p, sc, last) == file_loop(
                s,
                e,
                (SceneView { layers: set_last_geometry(sc.layers, (LayerGeometryView { vertex_map_parameters: g.vertex_map_parameters.push(v), ..g })), ..sc }),
                last,
            )))
            &&& kind == VMAP ==> (spec_vertex_map(s, q, size) matches Ok((v, q2)) ==> (q2 == e
                ==> file_loop(s, p, sc, last) == file_loop(
                s,
                e,
                (SceneView { layers: set_last_geometry(sc.layers, (LayerGeometryView { vertex_maps: g.vertex_maps.push(v), ..g })), ..sc }),
                last,
            )))
            &&& kind == VMED ==> (spec_vertex_pair_map(s, q, size) matches Ok((v, q2)) ==> (q2 == e
                ==> file_loop(s, p, sc, last) == file_loop(
                s,
                e,
                (SceneView { layers: set_last_geometry(sc.layers, (LayerGeometryView { vertex_edge_maps: g.vertex_edge_maps.push(v), ..g })), ..sc }),
                last,
            )))
        }),
{
}

/// A vertex vector chunk (`VVEC`) of an even size that fits in the file, read after a
/// trisurface, whose data reads to exactly that size, adds its vertex vectors after those the
/// last trisurface of the last group already has: its earlier vertex vectors stay, in order,
/// its other fields stay, the other trisurfaces, groups and the rest of the scene stay, and the
/// file is read on after the chunk.
#[verifier::spinoff_prover]
pub proof fn law_vertex_vectors_chunk_appends(s: Seq<u8>, p: int, sc: SceneView, last: u32)
    requires
        spec_chunk_header(s, p) is Ok,
        ({
            let ((kind, size), q) = spec_chunk_header(s, p)->Ok_0;
            &&& kind == VVEC
            &&& size + 8 <= s.len() - p
            &&& size % 2 == 0
            &&& spec_vertex_vectors(s, q, size) matches Ok((_, q2)) && q2 == q + size
        }),
        sc.trisurfs.len() > 0,
        sc.trisurfs.last().1.len() > 0,
    ensures
        ({
            let ((kind, size), q) = spec_chunk_header(s, p)->Ok_0;
            let v = (spec_vertex_vectors(s, q, size)->Ok_0).0;
            let st = chunk_step(s, q, kind, size, sc, last);
            let sc2 = (st->Ok_0).0.0;
            let ts = sc.trisurfs;
            let ts2 = sc2.trisurfs;
            let n = ts.len() - 1;
            let m = ts[n].1.len() - 1;
            &&& st is Ok
            &&& file_loop(s, p, sc, last) == file_loop(s, q + size, sc2, last)
            &&& sc2 == (SceneView { trisurfs: ts2, ..sc })
            &&& ts2.len() == ts.len()
            &&& forall|i: int| 0 <= i < n ==> ts2[i] == ts[i]
            &&& ts2[n].0 == ts[n].0
            &&& ts2[n].1.len() == ts[n].1.len()
            &&& forall|j: int| 0 <= j < m ==> ts2[n].1[j] == ts[n].1[j]
            &&& ts2[n].1[m].vectors.len() == ts[n].1[m].vectors.len() + 1
            &&& forall|j: int|
                0 <= j < ts[n].1[m].vectors.len() ==> ts2[n].1[m].vectors[j]
                    == ts[n].1[m].vectors[j]
            &&& ts2[n].1[m].vectors.last() == v
            &&& ts2[n].1[m] == (TriSurfDataView { vectors: ts2[n].1[m].vectors, ..ts[n].1[m] })
        }),
{
    let ((kind, size), q) = spec_chunk_header(s, p)->Ok_0;
    assert(q == p + 8);
}

/// The values that the chunks of `s` from `p` on contribute, in file order: `pick(q, kind,
/// size)` is what the chunk of kind `kind` and `size` bytes, whose data starts at `q`,
/// contributes. Chunks are followed by their framing while their headers read and they fit in
/// the data with an even size.
pub open spec fn chunk_values<T>(s: Seq<u8>, p: int, pick: spec_fn(int, u32, u32) -> Option<T>) -> Seq<T>
    decreases s.len() - p,
{
    match spec_chunk_header(s, p) {
        Ok(((kind, size), q)) => if size + 8 <= s.len() - p && size % 2 == 0 {
            let rest = chunk_values(s, p + 8 + size, pick);
            match pick(q, kind, size) {
                Some(v) => seq![v] + rest,
                None => rest,
            }
        } else {
            seq![]
        },
        Err(_) => seq![],
    }
}

/// The value read from a chunk of kind `k` when `kind` is `k`, none otherwise.
pub open spec fn when_kind<T>(kind: u32, k: u32, r: Result<(T, int), ParseError>) -> Option<T> {
    if kind == k {
        match r {
            Ok((v, _)) => Some(v),
            Err(_) => None,
        }
    } else {
        None
    }
}

/// One step of the chunk loop leaves each list of the scene as it was, except the list of the
/// chunk's kind, which gains the chunk's value at its end; layers and trisurface groups gain
/// one element for a `LAYR` or `3GRP` chunk and keep their number otherwise.
proof fn lemma_chunk_step_lists(s: Seq<u8>, q: int, kind: u32, size: u32, sc: SceneView, last: u32)
    requires
        chunk_step(s, q, kind, size, sc, last) is Ok,
    ensures
        ({
            let sc2 = (chunk_step(s, q, kind, size, sc, last)->Ok_0).0.0;
            &&& sc2.items == sc.items + opt_seq(when_kind(kind, ITEM, spec_item(s, q, size)))
            &&& sc2.envelopes == sc.envelopes + opt_seq(when_kind(kind, ENVL, spec_envelope(s, q)))
            &&& sc2.actions == sc.actions + opt_seq(when_kind(kind, ACTN, spec_action(s, q, size)))
            &&& sc2.data_blocks == sc.data_blocks + opt_seq(
                when_kind(kind, DATA, spec_data_block(s, q, size)),
            )
            &&& sc2.subscenes == sc.subscenes + opt_seq(
                when_kind(kind, SUBS, spec_subscene(s, q, size)),
            )
            &&& sc2.references == sc.references + opt_seq(
                when_kind(kind, XREF, spec_reference(s, q)),
            )
            &&& sc2.layers.len() == sc.layers.len() + opt_seq(
                when_kind(kind, LAYR, spec_layer(s, q)),
            ).len()
            &&& sc2.trisurfs.len() == sc.trisurfs.len() + opt_seq(
                when_kind(kind, GRP3, spec_trisurf_group(s, q)),
            ).len()
        }),
{
    let sc2 = (chunk_step(s, q, kind, size, sc, last)->Ok_0).0.0;
    assert(sc.items + Seq::<ItemView>::empty() =~= sc.items);
    assert(sc.envelopes + Seq::<Envelope>::empty() =~= sc.envelopes);
    assert(sc.actions + Seq::<ActionView>::empty() =~= sc.actions);
    assert(sc.data_blocks + Seq::<(u32, u32, Seq<u8>, Seq<u8>)>::empty() =~= sc.data_blocks);
    assert(sc.subscenes + Seq::empty() =~= sc.subscenes);
    assert(sc.references + Seq::empty() =~= sc.references);
    if kind == ITEM {
        assert(sc2.items =~= sc.items + opt_seq(when_kind(kind, ITEM, spec_item(s, q, size))));
    } else if kind == ENVL {
        assert(sc2.envelopes =~= sc.envelopes + opt_seq(when_kind(kind, ENVL, spec_envelope(s, q))));
    } else if kind == ACTN {
        assert(sc2.actions =~= sc.actions + opt_seq(when_kind(kind, ACTN, spec_action(s, q, size))));
    } else if kind == DATA {
        assert(sc2.data_blocks =~= sc.data_blocks + opt_seq(
            when_kind(kind, DATA, spec_data_block(s, q, size)),
        ));
    } else if kind == SUBS {
        assert(sc2.subscenes =~= sc.subscenes + opt_seq(
            when_kind(kind, SUBS, spec_subscene(s, q, size)),
        ));
    } else if kind == XREF {
        assert(sc2.references =~= sc.references + opt_seq(
            when_kind(kind, XREF, spec_reference(s, q)),
        ));
    }
}

/// The value of an option as a sequence of at most one element.
pub open spec fn opt_seq<T>(o: Option<T>) -> Seq<T> {
    match o {
        Some(v) => seq![v],
        None => Seq::empty(),
    }
}

/// What a chunk contributes to the scene's items: the value of a `ITEM` chunk.
pub open spec fn pick_items(s: Seq<u8>) -> spec_fn(int, u32, u32) -> Option<ItemView> {
    |q: int, k: u32, n: u32| when_kind(k, ITEM, spec_item(s, q, n))
}

/// What a chunk contributes to the scene's envelopes: the value of a `ENVL` chunk.
pub open spec fn pick_envelopes(s: Seq<u8>) -> spec_fn(int, u32, u32) -> Option<Envelope> {
    |q: int, k: u32, n: u32| when_kind(k, ENVL, spec_envelope(s, q))
}

/// What a chunk contributes to the scene's actions: the value of a `ACTN` chunk.
pub open spec fn pick_actions(s: Seq<u8>) -> spec_fn(int, u32, u32) -> Option<ActionView> {
    |q: int, k: u32, n: u32| when_kind(k, ACTN, spec_action(s, q, n))
}

/// What a chunk contributes to the scene's data blocks: the value of a `DATA` chunk.
pub open spec fn pick_data_blocks(s: Seq<u8>) -> spec_fn(int, u32, u32) -> Option<(u32, u32, Seq<u8>, Seq<u8>)> {
    |q: int, k: u32, n: u32| when_kind(k, DATA, spec_data_block(s, q, n))
}

/// What a chunk contributes to the scene's subscenes: the value of a `SUBS` chunk.
pub open spec fn pick_subscenes(s: Seq<u8>) -> spec_fn(int, u32, u32) -> Option<(Seq<u8>, Seq<u8>, Seq<ItemReferenceView>)> {
    |q: int, k: u32, n: u32| when_kind(k, SUBS, spec_subscene(s, q, n))
}

/// What a chunk contributes to the scene's references: the value of a `XREF` chunk.
pub open spec fn pick_references(s: Seq<u8>) -> spec_fn(int, u32, u32) -> Option<(u32, Seq<u8>, (u16, Seq<u32>), (u16, u32))> {
    |q: int, k: u32, n: u32| when_kind(k, XREF, spec_reference(s, q))
}

/// What a chunk contributes to the scene's layers: the value of a `LAYR` chunk.
pub open spec fn pick_layers(s: Seq<u8>) -> spec_fn(int, u32, u32) -> Option<LayerView> {
    |q: int, k: u32, n: u32| when_kind(k, LAYR, spec_layer(s, q))
}

/// What a chunk contributes to the scene's trisurfs: the value of a `GRP3` chunk.
pub open spec fn pick_trisurfs(s: Seq<u8>) -> spec_fn(int, u32, u32) -> Option<TriSurfGroupView> {
    |q: int, k: u32, n: u32| when_kind(k, GRP3, spec_trisurf_group(s, q))
}

/// What a chunk contributes to the scene's preview: the value of a `PRVW` chunk.
pub open spec fn pick_preview(s: Seq<u8>) -> spec_fn(int, u32, u32) -> Option<(u16, u16, u32, u32, Seq<u8>)> {
    |q: int, k: u32, n: u32| when_kind(k, PRVW, spec_preview(s, q, n))
}

/// What a chunk contributes to the scene's description: the value of a `DESC` chunk.
pub open spec fn pick_description(s: Seq<u8>) -> spec_fn(int, u32, u32) -> Option<(Seq<u8>, Seq<u8>)> {
    |q: int, k: u32, n: u32| when_kind(k, DESC, spec_two_strings(s, q))
}

/// What a chunk contributes to the scene's version: the value of a `VRSN` chunk.
pub open spec fn pick_version(s: Seq<u8>) -> spec_fn(int, u32, u32) -> Option<(u32, u32, Seq<u8>)> {
    |q: int, k: u32, n: u32| when_kind(k, VRSN, spec_version(s, q))
}

/// What a chunk contributes to the scene's application version: the value of a `APPV` chunk.
pub open spec fn pick_application_version(s: Seq<u8>) -> spec_fn(int, u32, u32) -> Option<(u32, u32, u32, u32, Seq<u8>)> {
    |q: int, k: u32, n: u32| when_kind(k, APPV, spec_application_version(s, q))
}

/// What a chunk contributes to the scene's encoding: the value of a `ENCO` chunk.
pub open spec fn pick_encoding(s: Seq<u8>) -> spec_fn(int, u32, u32) -> Option<Encoding> {
    |q: int, k: u32, n: u32| when_kind(k, ENCO, spec_encoding(s, q))
}

/// What a chunk contributes to the scene's included subscene: the value of a `IASS` chunk.
pub open spec fn pick_included_subscene(s: Seq<u8>) -> spec_fn(int, u32, u32) -> Option<(Seq<(Seq<u8>, Seq<u8>)>, Seq<FlatView>)> {
    |q: int, k: u32, n: u32| when_kind(k, IASS, spec_include_as_subscene(s, q, n))
}

/// What a chunk contributes to the scene's item tags: the value of a `TAGS` chunk.
pub open spec fn pick_item_tags(s: Seq<u8>) -> spec_fn(int, u32, u32) -> Option<Seq<Seq<u8>>> {
    |q: int, k: u32, n: u32| when_kind(k, TAGS, spec_item_tags(s, q, n))
}

/// What a chunk contributes to the scene's channel names: the value of a `CHNM` chunk.
pub open spec fn pick_channel_names(s: Seq<u8>) -> spec_fn(int, u32, u32) -> Option<(u32, Seq<Seq<u8>>)> {
    |q: int, k: u32, n: u32| when_kind(k, CHNM, spec_channel_names(s, q, n))
}

/// What a chunk contributes to the scene's audio: the value of a `AANI` chunk.
pub open spec fn pick_audio(s: Seq<u8>) -> spec_fn(int, u32, u32) -> Option<(Option<u32>, Option<(u16, u16, u16, u32)>)> {
    |q: int, k: u32, n: u32| when_kind(k, AANI, spec_audio(s, q, n))
}

/// The last of `xs`, or `d` when `xs` is empty.
pub open spec fn last_or<T>(xs: Seq<T>, d: Option<T>) -> Option<T> {
    if xs.len() > 0 {
        Some(xs.last())
    } else {
        d
    }
}

proof fn lemma_last_or_append<T>(a: Seq<T>, b: Seq<T>, d: Option<T>)
    ensures
        last_or(a + b, d) == last_or(b, last_or(a, d)),
{
    if b.len() > 0 {
        assert((a + b).last() == b.last());
    } else {
        assert(a + b =~= a);
    }
}

/// One step of the chunk loop sets each single value of the scene to the chunk's value when
/// the chunk is of that value's kind, and keeps it otherwise.
#[verifier::spinoff_prover]
#[verifier::rlimit(60)]
proof fn lemma_chunk_step_values(s: Seq<u8>, q: int, kind: u32, size: u32, sc: SceneView, last: u32)
    requires
        chunk_step(s, q, kind, size, sc, last) is Ok,
    ensures
        ({
            let sc2 = (chunk_step(s, q, kind, size, sc, last)->Ok_0).0.0;
            &&& sc2.preview == last_or(opt_seq(pick_preview(s)(q, kind, size)), sc.preview)
            &&& sc2.description == last_or(opt_seq(pick_description(s)(q, kind, size)), sc.description)
            &&& sc2.version == last_or(opt_seq(pick_version(s)(q, kind, size)), sc.version)
            &&& sc2.application_version == last_or(opt_seq(pick_application_version(s)(q, kind, size)), sc.application_version)
            &&& sc2.encoding == last_or(opt_seq(pick_encoding(s)(q, kind, size)), sc.encoding)
            &&& sc2.included_subscene == last_or(opt_seq(pick_included_subscene(s)(q, kind, size)), sc.included_subscene)
            &&& sc2.item_tags == last_or(opt_seq(pick_item_tags(s)(q, kind, size)), sc.item_tags)
            &&& sc2.channel_names == last_or(opt_seq(pick_channel_names(s)(q, kind, size)), sc.channel_names)
            &&& sc2.audio == last_or(opt_seq(pick_audio(s)(q, kind, size)), sc.audio)
        }),
{
}

/// The chunk loop of `s` from `p`, named apart so that proofs over many chunks need not
/// look inside each step.
#[verifier::opaque]
spec fn chunks_from(s: Seq<u8>, p: int, sc: SceneView, last: u32) -> Result<SceneView, ParseError> {
    file_loop(s, p, sc, last)
}

/// The scene and last polygon list kind after a chunk step, named apart as above.
#[verifier::opaque]
spec fn step_state(s: Seq<u8>, q: int, kind: u32, size: u32, sc: SceneView, last: u32) -> (
    SceneView,
    u32,
) {
    (chunk_step(s, q, kind, size, sc, last)->Ok_0).0
}

/// A successful chunk loop over a chunk whose header reads: the chunk fits with an even size,
/// the loop goes on after it from the state its step gives, and that state's lists are those
/// before with what the chunk contributes.
#[verifier::spinoff_prover]
#[verifier::rlimit(60)]
proof fn lemma_chunks_from_step(s: Seq<u8>, p: int, sc: SceneView, last: u32)
    requires
        chunks_from(s, p, sc, last) is Ok,
        spec_chunk_header(s, p) is Ok,
    ensures
        ({
            let ((kind, size), q) = spec_chunk_header(s, p)->Ok_0;
            let (sc1, last1) = step_state(s, q, kind, size, sc, last);
            &&& q == p + 8
            &&& size + 8 <= s.len() - p
            &&& size % 2 == 0
            &&& chunks_from(s, p, sc, last) == chunks_from(s, q + size, sc1, last1)
            &&& sc1.preview == last_or(opt_seq(pick_preview(s)(q, kind, size)), sc.preview)
            &&& sc1.description == last_or(opt_seq(pick_description(s)(q, kind, size)), sc.description)
            &&& sc1.version == last_or(opt_seq(pick_version(s)(q, kind, size)), sc.version)
            &&& sc1.application_version == last_or(opt_seq(pick_application_version(s)(q, kind, size)), sc.application_version)
            &&& sc1.encoding == last_or(opt_seq(pick_encoding(s)(q, kind, size)), sc.encoding)
            &&& sc1.included_subscene == last_or(opt_seq(pick_included_subscene(s)(q, kind, size)), sc.included_subscene)
            &&& sc1.item_tags == last_or(opt_seq(pick_item_tags(s)(q, kind, size)), sc.item_tags)
            &&& sc1.channel_names == last_or(opt_seq(pick_channel_names(s)(q, kind, size)), sc.channel_names)
            &&& sc1.audio == last_or(opt_seq(pick_audio(s)(q, kind, size)), sc.audio)
            &&& sc1.items == sc.items + opt_seq(pick_items(s)(q, kind, size))
            &&& sc1.envelopes == sc.envelopes + opt_seq(pick_envelopes(s)(q, kind, size))
            &&& sc1.actions == sc.actions + opt_seq(pick_actions(s)(q, kind, size))
            &&& sc1.data_blocks == sc.data_blocks + opt_seq(pick_data_blocks(s)(q, kind, size))
            &&& sc1.subscenes == sc.subscenes + opt_seq(pick_subscenes(s)(q, kind, size))
            &&& sc1.references == sc.references + opt_seq(pick_references(s)(q, kind, size))
            &&& sc1.layers.len() == sc.layers.len() + opt_seq(pick_layers(s)(q, kind, size)).len()
            &&& sc1.trisurfs.len() == sc.trisurfs.len() + opt_seq(pick_trisurfs(s)(q, kind, size)).len()
        }),
{
    reveal(chunks_from);
    reveal(step_state);
    let ((kind, size), q) = spec_chunk_header(s, p)->Ok_0;
    lemma_chunk_step_lists(s, q, kind, size, sc, last);
    lemma_chunk_step_values(s, q, kind, size, sc, last);
}

/// A successful chunk loop at a position where no chunk header reads ends with the scene as
/// it was.
#[verifier::spinoff_prover]
proof fn lemma_chunks_from_end(s: Seq<u8>, p: int, sc: SceneView, last: u32)
    requires
        chunks_from(s, p, sc, last) is Ok,
        spec_chunk_header(s, p) is Err,
    ensures
        chunks_from(s, p, sc, last)->Ok_0 == sc,
{
    reveal(chunks_from);
}

/// The values of the chunks from `p` on are those of the chunk at `p`, then those of the
/// chunks after it.
proof fn lemma_chunk_values_step<T>(s: Seq<u8>, p: int, pick: spec_fn(int, u32, u32) -> Option<T>)
    requires
        spec_chunk_header(s, p) is Ok,
        (spec_chunk_header(s, p)->Ok_0).0.1 + 8 <= s.len() - p,
        (spec_chunk_header(s, p)->Ok_0).0.1 % 2 == 0,
    ensures
        ({
            let ((kind, size), q) = spec_chunk_header(s, p)->Ok_0;
            chunk_values(s, p, pick) == opt_seq(pick(q, kind, size)) + chunk_values(
                s,
                p + 8 + size,
                pick,
            )
        }),
{
    let ((kind, size), q) = spec_chunk_header(s, p)->Ok_0;
    let rest = chunk_values(s, p + 8 + size, pick);
    match pick(q, kind, size) {
        Some(v) => {},
        None => {
            assert(Seq::<T>::empty() + rest =~= rest);
        },
    }
}

proof fn lemma_seq_assoc<T>(a: Seq<T>, b: Seq<T>, c: Seq<T>)
    ensures
        a + b + c == a + (b + c),
{
    assert(a + b + c =~= a + (b + c));
}

#[verifier::spinoff_prover]
#[verifier::rlimit(100)]
proof fn lemma_scene_in_chunk_order(s: Seq<u8>, p: int, sc: SceneView, last: u32)
    requires
        chunks_from(s, p, sc, last) is Ok,
    ensures
        ({
            let sc2 = chunks_from(s, p, sc, last)->Ok_0;
            &&& sc2.items == sc.items + chunk_values(s, p, pick_items(s))
            &&& sc2.envelopes == sc.envelopes + chunk_values(s, p, pick_envelopes(s))
            &&& sc2.actions == sc.actions + chunk_values(s, p, pick_actions(s))
            &&& sc2.data_blocks == sc.data_blocks + chunk_values(s, p, pick_data_blocks(s))
            &&& sc2.subscenes == sc.subscenes + chunk_values(s, p, pick_subscenes(s))
            &&& sc2.references == sc.references + chunk_values(s, p, pick_references(s))
            &&& sc2.layers.len() == sc.layers.len() + chunk_values(s, p, pick_layers(s)).len()
            &&& sc2.trisurfs.len() == sc.trisurfs.len() + chunk_values(s, p, pick_trisurfs(s)).len()
            &&& sc2.preview == last_or(chunk_values(s, p, pick_preview(s)), sc.preview)
            &&& sc2.description == last_or(chunk_values(s, p, pick_description(s)), sc.description)
            &&& sc2.version == last_or(chunk_values(s, p, pick_version(s)), sc.version)
            &&& sc2.application_version == last_or(chunk_values(s, p, pick_application_version(s)), sc.application_version)
            &&& sc2.encoding == last_or(chunk_values(s, p, pick_encoding(s)), sc.encoding)
            &&& sc2.included_subscene == last_or(chunk_values(s, p, pick_included_subscene(s)), sc.included_subscene)
            &&& sc2.item_tags == last_or(chunk_values(s, p, pick_item_tags(s)), sc.item_tags)
            &&& sc2.channel_names == last_or(chunk_values(s, p, pick_channel_names(s)), sc.channel_names)
            &&& sc2.audio == last_or(chunk_values(s, p, pick_audio(s)), sc.audio)
        }),
    decreases s.len() - p,
{
    match spec_chunk_header(s, p) {
        Ok(((kind, size), q)) => {
            lemma_chunks_from_step(s, p, sc, last);
            let (sc1, last1) = step_state(s, q, kind, size, sc, last);
            let q2 = q + size;
            lemma_scene_in_chunk_order(s, q2, sc1, last1);
            lemma_chunk_values_step(s, p, pick_preview(s));
            lemma_last_or_append(opt_seq(pick_preview(s)(q, kind, size)), chunk_values(s, q2, pick_preview(s)), sc.preview);
            lemma_chunk_values_step(s, p, pick_description(s));
            lemma_last_or_append(opt_seq(pick_description(s)(q, kind, size)), chunk_values(s, q2, pick_description(s)), sc.description);
            lemma_chunk_values_step(s, p, pick_version(s));
            lemma_last_or_append(opt_seq(pick_version(s)(q, kind, size)), chunk_values(s, q2, pick_version(s)), sc.version);
            lemma_chunk_values_step(s, p, pick_application_version(s));
            lemma_last_or_append(opt_seq(pick_application_version(s)(q, kind, size)), chunk_values(s, q2, pick_application_version(s)), sc.application_version);
            lemma_chunk_values_step(s, p, pick_encoding(s));
            lemma_last_or_append(opt_seq(pick_encoding(s)(q, kind, size)), chunk_values(s, q2, pick_encoding(s)), sc.encoding);
            lemma_chunk_values_step(s, p, pick_included_subscene(s));
            lemma_last_or_append(opt_seq(pick_included_subscene(s)(q, kind, size)), chunk_values(s, q2, pick_included_subscene(s)), sc.included_subscene);
            lemma_chunk_values_step(s, p, pick_item_tags(s));
            lemma_last_or_append(opt_seq(pick_item_tags(s)(q, kind, size)), chunk_values(s, q2, pick_item_tags(s)), sc.item_tags);
            lemma_chunk_values_step(s, p, pick_channel_names(s));
            lemma_last_or_append(opt_seq(pick_channel_names(s)(q, kind, size)), chunk_values(s, q2, pick_channel_names(s)), sc.channel_names);
            lemma_chunk_values_step(s, p, pick_audio(s));
            lemma_last_or_append(opt_seq(pick_audio(s)(q, kind, size)), chunk_values(s, q2, pick_audio(s)), sc.audio);
            lemma_chunk_values_step(s, p, pick_items(s));
            lemma_seq_assoc(sc.items, opt_seq(pick_items(s)(q, kind, size)), chunk_values(s, q2, pick_items(s)));
            lemma_chunk_values_step(s, p, pick_envelopes(s));
            lemma_seq_assoc(sc.envelopes, opt_seq(pick_envelopes(s)(q, kind, size)), chunk_values(s, q2, pick_envelopes(s)));
            lemma_chunk_values_step(s, p, pick_actions(s));
            lemma_seq_assoc(sc.actions, opt_seq(pick_actions(s)(q, kind, size)), chunk_values(s, q2, pick_actions(s)));
            lemma_chunk_values_step(s, p, pick_data_blocks(s));
            lemma_seq_assoc(sc.data_blocks, opt_seq(pick_data_blocks(s)(q, kind, size)), chunk_values(s, q2, pick_data_blocks(s)));
            lemma_chunk_values_step(s, p, pick_subscenes(s));
            lemma_seq_assoc(sc.subscenes, opt_seq(pick_subscenes(s)(q, kind, size)), chunk_values(s, q2, pick_subscenes(s)));
            lemma_chunk_values_step(s, p, pick_references(s));
            lemma_seq_assoc(sc.references, opt_seq(pick_references(s)(q, kind, size)), chunk_values(s, q2, pick_references(s)));
            lemma_chunk_values_step(s, p, pick_layers(s));
            lemma_chunk_values_step(s, p, pick_trisurfs(s));
        },
        Err(e) => {
            lemma_chunks_from_end(s, p, sc, last);
        },
    }
}

/// Reading the chunks of a file from `p` on, when it succeeds, appends to each list of the
/// scene (items, envelopes, actions, data blocks, sub-scenes, references) the values of the
/// chunks of its kind, one per chunk and in file order, and adds one layer per `LAYR` chunk
/// and one trisurface group per `3GRP` chunk; each single value (preview, description,
/// versions, encoding, included sub-scene, item tags, channel names, audio) ends as that of
/// the last chunk of its kind, or as it was when there is none.
pub proof fn law_scene_in_chunk_order(s: Seq<u8>, p: int, sc: SceneView, last: u32)
    requires
        file_loop(s, p, sc, last) is Ok,
    ensures
        ({
            let sc2 = file_loop(s, p, sc, last)->Ok_0;
            &&& sc2.items == sc.items + chunk_values(s, p, pick_items(s))
            &&& sc2.envelopes == sc.envelopes + chunk_values(s, p, pick_envelopes(s))
            &&& sc2.actions == sc.actions + chunk_values(s, p, pick_actions(s))
            &&& sc2.data_blocks == sc.data_blocks + chunk_values(s, p, pick_data_blocks(s))
            &&& sc2.subscenes == sc.subscenes + chunk_values(s, p, pick_subscenes(s))
            &&& sc2.references == sc.references + chunk_values(s, p, pick_references(s))
            &&& sc2.layers.len() == sc.layers.len() + chunk_values(s, p, pick_layers(s)).len()
            &&& sc2.trisurfs.len() == sc.trisurfs.len() + chunk_values(s, p, pick_trisurfs(s)).len()
            &&& sc2.preview == last_or(chunk_values(s, p, pick_preview(s)), sc.preview)
            &&& sc2.description == last_or(chunk_values(s, p, pick_description(s)), sc.description)
            &&& sc2.version == last_or(chunk_values(s, p, pick_version(s)), sc.version)
            &&& sc2.application_version == last_or(chunk_values(s, p, pick_application_version(s)), sc.application_version)
            &&& sc2.encoding == last_or(chunk_values(s, p, pick_encoding(s)), sc.encoding)
            &&& sc2.included_subscene == last_or(chunk_values(s, p, pick_included_subscene(s)), sc.included_subscene)
            &&& sc2.item_tags == last_or(chunk_values(s, p, pick_item_tags(s)), sc.item_tags)
            &&& sc2.channel_names == last_or(chunk_values(s, p, pick_channel_names(s)), sc.channel_names)
            &&& sc2.audio == last_or(chunk_values(s, p, pick_audio(s)), sc.audio)
        }),
{
    assert(chunks_from(s, p, sc, last) == file_loop(s, p, sc, last)) by {
        reveal(chunks_from);
    }
    lemma_scene_in_chunk_order(s, p, sc, last);
}

/// Grammar of a whole file: the header, whose size must be the length of the data after the
/// first 8 bytes, then the chunk loop from an empty scene.
pub open spec fn spec_file(s: Seq<u8>) -> Result<((u32, Extension), SceneView), ParseError> {
    match spec_header(s, 0) {
        Ok((h, q)) => if s.len() != h.0 + 8 {
            Err(ParseError::SizeMismatch)
        } else {
            match file_loop(s, q, empty_scene(), UNKN) {
                Ok(sc) => Ok((h, sc)),
                Err(e) => Err(e),
            }
        },
        Err(e) => Err(e),
    }
}

fn is_meta_code(k: u32) -> (r: bool)
    ensures
        r == is_meta_kind(k),
{
    k == PRVW || k == DESC || k == VRSN || k == APPV || k == ENCO || k == IASS || k == SUBS
        || k == XREF || k == TAGS || k == CHNM
}

fn is_layer_code(k: u32) -> (r: bool)
    ensures
        r == is_layer_kind(k),
{
    k == LAYR || k == PNTS || k == BBOX || k == VMPA || k == VMAP || k == VMED || k == POLS
        || k == VMAD || k == PTAG
}

fn is_trisurf_code(k: u32) -> (r: bool)
    ensures
        r == is_trisurf_kind(k),
{
    k == GRP3 || k == SRF3 || k == VRTS || k == TRIS || k == VVEC || k == TTGS
}

fn is_scene_code(k: u32) -> (r: bool)
    ensures
        r == is_scene_kind(k),
{
    k == ITEM || k == ENVL || k == ACTN || k == DATA || k == AANI
}

/// Reads the data of one chunk into `file`, returning the position after it.
fn read_chunk(
    buf: &[u8],
    q: u64,
    kind: u32,
    size: u32,
    file: &mut LuxologyFile,
    last: &mut ID4,
) -> (r: Result<u64, ParseError>)
    requires
        pos_ok(buf@, q as int),
        q + size <= buf@.len(),
    ensures
        layer_step_done(
            r,
            chunk_step(buf@, q as int, kind, size, old(file)@.1, old(last)@),
            buf@,
            q as int,
            old(file)@,
            final(file)@,
            final(last)@,
        ),
{
    if is_meta_code(kind) {
        read_meta_chunk(buf, q, kind, size, file)
    } else if is_layer_code(kind) {
        read_layer_chunk(buf, q, kind, size, file, last)
    } else if is_trisurf_code(kind) {
        read_trisurf_chunk(buf, q, kind, size, file)
    } else if is_scene_code(kind) {
        read_scene_chunk(buf, q, kind, size, file)
    } else {
        Ok(q + size as u64)
    }
}

impl LuxologyFile {
    /// A file with the given header and nothing else.
    pub fn new(header: Header) -> (r: LuxologyFile)
        ensures
            r@ == (header@, empty_scene()),
    {
        let r = LuxologyFile {
            header,
            preview: None,
            description: None,
            version: None,
            application_version: None,
            encoding: None,
            included_subscene: None,
            subscenes: Vec::new(),
            references: Vec::new(),
            item_tags: None,
            channel_names: None,
            layers: Vec::new(),
            trisurfs: Vec::new(),
            items: Vec::new(),
            envelopes: Vec::new(),
            actions: Vec::new(),
            data_blocks: Vec::new(),
            audio: None,
        };
        assert(r@.1 =~= empty_scene());
        r
    }

    /// Parses a whole scene file held in `data`.
    pub fn from_bytes(data: &[u8]) -> (r: Result<LuxologyFile, ParseError>)
        requires
            data@.len() <= MAX_INPUT,
        ensures
            match r {
                Ok(f) => spec_file(data@) == Ok::<((u32, Extension), SceneView), ParseError>(f@),
                Err(e) => spec_file(data@) == Err::<((u32, Extension), SceneView), ParseError>(e),
            },
    {
        let (header, q0) = Header::read_be(data, 0)?;
        let len = data.len() as u64;
        if len != header.size as u64 + 8 {
            return Err(ParseError::SizeMismatch);
        }
        let mut file = LuxologyFile::new(header);
        let mut last = ID4::new([0x55, 0x4e, 0x4b, 0x4e]);
        let mut p = q0;
        loop
            invariant
                len == data@.len(),
                data@.len() <= MAX_INPUT,
                p <= len,
                spec_header(data@, 0) == Ok::<((u32, Extension), int), ParseError>(
                    (header@, q0 as int),
                ),
                data@.len() == header.size + 8,
                file@.0 == header@,
                file_loop(data@, p as int, file@.1, last@) == file_loop(
                    data@,
                    q0 as int,
                    empty_scene(),
                    UNKN,
                ),
            decreases len - p,
        {
            let (h, q) = match ChunkHeader::read_be(data, p) {
                Ok(x) => x,
                Err(ParseError::UnexpectedEof) => {
                    return Ok(file);
                },
                Err(e) => {
                    return Err(e);
                },
            };
            let k = h.kind.code();
            if h.size as u64 + 8 > len - p {
                return Err(ParseError::InvalidSize);
            }
            if h.size % 2 != 0 {
                return Err(ParseError::OddChunkSize { kind: ID4::from_code(k), size: h.size });
            }
            let q2 = read_chunk(data, q, k, h.size, &mut file, &mut last)?;
            if q2 - q != h.size as u64 {
                return Err(
                    ParseError::ChunkBoundaryMismatch {
                        kind: ID4::from_code(k),
                        expected: h.size,
                        consumed: q2 - q,
                    },
                );
            }
            p = q2;
        }
    }
}

} // verus!
