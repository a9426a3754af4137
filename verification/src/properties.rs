//! Properties that relate the readers and writers of the format to each other.

use crate::geometry::layer::{
    is_curve_kind, is_tag_slot, lemma_tag_slot_unique, lemma_vx_rank_injective, polygon_bytes,
    polygon_list_bytes, polygon_tag_mapping_bytes, polygons_bytes, pols_loop, ptag_loop,
    sorted_tags, spec_polygon, spec_polygon_flags, spec_polygon_list, spec_polygon_tag_mapping, spec_vx_list,
    tag_entries_bytes, tag_slot, tags_contains, tags_insert, tags_map, tags_value, vx_rank,
    vx_seq_bytes, PolygonView, spec_layer_tail, spec_vertex_map, vertex_map_bytes, vmap_entries_bytes,
    vmap_loop, VertexMapView, pair_map_loop, pair_entries_bytes, spec_vertex_pair_map,
    vertex_pair_map_bytes, VertexPairMapView, PairEntriesView, spec_layer, layer_write, LayerView, empty_geometry, has_multires,
    boundary_rules_number, smoothing_number, points_bytes, spec_points, spec_vertex_map_parameter,
    uv_subdivision_number, UvSubdivisionKind,
};
use crate::geometry::trisurf::{spec_vertex_vectors, vertex_vectors_write, VertexVectorsView, spec_trisurf_data, spec_trisurf_group, bare_trisurf, TriSurfDataView, TriSurfGroupView};
use crate::item::{
    bounding_box_bytes, empty_item, item_head_write, item_leading_write, item_lists_write,
    item_loop, item_step, item_trailing_write, item_write, raw_subchunk,
    spec_bounding_box, spec_item, ItemView, link_write, spec_link, item_reference_write,
    spec_item_reference, item_layer_bytes, spec_item_layer, item_tag_write, spec_item_tag,
    channel_link_write, spec_channel_link, two_aligned, ChannelLinkView, channel_write, spec_channel,
};
use crate::animation::{
    action_gradient_write, spec_action_gradient, spec_opt_string, opt_string_write, ActionGradientView,
    action_channel_write, action_named_channel_write, spec_action_channel, spec_action_named_channel,
};
use crate::media::{audio_bytes, audio_loop, audio_settings_bytes, spec_audio, spec_audio_settings};
use crate::meta::{
    application_version_write, encoding_number, lemma_encoding_number_injective, spec_application_version,
    spec_encoding, spec_parent, spec_two_strings, spec_version, two_strings_write, version_write,
    Encoding,
};
use crate::primitives::{
    be_u16, be_u32, u32_at, i32_bits, channel_value_write, spec_channel_value, ChannelValueView, spec_i32, u32_to_i32, u32_seq_bytes, spec_u32_array, id4_bytes, nullstring_bytes, point_bytes, printable, spec_point, id4_printable, null_index, spec_chunk_header, spec_id4, spec_u16,
    spec_subchunk_header, spec_u32, spec_vx, u16_bytes, u32_bytes, vx_bytes, vx_canonical,
    ChunkHeader, ID4, VX,
};
use crate::tags::{AAIT, AASE, BBOX, UIDX, UNIQ, VNAM};
use crate::scene::{
    extension_code, extension_from, file_loop, is_layer_kind, is_meta_kind, is_scene_kind,
    is_trisurf_kind, Extension, SceneView,
};
use crate::utils::{align2, aligned_nullstring_write, pad2, spec_aligned_nullstring, subchunk_bytes};
use vstd::prelude::*;

verus! {

/// A 16 bit value reads back from its two bytes.
#[verifier::spinoff_prover]
pub proof fn lemma_u16_bytes(x: u16)
    ensures
        u16_bytes(x).len() == 2,
        be_u16(u16_bytes(x)[0], u16_bytes(x)[1]) == x,
{
    assert(x / 0x100 < 0x100 && x % 0x100 < 0x100);
    assert(x == (x / 0x100) * 0x100 + x % 0x100);
}

/// A 32 bit value reads back from its four bytes.
#[verifier::spinoff_prover]
pub proof fn lemma_u32_bytes(x: u32)
    ensures
        u32_bytes(x).len() == 4,
        be_u32(u32_bytes(x)[0], u32_bytes(x)[1], u32_bytes(x)[2], u32_bytes(x)[3]) == x,
{
    assert(x / 0x100_0000 < 0x100);
    assert(x == (x / 0x100_0000) * 0x100_0000 + ((x / 0x1_0000) % 0x100) * 0x1_0000 + ((x / 0x100)
        % 0x100) * 0x100 + x % 0x100);
}

/// A variable length index whose encoding reads back as itself is read back from that
/// encoding, wherever it stands, and the read ends right after it.
#[verifier::spinoff_prover]
pub proof fn law_vx_roundtrip(v: VX, pre: Seq<u8>, post: Seq<u8>)
    requires
        vx_canonical(v),
    ensures
        spec_vx(pre + vx_bytes(v) + post, pre.len() as int) == Ok::<(VX, int), crate::ParseError>(
            (v, (pre.len() + vx_bytes(v).len()) as int),
        ),
{
    let s = pre + vx_bytes(v) + post;
    let p = pre.len() as int;
    match v {
        VX::U2(x) => {
            lemma_u16_bytes(x);
            assert(s[p] == u16_bytes(x)[0] && s[p + 1] == u16_bytes(x)[1]);
        },
        VX::U4(x) => {
            let c: u32 = (0xff00_0000 + x % 0x100_0000) as u32;
            lemma_u32_bytes(c);
            let b = u32_bytes(c);
            assert(s[p] == b[0] && s[p + 1] == b[1] && s[p + 2] == b[2] && s[p + 3] == b[3]);
            assert(b[0] == 0xff && b[1] as int == x / 0x1_0000 && b[2] as int * 0x100 + b[3] as int
                == x % 0x1_0000) by (nonlinear_arith)
                requires
                    x < 0x100_0000,
                    c == 0xff00_0000 + x,
                    b[0] == (c / 0x100_0000) as u8,
                    b[1] == ((c / 0x1_0000) % 0x100) as u8,
                    b[2] == ((c / 0x100) % 0x100) as u8,
                    b[3] == (c % 0x100) as u8,
            ;
            assert((x / 0x1_0000) * 0x1_0000 + x % 0x1_0000 == x) by (nonlinear_arith);
        },
    }
}

/// Whatever index is read, it is one whose encoding reads back as itself, and the bytes read
/// are exactly its encoding.
#[verifier::spinoff_prover]
pub proof fn law_vx_reencode(s: Seq<u8>, p: int)
    requires
        spec_vx(s, p) is Ok,
    ensures
        ({
            let (v, q) = spec_vx(s, p)->Ok_0;
            vx_canonical(v) && s.subrange(p, q) == vx_bytes(v)
        }),
{
    let (v, q) = spec_vx(s, p)->Ok_0;
    let a = be_u16(s[p], s[p + 1]);
    assert(a as int == s[p] as int * 0x100 + s[p + 1] as int);
    if a < 0xff00 {
        assert(s[p] as int == a / 0x100 && s[p + 1] as int == a % 0x100) by (nonlinear_arith)
            requires
                a as int == s[p] as int * 0x100 + s[p + 1] as int,
                s[p + 1] < 0x100,
        ;
        assert(s.subrange(p, q) =~= vx_bytes(v));
    } else {
        let b = be_u16(s[p + 2], s[p + 3]);
        assert(b as int == s[p + 2] as int * 0x100 + s[p + 3] as int);
        let x: u32 = ((a - 0xff00) * 0x1_0000 + b) as u32;
        assert(s[p] == 0xff && x as int == s[p + 1] as int * 0x1_0000 + b as int) by (nonlinear_arith)
            requires
                a as int == s[p] as int * 0x100 + s[p + 1] as int,
                a >= 0xff00,
                s[p] < 0x100,
                s[p + 1] < 0x100,
                b < 0x1_0000,
                x as int == (a - 0xff00) * 0x1_0000 + b,
        ;
        let c: u32 = (0xff00_0000 + x % 0x100_0000) as u32;
        assert(x < 0x100_0000 && c == 0xff00_0000 + x && (c / 0x100_0000) as u8 == 0xff
            && ((c / 0x1_0000) % 0x100) as u8 == s[p + 1] && ((c / 0x100) % 0x100) as u8 == s[p + 2]
            && (c % 0x100) as u8 == s[p + 3]) by (nonlinear_arith)
            requires
                x as int == s[p + 1] as int * 0x1_0000 + s[p + 2] as int * 0x100 + s[p + 3] as int,
                s[p + 1] < 0x100,
                s[p + 2] < 0x100,
                s[p + 3] < 0x100,
                c as int == 0xff00_0000 + x % 0x100_0000,
        ;
        assert(s.subrange(p, q) =~= vx_bytes(v));
    }
}

/// A chunk header with a printable kind is read back from its encoding.
#[verifier::spinoff_prover]
pub proof fn law_chunk_header_roundtrip(h: ChunkHeader, pre: Seq<u8>, post: Seq<u8>)
    requires
        id4_printable(h.kind.0),
    ensures
        spec_chunk_header(pre + id4_bytes(h.kind) + u32_bytes(h.size) + post, pre.len() as int)
            == Ok::<((u32, u32), int), crate::ParseError>((h@, pre.len() + 8 as int)),
{
    let s = pre + id4_bytes(h.kind) + u32_bytes(h.size) + post;
    let p = pre.len() as int;
    lemma_u32_bytes(h.size);
    let b = u32_bytes(h.size);
    assert(s[p] == h.kind.0[0] && s[p + 1] == h.kind.0[1] && s[p + 2] == h.kind.0[2] && s[p + 3]
        == h.kind.0[3]);
    assert(s[p + 4] == b[0] && s[p + 5] == b[1] && s[p + 6] == b[2] && s[p + 7] == b[3]);
}

/// The first zero at or after `p` is at `z` when `z` holds a zero and nothing before it does.
#[verifier::spinoff_prover]
pub proof fn lemma_null_index_at(s: Seq<u8>, p: int, z: int)
    requires
        0 <= p <= z < s.len(),
        s[z] == 0,
        forall|k: int| p <= k < z ==> s[k] != 0,
    ensures
        null_index(s, p) == z,
    decreases z - p,
{
    if p < z {
        lemma_null_index_at(s, p + 1, z);
    }
}

/// A string without zero bytes, written null terminated and padded to even length, is read
/// back with the read ending where the writing ended, which is even when the writing started
/// at an even position; written at an even position it adds the string, a zero, and one more
/// zero when the string's length is even.
#[verifier::spinoff_prover]
pub proof fn law_aligned_nullstring_roundtrip(out: Seq<u8>, v: Seq<u8>, post: Seq<u8>)
    requires
        !v.contains(0),
    ensures
        spec_aligned_nullstring(aligned_nullstring_write(out, v) + post, out.len() as int)
            == Ok::<(Seq<u8>, int), crate::ParseError>((v, aligned_nullstring_write(out, v).len() as int)),
        out.len() % 2 == 0 ==> aligned_nullstring_write(out, v).len() % 2 == 0,
        out.len() % 2 == 0 ==> aligned_nullstring_write(out, v) == out + v + (if v.len() % 2
            == 0 {
            seq![0u8, 0u8]
        } else {
            seq![0u8]
        }),
{
    let w = aligned_nullstring_write(out, v);
    let s = w + post;
    let p = out.len() as int;
    let z = p + v.len();
    assert forall|k: int| p <= k < z implies s[k] != 0 by {
        assert(s[k] == v[k - p]);
    }
    assert(s[z] == 0);
    lemma_null_index_at(s, p, z);
    assert(s.subrange(p, z) =~= v);
    assert(w.len() == align2(z + 1));
    if out.len() % 2 == 0 {
        if v.len() % 2 == 0 {
            assert(w =~= out + v + seq![0u8, 0u8]);
        } else {
            assert(w =~= out + v + seq![0u8]);
        }
    }
}

/// In sorted entries an index occurs at most once.
#[verifier::spinoff_prover]
pub proof fn lemma_sorted_tags_unique(s: Seq<(VX, u16)>, a: int, b: int)
    requires
        sorted_tags(s),
        0 <= a < s.len(),
        0 <= b < s.len(),
        s[a].0 == s[b].0,
    ensures
        a == b,
{
    if a < b {
        assert(vx_rank(s[a].0) < vx_rank(s[b].0));
    } else if b < a {
        assert(vx_rank(s[b].0) < vx_rank(s[a].0));
    }
}

/// In sorted entries the tag of the index at position `j` is the value at position `j`.
#[verifier::spinoff_prover]
pub proof fn lemma_sorted_tags_value(s: Seq<(VX, u16)>, j: int)
    requires
        sorted_tags(s),
        0 <= j < s.len(),
    ensures
        tags_contains(s, s[j].0),
        tags_value(s, s[j].0) == s[j].1,
{
    let k = s[j].0;
    assert(0 <= j < s.len() && s[j].0 == k);
    let c = choose|i: int| 0 <= i < s.len() && s[i].0 == k;
    lemma_sorted_tags_unique(s, c, j);
}

/// Sorted entries have a place for every index.
#[verifier::spinoff_prover]
pub proof fn lemma_tag_slot_exists(s: Seq<(VX, u16)>, k: VX) -> (i: int)
    requires
        sorted_tags(s),
    ensures
        is_tag_slot(s, k, i),
    decreases s.len(),
{
    if s.len() == 0 {
        0
    } else {
        let t = s.drop_last();
        assert(sorted_tags(t));
        let i = lemma_tag_slot_exists(t, k);
        assert forall|j: int| 0 <= j < i implies vx_rank(#[trigger] s[j].0) < vx_rank(k) by {
            assert(s[j] == t[j]);
        }
        if i < t.len() {
            assert(s[i] == t[i]);
            i
        } else if vx_rank(s.last().0) < vx_rank(k) {
            assert forall|j: int| 0 <= j < s.len() implies vx_rank(#[trigger] s[j].0) < vx_rank(k) by {
                if j < i {
                    assert(s[j] == t[j]);
                }
            }
            s.len() as int
        } else {
            i
        }
    }
}

/// Mapping a polygon to a tag keeps the entries sorted and acts on them as a map insertion.
#[verifier::spinoff_prover]
pub proof fn law_polygon_tags_insert(s: Seq<(VX, u16)>, k: VX, v: u16)
    requires
        sorted_tags(s),
    ensures
        sorted_tags(tags_insert(s, k, v)),
        tags_map(tags_insert(s, k, v)) == tags_map(s).insert(k, v),
{
    let i = lemma_tag_slot_exists(s, k);
    lemma_tag_slot_unique(s, k, i);
    assert(tag_slot(s, k) == i);
    let t = tags_insert(s, k, v);
    if i < s.len() && s[i].0 == k {
        assert(t == s.update(i, (k, v)));
        assert(sorted_tags(t)) by {
            assert forall|a: int, b: int| 0 <= a < b < t.len() implies vx_rank(t[a].0) < vx_rank(
                t[b].0,
            ) by {
                assert(t[a].0 == s[a].0 && t[b].0 == s[b].0);
            }
        }
        assert forall|key: VX| #[trigger] tags_map(t).dom().contains(key) == tags_map(s).insert(
            k,
            v,
        ).dom().contains(key) by {
            if tags_contains(s, key) {
                let j = choose|j: int| 0 <= j < s.len() && s[j].0 == key;
                assert(t[j].0 == key);
            }
            if tags_contains(t, key) {
                let j = choose|j: int| 0 <= j < t.len() && t[j].0 == key;
                assert(s[j].0 == key);
            }
        }
        assert forall|key: VX| #[trigger] tags_map(t).dom().contains(key) implies tags_map(t)[key]
            == tags_map(s).insert(k, v)[key] by {
            let j = choose|j: int| 0 <= j < t.len() && t[j].0 == key;
            lemma_sorted_tags_value(t, j);
            if j != i {
                assert(s[j] == t[j]);
                lemma_sorted_tags_value(s, j);
            }
        }
        assert(tags_map(t) =~= tags_map(s).insert(k, v));
    } else {
        assert(t == s.insert(i, (k, v)));
        assert forall|j: int| 0 <= j < s.len() implies s[j].0 != k by {
            if j >= i {
                lemma_vx_rank_injective(s[i].0, k);
                if j > i {
                    assert(vx_rank(s[i].0) < vx_rank(s[j].0));
                }
            }
        }
        assert(sorted_tags(t)) by {
            assert forall|a: int, b: int| 0 <= a < b < t.len() implies vx_rank(t[a].0) < vx_rank(
                t[b].0,
            ) by {
                if b < i {
                } else if b == i {
                } else if a < i {
                    assert(t[b] == s[b - 1]);
                    if b - 1 > i {
                        assert(vx_rank(s[i].0) < vx_rank(s[b - 1].0));
                    }
                    lemma_vx_rank_injective(s[b - 1].0, k);
                } else if a == i {
                    assert(t[b] == s[b - 1]);
                    if b - 1 > i {
                        assert(vx_rank(s[i].0) < vx_rank(s[b - 1].0));
                    }
                    lemma_vx_rank_injective(s[b - 1].0, k);
                } else {
                    assert(t[a] == s[a - 1] && t[b] == s[b - 1]);
                }
            }
        }
        assert forall|key: VX| #[trigger] tags_map(t).dom().contains(key) == tags_map(s).insert(
            k,
            v,
        ).dom().contains(key) by {
            if tags_contains(s, key) {
                let j = choose|j: int| 0 <= j < s.len() && s[j].0 == key;
                if j < i {
                    assert(t[j].0 == key);
                } else {
                    assert(t[j + 1].0 == key);
                }
            }
            if key == k {
                assert(t[i].0 == k);
            }
            if tags_contains(t, key) && key != k {
                let j = choose|j: int| 0 <= j < t.len() && t[j].0 == key;
                if j < i {
                    assert(s[j].0 == key);
                } else if j > i {
                    assert(s[j - 1].0 == key);
                }
            }
        }
        assert forall|key: VX| #[trigger] tags_map(t).dom().contains(key) implies tags_map(t)[key]
            == tags_map(s).insert(k, v)[key] by {
            let j = choose|j: int| 0 <= j < t.len() && t[j].0 == key;
            lemma_sorted_tags_value(t, j);
            if j < i {
                assert(s[j] == t[j]);
                lemma_sorted_tags_value(s, j);
            } else if j > i {
                assert(s[j - 1] == t[j]);
                lemma_sorted_tags_value(s, j - 1);
            }
        }
        assert(tags_map(t) =~= tags_map(s).insert(k, v));
    }
}

/// Every extension is read back from its code.
#[verifier::spinoff_prover]
pub proof fn law_extension_code(e: Extension)
    ensures
        extension_from(extension_code(e)) == Some(e),
{
}

/// Every encoding is read back from its number.
#[verifier::spinoff_prover]
pub proof fn law_encoding_roundtrip(e: Encoding, pre: Seq<u8>, post: Seq<u8>)
    ensures
        spec_encoding(pre + u32_bytes(encoding_number(e)) + post, pre.len() as int)
            == Ok::<(Encoding, int), crate::ParseError>((e, pre.len() + 4 as int)),
{
    let s = pre + u32_bytes(encoding_number(e)) + post;
    let p = pre.len() as int;
    lemma_u32_bytes(encoding_number(e));
    let b = u32_bytes(encoding_number(e));
    assert(s[p] == b[0] && s[p + 1] == b[1] && s[p + 2] == b[2] && s[p + 3] == b[3]);
    lemma_encoding_number_injective(e);
}


/// A canonical index stored at `q` is read there.
#[verifier::spinoff_prover]
pub proof fn lemma_vx_at(s: Seq<u8>, q: int, v: VX)
    requires
        vx_canonical(v),
        0 <= q,
        q + vx_bytes(v).len() <= s.len(),
        s.subrange(q, q + vx_bytes(v).len()) == vx_bytes(v),
    ensures
        spec_vx(s, q) == Ok::<(VX, int), crate::ParseError>((v, q + vx_bytes(v).len())),
{
    let n = vx_bytes(v).len() as int;
    let pre = s.subrange(0, q);
    let post = s.subrange(q + n, s.len() as int);
    assert(s =~= pre + vx_bytes(v) + post);
    law_vx_roundtrip(v, pre, post);
}

/// The encoding of the first `i + 1` entries extends that of the first `i` by entry `i`.
#[verifier::spinoff_prover]
pub proof fn lemma_tag_entries_take(es: Seq<(VX, u16)>, i: int)
    requires
        0 <= i < es.len(),
    ensures
        tag_entries_bytes(es.take(i + 1)) == tag_entries_bytes(es.take(i)) + vx_bytes(es[i].0)
            + u16_bytes(es[i].1),
{
    assert(es.take(i + 1).drop_last() =~= es.take(i));
}

/// The encoding of the first `i` entries is a prefix of that of the first `j >= i` entries,
/// shorter by at least 4 bytes per entry.
#[verifier::spinoff_prover]
pub proof fn lemma_tag_entries_prefix(es: Seq<(VX, u16)>, i: int, j: int)
    requires
        0 <= i <= j <= es.len(),
    ensures
        tag_entries_bytes(es.take(j)).len() >= tag_entries_bytes(es.take(i)).len() + 4 * (j - i),
        tag_entries_bytes(es.take(j)).subrange(0, tag_entries_bytes(es.take(i)).len() as int)
            == tag_entries_bytes(es.take(i)),
    decreases j - i,
{
    let a = tag_entries_bytes(es.take(i));
    if i < j {
        lemma_tag_entries_prefix(es, i, j - 1);
        lemma_tag_entries_take(es, j - 1);
        let b = tag_entries_bytes(es.take(j - 1));
        assert(vx_bytes(es[j - 1].0).len() >= 2);
        assert(tag_entries_bytes(es.take(j)).subrange(0, a.len() as int) =~= b.subrange(
            0,
            a.len() as int,
        ));
    } else {
        assert(tag_entries_bytes(es.take(j)).subrange(0, a.len() as int) =~= a);
    }
}

/// Reading the tags of `s` from the end of the first `i` entries on gives all entries.
#[verifier::spinoff_prover]
proof fn lemma_ptag_loop_from(
    s: Seq<u8>,
    pre: Seq<u8>,
    kind: u32,
    es: Seq<(VX, u16)>,
    post: Seq<u8>,
    i: int,
)
    requires
        s == pre + u32_bytes(kind) + tag_entries_bytes(es) + post,
        sorted_tags(es),
        forall|j: int| 0 <= j < es.len() ==> vx_canonical(#[trigger] es[j].0),
        0 <= i <= es.len(),
    ensures
        ptag_loop(
            s,
            pre.len() as int,
            (4 + tag_entries_bytes(es).len()) as int,
            (pre.len() + 4 + tag_entries_bytes(es.take(i)).len()) as int,
            es.take(i),
        ) == Ok::<(Seq<(VX, u16)>, int), crate::ParseError>(
            (es, (pre.len() + 4 + tag_entries_bytes(es).len()) as int),
        ),
    decreases es.len() - i,
{
    let p = pre.len() as int;
    let size = 4 + tag_entries_bytes(es).len();
    let q = p + 4 + tag_entries_bytes(es.take(i)).len();
    assert(es.take(es.len() as int) =~= es);
    if i < es.len() {
        lemma_tag_entries_prefix(es, i + 1, es.len() as int);
        lemma_tag_entries_take(es, i);
        let e = es[i];
        let a = tag_entries_bytes(es.take(i));
        let b = tag_entries_bytes(es.take(i + 1));
        let all = tag_entries_bytes(es);
        let n = vx_bytes(e.0).len() as int;
        let base = p + 4;
        assert forall|k: int| 0 <= k < n implies s[q + k] == vx_bytes(e.0)[k] by {
            assert(s[q + k] == all[a.len() + k]);
            assert(all[a.len() + k] == b[a.len() + k]);
        }
        assert(s.subrange(q, q + n) =~= vx_bytes(e.0));
        lemma_vx_at(s, q, e.0);
        let q2 = q + n;
        assert(s[q2] == all[a.len() + n] && all[a.len() + n] == b[a.len() + n]);
        assert(s[q2 + 1] == all[a.len() + n + 1] && all[a.len() + n + 1] == b[a.len() + n + 1]);
        lemma_u16_bytes(e.1);
        assert(spec_u16(s, q2) == Ok::<(u16, int), crate::ParseError>((e.1, q2 + 2)));
        let t = es.take(i);
        assert(is_tag_slot(t, e.0, i)) by {
            assert forall|j: int| 0 <= j < i implies vx_rank(#[trigger] t[j].0) < vx_rank(e.0) by {
                assert(t[j] == es[j]);
            }
        }
        lemma_tag_slot_unique(t, e.0, i);
        assert(tags_insert(t, e.0, e.1) =~= es.take(i + 1));
        lemma_ptag_loop_from(s, pre, kind, es, post, i + 1);
    } else {
        assert(q - p == size);
    }
}

/// Polygon tags of a printable kind, sorted by polygon index and with canonical indices, are
/// read back from their written form as a chunk of that length.
#[verifier::spinoff_prover]
pub proof fn law_polygon_tag_mapping_roundtrip(
    kind: ID4,
    es: Seq<(VX, u16)>,
    pre: Seq<u8>,
    post: Seq<u8>,
)
    requires
        id4_printable(kind.0),
        sorted_tags(es),
        forall|j: int| 0 <= j < es.len() ==> vx_canonical(#[trigger] es[j].0),
        polygon_tag_mapping_bytes((kind@, es)).len() <= u32::MAX,
    ensures
        spec_polygon_tag_mapping(
            pre + polygon_tag_mapping_bytes((kind@, es)) + post,
            pre.len() as int,
            polygon_tag_mapping_bytes((kind@, es)).len() as u32,
        ) == Ok::<((u32, Seq<(VX, u16)>), int), crate::ParseError>(
            ((kind@, es), (pre.len() + polygon_tag_mapping_bytes((kind@, es)).len()) as int),
        ),
{
    let bytes = polygon_tag_mapping_bytes((kind@, es));
    let s = pre + bytes + post;
    let p = pre.len() as int;
    assert(s =~= pre + u32_bytes(kind@) + tag_entries_bytes(es) + post);
    ID4::lemma_bytes_of_code(kind);
    lemma_u32_bytes(kind@);
    let b = u32_bytes(kind@);
    assert(s[p] == b[0] && s[p + 1] == b[1] && s[p + 2] == b[2] && s[p + 3] == b[3]);
    assert(b[0] == kind.0[0] && b[1] == kind.0[1] && b[2] == kind.0[2] && b[3] == kind.0[3]);
    assert(spec_id4(s, p) == Ok::<(u32, int), crate::ParseError>((kind@, p + 4)));
    assert(es.take(0) =~= Seq::<(VX, u16)>::empty());
    lemma_ptag_loop_from(s, pre, kind@, es, post, 0);
}


/// Canonical indices stored one after the other from `q` are read there.
#[verifier::spinoff_prover]
pub proof fn lemma_vx_list_at(s: Seq<u8>, q: int, vs: Seq<VX>)
    requires
        forall|j: int| 0 <= j < vs.len() ==> vx_canonical(#[trigger] vs[j]),
        0 <= q,
        q + vx_seq_bytes(vs).len() <= s.len(),
        s.subrange(q, q + vx_seq_bytes(vs).len()) == vx_seq_bytes(vs),
    ensures
        spec_vx_list(s, q, vs.len()) == Ok::<(Seq<VX>, int), crate::ParseError>(
            (vs, q + vx_seq_bytes(vs).len()),
        ),
    decreases vs.len(),
{
    if vs.len() > 0 {
        let init = vs.drop_last();
        let a = vx_seq_bytes(init);
        let b = vx_seq_bytes(vs);
        assert(s.subrange(q, q + a.len()) =~= b.subrange(0, a.len() as int));
        assert(b.subrange(0, a.len() as int) =~= a);
        assert forall|j: int| 0 <= j < init.len() implies vx_canonical(#[trigger] init[j]) by {
            assert(init[j] == vs[j]);
        }
        lemma_vx_list_at(s, q, init);
        let n = vx_bytes(vs.last()).len();
        assert(s.subrange(q + a.len(), q + a.len() + n) =~= vx_bytes(vs.last())) by {
            assert forall|k: int| 0 <= k < n implies s[q + a.len() + k] == vx_bytes(vs.last())[k] by {
                assert(s.subrange(q, q + b.len())[a.len() + k] == b[a.len() + k]);
            }
        }
        assert(vx_canonical(vs[vs.len() - 1]));
        lemma_vx_at(s, q + a.len(), vs.last());
        assert(init.push(vs.last()) =~= vs);
    } else {
        assert(vs =~= Seq::<VX>::empty());
    }
}

/// A polygon that reads back from its written form in a list of kind `kind`: a flags word
/// exactly when the kind has one, a count equal to its number of canonical indices.
pub open spec fn polygon_fits_kind(kind: u32, v: PolygonView) -> bool {
    &&& (v.2 is Some <==> is_curve_kind(kind))
    &&& v.0 == v.1.len()
    &&& forall|j: int| 0 <= j < v.1.len() ==> vx_canonical(#[trigger] v.1[j])
}

/// The encoding of the first `i + 1` polygons extends that of the first `i` by polygon `i`.
#[verifier::spinoff_prover]
pub proof fn lemma_polygons_take(ps: Seq<PolygonView>, i: int)
    requires
        0 <= i < ps.len(),
    ensures
        polygons_bytes(ps.take(i + 1)) == polygons_bytes(ps.take(i)) + polygon_bytes(ps[i]),
{
    assert(ps.take(i + 1).drop_last() =~= ps.take(i));
}

/// The encoding of the first `i` polygons is a prefix of that of the first `j >= i`, shorter by
/// at least 2 bytes per polygon.
#[verifier::spinoff_prover]
pub proof fn lemma_polygons_prefix(ps: Seq<PolygonView>, i: int, j: int)
    requires
        0 <= i <= j <= ps.len(),
    ensures
        polygons_bytes(ps.take(j)).len() >= polygons_bytes(ps.take(i)).len() + 2 * (j - i),
        polygons_bytes(ps.take(j)).subrange(0, polygons_bytes(ps.take(i)).len() as int)
            == polygons_bytes(ps.take(i)),
    decreases j - i,
{
    let a = polygons_bytes(ps.take(i));
    if i < j {
        lemma_polygons_prefix(ps, i, j - 1);
        lemma_polygons_take(ps, j - 1);
        let b = polygons_bytes(ps.take(j - 1));
        assert(polygons_bytes(ps.take(j)).subrange(0, a.len() as int) =~= b.subrange(
            0,
            a.len() as int,
        ));
    } else {
        assert(polygons_bytes(ps.take(j)).subrange(0, a.len() as int) =~= a);
    }
}

/// A polygon that fits its kind is read back from its encoding.
#[verifier::spinoff_prover]
proof fn lemma_polygon_at(w: Seq<u8>, o: int, kind: u32, v: PolygonView)
    requires
        polygon_fits_kind(kind, v),
        0 <= o,
        o + polygon_bytes(v).len() <= w.len(),
        w.subrange(o, o + polygon_bytes(v).len()) == polygon_bytes(v),
    ensures
        spec_polygon(w, o, kind) == Ok::<(PolygonView, int), crate::ParseError>(
            (v, o + polygon_bytes(v).len()),
        ),
{
    let pb = polygon_bytes(v);
    let vb = vx_seq_bytes(v.1);
    let fb = match v.2 {
        Some(f) => u32_bytes(f),
        None => Seq::<u8>::empty(),
    };
    let h = u16_bytes(v.0) + fb;
    assert(pb =~= h + vb);
    lemma_u16_bytes(v.0);
    assert(w[o] == pb[0] && w[o + 1] == pb[1]);
    match v.2 {
        Some(f) => {
            lemma_u32_bytes(f);
            assert(w[o + 2] == pb[2] && w[o + 3] == pb[3] && w[o + 4] == pb[4] && w[o + 5] == pb[5]);
            assert(spec_polygon_flags(w, o + 2, kind) == Ok::<(Option<u32>, int), crate::ParseError>(
                (Some(f), o + 6),
            ));
        },
        None => {},
    }
    let q = o + h.len();
    assert(w.subrange(q, q + vb.len()) =~= vb) by {
        assert forall|k: int| 0 <= k < vb.len() implies w[q + k] == vb[k] by {
            assert(w.subrange(o, o + pb.len())[h.len() + k] == pb[h.len() + k]);
        }
    }
    lemma_vx_list_at(w, q, v.1);
}

/// Reading the polygons of `w` from the end of the first `i` polygons on gives all polygons.
#[verifier::spinoff_prover]
#[verifier::rlimit(40)]
proof fn lemma_pols_loop_from(w: Seq<u8>, kind: u32, ps: Seq<PolygonView>, i: int)
    requires
        w == u32_bytes(kind) + polygons_bytes(ps),
        forall|j: int| 0 <= j < ps.len() ==> polygon_fits_kind(kind, #[trigger] ps[j]),
        0 <= i <= ps.len(),
    ensures
        pols_loop(w, (4 + polygons_bytes(ps.take(i)).len()) as int, kind, ps.take(i)) == Ok::<
            Seq<PolygonView>,
            crate::ParseError,
        >(ps),
    decreases ps.len() - i,
{
    let o = (4 + polygons_bytes(ps.take(i)).len()) as int;
    assert(ps.take(ps.len() as int) =~= ps);
    if i < ps.len() {
        lemma_polygons_prefix(ps, i + 1, ps.len() as int);
        lemma_polygons_take(ps, i);
        let a = polygons_bytes(ps.take(i));
        let b = polygons_bytes(ps.take(i + 1));
        let all = polygons_bytes(ps);
        let v = ps[i];
        let n = polygon_bytes(v).len() as int;
        assert(w.subrange(o, o + n) =~= polygon_bytes(v)) by {
            assert forall|k: int| 0 <= k < n implies w[o + k] == polygon_bytes(v)[k] by {
                assert(w[o + k] == all[a.len() + k]);
                assert(all[a.len() + k] == b[a.len() + k]);
            }
        }
        lemma_polygon_at(w, o, kind, v);
        assert(ps.take(i).push(v) =~= ps.take(i + 1));
        lemma_pols_loop_from(w, kind, ps, i + 1);
    } else {
        assert(o == w.len());
    }
}

/// A polygon list of a printable kind whose polygons fit that kind (a flags word exactly for
/// curves and lines, counts that match, canonical indices) is read back from its written form
/// as a chunk of that length.
#[verifier::spinoff_prover]
pub proof fn law_polygon_list_roundtrip(
    kind: ID4,
    ps: Seq<PolygonView>,
    pre: Seq<u8>,
    post: Seq<u8>,
)
    requires
        id4_printable(kind.0),
        forall|j: int| 0 <= j < ps.len() ==> polygon_fits_kind(kind@, #[trigger] ps[j]),
        polygon_list_bytes((kind@, ps)).len() <= u32::MAX,
    ensures
        spec_polygon_list(
            pre + polygon_list_bytes((kind@, ps)) + post,
            pre.len() as int,
            polygon_list_bytes((kind@, ps)).len() as u32,
        ) == Ok::<((u32, Seq<PolygonView>), int), crate::ParseError>(
            ((kind@, ps), (pre.len() + polygon_list_bytes((kind@, ps)).len()) as int),
        ),
{
    let bytes = polygon_list_bytes((kind@, ps));
    let s = pre + bytes + post;
    let p = pre.len() as int;
    let w = s.subrange(p, p + bytes.len());
    assert(w =~= bytes);
    ID4::lemma_bytes_of_code(kind);
    lemma_u32_bytes(kind@);
    let b = u32_bytes(kind@);
    assert(w[0] == b[0] && w[1] == b[1] && w[2] == b[2] && w[3] == b[3]);
    assert(b[0] == kind.0[0] && b[1] == kind.0[1] && b[2] == kind.0[2] && b[3] == kind.0[3]);
    assert(spec_id4(w, 0) == Ok::<(u32, int), crate::ParseError>((kind@, 4)));
    assert(ps.take(0) =~= Seq::<PolygonView>::empty());
    lemma_pols_loop_from(w, kind@, ps, 0);
}


/// A chunk of a kind the library does not know, with an even size that fits in the file, is
/// skipped: the scene and the kind of the last polygon list stay as they were.
#[verifier::spinoff_prover]
pub proof fn law_unknown_chunk_skipped(s: Seq<u8>, p: int, sc: SceneView, last: u32)
    requires
        spec_chunk_header(s, p) is Ok,
        ({
            let ((kind, size), _) = spec_chunk_header(s, p)->Ok_0;
            &&& !is_meta_kind(kind)
            &&& !is_layer_kind(kind)
            &&& !is_trisurf_kind(kind)
            &&& !is_scene_kind(kind)
            &&& size + 8 <= s.len() - p
            &&& size % 2 == 0
        }),
    ensures
        file_loop(s, p, sc, last) == file_loop(
            s,
            p + 8 + (spec_chunk_header(s, p)->Ok_0).0.1,
            sc,
            last,
        ),
{
}

/// An `AAIT` sub-chunk holding the item index `i`, stored at `o`, is read there.
#[verifier::spinoff_prover]
proof fn lemma_audio_item_at(s: Seq<u8>, o: int, i: u32)
    requires
        0 <= o,
        o + 10 <= s.len(),
        s.subrange(o, o + 10) == subchunk_bytes(u32_bytes(AAIT), u32_bytes(i)),
    ensures
        spec_subchunk_header(s, o) == Ok::<((u32, u16), int), crate::ParseError>(
            ((AAIT, 4u16), o + 6),
        ),
        spec_u32(s, o + 6) == Ok::<(u32, int), crate::ParseError>((i, o + 10)),
{
    let b = subchunk_bytes(u32_bytes(AAIT), u32_bytes(i));
    lemma_u32_bytes(i);
    assert(pad2(u32_bytes(i)) == u32_bytes(i));
    let k = u32_bytes(AAIT);
    assert(k[0] == 0x41 && k[1] == 0x41 && k[2] == 0x49 && k[3] == 0x54);
    lemma_u16_bytes(4);
    assert(b =~= k + u16_bytes(4) + u32_bytes(i));
    assert forall|j: int| 0 <= j < 10 implies s[o + j] == b[j] by {
        assert(s.subrange(o, o + 10)[j] == b[j]);
    }
    assert(s[o] == 0x41 && s[o + 1] == 0x41 && s[o + 2] == 0x49 && s[o + 3] == 0x54) by {
        assert(s[o] == b[0] && s[o + 1] == b[1] && s[o + 2] == b[2] && s[o + 3] == b[3]);
    }
    assert(s[o + 4] == u16_bytes(4)[0] && s[o + 5] == u16_bytes(4)[1]) by {
        assert(s[o + 4] == b[4] && s[o + 5] == b[5]);
    }
    let w = u32_bytes(i);
    assert(s[o + 6] == w[0] && s[o + 7] == w[1] && s[o + 8] == w[2] && s[o + 9] == w[3]) by {
        assert(s[o + 6] == b[6] && s[o + 7] == b[7] && s[o + 8] == b[8] && s[o + 9] == b[9]);
    }
    assert(spec_id4(s, o) == Ok::<(u32, int), crate::ParseError>((AAIT, o + 4)));
}

/// An `AASE` sub-chunk holding the settings `st`, stored at `o`, is read there.
#[verifier::spinoff_prover]
proof fn lemma_audio_settings_at(s: Seq<u8>, o: int, st: (u16, u16, u16, u32))
    requires
        0 <= o,
        o + 16 <= s.len(),
        s.subrange(o, o + 16) == subchunk_bytes(u32_bytes(AASE), audio_settings_bytes(st)),
    ensures
        spec_subchunk_header(s, o) == Ok::<((u32, u16), int), crate::ParseError>(
            ((AASE, 10u16), o + 6),
        ),
        spec_audio_settings(s, o + 6) == Ok::<((u16, u16, u16, u32), int), crate::ParseError>(
            (st, o + 16),
        ),
{
    let d = audio_settings_bytes(st);
    let b = subchunk_bytes(u32_bytes(AASE), d);
    lemma_u16_bytes(st.0);
    lemma_u16_bytes(st.1);
    lemma_u16_bytes(st.2);
    lemma_u32_bytes(st.3);
    assert(pad2(d) == d);
    let k = u32_bytes(AASE);
    assert(k[0] == 0x41 && k[1] == 0x41 && k[2] == 0x53 && k[3] == 0x45);
    lemma_u16_bytes(10);
    assert(b =~= k + u16_bytes(10) + d);
    assert forall|j: int| 0 <= j < 16 implies s[o + j] == b[j] by {
        assert(s.subrange(o, o + 16)[j] == b[j]);
    }
    assert(s[o] == 0x41 && s[o + 1] == 0x41 && s[o + 2] == 0x53 && s[o + 3] == 0x45) by {
        assert(s[o] == b[0] && s[o + 1] == b[1] && s[o + 2] == b[2] && s[o + 3] == b[3]);
    }
    assert(s[o + 4] == u16_bytes(10)[0] && s[o + 5] == u16_bytes(10)[1]) by {
        assert(s[o + 4] == b[4] && s[o + 5] == b[5]);
    }
    assert forall|j: int| 0 <= j < 10 implies s[o + 6 + j] == d[j] by {
        assert(s[o + 6 + j] == b[6 + j]);
    }
    assert(spec_id4(s, o) == Ok::<(u32, int), crate::ParseError>((AASE, o + 4)));
    let q = o + 6;
    assert(s[q] == u16_bytes(st.0)[0] && s[q + 1] == u16_bytes(st.0)[1]) by {
        assert(s[q] == d[0] && s[q + 1] == d[1]);
    }
    assert(s[q + 2] == u16_bytes(st.1)[0] && s[q + 3] == u16_bytes(st.1)[1]) by {
        assert(s[q + 2] == d[2] && s[q + 3] == d[3]);
    }
    assert(s[q + 4] == u16_bytes(st.2)[0] && s[q + 5] == u16_bytes(st.2)[1]) by {
        assert(s[q + 4] == d[4] && s[q + 5] == d[5]);
    }
    let w = u32_bytes(st.3);
    assert(s[q + 6] == w[0] && s[q + 7] == w[1] && s[q + 8] == w[2] && s[q + 9] == w[3]) by {
        assert(s[q + 6] == d[6] && s[q + 7] == d[7] && s[q + 8] == d[8] && s[q + 9] == d[9]);
    }
}

/// One step of the audio loop over an `AAIT` sub-chunk.
#[verifier::spinoff_prover]
proof fn lemma_audio_loop_item(
    s: Seq<u8>,
    p: int,
    size: int,
    m: int,
    i: u32,
    st: Option<(u16, u16, u16, u32)>,
)
    requires
        p <= m,
        m - p < size,
        spec_subchunk_header(s, m) == Ok::<((u32, u16), int), crate::ParseError>(
            ((AAIT, 4u16), m + 6),
        ),
        spec_u32(s, m + 6) == Ok::<(u32, int), crate::ParseError>((i, m + 10)),
    ensures
        audio_loop(s, p, size, m, None, st) == audio_loop(s, p, size, m + 10, Some(i), st),
{
}

/// One step of the audio loop over an `AASE` sub-chunk.
#[verifier::spinoff_prover]
proof fn lemma_audio_loop_settings(
    s: Seq<u8>,
    p: int,
    size: int,
    m: int,
    i: Option<u32>,
    st: (u16, u16, u16, u32),
)
    requires
        p <= m,
        m - p < size,
        spec_subchunk_header(s, m) == Ok::<((u32, u16), int), crate::ParseError>(
            ((AASE, 10u16), m + 6),
        ),
        spec_audio_settings(s, m + 6) == Ok::<((u16, u16, u16, u32), int), crate::ParseError>(
            (st, m + 16),
        ),
    ensures
        audio_loop(s, p, size, m, i, None) == audio_loop(s, p, size, m + 16, i, Some(st)),
{
}

/// Audio read back from its written form, read as a chunk of that length, is the audio that
/// was written, and the read ends where the written form ends.
#[verifier::spinoff_prover]
#[verifier::rlimit(40)]
pub proof fn law_audio_roundtrip(
    v: (Option<u32>, Option<(u16, u16, u16, u32)>),
    pre: Seq<u8>,
    post: Seq<u8>,
)
    ensures
        spec_audio(pre + audio_bytes(v) + post, pre.len() as int, audio_bytes(v).len() as u32)
            == Ok::<((Option<u32>, Option<(u16, u16, u16, u32)>), int), crate::ParseError>(
            (v, (pre.len() + audio_bytes(v).len()) as int),
        ),
{
    let a = audio_bytes(v);
    let s = pre + a + post;
    let p = pre.len() as int;
    let first = match v.0 {
        Some(i) => subchunk_bytes(u32_bytes(AAIT), u32_bytes(i)),
        None => Seq::<u8>::empty(),
    };
    let second = match v.1 {
        Some(st) => subchunk_bytes(u32_bytes(AASE), audio_settings_bytes(st)),
        None => Seq::<u8>::empty(),
    };
    assert(a == first + second);
    let m = p + first.len();
    let e = m + second.len();
    assert(s.subrange(p, m) =~= first);
    assert(s.subrange(m, e) =~= second);
    let size = a.len() as int;
    assert(e == p + size);
    match v.0 {
        Some(i) => {
            lemma_u16_bytes(4);
            assert(pad2(u32_bytes(i)) =~= u32_bytes(i));
            assert(first.len() == 10);
            lemma_audio_item_at(s, p, i);
            lemma_audio_loop_item(s, p, size, p, i, None);
        },
        None => {},
    }
    match v.1 {
        Some(st) => {
            lemma_u16_bytes(10);
            let d = audio_settings_bytes(st);
            assert(pad2(d) =~= d);
            assert(second.len() == 16);
            lemma_audio_settings_at(s, m, st);
            lemma_audio_loop_settings(s, p, size, m, v.0, st);
        },
        None => {},
    }
    assert(audio_loop(s, p, size, e, v.0, v.1) == Ok::<
        ((Option<u32>, Option<(u16, u16, u16, u32)>), int),
        crate::ParseError,
    >((v, e)));
    assert(size <= 26);
    assert(a.len() as u32 == size);
}

/// Writing a string at an even position is writing it on its own after what is there.
#[verifier::spinoff_prover]
proof fn lemma_aligned_nullstring_write_even(out: Seq<u8>, v: Seq<u8>)
    requires
        out.len() % 2 == 0,
    ensures
        aligned_nullstring_write(out, v) == out + aligned_nullstring_write(Seq::empty(), v),
{
    let a = Seq::<u8>::empty() + nullstring_bytes(v);
    assert(out + nullstring_bytes(v) =~= out + a);
    if a.len() % 2 != 0 {
        assert((out + a).push(0) =~= out + a.push(0));
    }
}

/// A string without zero bytes, stored at an even position as it is written on its own, is
/// read there, and its written form has even length.
#[verifier::spinoff_prover]
proof fn lemma_aligned_nullstring_at(s: Seq<u8>, q: int, v: Seq<u8>)
    requires
        !v.contains(0),
        0 <= q,
        q % 2 == 0,
        q + aligned_nullstring_write(Seq::empty(), v).len() <= s.len(),
        s.subrange(q, q + aligned_nullstring_write(Seq::empty(), v).len())
            == aligned_nullstring_write(Seq::empty(), v),
    ensures
        spec_aligned_nullstring(s, q) == Ok::<(Seq<u8>, int), crate::ParseError>(
            (v, q + aligned_nullstring_write(Seq::empty(), v).len()),
        ),
        aligned_nullstring_write(Seq::empty(), v).len() % 2 == 0,
{
    let b = aligned_nullstring_write(Seq::empty(), v);
    let out = s.subrange(0, q);
    let post = s.subrange(q + b.len(), s.len() as int);
    lemma_aligned_nullstring_write_even(out, v);
    assert(s =~= out + b + post);
    law_aligned_nullstring_roundtrip(out, v, post);
    law_aligned_nullstring_roundtrip(Seq::empty(), v, Seq::empty());
}

/// A 32 bit value stored at `o` is read there.
#[verifier::spinoff_prover]
proof fn lemma_u32_at(s: Seq<u8>, o: int, x: u32)
    requires
        0 <= o,
        o + 4 <= s.len(),
        s.subrange(o, o + 4) == u32_bytes(x),
    ensures
        spec_u32(s, o) == Ok::<(u32, int), crate::ParseError>((x, o + 4)),
{
    lemma_u32_bytes(x);
    let b = u32_bytes(x);
    assert(s[o] == b[0] && s[o + 1] == b[1] && s[o + 2] == b[2] && s[o + 3] == b[3]) by {
        assert(s.subrange(o, o + 4)[0] == b[0] && s.subrange(o, o + 4)[1] == b[1]);
        assert(s.subrange(o, o + 4)[2] == b[2] && s.subrange(o, o + 4)[3] == b[3]);
    }
}

/// A sub-chunk header of a printable kind stored at `o` is read there.
#[verifier::spinoff_prover]
proof fn lemma_subchunk_header_at(s: Seq<u8>, o: int, kind: u32, n: u16)
    requires
        0 <= o,
        o + 6 <= s.len(),
        printable(u32_bytes(kind)[0]) && printable(u32_bytes(kind)[1]),
        printable(u32_bytes(kind)[2]) && printable(u32_bytes(kind)[3]),
        s.subrange(o, o + 6) == u32_bytes(kind) + u16_bytes(n),
    ensures
        spec_subchunk_header(s, o) == Ok::<((u32, u16), int), crate::ParseError>(((kind, n), o + 6)),
{
    lemma_u32_bytes(kind);
    lemma_u16_bytes(n);
    let b = u32_bytes(kind) + u16_bytes(n);
    assert forall|j: int| 0 <= j < 6 implies s[o + j] == b[j] by {
        assert(s.subrange(o, o + 6)[j] == b[j]);
    }
    let k = u32_bytes(kind);
    let m = u16_bytes(n);
    assert(s[o] == b[0] && s[o + 1] == b[1] && s[o + 2] == b[2] && s[o + 3] == b[3]);
    assert(s[o + 4] == b[4] && s[o + 5] == b[5]);
    assert(b[0] == k[0] && b[1] == k[1] && b[2] == k[2] && b[3] == k[3]);
    assert(b[4] == m[0] && b[5] == m[1]);
}

/// A point stored at `o` is read there.
#[verifier::spinoff_prover]
proof fn lemma_point_at(s: Seq<u8>, o: int, v: (u32, u32, u32))
    requires
        0 <= o,
        o + 12 <= s.len(),
        s.subrange(o, o + 12) == point_bytes(v),
    ensures
        spec_point(s, o) == Ok::<((u32, u32, u32), int), crate::ParseError>((v, o + 12)),
{
    lemma_u32_bytes(v.0);
    lemma_u32_bytes(v.1);
    lemma_u32_bytes(v.2);
    assert(s.subrange(o, o + 4) =~= s.subrange(o, o + 12).subrange(0, 4));
    assert(s.subrange(o + 4, o + 8) =~= s.subrange(o, o + 12).subrange(4, 8));
    assert(s.subrange(o + 8, o + 12) =~= s.subrange(o, o + 12).subrange(8, 12));
    assert(point_bytes(v).subrange(0, 4) =~= u32_bytes(v.0));
    assert(point_bytes(v).subrange(4, 8) =~= u32_bytes(v.1));
    assert(point_bytes(v).subrange(8, 12) =~= u32_bytes(v.2));
    lemma_u32_at(s, o, v.0);
    lemma_u32_at(s, o + 4, v.1);
    lemma_u32_at(s, o + 8, v.2);
}

/// One turn of the item loop over a sub-chunk that reads to `m2`.
#[verifier::spinoff_prover]
proof fn lemma_item_loop_step(
    s: Seq<u8>,
    start: int,
    size: int,
    m: int,
    acc: ItemView,
    k: u32,
    n: u16,
    acc2: ItemView,
    m2: int,
)
    requires
        start <= m,
        m - start < size,
        spec_subchunk_header(s, m) == Ok::<((u32, u16), int), crate::ParseError>(((k, n), m + 6)),
        item_step(s, m + 6, k, n, acc) == Ok::<(ItemView, int), crate::ParseError>((acc2, m2)),
    ensures
        item_loop(s, start, size, m, acc) == item_loop(s, start, size, m2, acc2),
{
}

/// A sub-chunk of kind `k` holding a string without zero bytes, stored at an even position
/// `m` as it is written, is read there.
#[verifier::spinoff_prover]
proof fn lemma_string_subchunk_at(s: Seq<u8>, m: int, k: u32, v: Seq<u8>)
    requires
        0 <= m,
        m % 2 == 0,
        !v.contains(0),
        aligned_nullstring_write(Seq::empty(), v).len() < 0x1_0000,
        printable(u32_bytes(k)[0]) && printable(u32_bytes(k)[1]),
        printable(u32_bytes(k)[2]) && printable(u32_bytes(k)[3]),
        m + raw_subchunk(k, aligned_nullstring_write(Seq::empty(), v)).len() <= s.len(),
        s.subrange(m, m + raw_subchunk(k, aligned_nullstring_write(Seq::empty(), v)).len())
            == raw_subchunk(k, aligned_nullstring_write(Seq::empty(), v)),
    ensures
        ({
            let n = aligned_nullstring_write(Seq::empty(), v).len();
            &&& raw_subchunk(k, aligned_nullstring_write(Seq::empty(), v)).len() == 6 + n
            &&& n % 2 == 0
            &&& spec_subchunk_header(s, m) == Ok::<((u32, u16), int), crate::ParseError>(
                ((k, n as u16), m + 6),
            )
            &&& spec_aligned_nullstring(s, m + 6) == Ok::<(Seq<u8>, int), crate::ParseError>(
                (v, m + 6 + n),
            )
        }),
{
    let b = aligned_nullstring_write(Seq::empty(), v);
    let n = b.len() as int;
    let r = raw_subchunk(k, b);
    lemma_u32_bytes(k);
    lemma_u16_bytes(n as u16);
    assert(r =~= u32_bytes(k) + u16_bytes(n as u16) + b);
    assert(s.subrange(m, m + 6) =~= u32_bytes(k) + u16_bytes(n as u16)) by {
        assert(s.subrange(m, m + 6) =~= s.subrange(m, m + r.len()).subrange(0, 6));
    }
    lemma_subchunk_header_at(s, m, k, n as u16);
    assert(s.subrange(m + 6, m + 6 + n) =~= b) by {
        assert(s.subrange(m + 6, m + 6 + n) =~= s.subrange(m, m + r.len()).subrange(6, 6 + n));
    }
    lemma_aligned_nullstring_at(s, m + 6, v);
}

/// An item with, besides its kind, name and id, at most an identifier, an index, a visible
/// name and bounds: no reference, layer, package, user channels, channel links, links,
/// channels or tags; its strings hold no zero byte, and its string sub-chunks fit their 16 bit
/// sizes.
pub open spec fn item_without_lists(v: ItemView) -> bool {
    &&& v.reference is None
    &&& v.layer is None
    &&& v.package is None
    &&& v.user_channels.len() == 0
    &&& v.channel_links.len() == 0
    &&& v.links.len() == 0
    &&& v.channels.len() == 0
    &&& v.tags.len() == 0
    &&& !v.kind.contains(0)
    &&& !v.name.contains(0)
    &&& (v.ident matches Some(i) ==> !i.contains(0) && aligned_nullstring_write(
        Seq::empty(),
        i,
    ).len() < 0x1_0000)
    &&& (v.visible_name matches Some(i) ==> !i.contains(0) && aligned_nullstring_write(
        Seq::empty(),
        i,
    ).len() < 0x1_0000)
}

/// The item loop over an identifier sub-chunk stored at an even position.
#[verifier::spinoff_prover]
proof fn lemma_item_ident_stage(s: Seq<u8>, start: int, size: int, m: int, acc: ItemView, i: Seq<u8>)
    requires
        0 <= start <= m,
        m % 2 == 0,
        !i.contains(0),
        aligned_nullstring_write(Seq::empty(), i).len() < 0x1_0000,
        m + raw_subchunk(UNIQ, aligned_nullstring_write(Seq::empty(), i)).len() <= start + size,
        start + size <= s.len(),
        s.subrange(m, m + raw_subchunk(UNIQ, aligned_nullstring_write(Seq::empty(), i)).len())
            == raw_subchunk(UNIQ, aligned_nullstring_write(Seq::empty(), i)),
    ensures
        ({
            let e = m + raw_subchunk(UNIQ, aligned_nullstring_write(Seq::empty(), i)).len();
            &&& e % 2 == 0
            &&& item_loop(s, start, size, m, acc) == item_loop(
                s,
                start,
                size,
                e,
                (ItemView { ident: Some(i), ..acc }),
            )
        }),
{
    let k = u32_bytes(UNIQ);
    assert(k[0] == 0x55 && k[1] == 0x4e && k[2] == 0x49 && k[3] == 0x51);
    lemma_string_subchunk_at(s, m, UNIQ, i);
    let n = aligned_nullstring_write(Seq::empty(), i).len();
    assert(item_step(s, m + 6, UNIQ, n as u16, acc) == Ok::<(ItemView, int), crate::ParseError>(
        (ItemView { ident: Some(i), ..acc }, m + 6 + n),
    )) by {
        reveal(item_step);
    }
    lemma_item_loop_step(
        s,
        start,
        size,
        m,
        acc,
        UNIQ,
        n as u16,
        ItemView { ident: Some(i), ..acc },
        m + 6 + n,
    );
}

/// The item loop over a visible name sub-chunk stored at an even position.
#[verifier::spinoff_prover]
proof fn lemma_item_visible_name_stage(
    s: Seq<u8>,
    start: int,
    size: int,
    m: int,
    acc: ItemView,
    i: Seq<u8>,
)
    requires
        0 <= start <= m,
        m % 2 == 0,
        !i.contains(0),
        aligned_nullstring_write(Seq::empty(), i).len() < 0x1_0000,
        m + raw_subchunk(VNAM, aligned_nullstring_write(Seq::empty(), i)).len() <= start + size,
        start + size <= s.len(),
        s.subrange(m, m + raw_subchunk(VNAM, aligned_nullstring_write(Seq::empty(), i)).len())
            == raw_subchunk(VNAM, aligned_nullstring_write(Seq::empty(), i)),
    ensures
        ({
            let e = m + raw_subchunk(VNAM, aligned_nullstring_write(Seq::empty(), i)).len();
            &&& e % 2 == 0
            &&& item_loop(s, start, size, m, acc) == item_loop(
                s,
                start,
                size,
                e,
                (ItemView { visible_name: Some(i), ..acc }),
            )
        }),
{
    let k = u32_bytes(VNAM);
    assert(k[0] == 0x56 && k[1] == 0x4e && k[2] == 0x41 && k[3] == 0x4d);
    lemma_string_subchunk_at(s, m, VNAM, i);
    let n = aligned_nullstring_write(Seq::empty(), i).len();
    assert(item_step(s, m + 6, VNAM, n as u16, acc) == Ok::<(ItemView, int), crate::ParseError>(
        (ItemView { visible_name: Some(i), ..acc }, m + 6 + n),
    )) by {
        reveal(item_step);
    }
    lemma_item_loop_step(
        s,
        start,
        size,
        m,
        acc,
        VNAM,
        n as u16,
        ItemView { visible_name: Some(i), ..acc },
        m + 6 + n,
    );
}

/// The item loop over an index sub-chunk.
#[verifier::spinoff_prover]
proof fn lemma_item_index_stage(s: Seq<u8>, start: int, size: int, m: int, acc: ItemView, i: u32)
    requires
        0 <= start <= m,
        m + 10 <= start + size,
        start + size <= s.len(),
        s.subrange(m, m + 10) == u32_bytes(UIDX) + u16_bytes(4) + u32_bytes(i),
    ensures
        item_loop(s, start, size, m, acc) == item_loop(
            s,
            start,
            size,
            m + 10,
            (ItemView { index: Some(i), ..acc }),
        ),
{
    let k = u32_bytes(UIDX);
    assert(k[0] == 0x55 && k[1] == 0x49 && k[2] == 0x44 && k[3] == 0x58);
    lemma_u16_bytes(4);
    lemma_u32_bytes(i);
    let b = u32_bytes(UIDX) + u16_bytes(4) + u32_bytes(i);
    assert(s.subrange(m, m + 6) =~= u32_bytes(UIDX) + u16_bytes(4)) by {
        assert(s.subrange(m, m + 6) =~= s.subrange(m, m + 10).subrange(0, 6));
    }
    lemma_subchunk_header_at(s, m, UIDX, 4);
    assert(s.subrange(m + 6, m + 10) =~= u32_bytes(i)) by {
        assert(s.subrange(m + 6, m + 10) =~= s.subrange(m, m + 10).subrange(6, 10));
    }
    lemma_u32_at(s, m + 6, i);
    assert(item_step(s, m + 6, UIDX, 4, acc) == Ok::<(ItemView, int), crate::ParseError>(
        (ItemView { index: Some(i), ..acc }, m + 10),
    )) by {
        reveal(item_step);
    }
    lemma_item_loop_step(s, start, size, m, acc, UIDX, 4, ItemView { index: Some(i), ..acc }, m + 10);
}

/// Where `x + y` is stored at `m`, `x` is stored at `m` and `y` right after it.
#[verifier::spinoff_prover]
proof fn lemma_split_at(s: Seq<u8>, m: int, x: Seq<u8>, y: Seq<u8>)
    requires
        0 <= m,
        m + x.len() + y.len() <= s.len(),
        s.subrange(m, m + x.len() + y.len()) == x + y,
    ensures
        s.subrange(m, m + x.len()) == x,
        s.subrange(m + x.len(), m + x.len() + y.len()) == y,
{
    let w = s.subrange(m, m + x.len() + y.len());
    assert forall|j: int| 0 <= j < x.len() implies s[m + j] == x[j] by {
        assert(w[j] == (x + y)[j]);
    }
    assert forall|j: int| 0 <= j < y.len() implies s[m + x.len() + j] == y[j] by {
        assert(w[x.len() + j] == (x + y)[x.len() + j]);
    }
    assert(s.subrange(m, m + x.len()) =~= x);
    assert(s.subrange(m + x.len(), m + x.len() + y.len()) =~= y);
}

/// A bounds sub-chunk stored at `m` is read there.
#[verifier::spinoff_prover]
proof fn lemma_bounds_subchunk_at(s: Seq<u8>, m: int, b: ((u32, u32, u32), (u32, u32, u32)))
    requires
        0 <= m,
        m + 30 <= s.len(),
        s.subrange(m, m + 30) == u32_bytes(BBOX) + u16_bytes(24) + bounding_box_bytes(b),
    ensures
        spec_subchunk_header(s, m) == Ok::<((u32, u16), int), crate::ParseError>(
            ((BBOX, 24u16), m + 6),
        ),
        spec_bounding_box(s, m + 6) == Ok::<
            (((u32, u32, u32), (u32, u32, u32)), int),
            crate::ParseError,
        >((b, m + 30)),
{
    let k = u32_bytes(BBOX);
    assert(k[0] == 0x42 && k[1] == 0x42 && k[2] == 0x4f && k[3] == 0x58);
    let h = u32_bytes(BBOX) + u16_bytes(24);
    let c = point_bytes(b.0);
    let d = point_bytes(b.1);
    assert(h.len() == 6 && c.len() == 12 && d.len() == 12);
    assert(bounding_box_bytes(b) == c + d);
    assert(s.subrange(m, m + 6) == h && s.subrange(m + 6, m + 30) == c + d) by {
        lemma_split_at(s, m, h, c + d);
    }
    assert(s.subrange(m + 6, m + 18) == c && s.subrange(m + 18, m + 30) == d) by {
        lemma_split_at(s, m + 6, c, d);
    }
    lemma_subchunk_header_at(s, m, BBOX, 24);
    lemma_point_at(s, m + 6, b.0);
    lemma_point_at(s, m + 18, b.1);
}

/// The item loop over a bounds sub-chunk.
#[verifier::spinoff_prover]
proof fn lemma_item_bounds_stage(
    s: Seq<u8>,
    start: int,
    size: int,
    m: int,
    acc: ItemView,
    b: ((u32, u32, u32), (u32, u32, u32)),
)
    requires
        0 <= start <= m,
        m + 30 <= start + size,
        start + size <= s.len(),
        s.subrange(m, m + 30) == u32_bytes(BBOX) + u16_bytes(24) + bounding_box_bytes(b),
    ensures
        item_loop(s, start, size, m, acc) == item_loop(
            s,
            start,
            size,
            m + 30,
            (ItemView { bounds: Some(b), ..acc }),
        ),
{
    lemma_bounds_subchunk_at(s, m, b);
    assert(item_step(s, m + 6, BBOX, 24, acc) == Ok::<(ItemView, int), crate::ParseError>(
        (ItemView { bounds: Some(b), ..acc }, m + 30),
    )) by {
        reveal(item_step);
    }
    lemma_item_loop_step(s, start, size, m, acc, BBOX, 24, ItemView { bounds: Some(b), ..acc }, m + 30);
}

/// Written identifier sub-chunk of an item, if any.
pub open spec fn ident_part(v: ItemView) -> Seq<u8> {
    match v.ident {
        Some(i) => raw_subchunk(UNIQ, aligned_nullstring_write(Seq::empty(), i)),
        None => Seq::empty(),
    }
}

/// Written index sub-chunk of an item, if any.
pub open spec fn index_part(v: ItemView) -> Seq<u8> {
    match v.index {
        Some(i) => u32_bytes(UIDX) + u16_bytes(4) + u32_bytes(i),
        None => Seq::empty(),
    }
}

/// Written visible name sub-chunk of an item, if any.
pub open spec fn visible_name_part(v: ItemView) -> Seq<u8> {
    match v.visible_name {
        Some(n) => raw_subchunk(VNAM, aligned_nullstring_write(Seq::empty(), n)),
        None => Seq::empty(),
    }
}

/// Written bounds sub-chunk of an item, if any.
pub open spec fn bounds_part(v: ItemView) -> Seq<u8> {
    match v.bounds {
        Some(b) => u32_bytes(BBOX) + u16_bytes(24) + bounding_box_bytes(b),
        None => Seq::empty(),
    }
}

/// Written kind, name and id of an item.
pub open spec fn head_part(v: ItemView) -> Seq<u8> {
    aligned_nullstring_write(Seq::empty(), v.kind) + aligned_nullstring_write(Seq::empty(), v.name)
        + u32_bytes(v.id)
}

/// Written trailing sub-chunks of an item: identifier, index, visible name and bounds.
pub open spec fn tail_part(v: ItemView) -> Seq<u8> {
    ident_part(v) + index_part(v) + visible_name_part(v) + bounds_part(v)
}

/// The written form of an item without lists: kind, name, id, then its trailing sub-chunks.
#[verifier::spinoff_prover]
proof fn lemma_item_layout(v: ItemView, pre: Seq<u8>)
    requires
        item_without_lists(v),
        pre.len() % 2 == 0,
    ensures
        item_write(pre, v) == pre + head_part(v) + tail_part(v),
        aligned_nullstring_write(Seq::empty(), v.kind).len() % 2 == 0,
        aligned_nullstring_write(Seq::empty(), v.name).len() % 2 == 0,
{
    let kb = aligned_nullstring_write(Seq::empty(), v.kind);
    let nb = aligned_nullstring_write(Seq::empty(), v.name);
    let h1 = aligned_nullstring_write(pre, v.kind);
    lemma_aligned_nullstring_write_even(pre, v.kind);
    law_aligned_nullstring_roundtrip(Seq::empty(), v.kind, Seq::empty());
    lemma_aligned_nullstring_write_even(h1, v.name);
    law_aligned_nullstring_roundtrip(Seq::empty(), v.name, Seq::empty());
    let x0 = item_head_write(pre, v);
    assert(x0 =~= pre + head_part(v)) by {
        assert(x0 == pre + kb + nb + u32_bytes(v.id));
    }
    let x1 = item_leading_write(x0, v);
    assert(x1 =~= x0);
    let x2 = item_lists_write(x1, v);
    assert(x2 =~= x1) by {
        assert(crate::item::user_channels_bytes(v.user_channels) =~= Seq::<u8>::empty());
        assert(crate::item::channel_links_bytes(v.channel_links) =~= Seq::<u8>::empty());
        assert(crate::item::links_bytes(v.links) =~= Seq::<u8>::empty());
        assert(crate::item::channels_bytes(v.channels) =~= Seq::<u8>::empty());
        assert(crate::item::tags_bytes(v.tags) =~= Seq::<u8>::empty());
    }
    let x3 = item_trailing_write(x2, v);
    assert(x3 =~= x2 + tail_part(v));
    assert(item_write(pre, v) == x3);
    assert(x3 =~= pre + head_part(v) + tail_part(v));
}

/// The item loop over the trailing sub-chunks of an item without lists, stored at an even
/// position `m0`, ends where they end with those fields set.
#[verifier::spinoff_prover]
proof fn lemma_item_tail(s: Seq<u8>, p: int, size: int, m0: int, acc0: ItemView, v: ItemView)
    requires
        item_without_lists(v),
        0 <= p <= m0,
        m0 % 2 == 0,
        acc0.ident is None,
        acc0.index is None,
        acc0.visible_name is None,
        acc0.bounds is None,
        m0 + tail_part(v).len() == p + size,
        p + size <= s.len(),
        s.subrange(m0, p + size) == tail_part(v),
    ensures
        item_loop(s, p, size, m0, acc0) == Ok::<(ItemView, int), crate::ParseError>(
            (
                (ItemView {
                    ident: v.ident,
                    index: v.index,
                    visible_name: v.visible_name,
                    bounds: v.bounds,
                    ..acc0
                }),
                p + size,
            ),
        ),
{
    let a = ident_part(v);
    let b = index_part(v);
    let c = visible_name_part(v);
    let d = bounds_part(v);
    lemma_split_at(s, m0, a + b + c, d);
    lemma_split_at(s, m0, a + b, c);
    lemma_split_at(s, m0, a, b);
    let m1 = m0 + a.len();
    let acc1 = ItemView { ident: v.ident, ..acc0 };
    match v.ident {
        Some(i) => {
            lemma_item_ident_stage(s, p, size, m0, acc0, i);
        },
        None => {
            assert(acc1 == acc0);
        },
    }
    let m2 = m1 + b.len();
    let acc2 = ItemView { index: v.index, ..acc1 };
    match v.index {
        Some(i) => {
            lemma_item_index_stage(s, p, size, m1, acc1, i);
        },
        None => {
            assert(acc2 == acc1);
        },
    }
    let m3 = m2 + c.len();
    let acc3 = ItemView { visible_name: v.visible_name, ..acc2 };
    match v.visible_name {
        Some(n) => {
            lemma_item_visible_name_stage(s, p, size, m2, acc2, n);
        },
        None => {
            assert(acc3 == acc2);
        },
    }
    let acc4 = ItemView { bounds: v.bounds, ..acc3 };
    match v.bounds {
        Some(bb) => {
            lemma_item_bounds_stage(s, p, size, m3, acc3, bb);
        },
        None => {
            assert(acc4 == acc3);
        },
    }
}

/// An item without lists stored at an even position `p` as it is written is read there.
#[verifier::spinoff_prover]
proof fn lemma_item_at(s: Seq<u8>, p: int, v: ItemView)
    requires
        item_without_lists(v),
        0 <= p,
        p % 2 == 0,
        p + head_part(v).len() + tail_part(v).len() <= s.len(),
        head_part(v).len() + tail_part(v).len() <= u32::MAX,
        aligned_nullstring_write(Seq::empty(), v.kind).len() % 2 == 0,
        aligned_nullstring_write(Seq::empty(), v.name).len() % 2 == 0,
        s.subrange(p, p + head_part(v).len() + tail_part(v).len()) == head_part(v) + tail_part(v),
    ensures
        spec_item(s, p, (head_part(v).len() + tail_part(v).len()) as u32) == Ok::<
            (ItemView, int),
            crate::ParseError,
        >((v, p + head_part(v).len() + tail_part(v).len())),
{
    let hd = head_part(v);
    let tl = tail_part(v);
    let size = (hd.len() + tl.len()) as int;
    let kb = aligned_nullstring_write(Seq::empty(), v.kind);
    let nb = aligned_nullstring_write(Seq::empty(), v.name);
    let ib = u32_bytes(v.id);
    lemma_split_at(s, p, hd, tl);
    assert(hd == kb + nb + ib);
    lemma_split_at(s, p, kb + nb, ib);
    lemma_split_at(s, p, kb, nb);
    let q1 = p + kb.len();
    let q2 = q1 + nb.len();
    let m0 = q2 + 4;
    lemma_aligned_nullstring_at(s, p, v.kind);
    lemma_aligned_nullstring_at(s, q1, v.name);
    lemma_u32_at(s, q2, v.id);
    let acc0 = empty_item(v.kind, v.name, v.id);
    assert(spec_item(s, p, size as u32) == item_loop(s, p, size, m0, acc0));
    lemma_item_tail(s, p, size, m0, acc0, v);
    let acc4 = ItemView {
        ident: v.ident,
        index: v.index,
        visible_name: v.visible_name,
        bounds: v.bounds,
        ..acc0
    };
    assert(v.user_channels =~= acc4.user_channels);
    assert(v.channel_links =~= acc4.channel_links);
    assert(v.links =~= acc4.links);
    assert(v.channels =~= acc4.channels);
    assert(v.tags =~= acc4.tags);
    assert(acc4 == v);
}

/// An item without references, layers, packages, channels, links or tags (see
/// `item_without_lists`), written at an even position, is read back from its written form as a
/// chunk of that length, and the read ends where the written form ends.
#[verifier::spinoff_prover]
pub proof fn law_item_without_lists_roundtrip(v: ItemView, pre: Seq<u8>, post: Seq<u8>)
    requires
        item_without_lists(v),
        pre.len() % 2 == 0,
        item_write(pre, v).len() - pre.len() <= u32::MAX,
    ensures
        spec_item(
            item_write(pre, v) + post,
            pre.len() as int,
            (item_write(pre, v).len() - pre.len()) as u32,
        ) == Ok::<(ItemView, int), crate::ParseError>((v, item_write(pre, v).len() as int)),
{
    let w = item_write(pre, v);
    let s = w + post;
    let p = pre.len() as int;
    let hd = head_part(v);
    let tl = tail_part(v);
    lemma_item_layout(v, pre);
    assert(s.subrange(p, p + hd.len() + tl.len()) =~= hd + tl);
    lemma_item_at(s, p, v);
}

/// A link written at an even position is read back from its written form: the graph name,
/// then the target item id as the first 32 bit value and the link index as the second.
#[verifier::spinoff_prover]
pub proof fn law_link_roundtrip(v: (Seq<u8>, u32, u32), pre: Seq<u8>, post: Seq<u8>)
    requires
        pre.len() % 2 == 0,
        !v.0.contains(0),
    ensures
        spec_link(link_write(pre, v) + post, pre.len() as int) == Ok::<
            ((Seq<u8>, u32, u32), int),
            crate::ParseError,
        >((v, link_write(pre, v).len() as int)),
{
    let a = aligned_nullstring_write(pre, v.0);
    let w = link_write(pre, v);
    let s = w + post;
    let rest = u32_bytes(v.1) + u32_bytes(v.2) + post;
    assert(s =~= a + rest);
    law_aligned_nullstring_roundtrip(pre, v.0, rest);
    lemma_u32_bytes(v.1);
    lemma_u32_bytes(v.2);
    let o = a.len() as int;
    assert(s.subrange(o, o + 4) =~= u32_bytes(v.1));
    assert(s.subrange(o + 4, o + 8) =~= u32_bytes(v.2));
    lemma_u32_at(s, o, v.1);
    lemma_u32_at(s, o + 4, v.2);
}

/// The fields of a layer's tail as they stand in the data: spline patch level, three future
/// expansion values, boundary rules, the catmull render, catmull subdivision and subdivision
/// render levels, then the cache normal vectors field, which is true exactly when it is not
/// zero, the current catmull level and the smoothing, each 16 bits, 22 bytes in all.
#[verifier::spinoff_prover]
pub proof fn law_layer_tail_fields(s: Seq<u8>, q: int)
    requires
        spec_layer_tail(s, q) is Ok,
    ensures
        ({
            let (t, e) = spec_layer_tail(s, q)->Ok_0;
            &&& e == q + 22
            &&& t.0 == be_u16(s[q], s[q + 1])
            &&& t.1 == seq![be_u16(s[q + 2], s[q + 3]), be_u16(s[q + 4], s[q + 5]), be_u16(s[q + 6], s[q + 7])]
            &&& t.3 == be_u16(s[q + 10], s[q + 11])
            &&& t.4 == be_u16(s[q + 12], s[q + 13])
            &&& t.5 == be_u16(s[q + 14], s[q + 15])
            &&& t.6 == (be_u16(s[q + 16], s[q + 17]) != 0)
            &&& t.7 == be_u16(s[q + 18], s[q + 19])
        }),
{
}

/// The encoding of 32 bit values is four bytes per value, value `i` at bytes `4 * i`.
#[verifier::spinoff_prover]
proof fn lemma_u32_seq_layout(v: Seq<u32>)
    ensures
        u32_seq_bytes(v).len() == 4 * v.len(),
        forall|i: int, j: int|
            0 <= i < v.len() && 0 <= j < 4 ==> #[trigger] u32_seq_bytes(v)[4 * i + j]
                == u32_bytes(v[i])[j],
    decreases v.len(),
{
    if v.len() > 0 {
        let init = v.drop_last();
        lemma_u32_seq_layout(init);
        assert forall|i: int, j: int|
            0 <= i < v.len() && 0 <= j < 4 implies #[trigger] u32_seq_bytes(v)[4 * i + j]
                == u32_bytes(v[i])[j] by {
            if i < init.len() {
                assert(u32_seq_bytes(init)[4 * i + j] == u32_bytes(init[i])[j]);
            }
        }
    }
}

/// 32 bit values stored at `q` are read there as an array.
#[verifier::spinoff_prover]
proof fn lemma_u32_array_at(s: Seq<u8>, q: int, v: Seq<u32>)
    requires
        0 <= q,
        q + 4 * v.len() <= s.len(),
        s.subrange(q, q + 4 * v.len()) == u32_seq_bytes(v),
    ensures
        spec_u32_array(s, q, v.len() as int) == Ok::<(Seq<u32>, int), crate::ParseError>(
            (v, q + 4 * v.len()),
        ),
{
    lemma_u32_seq_layout(v);
    let w = u32_seq_bytes(v);
    assert forall|i: int| 0 <= i < v.len() implies u32_at(s, q + 4 * i) == v[i] by {
        lemma_u32_bytes(v[i]);
        let b = u32_bytes(v[i]);
        assert(s[q + 4 * i] == w[4 * i + 0]);
        assert(s[q + 4 * i + 1] == w[4 * i + 1]);
        assert(s[q + 4 * i + 2] == w[4 * i + 2]);
        assert(s[q + 4 * i + 3] == w[4 * i + 3]);
    }
    let got = Seq::new(v.len(), |i: int| u32_at(s, q + 4 * i));
    assert(got =~= v);
}

/// The encoding of the first `i + 1` entries extends that of the first `i` by entry `i`.
proof fn lemma_vmap_take(es: Seq<(VX, Seq<u32>)>, i: int)
    requires
        0 <= i < es.len(),
    ensures
        vmap_entries_bytes(es.take(i + 1)) == vmap_entries_bytes(es.take(i)) + vx_bytes(es[i].0)
            + u32_seq_bytes(es[i].1),
{
    assert(es.take(i + 1).drop_last() =~= es.take(i));
}

/// The encoding of the first `i` entries is a prefix of that of the first `j >= i`, shorter by
/// at least 2 bytes per entry.
#[verifier::spinoff_prover]
proof fn lemma_vmap_prefix(es: Seq<(VX, Seq<u32>)>, i: int, j: int)
    requires
        0 <= i <= j <= es.len(),
    ensures
        vmap_entries_bytes(es.take(j)).len() >= vmap_entries_bytes(es.take(i)).len() + 2 * (j - i),
        vmap_entries_bytes(es.take(j)).subrange(0, vmap_entries_bytes(es.take(i)).len() as int)
            == vmap_entries_bytes(es.take(i)),
    decreases j - i,
{
    let a = vmap_entries_bytes(es.take(i));
    if i < j {
        lemma_vmap_prefix(es, i, j - 1);
        lemma_vmap_take(es, j - 1);
        let b = vmap_entries_bytes(es.take(j - 1));
        assert(vmap_entries_bytes(es.take(j)).subrange(0, a.len() as int) =~= b.subrange(
            0,
            a.len() as int,
        ));
        assert(vx_bytes(es[j - 1].0).len() >= 2);
    } else {
        assert(vmap_entries_bytes(es.take(j)).subrange(0, a.len() as int) =~= a);
    }
}

/// Vertex map entries with canonical indices and `dim` values each, stored from `base` up to
/// the end of the chunk, are read back by the entry loop from the end of the first `i` on.
#[verifier::spinoff_prover]
#[verifier::rlimit(40)]
proof fn lemma_vmap_loop_from(
    s: Seq<u8>,
    start: int,
    size: int,
    base: int,
    dim: u16,
    es: Seq<(VX, Seq<u32>)>,
    i: int,
)
    requires
        0 <= start <= base,
        base + vmap_entries_bytes(es).len() == start + size,
        start + size <= s.len(),
        s.subrange(base, start + size) == vmap_entries_bytes(es),
        forall|j: int| 0 <= j < es.len() ==> vx_canonical(#[trigger] es[j].0) && es[j].1.len() == dim,
        0 <= i <= es.len(),
    ensures
        vmap_loop(s, start, size, base + vmap_entries_bytes(es.take(i)).len(), dim, es.take(i))
            == Ok::<(Seq<(VX, Seq<u32>)>, int), crate::ParseError>((es, start + size)),
    decreases es.len() - i,
{
    let all = vmap_entries_bytes(es);
    let a = vmap_entries_bytes(es.take(i));
    let o = base + a.len();
    assert(es.take(es.len() as int) =~= es);
    if i < es.len() {
        lemma_vmap_prefix(es, i + 1, es.len() as int);
        lemma_vmap_take(es, i);
        let e = es[i];
        let x = vx_bytes(e.0);
        let y = u32_seq_bytes(e.1);
        let b = vmap_entries_bytes(es.take(i + 1));
        lemma_u32_seq_layout(e.1);
        assert(s.subrange(o, o + x.len() + y.len()) =~= x + y) by {
            assert forall|k: int| 0 <= k < x.len() + y.len() implies s[o + k] == (x + y)[k] by {
                assert(s[base + a.len() + k] == all[a.len() + k]);
                assert(all[a.len() + k] == b[a.len() + k]);
            }
        }
        lemma_split_at(s, o, x, y);
        assert(vx_canonical(es[i].0));
        lemma_vx_at(s, o, e.0);
        lemma_u32_array_at(s, o + x.len(), e.1);
        assert(es.take(i).push(e) =~= es.take(i + 1));
        lemma_vmap_loop_from(s, start, size, base, dim, es, i + 1);
    } else {
        assert(o == start + size);
    }
}

/// A vertex map written at an even position, whose name has no zero byte and an odd length
/// (so that the written name needs no padding), whose kind is four printable characters and
/// whose entries have canonical vertex indices and `dimension` values each, is read back from
/// its written form as a chunk of that length: each entry is its vertex index followed by its
/// values.
#[verifier::spinoff_prover]
#[verifier::rlimit(40)]
pub proof fn law_vertex_map_roundtrip(v: VertexMapView, pre: Seq<u8>, post: Seq<u8>)
    requires
        pre.len() % 2 == 0,
        printable(u32_bytes(v.0)[0]) && printable(u32_bytes(v.0)[1]),
        printable(u32_bytes(v.0)[2]) && printable(u32_bytes(v.0)[3]),
        !v.2.contains(0),
        v.2.len() % 2 == 1,
        forall|j: int| 0 <= j < v.3.len() ==> vx_canonical(#[trigger] v.3[j].0) && v.3[j].1.len() == v.1,
        vertex_map_bytes(v).len() <= u32::MAX,
    ensures
        spec_vertex_map(pre + vertex_map_bytes(v) + post, pre.len() as int, vertex_map_bytes(v).len() as u32)
            == Ok::<(VertexMapView, int), crate::ParseError>(
            (v, (pre.len() + vertex_map_bytes(v).len()) as int),
        ),
{
    let w = vertex_map_bytes(v);
    let s = pre + w + post;
    let p = pre.len() as int;
    let size = w.len() as int;
    let k = u32_bytes(v.0);
    let d = u16_bytes(v.1);
    let nm = aligned_nullstring_write(Seq::empty(), v.2);
    let es = vmap_entries_bytes(v.3);
    assert(nm =~= crate::primitives::nullstring_bytes(v.2));
    assert(w =~= k + d + nm + es);
    assert(s.subrange(p, p + w.len()) =~= w);
    lemma_split_at(s, p, k + d + nm, es);
    lemma_split_at(s, p, k + d, nm);
    lemma_split_at(s, p, k, d);
    lemma_u32_bytes(v.0);
    lemma_u16_bytes(v.1);
    assert(s[p] == k[0] && s[p + 1] == k[1] && s[p + 2] == k[2] && s[p + 3] == k[3]) by {
        assert(s.subrange(p, p + 4)[0] == k[0] && s.subrange(p, p + 4)[1] == k[1]);
        assert(s.subrange(p, p + 4)[2] == k[2] && s.subrange(p, p + 4)[3] == k[3]);
    }
    assert(s[p + 4] == d[0] && s[p + 5] == d[1]) by {
        assert(s.subrange(p + 4, p + 6)[0] == d[0] && s.subrange(p + 4, p + 6)[1] == d[1]);
    }
    lemma_aligned_nullstring_at(s, p + 6, v.2);
    let base = p + 6 + nm.len();
    assert(v.3.take(0) =~= Seq::<(VX, Seq<u32>)>::empty());
    lemma_vmap_loop_from(s, p, size, base, v.1, v.3, 0);
    assert(v.3.take(0) =~= seq![]);
}

/// A 16 bit value stored at `o` is read there.
proof fn lemma_u16_sub(s: Seq<u8>, o: int, x: u16)
    requires
        0 <= o,
        o + 2 <= s.len(),
        s.subrange(o, o + 2) == u16_bytes(x),
    ensures
        spec_u16(s, o) == Ok::<(u16, int), crate::ParseError>((x, o + 2)),
{
    lemma_u16_bytes(x);
    assert(s[o] == s.subrange(o, o + 2)[0] && s[o + 1] == s.subrange(o, o + 2)[1]);
}

/// Where `a + b` begins `s`, `a` begins `s` and `b` follows it.
proof fn lemma_piece(s: Seq<u8>, a: Seq<u8>, b: Seq<u8>)
    requires
        (a + b).len() <= s.len(),
        s.subrange(0, (a + b).len() as int) == a + b,
    ensures
        s.subrange(0, a.len() as int) == a,
        s.subrange(a.len() as int, (a.len() + b.len()) as int) == b,
{
    assert(s.subrange(0, a.len() as int) =~= (a + b).subrange(0, a.len() as int));
    assert((a + b).subrange(0, a.len() as int) =~= a);
    assert(s.subrange(a.len() as int, (a.len() + b.len()) as int) =~= (a + b).subrange(
        a.len() as int,
        (a.len() + b.len()) as int,
    ));
    assert((a + b).subrange(a.len() as int, (a.len() + b.len()) as int) =~= b);
}

/// Written index, flags and pivot of a layer.
pub open spec fn layer_head_bytes(v: LayerView) -> Seq<u8> {
    u16_bytes(v.head.0) + u16_bytes(v.head.1) + u32_seq_bytes(v.head.2)
}

/// Written parent, subdivision level, curve angle, matrix and reference of a layer.
pub open spec fn layer_mid_bytes(v: LayerView) -> Seq<u8> {
    u16_bytes(v.mid.0) + u32_bytes(v.mid.1) + u32_bytes(v.mid.2) + u32_seq_bytes(v.mid.3) + u32_bytes(v.mid.4)
}

/// Written tail fields of a layer.
pub open spec fn layer_tail_bytes(v: LayerView) -> Seq<u8> {
    u16_bytes(v.tail.0) + u16_bytes(v.tail.1[0]) + u16_bytes(v.tail.1[1]) + u16_bytes(v.tail.1[2]) + u16_bytes(boundary_rules_number(v.tail.2)) + u16_bytes(v.tail.3) + u16_bytes(v.tail.4) + u16_bytes(v.tail.5) + u16_bytes((if v.tail.6 { 1u16 } else { 0u16 })) + u16_bytes(v.tail.7) + u16_bytes(smoothing_number(v.tail.8))
}

proof fn lemma_assoc3(a: Seq<u8>, b: Seq<u8>, c: Seq<u8>)
    ensures
        a + b + c == a + (b + c),
{
    assert(a + b + c =~= a + (b + c));
}

/// The written form of a layer without multiresolution data at an even position.
#[verifier::spinoff_prover]
#[verifier::rlimit(60)]
proof fn lemma_layer_layout(v: LayerView, pre: Seq<u8>)
    requires
        pre.len() % 2 == 0,
        v.head.2.len() == 3,
        v.multires is None,
    ensures
        layer_write(pre, v) == pre + (layer_head_bytes(v) + aligned_nullstring_write(
            Seq::<u8>::empty(),
            v.head.3,
        ) + layer_mid_bytes(v) + layer_tail_bytes(v)),
{
    let h = layer_head_bytes(v);
    let nm = aligned_nullstring_write(Seq::<u8>::empty(), v.head.3);
    let hd = pre + u16_bytes(v.head.0) + u16_bytes(v.head.1) + u32_seq_bytes(v.head.2);
    lemma_u32_seq_layout(v.head.2);
    lemma_assoc3(pre + u16_bytes(v.head.0), u16_bytes(v.head.1), u32_seq_bytes(v.head.2));
    lemma_assoc3(pre, u16_bytes(v.head.0), u16_bytes(v.head.1) + u32_seq_bytes(v.head.2));
    assert(u16_bytes(v.head.0) + (u16_bytes(v.head.1) + u32_seq_bytes(v.head.2)) == h) by {
        lemma_assoc3(u16_bytes(v.head.0), u16_bytes(v.head.1), u32_seq_bytes(v.head.2));
    }
    assert(hd == pre + h);
    lemma_aligned_nullstring_write_even(hd, v.head.3);
    let a = hd + nm;
    let m0 = u16_bytes(v.mid.0);
    let m1 = m0 + u32_bytes(v.mid.1);
    let m2 = m1 + u32_bytes(v.mid.2);
    let m3 = m2 + u32_seq_bytes(v.mid.3);
    let m4 = m3 + u32_bytes(v.mid.4);
    let mb0 = a + u16_bytes(v.mid.0);
    let mb1 = mb0 + u32_bytes(v.mid.1);
    lemma_assoc3(a, m0, u32_bytes(v.mid.1));
    let mb2 = mb1 + u32_bytes(v.mid.2);
    lemma_assoc3(a, m1, u32_bytes(v.mid.2));
    let mb3 = mb2 + u32_seq_bytes(v.mid.3);
    lemma_assoc3(a, m2, u32_seq_bytes(v.mid.3));
    let mb4 = mb3 + u32_bytes(v.mid.4);
    lemma_assoc3(a, m3, u32_bytes(v.mid.4));
    let t0 = u16_bytes(v.tail.0);
    let t1 = t0 + u16_bytes(v.tail.1[0]);
    let t2 = t1 + u16_bytes(v.tail.1[1]);
    let t3 = t2 + u16_bytes(v.tail.1[2]);
    let t4 = t3 + u16_bytes(boundary_rules_number(v.tail.2));
    let t5 = t4 + u16_bytes(v.tail.3);
    let t6 = t5 + u16_bytes(v.tail.4);
    let t7 = t6 + u16_bytes(v.tail.5);
    let t8 = t7 + u16_bytes(if v.tail.6 { 1 } else { 0 });
    let t9 = t8 + u16_bytes(v.tail.7);
    let t10 = t9 + u16_bytes(smoothing_number(v.tail.8));
    let tb0 = mb4 + u16_bytes(v.tail.0);
    let tb1 = tb0 + u16_bytes(v.tail.1[0]);
    lemma_assoc3(mb4, t0, u16_bytes(v.tail.1[0]));
    let tb2 = tb1 + u16_bytes(v.tail.1[1]);
    lemma_assoc3(mb4, t1, u16_bytes(v.tail.1[1]));
    let tb3 = tb2 + u16_bytes(v.tail.1[2]);
    lemma_assoc3(mb4, t2, u16_bytes(v.tail.1[2]));
    let tb4 = tb3 + u16_bytes(boundary_rules_number(v.tail.2));
    lemma_assoc3(mb4, t3, u16_bytes(boundary_rules_number(v.tail.2)));
    let tb5 = tb4 + u16_bytes(v.tail.3);
    lemma_assoc3(mb4, t4, u16_bytes(v.tail.3));
    let tb6 = tb5 + u16_bytes(v.tail.4);
    lemma_assoc3(mb4, t5, u16_bytes(v.tail.4));
    let tb7 = tb6 + u16_bytes(v.tail.5);
    lemma_assoc3(mb4, t6, u16_bytes(v.tail.5));
    let tb8 = tb7 + u16_bytes(if v.tail.6 { 1 } else { 0 });
    lemma_assoc3(mb4, t7, u16_bytes(if v.tail.6 { 1 } else { 0 }));
    let tb9 = tb8 + u16_bytes(v.tail.7);
    lemma_assoc3(mb4, t8, u16_bytes(v.tail.7));
    let tb10 = tb9 + u16_bytes(smoothing_number(v.tail.8));
    lemma_assoc3(mb4, t9, u16_bytes(smoothing_number(v.tail.8)));
    assert(layer_write(pre, v) == tb10);
    lemma_assoc3(pre, h, nm);
    lemma_assoc3(pre, h + nm, layer_mid_bytes(v));
    lemma_assoc3(pre, h + nm + layer_mid_bytes(v), layer_tail_bytes(v));
}

/// Where `x + y` is stored at `o`, so is `x`, and `y` right after it (stated on `s` from `o`).
proof fn lemma_at(s: Seq<u8>, o: int, x: Seq<u8>, y: Seq<u8>)
    requires
        0 <= o,
        o + x.len() + y.len() <= s.len(),
        s.subrange(o, o + x.len() + y.len()) == x + y,
    ensures
        s.subrange(o, o + x.len()) == x,
        s.subrange(o + x.len(), o + x.len() + y.len()) == y,
{
    lemma_split_at(s, o, x, y);
}

/// The middle fields of a layer stored at `o` are read there.
#[verifier::spinoff_prover]
#[verifier::rlimit(40)]
proof fn lemma_layer_mid_at(s: Seq<u8>, o: int, v: LayerView)
    requires
        0 <= o,
        v.mid.3.len() == 9,
        o + layer_mid_bytes(v).len() <= s.len(),
        s.subrange(o, o + layer_mid_bytes(v).len()) == layer_mid_bytes(v),
    ensures
        layer_mid_bytes(v).len() == 50,
        crate::geometry::layer::spec_layer_mid(s, o) == Ok::<(crate::geometry::layer::LayerMidView, int), crate::ParseError>(
            (v.mid, o + 50),
        ),
{
    lemma_u32_seq_layout(v.mid.3);
    let a = u16_bytes(v.mid.0);
    let b = u32_bytes(v.mid.1);
    let c = u32_bytes(v.mid.2);
    let d = u32_seq_bytes(v.mid.3);
    let e = u32_bytes(v.mid.4);
    lemma_at(s, o, a + b + c + d, e);
    lemma_at(s, o, a + b + c, d);
    lemma_at(s, o, a + b, c);
    lemma_at(s, o, a, b);
    lemma_u16_sub(s, o, v.mid.0);
    lemma_u32_at(s, o + 2, v.mid.1);
    lemma_u32_at(s, o + 6, v.mid.2);
    lemma_u32_array_at(s, o + 10, v.mid.3);
    lemma_u32_at(s, o + 46, v.mid.4);
}

/// The tail fields of a layer stored at `o` are read there.
#[verifier::spinoff_prover]
#[verifier::rlimit(60)]
proof fn lemma_layer_tail_at(s: Seq<u8>, o: int, v: LayerView)
    requires
        0 <= o,
        v.tail.1.len() == 3,
        o + 22 <= s.len(),
        s.subrange(o, o + 22) == layer_tail_bytes(v),
    ensures
        layer_tail_bytes(v).len() == 22,
        spec_layer_tail(s, o) == Ok::<(crate::geometry::layer::LayerTailView, int), crate::ParseError>(
            (v.tail, o + 22),
        ),
{
    let x0 = u16_bytes(v.tail.0);
    let x1 = u16_bytes(v.tail.1[0]);
    let x2 = u16_bytes(v.tail.1[1]);
    let x3 = u16_bytes(v.tail.1[2]);
    let x4 = u16_bytes(boundary_rules_number(v.tail.2));
    let x5 = u16_bytes(v.tail.3);
    let x6 = u16_bytes(v.tail.4);
    let x7 = u16_bytes(v.tail.5);
    let x8 = u16_bytes((if v.tail.6 { 1u16 } else { 0u16 }));
    let x9 = u16_bytes(v.tail.7);
    let x10 = u16_bytes(smoothing_number(v.tail.8));
    let y0 = x0;
    let y1 = y0 + x1;
    let y2 = y1 + x2;
    let y3 = y2 + x3;
    let y4 = y3 + x4;
    let y5 = y4 + x5;
    let y6 = y5 + x6;
    let y7 = y6 + x7;
    let y8 = y7 + x8;
    let y9 = y8 + x9;
    let y10 = y9 + x10;
    lemma_at(s, o, y9, x10);
    lemma_at(s, o, y8, x9);
    lemma_at(s, o, y7, x8);
    lemma_at(s, o, y6, x7);
    lemma_at(s, o, y5, x6);
    lemma_at(s, o, y4, x5);
    lemma_at(s, o, y3, x4);
    lemma_at(s, o, y2, x3);
    lemma_at(s, o, y1, x2);
    lemma_at(s, o, y0, x1);
    lemma_u16_sub(s, o + 0, v.tail.0);
    lemma_u16_sub(s, o + 2, v.tail.1[0]);
    lemma_u16_sub(s, o + 4, v.tail.1[1]);
    lemma_u16_sub(s, o + 6, v.tail.1[2]);
    lemma_u16_sub(s, o + 8, boundary_rules_number(v.tail.2));
    lemma_u16_sub(s, o + 10, v.tail.3);
    lemma_u16_sub(s, o + 12, v.tail.4);
    lemma_u16_sub(s, o + 14, v.tail.5);
    lemma_u16_sub(s, o + 16, (if v.tail.6 { 1u16 } else { 0u16 }));
    lemma_u16_sub(s, o + 18, v.tail.7);
    lemma_u16_sub(s, o + 20, smoothing_number(v.tail.8));
    assert(v.tail.1 =~= seq![v.tail.1[0], v.tail.1[1], v.tail.1[2]]);
    assert(crate::geometry::layer::boundary_rules_from(boundary_rules_number(v.tail.2)) == Some(v.tail.2));
    assert(crate::geometry::layer::smoothing_from(smoothing_number(v.tail.8)) == Some(v.tail.8));
}

/// What stands between `pre` and `post` is read back where it stands.
proof fn lemma_middle(pre: Seq<u8>, x: Seq<u8>, post: Seq<u8>)
    ensures
        (pre + x + post).subrange(pre.len() as int, (pre.len() + x.len()) as int) == x,
{
    assert((pre + x + post).subrange(pre.len() as int, (pre.len() + x.len()) as int) =~= x);
}

/// The written fields of a layer without multiresolution data, stored at an even position, are
/// read there as that layer.
#[verifier::spinoff_prover]
#[verifier::rlimit(60)]
proof fn lemma_layer_at(s: Seq<u8>, p: int, v: LayerView)
    requires
        0 <= p,
        p % 2 == 0,
        v.head.2.len() == 3,
        !v.head.3.contains(0),
        v.mid.3.len() == 9,
        v.tail.1.len() == 3,
        !has_multires(v.head.1),
        v.multires is None,
        v.geometry == empty_geometry(),
        ({
            let x = layer_head_bytes(v) + aligned_nullstring_write(Seq::<u8>::empty(), v.head.3)
                + layer_mid_bytes(v) + layer_tail_bytes(v);
            &&& p + x.len() <= s.len()
            &&& s.subrange(p, p + x.len()) == x
        }),
    ensures
        ({
            let x = layer_head_bytes(v) + aligned_nullstring_write(Seq::<u8>::empty(), v.head.3)
                + layer_mid_bytes(v) + layer_tail_bytes(v);
            spec_layer(s, p) == Ok::<(LayerView, int), crate::ParseError>((v, p + x.len()))
        }),
{
    let h = layer_head_bytes(v);
    let nm = aligned_nullstring_write(Seq::<u8>::empty(), v.head.3);
    let m = layer_mid_bytes(v);
    let t = layer_tail_bytes(v);
    lemma_u32_seq_layout(v.head.2);
    lemma_u32_seq_layout(v.mid.3);
    law_aligned_nullstring_roundtrip(Seq::empty(), v.head.3, Seq::empty());
    lemma_at(s, p, h + nm + m, t);
    lemma_at(s, p, h + nm, m);
    lemma_at(s, p, h, nm);
    let a = u16_bytes(v.head.0);
    let b = u16_bytes(v.head.1);
    let c = u32_seq_bytes(v.head.2);
    lemma_at(s, p, a + b, c);
    lemma_at(s, p, a, b);
    lemma_u16_sub(s, p, v.head.0);
    lemma_u16_sub(s, p + 2, v.head.1);
    lemma_u32_array_at(s, p + 4, v.head.2);
    lemma_aligned_nullstring_at(s, p + 16, v.head.3);
    let q1 = p + 16 + nm.len();
    lemma_layer_mid_at(s, q1, v);
    lemma_layer_tail_at(s, q1 + 50, v);
    let hv = (v.head.0, v.head.1, v.head.2, v.head.3);
    assert(hv == v.head);
    assert(crate::geometry::layer::spec_layer_head(s, p) == Ok::<
        (crate::geometry::layer::LayerHeadView, int),
        crate::ParseError,
    >((v.head, q1)));
}

/// A layer without multiresolution data, written at an even position, is read back from its
/// written form: index, flags, pivot, name, parent, subdivision level, curve angle, matrix,
/// reference and the tail fields, the cache normal vectors flag being written as 1 or 0.
#[verifier::spinoff_prover]
pub proof fn law_layer_roundtrip(v: LayerView, pre: Seq<u8>, post: Seq<u8>)
    requires
        pre.len() % 2 == 0,
        v.head.2.len() == 3,
        !v.head.3.contains(0),
        v.mid.3.len() == 9,
        v.tail.1.len() == 3,
        !has_multires(v.head.1),
        v.multires is None,
        v.geometry == empty_geometry(),
    ensures
        spec_layer(layer_write(pre, v) + post, pre.len() as int) == Ok::<(LayerView, int), crate::ParseError>(
            (v, layer_write(pre, v).len() as int),
        ),
{
    let x = layer_head_bytes(v) + aligned_nullstring_write(Seq::<u8>::empty(), v.head.3)
        + layer_mid_bytes(v) + layer_tail_bytes(v);
    lemma_layer_layout(v, pre);
    lemma_middle(pre, x, post);
    lemma_layer_at(layer_write(pre, v) + post, pre.len() as int, v);
}

/// Writing a string after `out` keeps `out` as its start.
proof fn lemma_string_write_prefix(out: Seq<u8>, v: Seq<u8>)
    ensures
        out.len() <= aligned_nullstring_write(out, v).len(),
        aligned_nullstring_write(out, v).subrange(0, out.len() as int) == out,
{
    let w = out + nullstring_bytes(v);
    assert(w.subrange(0, out.len() as int) =~= out);
    if w.len() % 2 != 0 {
        assert(w.push(0).subrange(0, out.len() as int) =~= out);
    }
}

/// A start of a start of `s` is a start of `s`.
proof fn lemma_start_of_start(s: Seq<u8>, a: Seq<u8>, b: Seq<u8>)
    requires
        a.len() <= b.len(),
        b.len() <= s.len(),
        s.subrange(0, b.len() as int) == b,
        b.subrange(0, a.len() as int) == a,
    ensures
        s.subrange(0, a.len() as int) == a,
{
    assert(s.subrange(0, a.len() as int) =~= b.subrange(0, a.len() as int));
}

/// Where `s` starts with `w` and a 32 bit value, that value is read right after `w`.
proof fn lemma_u32_after(s: Seq<u8>, w: Seq<u8>, x: u32)
    requires
        w.len() + 4 <= s.len(),
        s.subrange(0, (w.len() + 4) as int) == w + u32_bytes(x),
    ensures
        s.subrange(0, w.len() as int) == w,
        spec_u32(s, w.len() as int) == Ok::<(u32, int), crate::ParseError>((x, (w.len() + 4) as int)),
{
    lemma_u32_bytes(x);
    lemma_piece(s, w, u32_bytes(x));
    lemma_u32_at(s, w.len() as int, x);
}

/// Where `s` starts with a string written after `w` at an even position, the string is read
/// right after `w`.
proof fn lemma_string_after(s: Seq<u8>, w: Seq<u8>, v: Seq<u8>)
    requires
        w.len() % 2 == 0,
        !v.contains(0),
        aligned_nullstring_write(w, v).len() <= s.len(),
        s.subrange(0, aligned_nullstring_write(w, v).len() as int) == aligned_nullstring_write(w, v),
    ensures
        s.subrange(0, w.len() as int) == w,
        aligned_nullstring_write(w, v).len() % 2 == 0,
        spec_aligned_nullstring(s, w.len() as int) == Ok::<(Seq<u8>, int), crate::ParseError>(
            (v, aligned_nullstring_write(w, v).len() as int),
        ),
{
    let a = aligned_nullstring_write(w, v);
    let rest = s.subrange(a.len() as int, s.len() as int);
    assert(s =~= a + rest);
    law_aligned_nullstring_roundtrip(w, v, rest);
    lemma_string_write_prefix(w, v);
    lemma_start_of_start(s, w, a);
}

/// An item reference (`XREF` sub-chunk) written at an even position is read back from its
/// written form: index, then path, then identifier.
#[verifier::spinoff_prover]
pub proof fn law_item_reference_roundtrip(v: (u32, Seq<u8>, Seq<u8>), pre: Seq<u8>, post: Seq<u8>)
    requires
        pre.len() % 2 == 0,
        !v.1.contains(0),
        !v.2.contains(0),
    ensures
        spec_item_reference(item_reference_write(pre, v) + post, pre.len() as int) == Ok::<
            ((u32, Seq<u8>, Seq<u8>), int),
            crate::ParseError,
        >((v, item_reference_write(pre, v).len() as int)),
{
    let w0 = pre + u32_bytes(v.0);
    let w1 = aligned_nullstring_write(w0, v.1);
    let w2 = aligned_nullstring_write(w1, v.2);
    let s = w2 + post;
    assert(s.subrange(0, w2.len() as int) =~= w2);
    lemma_string_after(s, w1, v.2);
    lemma_string_after(s, w0, v.1);
    lemma_u32_after(s, pre, v.0);
}

/// An item's layer reference (`LAYR` sub-chunk) is read back from its written form: index,
/// flags, then the four colour bytes.
#[verifier::spinoff_prover]
pub proof fn law_item_layer_roundtrip(v: (u32, u32, Seq<u8>), pre: Seq<u8>, post: Seq<u8>)
    requires
        v.2.len() == 4,
    ensures
        spec_item_layer(pre + item_layer_bytes(v) + post, pre.len() as int) == Ok::<
            ((u32, u32, Seq<u8>), int),
            crate::ParseError,
        >((v, (pre.len() + 12) as int)),
{
    let w0 = pre + u32_bytes(v.0);
    let w1 = w0 + u32_bytes(v.1);
    let w2 = w1 + v.2;
    let s = pre + item_layer_bytes(v) + post;
    assert(s =~= w2 + post);
    assert(s.subrange(0, w1.len() as int) =~= w1);
    lemma_u32_after(s, w0, v.1);
    lemma_u32_after(s, pre, v.0);
    assert(s.subrange(w1.len() as int, (w1.len() + 4) as int) =~= v.2);
}

/// An item tag (`ITAG` sub-chunk) written at an even position is read back from its written
/// form: the tag kind, then the tag text.
#[verifier::spinoff_prover]
pub proof fn law_item_tag_roundtrip(v: (u32, Seq<u8>), pre: Seq<u8>, post: Seq<u8>)
    requires
        pre.len() % 2 == 0,
        printable(u32_bytes(v.0)[0]) && printable(u32_bytes(v.0)[1]),
        printable(u32_bytes(v.0)[2]) && printable(u32_bytes(v.0)[3]),
        !v.1.contains(0),
    ensures
        spec_item_tag(item_tag_write(pre, v) + post, pre.len() as int) == Ok::<
            ((u32, Seq<u8>), int),
            crate::ParseError,
        >((v, item_tag_write(pre, v).len() as int)),
{
    let w0 = pre + u32_bytes(v.0);
    let w1 = aligned_nullstring_write(w0, v.1);
    let s = w1 + post;
    assert(s.subrange(0, w1.len() as int) =~= w1);
    lemma_string_after(s, w0, v.1);
    lemma_u32_after(s, pre, v.0);
    let p = pre.len() as int;
    let k = u32_bytes(v.0);
    assert(s[p] == k[0] && s[p + 1] == k[1] && s[p + 2] == k[2] && s[p + 3] == k[3]) by {
        assert(s.subrange(0, p + 4)[p] == (pre + k)[p]);
        assert(s.subrange(0, p + 4)[p + 1] == (pre + k)[p + 1]);
        assert(s.subrange(0, p + 4)[p + 2] == (pre + k)[p + 2]);
        assert(s.subrange(0, p + 4)[p + 3] == (pre + k)[p + 3]);
    }
}

/// A version (`VRSN`) written at an even position is read back from its written form: major,
/// minor, then the application name.
#[verifier::spinoff_prover]
pub proof fn law_version_roundtrip(v: (u32, u32, Seq<u8>), pre: Seq<u8>, post: Seq<u8>)
    requires
        pre.len() % 2 == 0,
        !v.2.contains(0),
    ensures
        spec_version(version_write(pre, v) + post, pre.len() as int) == Ok::<
            ((u32, u32, Seq<u8>), int),
            crate::ParseError,
        >((v, version_write(pre, v).len() as int)),
{
    let w0 = pre + u32_bytes(v.0);
    let w1 = w0 + u32_bytes(v.1);
    let w2 = aligned_nullstring_write(w1, v.2);
    let s = w2 + post;
    assert(s.subrange(0, w2.len() as int) =~= w2);
    lemma_string_after(s, w1, v.2);
    lemma_u32_after(s, w0, v.1);
    lemma_u32_after(s, pre, v.0);
}

/// An application version (`APPV`) written at an even position is read back from its written
/// form: base, major, minor and build numbers, then the application name.
#[verifier::spinoff_prover]
pub proof fn law_application_version_roundtrip(
    v: (u32, u32, u32, u32, Seq<u8>),
    pre: Seq<u8>,
    post: Seq<u8>,
)
    requires
        pre.len() % 2 == 0,
        !v.4.contains(0),
    ensures
        spec_application_version(application_version_write(pre, v) + post, pre.len() as int)
            == Ok::<((u32, u32, u32, u32, Seq<u8>), int), crate::ParseError>(
            (v, application_version_write(pre, v).len() as int),
        ),
{
    let w0 = pre + u32_bytes(v.0);
    let w1 = w0 + u32_bytes(v.1);
    let w2 = w1 + u32_bytes(v.2);
    let w3 = w2 + u32_bytes(v.3);
    let w4 = aligned_nullstring_write(w3, v.4);
    let s = w4 + post;
    assert(s.subrange(0, w4.len() as int) =~= w4);
    lemma_string_after(s, w3, v.4);
    lemma_u32_after(s, w2, v.3);
    lemma_u32_after(s, w1, v.2);
    lemma_u32_after(s, w0, v.1);
    lemma_u32_after(s, pre, v.0);
}

/// Two strings (a description, or a string channel) written at an even position are read back
/// from their written form, in order.
#[verifier::spinoff_prover]
pub proof fn law_two_strings_roundtrip(v: (Seq<u8>, Seq<u8>), pre: Seq<u8>, post: Seq<u8>)
    requires
        pre.len() % 2 == 0,
        !v.0.contains(0),
        !v.1.contains(0),
    ensures
        spec_two_strings(two_strings_write(pre, v) + post, pre.len() as int) == Ok::<
            ((Seq<u8>, Seq<u8>), int),
            crate::ParseError,
        >((v, two_strings_write(pre, v).len() as int)),
{
    let w0 = aligned_nullstring_write(pre, v.0);
    let w1 = aligned_nullstring_write(w0, v.1);
    let s = w1 + post;
    assert(s.subrange(0, w1.len() as int) =~= w1);
    lemma_string_after(s, w0, v.1);
    lemma_string_after(s, pre, v.0);
}

/// A name and a number (a block channel, or a parent) written at an even position are read
/// back from their written form: the name, then the number.
#[verifier::spinoff_prover]
pub proof fn law_name_number_roundtrip(v: (Seq<u8>, u32), pre: Seq<u8>, post: Seq<u8>)
    requires
        pre.len() % 2 == 0,
        !v.0.contains(0),
    ensures
        spec_parent(aligned_nullstring_write(pre, v.0) + u32_bytes(v.1) + post, pre.len() as int)
            == Ok::<((Seq<u8>, u32), int), crate::ParseError>(
            (v, (aligned_nullstring_write(pre, v.0).len() + 4) as int),
        ),
{
    let w0 = aligned_nullstring_write(pre, v.0);
    let w1 = w0 + u32_bytes(v.1);
    let s = w1 + post;
    assert(s.subrange(0, w1.len() as int) =~= w1);
    lemma_u32_after(s, w0, v.1);
    lemma_string_after(s, pre, v.0);
}

/// A channel link (`CLNK` sub-chunk) written at an even position is read back from its written
/// form: graph, from-channel, item, to-channel, from-index, to-index.
#[verifier::spinoff_prover]
#[verifier::rlimit(60)]
pub proof fn law_channel_link_roundtrip(v: ChannelLinkView, pre: Seq<u8>, post: Seq<u8>)
    requires
        pre.len() % 2 == 0,
        !v.0.contains(0),
        !v.1.contains(0),
        !v.3.contains(0),
    ensures
        spec_channel_link(channel_link_write(pre, v) + post, pre.len() as int) == Ok::<
            (ChannelLinkView, int),
            crate::ParseError,
        >((v, channel_link_write(pre, v).len() as int)),
{
    let w0 = aligned_nullstring_write(pre, v.0);
    let w1 = aligned_nullstring_write(w0, v.1);
    let w2 = w1 + u32_bytes(v.2);
    let w3 = aligned_nullstring_write(w2, v.3);
    let w4 = w3 + u32_bytes(v.4);
    let w5 = w4 + u32_bytes(v.5);
    let s = w5 + post;
    assert(channel_link_write(pre, v) == w5);
    assert(s.subrange(0, w5.len() as int) =~= w5);
    assert(w2.len() % 2 == 0) by {
        lemma_string_write_prefix(w0, v.1);
        law_aligned_nullstring_roundtrip(pre, v.0, Seq::empty());
        law_aligned_nullstring_roundtrip(w0, v.1, Seq::empty());
    }
    lemma_u32_after(s, w4, v.5);
    lemma_u32_after(s, w3, v.4);
    lemma_string_after(s, w2, v.3);
    lemma_u32_after(s, w1, v.2);
    lemma_string_after(s, w0, v.1);
    lemma_string_after(s, pre, v.0);
}

/// The encoding of points is twelve bytes per point, point `i` at bytes `12 * i`.
#[verifier::spinoff_prover]
proof fn lemma_points_layout(ps: Seq<(u32, u32, u32)>)
    ensures
        points_bytes(ps).len() == 12 * ps.len(),
        forall|i: int, j: int|
            0 <= i < ps.len() && 0 <= j < 12 ==> #[trigger] points_bytes(ps)[12 * i + j]
                == point_bytes(ps[i])[j],
    decreases ps.len(),
{
    if ps.len() > 0 {
        let init = ps.drop_last();
        lemma_points_layout(init);
        assert forall|i: int, j: int|
            0 <= i < ps.len() && 0 <= j < 12 implies #[trigger] points_bytes(ps)[12 * i + j]
                == point_bytes(ps[i])[j] by {
            if i < init.len() {
                assert(points_bytes(init)[12 * i + j] == point_bytes(init[i])[j]);
            }
        }
    }
}

/// Points read back from their written form, read as that many points, are the points that
/// were written: each point is its x, y and z values in that order.
#[verifier::spinoff_prover]
#[verifier::rlimit(40)]
pub proof fn law_points_roundtrip(ps: Seq<(u32, u32, u32)>, pre: Seq<u8>, post: Seq<u8>)
    requires
        ps.len() <= u32::MAX,
    ensures
        spec_points(pre + points_bytes(ps) + post, pre.len() as int, ps.len() as u32) == Ok::<
            (Seq<(u32, u32, u32)>, int),
            crate::ParseError,
        >((ps, (pre.len() + 12 * ps.len()) as int)),
{
    let w = points_bytes(ps);
    let s = pre + w + post;
    let p = pre.len() as int;
    lemma_points_layout(ps);
    assert forall|i: int| 0 <= i < ps.len() implies u32_at(s, p + 12 * i) == ps[i].0 && u32_at(
        s,
        p + 12 * i + 4,
    ) == ps[i].1 && u32_at(s, p + 12 * i + 8) == ps[i].2 by {
        let b = point_bytes(ps[i]);
        lemma_u32_bytes(ps[i].0);
        lemma_u32_bytes(ps[i].1);
        lemma_u32_bytes(ps[i].2);
        assert forall|j: int| 0 <= j < 12 implies s[p + 12 * i + j] == b[j] by {
            assert(s[p + 12 * i + j] == w[12 * i + j]);
        }
        assert(b[0] == u32_bytes(ps[i].0)[0] && b[1] == u32_bytes(ps[i].0)[1]);
        assert(b[2] == u32_bytes(ps[i].0)[2] && b[3] == u32_bytes(ps[i].0)[3]);
        assert(b[4] == u32_bytes(ps[i].1)[0] && b[5] == u32_bytes(ps[i].1)[1]);
        assert(b[6] == u32_bytes(ps[i].1)[2] && b[7] == u32_bytes(ps[i].1)[3]);
        assert(b[8] == u32_bytes(ps[i].2)[0] && b[9] == u32_bytes(ps[i].2)[1]);
        assert(b[10] == u32_bytes(ps[i].2)[2] && b[11] == u32_bytes(ps[i].2)[3]);
        assert(p + 12 * i + 4 + 1 == p + 12 * i + 5);
    }
    let n = ps.len() as u32;
    let vals = Seq::new((3 * n) as nat, |k: int| u32_at(s, p + 4 * k));
    let got = Seq::new(n as nat, |i: int| (vals[3 * i], vals[3 * i + 1], vals[3 * i + 2]));
    assert forall|i: int| 0 <= i < ps.len() implies got[i] == ps[i] by {
        assert(vals[3 * i] == u32_at(s, p + 12 * i));
        assert(vals[3 * i + 1] == u32_at(s, p + 12 * i + 4));
        assert(vals[3 * i + 2] == u32_at(s, p + 12 * i + 8));
    }
    assert(got =~= ps);
}

/// A trisurface group header (`3GRP`) read from its three written values is the trisurface
/// count, the item reference and the flags, in that order, with no trisurfaces yet.
#[verifier::spinoff_prover]
pub proof fn law_trisurf_group_roundtrip(v: (u32, u32, u32), pre: Seq<u8>, post: Seq<u8>)
    ensures
        spec_trisurf_group(
            pre + u32_bytes(v.0) + u32_bytes(v.1) + u32_bytes(v.2) + post,
            pre.len() as int,
        ) == Ok::<(TriSurfGroupView, int), crate::ParseError>(
            ((v, Seq::empty()), (pre.len() + 12) as int),
        ),
{
    let x = seq![v.0, v.1, v.2];
    let s = pre + u32_bytes(v.0) + u32_bytes(v.1) + u32_bytes(v.2) + post;
    lemma_u32_seq_layout(x);
    assert(u32_seq_bytes(x) =~= u32_bytes(v.0) + u32_bytes(v.1) + u32_bytes(v.2)) by {
        assert(x.drop_last() =~= seq![v.0, v.1]);
        assert(seq![v.0, v.1].drop_last() =~= seq![v.0]);
        assert(seq![v.0].drop_last() =~= Seq::<u32>::empty());
        assert(u32_seq_bytes(Seq::<u32>::empty()) == Seq::<u8>::empty());
        assert(u32_seq_bytes(seq![v.0]) == u32_seq_bytes(Seq::<u32>::empty()) + u32_bytes(v.0));
        assert(u32_seq_bytes(seq![v.0]) =~= u32_bytes(v.0));
        assert(u32_seq_bytes(seq![v.0, v.1]) =~= u32_bytes(v.0) + u32_bytes(v.1));
    }
    lemma_middle(pre, u32_seq_bytes(x), post);
    assert(s =~= pre + u32_seq_bytes(x) + post);
    lemma_u32_array_at(s, pre.len() as int, x);
}

/// A trisurface header (`3SRF`) read from its five written values is the vertex, triangle,
/// vertex vector and tag counts and the flags, in that order, with no parts yet.
#[verifier::spinoff_prover]
pub proof fn law_trisurf_data_roundtrip(v: (u32, u32, u32, u32, u32), pre: Seq<u8>, post: Seq<u8>)
    ensures
        spec_trisurf_data(
            pre + u32_bytes(v.0) + u32_bytes(v.1) + u32_bytes(v.2) + u32_bytes(v.3) + u32_bytes(v.4)
                + post,
            pre.len() as int,
        ) == Ok::<(TriSurfDataView, int), crate::ParseError>(
            (
                (TriSurfDataView {
                    counts: v,
                    vertices: None,
                    triangles: None,
                    vectors: Seq::empty(),
                    tags: None,
                }),
                (pre.len() + 20) as int,
            ),
        ),
{
    let x = seq![v.0, v.1, v.2, v.3, v.4];
    let b = u32_bytes(v.0) + u32_bytes(v.1) + u32_bytes(v.2) + u32_bytes(v.3) + u32_bytes(v.4);
    let s = pre + b + post;
    lemma_u32_seq_layout(x);
    assert(u32_seq_bytes(x) =~= b) by {
        assert(x.drop_last() =~= seq![v.0, v.1, v.2, v.3]);
        assert(seq![v.0, v.1, v.2, v.3].drop_last() =~= seq![v.0, v.1, v.2]);
        assert(seq![v.0, v.1, v.2].drop_last() =~= seq![v.0, v.1]);
        assert(seq![v.0, v.1].drop_last() =~= seq![v.0]);
        assert(seq![v.0].drop_last() =~= Seq::<u32>::empty());
        assert(u32_seq_bytes(Seq::<u32>::empty()) == Seq::<u8>::empty());
        assert(u32_seq_bytes(seq![v.0]) == u32_seq_bytes(Seq::<u32>::empty()) + u32_bytes(v.0));
        assert(u32_seq_bytes(seq![v.0]) =~= u32_bytes(v.0));
        assert(u32_seq_bytes(seq![v.0, v.1]) =~= u32_bytes(v.0) + u32_bytes(v.1));
        assert(u32_seq_bytes(seq![v.0, v.1, v.2]) =~= u32_bytes(v.0) + u32_bytes(v.1) + u32_bytes(v.2));
        assert(u32_seq_bytes(seq![v.0, v.1, v.2, v.3]) =~= u32_bytes(v.0) + u32_bytes(v.1)
            + u32_bytes(v.2) + u32_bytes(v.3));
    }
    assert(s =~= pre + u32_bytes(v.0) + u32_bytes(v.1) + u32_bytes(v.2) + u32_bytes(v.3)
        + u32_bytes(v.4) + post);
    lemma_middle(pre, b, post);
    lemma_u32_array_at(s, pre.len() as int, x);
}

/// A 32 bit signed value reads back from its two's complement bits.
proof fn lemma_i32_bits(x: i32)
    ensures
        u32_to_i32(i32_bits(x)) == x,
{
}

/// A vertex map parameter (`VMPA`) is read back from its written form: the UV subdivision
/// kind, then the sketch colour.
#[verifier::spinoff_prover]
pub proof fn law_vertex_map_parameter_roundtrip(
    v: (UvSubdivisionKind, i32),
    pre: Seq<u8>,
    post: Seq<u8>,
)
    ensures
        spec_vertex_map_parameter(
            pre + u32_bytes(i32_bits(uv_subdivision_number(v.0))) + u32_bytes(i32_bits(v.1)) + post,
            pre.len() as int,
        ) == Ok::<((UvSubdivisionKind, i32), int), crate::ParseError>((v, (pre.len() + 8) as int)),
{
    let a = u32_bytes(i32_bits(uv_subdivision_number(v.0)));
    let b = u32_bytes(i32_bits(v.1));
    let w0 = pre + a;
    let s = w0 + b + post;
    assert(s.subrange(0, (w0.len() + 4) as int) =~= w0 + b);
    lemma_u32_after(s, w0, i32_bits(v.1));
    lemma_u32_after(s, pre, i32_bits(uv_subdivision_number(v.0)));
    lemma_i32_bits(v.1);
    lemma_i32_bits(uv_subdivision_number(v.0));
    assert(crate::geometry::layer::uv_subdivision_from(uv_subdivision_number(v.0)) == Some(v.0));
}

/// Whether a channel value is of the type that the flag of its channel names (the flag with
/// its 0x20 bit cleared: 1 or 0x11 an integer, 2 or 0x12 a float, 3 or 0x13 a string without
/// zero bytes).
pub open spec fn value_fits_flag(v: ChannelValueView, flag: u16) -> bool {
    let f = flag & 0xffdf;
    match v {
        ChannelValueView::Integer(_) => f == 1 || f == 0x11,
        ChannelValueView::Float(_) => f == 2 || f == 0x12,
        ChannelValueView::String(t) => (f == 3 || f == 0x13) && !t.contains(0),
        ChannelValueView::Data(_) => false,
    }
}

/// Where `s` starts with a 16 bit value after `w`, it is read there.
proof fn lemma_u16_after(s: Seq<u8>, w: Seq<u8>, x: u16)
    requires
        w.len() + 2 <= s.len(),
        s.subrange(0, (w.len() + 2) as int) == w + u16_bytes(x),
    ensures
        s.subrange(0, w.len() as int) == w,
        spec_u16(s, w.len() as int) == Ok::<(u16, int), crate::ParseError>((x, (w.len() + 2) as int)),
{
    lemma_u16_bytes(x);
    lemma_piece(s, w, u16_bytes(x));
    lemma_u16_sub(s, w.len() as int, x);
}

/// Where `s` starts with a canonical vertex index after `w`, it is read there.
proof fn lemma_vx_after(s: Seq<u8>, w: Seq<u8>, x: VX)
    requires
        vx_canonical(x),
        w.len() + vx_bytes(x).len() <= s.len(),
        s.subrange(0, (w.len() + vx_bytes(x).len()) as int) == w + vx_bytes(x),
    ensures
        s.subrange(0, w.len() as int) == w,
        spec_vx(s, w.len() as int) == Ok::<(VX, int), crate::ParseError>(
            (x, (w.len() + vx_bytes(x).len()) as int),
        ),
{
    lemma_piece(s, w, vx_bytes(x));
    lemma_vx_at(s, w.len() as int, x);
}

/// Where `s` starts with a channel value of its flag's type written after `w` at an even
/// position, the value is read there.
proof fn lemma_value_after(s: Seq<u8>, w: Seq<u8>, v: ChannelValueView, flag: u16)
    requires
        w.len() % 2 == 0,
        value_fits_flag(v, flag),
        channel_value_write(w, v).len() <= s.len(),
        s.subrange(0, channel_value_write(w, v).len() as int) == channel_value_write(w, v),
    ensures
        s.subrange(0, w.len() as int) == w,
        spec_channel_value(s, w.len() as int, flag) == Ok::<(ChannelValueView, int), crate::ParseError>(
            (v, channel_value_write(w, v).len() as int),
        ),
{
    match v {
        ChannelValueView::Integer(i) => {
            lemma_u32_after(s, w, i32_bits(i));
            lemma_i32_bits(i);
        },
        ChannelValueView::Float(f) => {
            lemma_u32_after(s, w, f);
        },
        ChannelValueView::String(t) => {
            lemma_string_after(s, w, t);
        },
        ChannelValueView::Data(_) => {},
    }
}

/// An item channel (`CHAN` sub-chunk) whose value is of its flag's type, written at an even
/// position, is read back from its written form: the channel index, the flag, the value.
#[verifier::spinoff_prover]
#[verifier::rlimit(60)]
pub proof fn law_channel_roundtrip(v: (VX, u16, ChannelValueView), pre: Seq<u8>, post: Seq<u8>)
    requires
        pre.len() % 2 == 0,
        vx_canonical(v.0),
        value_fits_flag(v.2, v.1),
    ensures
        spec_channel(channel_write(pre, v) + post, pre.len() as int) == Ok::<
            ((VX, u16, ChannelValueView), int),
            crate::ParseError,
        >((v, channel_write(pre, v).len() as int)),
{
    let w0 = pre + vx_bytes(v.0);
    let w1 = w0 + u16_bytes(v.1);
    let w2 = channel_value_write(w1, v.2);
    let s = w2 + post;
    assert(s.subrange(0, w2.len() as int) =~= w2);
    lemma_u16_bytes(v.1);
    assert(vx_bytes(v.0).len() % 2 == 0);
    lemma_value_after(s, w1, v.2, v.1);
    lemma_u16_after(s, w0, v.1);
    lemma_vx_after(s, pre, v.0);
}

/// An action channel (`CHAN` of an action) whose value is of its flag's type, written at an
/// even position, is read back from its written form: channel index, flag, envelope index,
/// value.
#[verifier::spinoff_prover]
#[verifier::rlimit(60)]
pub proof fn law_action_channel_roundtrip(v: (VX, u16, VX, ChannelValueView), pre: Seq<u8>, post: Seq<u8>)
    requires
        pre.len() % 2 == 0,
        vx_canonical(v.0),
        vx_canonical(v.2),
        value_fits_flag(v.3, v.1),
    ensures
        spec_action_channel(action_channel_write(pre, v) + post, pre.len() as int) == Ok::<
            ((VX, u16, VX, ChannelValueView), int),
            crate::ParseError,
        >((v, action_channel_write(pre, v).len() as int)),
{
    let w0 = pre + vx_bytes(v.0);
    let w1 = w0 + u16_bytes(v.1);
    let w2 = w1 + vx_bytes(v.2);
    let w3 = channel_value_write(w2, v.3);
    let s = w3 + post;
    assert(s.subrange(0, w3.len() as int) =~= w3);
    lemma_u16_bytes(v.1);
    assert(vx_bytes(v.0).len() % 2 == 0 && vx_bytes(v.2).len() % 2 == 0);
    lemma_value_after(s, w2, v.3, v.1);
    lemma_vx_after(s, w1, v.2);
    lemma_u16_after(s, w0, v.1);
    lemma_vx_after(s, pre, v.0);
}

/// A named action channel (`CHNN`) whose value is of its flag's type, written at an even
/// position, is read back from its written form: name, flag, envelope index, value.
#[verifier::spinoff_prover]
#[verifier::rlimit(60)]
pub proof fn law_action_named_channel_roundtrip(
    v: (Seq<u8>, u16, VX, ChannelValueView),
    pre: Seq<u8>,
    post: Seq<u8>,
)
    requires
        pre.len() % 2 == 0,
        !v.0.contains(0),
        vx_canonical(v.2),
        value_fits_flag(v.3, v.1),
    ensures
        spec_action_named_channel(action_named_channel_write(pre, v) + post, pre.len() as int)
            == Ok::<((Seq<u8>, u16, VX, ChannelValueView), int), crate::ParseError>(
            (v, action_named_channel_write(pre, v).len() as int),
        ),
{
    let w0 = aligned_nullstring_write(pre, v.0);
    let w1 = w0 + u16_bytes(v.1);
    let w2 = w1 + vx_bytes(v.2);
    let w3 = channel_value_write(w2, v.3);
    let s = w3 + post;
    assert(s.subrange(0, w3.len() as int) =~= w3);
    lemma_u16_bytes(v.1);
    law_aligned_nullstring_roundtrip(pre, v.0, Seq::empty());
    assert(vx_bytes(v.2).len() % 2 == 0);
    lemma_value_after(s, w2, v.3, v.1);
    lemma_vx_after(s, w1, v.2);
    lemma_u16_after(s, w0, v.1);
    lemma_string_after(s, pre, v.0);
}

proof fn lemma_pairs_take(es: PairEntriesView, i: int)
    requires
        0 <= i < es.len(),
    ensures
        pair_entries_bytes(es.take(i + 1)) == pair_entries_bytes(es.take(i)) + vx_bytes(es[i].0)
            + vx_bytes(es[i].1) + u32_seq_bytes(es[i].2),
{
    assert(es.take(i + 1).drop_last() =~= es.take(i));
}

#[verifier::spinoff_prover]
proof fn lemma_pairs_prefix(es: PairEntriesView, i: int, j: int)
    requires
        0 <= i <= j <= es.len(),
    ensures
        pair_entries_bytes(es.take(j)).len() >= pair_entries_bytes(es.take(i)).len() + 4 * (j - i),
        pair_entries_bytes(es.take(j)).subrange(0, pair_entries_bytes(es.take(i)).len() as int)
            == pair_entries_bytes(es.take(i)),
    decreases j - i,
{
    let a = pair_entries_bytes(es.take(i));
    if i < j {
        lemma_pairs_prefix(es, i, j - 1);
        lemma_pairs_take(es, j - 1);
        let b = pair_entries_bytes(es.take(j - 1));
        assert(pair_entries_bytes(es.take(j)).subrange(0, a.len() as int) =~= b.subrange(
            0,
            a.len() as int,
        ));
        assert(vx_bytes(es[j - 1].0).len() >= 2 && vx_bytes(es[j - 1].1).len() >= 2);
    } else {
        assert(pair_entries_bytes(es.take(j)).subrange(0, a.len() as int) =~= a);
    }
}

/// Two-index map entries with canonical indices and `dim` values each, stored from `base` up to
/// the end of the chunk, are read back by the entry loop from the end of the first `i` on.
#[verifier::spinoff_prover]
#[verifier::rlimit(60)]
proof fn lemma_pairs_loop_from(
    s: Seq<u8>,
    start: int,
    size: int,
    base: int,
    dim: u16,
    es: PairEntriesView,
    i: int,
)
    requires
        0 <= start <= base,
        base + pair_entries_bytes(es).len() == start + size,
        start + size <= s.len(),
        s.subrange(base, start + size) == pair_entries_bytes(es),
        forall|j: int|
            0 <= j < es.len() ==> vx_canonical(#[trigger] es[j].0) && vx_canonical(es[j].1)
                && es[j].2.len() == dim,
        0 <= i <= es.len(),
    ensures
        pair_map_loop(s, start, size, base + pair_entries_bytes(es.take(i)).len(), dim, es.take(i))
            == Ok::<(PairEntriesView, int), crate::ParseError>((es, start + size)),
    decreases es.len() - i,
{
    let all = pair_entries_bytes(es);
    let a = pair_entries_bytes(es.take(i));
    let o = base + a.len();
    assert(es.take(es.len() as int) =~= es);
    if i < es.len() {
        lemma_pairs_prefix(es, i + 1, es.len() as int);
        lemma_pairs_take(es, i);
        let e = es[i];
        let x = vx_bytes(e.0);
        let y = vx_bytes(e.1);
        let z = u32_seq_bytes(e.2);
        let b = pair_entries_bytes(es.take(i + 1));
        lemma_u32_seq_layout(e.2);
        assert(s.subrange(o, o + x.len() + y.len() + z.len()) =~= x + y + z) by {
            assert forall|k: int| 0 <= k < x.len() + y.len() + z.len() implies s[o + k] == (x + y
                + z)[k] by {
                assert(s[base + a.len() + k] == all[a.len() + k]);
                assert(all[a.len() + k] == b[a.len() + k]);
            }
        }
        lemma_at(s, o, x + y, z);
        lemma_at(s, o, x, y);
        assert(vx_canonical(es[i].0) && vx_canonical(es[i].1));
        lemma_vx_at(s, o, e.0);
        lemma_vx_at(s, o + x.len(), e.1);
        lemma_u32_array_at(s, o + x.len() + y.len(), e.2);
        assert(es.take(i).push(e) =~= es.take(i + 1));
        lemma_pairs_loop_from(s, start, size, base, dim, es, i + 1);
    } else {
        assert(o == start + size);
    }
}

/// A two-index vertex map (`VMAD`, `VMED`) written at an even position, whose name has no zero
/// byte and an odd length (so that the written name needs no padding), whose kind is four
/// printable characters and whose entries have canonical indices and `dimension` values each,
/// is read back from its written form as a chunk of that length: each entry is its two indices
/// (vertex, then polygon or edge) followed by its values.
#[verifier::spinoff_prover]
#[verifier::rlimit(40)]
pub proof fn law_vertex_pair_map_roundtrip(v: VertexPairMapView, pre: Seq<u8>, post: Seq<u8>)
    requires
        pre.len() % 2 == 0,
        printable(u32_bytes(v.0)[0]) && printable(u32_bytes(v.0)[1]),
        printable(u32_bytes(v.0)[2]) && printable(u32_bytes(v.0)[3]),
        !v.2.contains(0),
        v.2.len() % 2 == 1,
        forall|j: int|
            0 <= j < v.3.len() ==> vx_canonical(#[trigger] v.3[j].0) && vx_canonical(v.3[j].1)
                && v.3[j].2.len() == v.1,
        vertex_pair_map_bytes(v).len() <= u32::MAX,
    ensures
        spec_vertex_pair_map(
            pre + vertex_pair_map_bytes(v) + post,
            pre.len() as int,
            vertex_pair_map_bytes(v).len() as u32,
        ) == Ok::<(VertexPairMapView, int), crate::ParseError>(
            (v, (pre.len() + vertex_pair_map_bytes(v).len()) as int),
        ),
{
    let w = vertex_pair_map_bytes(v);
    let s = pre + w + post;
    let p = pre.len() as int;
    let size = w.len() as int;
    let k = u32_bytes(v.0);
    let d = u16_bytes(v.1);
    let nm = aligned_nullstring_write(Seq::empty(), v.2);
    let es = pair_entries_bytes(v.3);
    assert(nm =~= crate::primitives::nullstring_bytes(v.2));
    assert(w =~= k + d + nm + es);
    assert(s.subrange(p, p + w.len()) =~= w);
    lemma_split_at(s, p, k + d + nm, es);
    lemma_split_at(s, p, k + d, nm);
    lemma_split_at(s, p, k, d);
    lemma_u32_bytes(v.0);
    lemma_u16_bytes(v.1);
    assert(s[p] == k[0] && s[p + 1] == k[1] && s[p + 2] == k[2] && s[p + 3] == k[3]) by {
        assert(s.subrange(p, p + 4)[0] == k[0] && s.subrange(p, p + 4)[1] == k[1]);
        assert(s.subrange(p, p + 4)[2] == k[2] && s.subrange(p, p + 4)[3] == k[3]);
    }
    assert(s[p + 4] == d[0] && s[p + 5] == d[1]) by {
        assert(s.subrange(p + 4, p + 6)[0] == d[0] && s.subrange(p + 4, p + 6)[1] == d[1]);
    }
    lemma_aligned_nullstring_at(s, p + 6, v.2);
    let base = p + 6 + nm.len();
    assert(v.3.take(0) =~= Seq::<(VX, VX, Seq<u32>)>::empty());
    assert forall|j: int| 0 <= j < v.3.len() implies vx_canonical(#[trigger] v.3[j].0) && vx_canonical(
        v.3[j].1,
    ) && v.3[j].2.len() == v.1 by {
        assert(vx_canonical(v.3[j].0));
    }
    lemma_pairs_loop_from(s, p, size, base, v.1, v.3, 0);
    assert(v.3.take(0) =~= seq![]);
}

/// Vertex vectors (`VVEC`) written at an even position, with a kind of four printable
/// characters and a name without zero bytes, are read back from their written form as a chunk
/// of that length: kind, dimensions, name, then every value.
#[verifier::spinoff_prover]
#[verifier::rlimit(40)]
pub proof fn law_vertex_vectors_roundtrip(v: VertexVectorsView, pre: Seq<u8>, post: Seq<u8>)
    requires
        pre.len() % 2 == 0,
        printable(u32_bytes(v.0)[0]) && printable(u32_bytes(v.0)[1]),
        printable(u32_bytes(v.0)[2]) && printable(u32_bytes(v.0)[3]),
        !v.2.contains(0),
        vertex_vectors_write(pre, v).len() - pre.len() <= u32::MAX,
    ensures
        spec_vertex_vectors(
            vertex_vectors_write(pre, v) + post,
            pre.len() as int,
            (vertex_vectors_write(pre, v).len() - pre.len()) as u32,
        ) == Ok::<(VertexVectorsView, int), crate::ParseError>(
            (v, vertex_vectors_write(pre, v).len() as int),
        ),
{
    let p = pre.len() as int;
    let w0 = pre + u32_bytes(v.0);
    let w1 = w0 + u32_bytes(v.1);
    let w2 = aligned_nullstring_write(w1, v.2);
    let w3 = w2 + u32_seq_bytes(v.3);
    let s = w3 + post;
    assert(s.subrange(0, w3.len() as int) =~= w3);
    lemma_u32_seq_layout(v.3);
    lemma_piece(s, w2, u32_seq_bytes(v.3));
    lemma_string_after(s, w1, v.2);
    lemma_u32_after(s, w0, v.1);
    lemma_u32_after(s, pre, v.0);
    let k = u32_bytes(v.0);
    assert(s[p] == k[0] && s[p + 1] == k[1] && s[p + 2] == k[2] && s[p + 3] == k[3]) by {
        assert(s.subrange(0, p + 4)[p] == (pre + k)[p]);
        assert(s.subrange(0, p + 4)[p + 1] == (pre + k)[p + 1]);
        assert(s.subrange(0, p + 4)[p + 2] == (pre + k)[p + 2]);
        assert(s.subrange(0, p + 4)[p + 3] == (pre + k)[p + 3]);
    }
    lemma_u32_array_at(s, w2.len() as int, v.3);
}

/// An optional string written after `w` at an even position, `w` lying inside the sub-chunk
/// that starts at `start` and has `size` bytes, is read back there when present; when absent,
/// nothing is written and, the sub-chunk ending there, nothing is read.
proof fn lemma_opt_string_after(s: Seq<u8>, start: int, size: int, w: Seq<u8>, o: Option<Seq<u8>>)
    requires
        0 <= start <= w.len(),
        w.len() % 2 == 0,
        o matches Some(t) ==> !t.contains(0),
        opt_string_write(w, o).len() <= start + size,
        o is None ==> w.len() == start + size,
        start + size <= s.len(),
        s.subrange(0, opt_string_write(w, o).len() as int) == opt_string_write(w, o),
    ensures
        s.subrange(0, w.len() as int) == w,
        opt_string_write(w, o).len() % 2 == 0,
        spec_opt_string(s, start, size, w.len() as int) == Ok::<(Option<Seq<u8>>, int), crate::ParseError>(
            (o, opt_string_write(w, o).len() as int),
        ),
{
    match o {
        Some(t) => {
            lemma_string_after(s, w, t);
            lemma_string_write_prefix(w, t);
            law_aligned_nullstring_roundtrip(w, t, Seq::empty());
        },
        None => {
            assert(pad2(w) == w);
        },
    }
}

/// Writing an optional string at an even position keeps what was written before, ends at an
/// even position, and writes nothing when the string is absent.
proof fn lemma_opt_string_write(w: Seq<u8>, o: Option<Seq<u8>>)
    requires
        w.len() % 2 == 0,
    ensures
        w.len() <= opt_string_write(w, o).len(),
        opt_string_write(w, o).len() % 2 == 0,
        opt_string_write(w, o).subrange(0, w.len() as int) == w,
        o is None ==> opt_string_write(w, o) == w,
        o is Some ==> w.len() < opt_string_write(w, o).len(),
{
    match o {
        Some(t) => {
            lemma_string_write_prefix(w, t);
            let x = w + nullstring_bytes(t);
            assert(pad2(x).len() % 2 == 0);
        },
        None => {
            assert(pad2(w) == w);
            assert(w.subrange(0, w.len() as int) =~= w);
        },
    }
}

/// The three optional strings of an action gradient, written one after the other from `w2`,
/// are read back there, the sub-chunk ending where they end.
#[verifier::spinoff_prover]
#[verifier::rlimit(40)]
proof fn lemma_gradient_strings_after(
    s: Seq<u8>,
    p: int,
    w2: Seq<u8>,
    a: Option<Seq<u8>>,
    b: Option<Seq<u8>>,
    c: Option<Seq<u8>>,
)
    requires
        0 <= p <= w2.len(),
        w2.len() % 2 == 0,
        a matches Some(t) ==> !t.contains(0),
        b matches Some(t) ==> !t.contains(0),
        c matches Some(t) ==> !t.contains(0),
        a is None ==> b is None,
        b is None ==> c is None,
        opt_string_write(opt_string_write(opt_string_write(w2, a), b), c).len() <= s.len(),
        s.subrange(0, opt_string_write(opt_string_write(opt_string_write(w2, a), b), c).len() as int)
            == opt_string_write(opt_string_write(opt_string_write(w2, a), b), c),
    ensures
        ({
            let w3 = opt_string_write(w2, a);
            let w4 = opt_string_write(w3, b);
            let w5 = opt_string_write(w4, c);
            let size = w5.len() - p;
            &&& s.subrange(0, w2.len() as int) == w2
            &&& spec_opt_string(s, p, size, w2.len() as int) == Ok::<(Option<Seq<u8>>, int), crate::ParseError>((a, w3.len() as int))
            &&& spec_opt_string(s, p, size, w3.len() as int) == Ok::<(Option<Seq<u8>>, int), crate::ParseError>((b, w4.len() as int))
            &&& spec_opt_string(s, p, size, w4.len() as int) == Ok::<(Option<Seq<u8>>, int), crate::ParseError>((c, w5.len() as int))
        }),
{
    let w3 = opt_string_write(w2, a);
    let w4 = opt_string_write(w3, b);
    let w5 = opt_string_write(w4, c);
    let size = w5.len() - p;
    lemma_opt_string_write(w2, a);
    lemma_opt_string_write(w3, b);
    lemma_opt_string_write(w4, c);
    lemma_opt_string_after(s, p, size, w4, c);
    lemma_opt_string_after(s, p, size, w3, b);
    lemma_opt_string_after(s, p, size, w2, a);
}

/// The fields of an action gradient read one after the other make the gradient.
proof fn lemma_gradient_fields(
    s: Seq<u8>,
    p: int,
    size: u16,
    v: ActionGradientView,
    q1: int,
    q2: int,
    q3: int,
    q4: int,
    q5: int,
    q6: int,
)
    requires
        spec_vx(s, p) == Ok::<(VX, int), crate::ParseError>((v.0, q1)),
        spec_vx(s, q1) == Ok::<(VX, int), crate::ParseError>((v.1, q2)),
        spec_u32(s, q2) == Ok::<(u32, int), crate::ParseError>((v.2, q3)),
        spec_opt_string(s, p, size as int, q3) == Ok::<(Option<Seq<u8>>, int), crate::ParseError>((v.3, q4)),
        spec_opt_string(s, p, size as int, q4) == Ok::<(Option<Seq<u8>>, int), crate::ParseError>((v.4, q5)),
        spec_opt_string(s, p, size as int, q5) == Ok::<(Option<Seq<u8>>, int), crate::ParseError>((v.5, q6)),
    ensures
        spec_action_gradient(s, p, size) == Ok::<(ActionGradientView, int), crate::ParseError>((v, q6)),
{
}

/// An action gradient (`GRAD` of an action) whose optional strings are present from the first
/// on (a missing one is followed by missing ones only) and hold no zero byte is read back from
/// its written form as a sub-chunk of that length: channel index, envelope index, flags, name
/// and the two kinds.
#[verifier::spinoff_prover]
#[verifier::rlimit(60)]
pub proof fn law_action_gradient_roundtrip(v: ActionGradientView, post: Seq<u8>)
    requires
        vx_canonical(v.0),
        vx_canonical(v.1),
        v.3 matches Some(t) ==> !t.contains(0),
        v.4 matches Some(t) ==> !t.contains(0),
        v.5 matches Some(t) ==> !t.contains(0),
        v.3 is None ==> v.4 is None,
        v.4 is None ==> v.5 is None,
        action_gradient_write(Seq::empty(), v).len() <= 0xffff,
    ensures
        spec_action_gradient(
            action_gradient_write(Seq::empty(), v) + post,
            0,
            action_gradient_write(Seq::empty(), v).len() as u16,
        ) == Ok::<(ActionGradientView, int), crate::ParseError>(
            (v, action_gradient_write(Seq::empty(), v).len() as int),
        ),
{
    let pre = Seq::<u8>::empty();
    let w0 = pre + vx_bytes(v.0);
    let w1 = w0 + vx_bytes(v.1);
    let w2 = w1 + u32_bytes(v.2);
    let w3 = opt_string_write(w2, v.3);
    let w4 = opt_string_write(w3, v.4);
    let w5 = opt_string_write(w4, v.5);
    assert(action_gradient_write(pre, v) == w5);
    let s = w5 + post;
    assert(s.subrange(0, w5.len() as int) =~= w5);
    assert(vx_bytes(v.0).len() % 2 == 0 && vx_bytes(v.1).len() % 2 == 0);
    lemma_u32_bytes(v.2);
    let sz = w5.len() as u16;
    lemma_gradient_strings_after(s, 0, w2, v.3, v.4, v.5);
    lemma_u32_after(s, w1, v.2);
    lemma_vx_after(s, w0, v.1);
    lemma_vx_after(s, pre, v.0);
    lemma_gradient_fields(
        s,
        0,
        sz,
        v,
        w0.len() as int,
        w1.len() as int,
        w2.len() as int,
        w3.len() as int,
        w4.len() as int,
        w5.len() as int,
    );
}

} // verus!
