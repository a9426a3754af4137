//! Animation chunks: envelopes (`ENVL`) and actions (`ACTN`).

use crate::meta::loop_measure;
use crate::primitives::{
    channel_value_fits, channel_value_write, ends_ok, lemma_nullstring_advances, lemma_views_push, parsed_as,
    pos_ok, read_u16, read_u32, spec_channel_value, spec_magic, spec_subchunk_header, spec_u16,
    spec_u32, spec_vx, u16_bytes, u32_bytes, views, vx_bytes, write_u16, write_u32, ChannelValue,
    ChannelValueView, NullString, SubChunkHeader, VX, read_magic,
};
use crate::tags::{CHAN, CHNN, CHNS, FLAG, GRAD, ITEM, KEY, POST, PRE, PRNT, TANI, TANO};
use crate::utils::{
    aligned_nullstring_write, pad2, pad_even, read_aligned_nullstring, spec_aligned_nullstring,
    write_aligned_nullstring,
};
use crate::ParseError;
use std::collections::BTreeMap;
use vstd::prelude::*;

verus! {

broadcast use lemma_nullstring_advances;

/// Value type of an envelope, stored as a 32 bit number.
#[derive(Debug, Clone, Copy, PartialEq, Eq)]
pub enum EnvelopeKind {
    Float,
    Integer,
}

pub open spec fn envelope_kind_from(n: u32) -> Option<EnvelopeKind> {
    match n {
        0 => Some(EnvelopeKind::Float),
        1 => Some(EnvelopeKind::Integer),
        _ => None,
    }
}

pub open spec fn envelope_kind_number(k: EnvelopeKind) -> u32 {
    match k {
        EnvelopeKind::Float => 0,
        EnvelopeKind::Integer => 1,
    }
}

impl EnvelopeKind {
    pub fn from_number(n: u32) -> (r: Option<EnvelopeKind>)
        ensures
            r == envelope_kind_from(n),
    {
        match n {
            0 => Some(EnvelopeKind::Float),
            1 => Some(EnvelopeKind::Integer),
            _ => None,
        }
    }

    pub fn number(&self) -> (r: u32)
        ensures
            r == envelope_kind_number(*self),
    {
        match self {
            EnvelopeKind::Float => 0,
            EnvelopeKind::Integer => 1,
        }
    }

    /// The name of the kind: "float" or "integer".
    pub fn name(&self) -> (r: &'static str)
        ensures
            *self == EnvelopeKind::Float ==> r@ == "float"@,
            *self == EnvelopeKind::Integer ==> r@ == "integer"@,
    {
        match self {
            EnvelopeKind::Float => "float",
            EnvelopeKind::Integer => "integer",
        }
    }
}

/// Slope type flags of a tangent.
#[derive(Debug, Clone, Copy, PartialEq, Eq, Structural)]
pub struct Slope {
    pub bits: u16,
}

#[allow(non_snake_case)]
impl Slope {
    pub fn Direct() -> (r: Slope)
        ensures
            r.bits == 0b0000_0000,
    {
        Slope { bits: 0b0000_0000 }
    }

    pub fn Automatic() -> (r: Slope)
        ensures
            r.bits == 0b0000_0001,
    {
        Slope { bits: 0b0000_0001 }
    }

    pub fn LinearIn() -> (r: Slope)
        ensures
            r.bits == 0b0000_0010,
    {
        Slope { bits: 0b0000_0010 }
    }

    pub fn LinearOut() -> (r: Slope)
        ensures
            r.bits == 0b0000_0100,
    {
        Slope { bits: 0b0000_0100 }
    }

    pub fn Flat() -> (r: Slope)
        ensures
            r.bits == 0b0000_1000,
    {
        Slope { bits: 0b0000_1000 }
    }

    pub fn AutoFlat() -> (r: Slope)
        ensures
            r.bits == 0b0001_0000,
    {
        Slope { bits: 0b0001_0000 }
    }

    pub fn Stepped() -> (r: Slope)
        ensures
            r.bits == 0b0010_0000,
    {
        Slope { bits: 0b0010_0000 }
    }

    pub fn SmoothFlat() -> (r: Slope)
        ensures
            r.bits == 0b0100_0000,
    {
        Slope { bits: 0b0100_0000 }
    }


    /// The flags with exactly these bits, known or not.
    pub fn from_bits_retain(bits: u16) -> (r: Slope)
        ensures
            r.bits == bits,
    {
        Slope { bits }
    }

    pub fn bits(&self) -> (r: u16)
        ensures
            r == self.bits,
    {
        self.bits
    }

    /// Whether all bits of `other` are set here.
    pub fn contains(&self, other: Slope) -> (r: bool)
        ensures
            r == (self.bits & other.bits == other.bits),
    {
        self.bits & other.bits == other.bits
    }

    /// The flags set here or in `other`.
    pub fn union(self, other: Slope) -> (r: Slope)
        ensures
            r.bits == self.bits | other.bits,
    {
        Slope { bits: self.bits | other.bits }
    }
}

/// Weight type of a tangent, stored as a 16 bit number.
#[derive(Debug, Clone, Copy, PartialEq, Eq)]
pub enum Weight {
    Manual,
    Automatic,
}

pub open spec fn weight_from(n: u16) -> Option<Weight> {
    match n {
        0 => Some(Weight::Manual),
        1 => Some(Weight::Automatic),
        _ => None,
    }
}

pub open spec fn weight_number(w: Weight) -> u16 {
    match w {
        Weight::Manual => 0,
        Weight::Automatic => 1,
    }
}

impl Weight {
    pub fn from_number(n: u16) -> (r: Option<Weight>)
        ensures
            r == weight_from(n),
    {
        match n {
            0 => Some(Weight::Manual),
            1 => Some(Weight::Automatic),
            _ => None,
        }
    }

    pub fn number(&self) -> (r: u16)
        ensures
            r == weight_number(*self),
    {
        match self {
            Weight::Manual => 0,
            Weight::Automatic => 1,
        }
    }
}

/// What a tangent breaks, stored as a 32 bit number.
#[derive(Debug, Clone, Copy, PartialEq, Eq)]
pub enum Break {
    Value,
    Slope,
    Weight,
}

pub open spec fn break_from(n: u32) -> Option<Break> {
    match n {
        0 => Some(Break::Value),
        1 => Some(Break::Slope),
        2 => Some(Break::Weight),
        _ => None,
    }
}

pub open spec fn break_number(b: Break) -> u32 {
    match b {
        Break::Value => 0,
        Break::Slope => 1,
        Break::Weight => 2,
    }
}

impl Break {
    pub fn from_number(n: u32) -> (r: Option<Break>)
        ensures
            r == break_from(n),
    {
        match n {
            0 => Some(Break::Value),
            1 => Some(Break::Slope),
            2 => Some(Break::Weight),
            _ => None,
        }
    }

    pub fn number(&self) -> (r: u32)
        ensures
            r == break_number(*self),
    {
        match self {
            Break::Value => 0,
            Break::Slope => 1,
            Break::Weight => 2,
        }
    }
}

/// Behaviour of an envelope before its first or after its last key, stored as a 16 bit number.
#[derive(Debug, Clone, Copy, PartialEq, Eq)]
pub enum Behaviour {
    Reset,
    Constant,
    Repeat,
    Oscillate,
    OffsetRepeat,
    Linear,
    /// The behaviour stored as 6, named `None` in the format description.
    NoBehaviour,
}

pub open spec fn behaviour_from(n: u16) -> Option<Behaviour> {
    match n {
        0 => Some(Behaviour::Reset),
        1 => Some(Behaviour::Constant),
        2 => Some(Behaviour::Repeat),
        3 => Some(Behaviour::Oscillate),
        4 => Some(Behaviour::OffsetRepeat),
        5 => Some(Behaviour::Linear),
        6 => Some(Behaviour::NoBehaviour),
        _ => None,
    }
}

pub open spec fn behaviour_number(b: Behaviour) -> u16 {
    match b {
        Behaviour::Reset => 0,
        Behaviour::Constant => 1,
        Behaviour::Repeat => 2,
        Behaviour::Oscillate => 3,
        Behaviour::OffsetRepeat => 4,
        Behaviour::Linear => 5,
        Behaviour::NoBehaviour => 6,
    }
}

impl Behaviour {
    pub fn from_number(n: u16) -> (r: Option<Behaviour>)
        ensures
            r == behaviour_from(n),
    {
        match n {
            0 => Some(Behaviour::Reset),
            1 => Some(Behaviour::Constant),
            2 => Some(Behaviour::Repeat),
            3 => Some(Behaviour::Oscillate),
            4 => Some(Behaviour::OffsetRepeat),
            5 => Some(Behaviour::Linear),
            6 => Some(Behaviour::NoBehaviour),
            _ => None,
        }
    }

    pub fn number(&self) -> (r: u16)
        ensures
            r == behaviour_number(*self),
    {
        match self {
            Behaviour::Reset => 0,
            Behaviour::Constant => 1,
            Behaviour::Repeat => 2,
            Behaviour::Oscillate => 3,
            Behaviour::OffsetRepeat => 4,
            Behaviour::Linear => 5,
            Behaviour::NoBehaviour => 6,
        }
    }
}

/// Reads a 16 bit number that must name a behaviour.
pub open spec fn spec_behaviour(s: Seq<u8>, p: int) -> Result<(Behaviour, int), ParseError> {
    match spec_u16(s, p) {
        Ok((n, q)) => match behaviour_from(n) {
            Some(b) => Ok((b, q)),
            None => Err(ParseError::NoVariantMatch),
        },
        Err(e) => Err(e),
    }
}

pub open spec fn spec_weight(s: Seq<u8>, p: int) -> Result<(Weight, int), ParseError> {
    match spec_u16(s, p) {
        Ok((n, q)) => match weight_from(n) {
            Some(w) => Ok((w, q)),
            None => Err(ParseError::NoVariantMatch),
        },
        Err(e) => Err(e),
    }
}

pub open spec fn spec_break(s: Seq<u8>, p: int) -> Result<(Break, int), ParseError> {
    match spec_u32(s, p) {
        Ok((n, q)) => match break_from(n) {
            Some(b) => Ok((b, q)),
            None => Err(ParseError::NoVariantMatch),
        },
        Err(e) => Err(e),
    }
}

pub open spec fn spec_envelope_kind(s: Seq<u8>, p: int) -> Result<(EnvelopeKind, int), ParseError> {
    match spec_u32(s, p) {
        Ok((n, q)) => match envelope_kind_from(n) {
            Some(k) => Ok((k, q)),
            None => Err(ParseError::NoVariantMatch),
        },
        Err(e) => Err(e),
    }
}

fn read_behaviour(buf: &[u8], pos: u64) -> (r: Result<(Behaviour, u64), ParseError>)
    requires
        pos_ok(buf@, pos as int),
    ensures
        match r {
            Ok((v, q)) => spec_behaviour(buf@, pos as int) == Ok::<(Behaviour, int), ParseError>(
                (v, q as int),
            ),
            Err(e) => spec_behaviour(buf@, pos as int) == Err::<(Behaviour, int), ParseError>(e),
        },
        ends_ok(r, buf@, pos as int),
{
    let (n, q) = read_u16(buf, pos)?;
    match Behaviour::from_number(n) {
        Some(b) => Ok((b, q)),
        None => Err(ParseError::NoVariantMatch),
    }
}

fn read_weight(buf: &[u8], pos: u64) -> (r: Result<(Weight, u64), ParseError>)
    requires
        pos_ok(buf@, pos as int),
    ensures
        match r {
            Ok((v, q)) => spec_weight(buf@, pos as int) == Ok::<(Weight, int), ParseError>(
                (v, q as int),
            ),
            Err(e) => spec_weight(buf@, pos as int) == Err::<(Weight, int), ParseError>(e),
        },
        ends_ok(r, buf@, pos as int),
{
    let (n, q) = read_u16(buf, pos)?;
    match Weight::from_number(n) {
        Some(w) => Ok((w, q)),
        None => Err(ParseError::NoVariantMatch),
    }
}

fn read_break(buf: &[u8], pos: u64) -> (r: Result<(Break, u64), ParseError>)
    requires
        pos_ok(buf@, pos as int),
    ensures
        match r {
            Ok((v, q)) => spec_break(buf@, pos as int) == Ok::<(Break, int), ParseError>(
                (v, q as int),
            ),
            Err(e) => spec_break(buf@, pos as int) == Err::<(Break, int), ParseError>(e),
        },
        ends_ok(r, buf@, pos as int),
{
    let (n, q) = read_u32(buf, pos)?;
    match Break::from_number(n) {
        Some(b) => Ok((b, q)),
        None => Err(ParseError::NoVariantMatch),
    }
}

fn read_envelope_kind(buf: &[u8], pos: u64) -> (r: Result<(EnvelopeKind, u64), ParseError>)
    requires
        pos_ok(buf@, pos as int),
    ensures
        match r {
            Ok((v, q)) => spec_envelope_kind(buf@, pos as int) == Ok::<(EnvelopeKind, int), ParseError>(
                (v, q as int),
            ),
            Err(e) => spec_envelope_kind(buf@, pos as int) == Err::<(EnvelopeKind, int), ParseError>(e),
        },
        ends_ok(r, buf@, pos as int),
{
    let (n, q) = read_u32(buf, pos)?;
    match EnvelopeKind::from_number(n) {
        Some(k) => Ok((k, q)),
        None => Err(ParseError::NoVariantMatch),
    }
}

/// Incoming tangent of a key (`TANI`). Floats are held as their bit patterns.
#[derive(Debug, Clone, Copy, PartialEq, Eq)]
pub struct TangentIn {
    pub size: u16,
    pub slope_type: Slope,
    pub weight_type: Weight,
    pub weight: u32,
    pub slope: u32,
    pub value: u32,
}

/// Outgoing tangent of a key (`TANO`). Floats are held as their bit patterns.
#[derive(Debug, Clone, Copy, PartialEq, Eq)]
pub struct TangentOut {
    pub size: u16,
    pub breaks: Break,
    pub slope_type: Slope,
    pub weight_type: Weight,
    pub weight: u32,
    pub slope: u32,
    pub value: u32,
}

/// Behaviour before the first key (`PRE `).
#[derive(Debug, Clone, Copy, PartialEq, Eq)]
pub struct Pre {
    pub size: u16,
    pub behaviour: Behaviour,
}

/// Behaviour after the last key (`POST`).
#[derive(Debug, Clone, Copy, PartialEq, Eq)]
pub struct Post {
    pub size: u16,
    pub behaviour: Behaviour,
}

/// A key (`KEY `): time and value, held as float bit patterns.
#[derive(Debug, Clone, Copy, PartialEq, Eq)]
pub struct Key {
    pub size: u16,
    pub time: u32,
    pub value: u32,
}

/// Client flags of a key (`FLAG`); deprecated and unused by every version of Modo.
#[derive(Debug, Clone, Copy, PartialEq, Eq)]
pub struct Flag {
    pub size: u16,
    pub flag: u32,
}

/// An envelope (`ENVL`): the keys of a gradient or of keyframed animation.
#[derive(Debug, Clone, Copy, PartialEq, Eq)]
pub struct Envelope {
    pub index: VX,
    pub kind: EnvelopeKind,
    pub pre: Pre,
    pub post: Post,
    pub key: Key,
    pub tangent_in: TangentIn,
    pub tangent_out: TangentOut,
    pub flag: Flag,
}

impl View for Envelope {
    type V = Envelope;

    open spec fn view(&self) -> Envelope {
        *self
    }
}

impl View for TangentIn {
    type V = TangentIn;

    open spec fn view(&self) -> TangentIn {
        *self
    }
}

impl View for TangentOut {
    type V = TangentOut;

    open spec fn view(&self) -> TangentOut {
        *self
    }
}

impl View for Key {
    type V = Key;

    open spec fn view(&self) -> Key {
        *self
    }
}

impl TangentIn {
    /// A tangent with the size its sub-chunk always has (0x10).
    pub fn new(slope_type: Slope, weight_type: Weight, weight: u32, slope: u32, value: u32) -> (r:
        TangentIn)
        ensures
            r == (TangentIn { size: 0x10, slope_type, weight_type, weight, slope, value }),
    {
        TangentIn { size: 0x10, slope_type, weight_type, weight, slope, value }
    }
}

impl TangentOut {
    /// A tangent with the size its sub-chunk always has (0x14).
    pub fn new(
        breaks: Break,
        slope_type: Slope,
        weight_type: Weight,
        weight: u32,
        slope: u32,
        value: u32,
    ) -> (r: TangentOut)
        ensures
            r == (TangentOut { size: 0x14, breaks, slope_type, weight_type, weight, slope, value }),
    {
        TangentOut { size: 0x14, breaks, slope_type, weight_type, weight, slope, value }
    }
}

impl Key {
    /// A key with the size its sub-chunk always has (8).
    pub fn new(time: u32, value: u32) -> (r: Key)
        ensures
            r == (Key { size: 8, time, value }),
    {
        Key { size: 8, time, value }
    }
}

pub open spec fn spec_tangent_in(s: Seq<u8>, p: int) -> Result<(TangentIn, int), ParseError> {
    match spec_magic(s, p, TANI) {
        Ok((_, q0)) => match spec_u16(s, q0) {
            Ok((size, q1)) => match spec_u16(s, q1) {
                Ok((slope_bits, q2)) => match spec_weight(s, q2) {
                    Ok((weight_type, q3)) => match spec_u32(s, q3) {
                        Ok((weight, q4)) => match spec_u32(s, q4) {
                            Ok((slope, q5)) => match spec_u32(s, q5) {
                                Ok((value, q6)) => Ok(
                                    (
                                        TangentIn {
                                            size,
                                            slope_type: Slope { bits: slope_bits },
                                            weight_type,
                                            weight,
                                            slope,
                                            value,
                                        },
                                        q6,
                                    ),
                                ),
                                Err(e) => Err(e),
                            },
                            Err(e) => Err(e),
                        },
                        Err(e) => Err(e),
                    },
                    Err(e) => Err(e),
                },
                Err(e) => Err(e),
            },
            Err(e) => Err(e),
        },
        Err(e) => Err(e),
    }
}

pub open spec fn spec_tangent_out(s: Seq<u8>, p: int) -> Result<(TangentOut, int), ParseError> {
    match spec_magic(s, p, TANO) {
        Ok((_, q0)) => match spec_u16(s, q0) {
            Ok((size, q1)) => match spec_break(s, q1) {
                Ok((breaks, q2)) => match spec_u16(s, q2) {
                    Ok((slope_bits, q3)) => match spec_weight(s, q3) {
                        Ok((weight_type, q4)) => match spec_u32(s, q4) {
                            Ok((weight, q5)) => match spec_u32(s, q5) {
                                Ok((slope, q6)) => match spec_u32(s, q6) {
                                    Ok((value, q7)) => Ok(
                                        (
                                            TangentOut {
                                                size,
                                                breaks,
                                                slope_type: Slope { bits: slope_bits },
                                                weight_type,
                                                weight,
                                                slope,
                                                value,
                                            },
                                            q7,
                                        ),
                                    ),
                                    Err(e) => Err(e),
                                },
                                Err(e) => Err(e),
                            },
                            Err(e) => Err(e),
                        },
                        Err(e) => Err(e),
                    },
                    Err(e) => Err(e),
                },
                Err(e) => Err(e),
            },
            Err(e) => Err(e),
        },
        Err(e) => Err(e),
    }
}

/// A tagged behaviour sub-chunk (`PRE ` or `POST`): tag, 16 bit size, behaviour.
pub open spec fn spec_tagged_behaviour(s: Seq<u8>, p: int, tag: u32) -> Result<
    ((u16, Behaviour), int),
    ParseError,
> {
    match spec_magic(s, p, tag) {
        Ok((_, q0)) => match spec_u16(s, q0) {
            Ok((size, q1)) => match spec_behaviour(s, q1) {
                Ok((b, q2)) => Ok(((size, b), q2)),
                Err(e) => Err(e),
            },
            Err(e) => Err(e),
        },
        Err(e) => Err(e),
    }
}

pub open spec fn spec_key(s: Seq<u8>, p: int) -> Result<(Key, int), ParseError> {
    match spec_magic(s, p, KEY) {
        Ok((_, q0)) => match spec_u16(s, q0) {
            Ok((size, q1)) => match spec_u32(s, q1) {
                Ok((time, q2)) => match spec_u32(s, q2) {
                    Ok((value, q3)) => Ok((Key { size, time, value }, q3)),
                    Err(e) => Err(e),
                },
                Err(e) => Err(e),
            },
            Err(e) => Err(e),
        },
        Err(e) => Err(e),
    }
}

pub open spec fn spec_flag(s: Seq<u8>, p: int) -> Result<(Flag, int), ParseError> {
    match spec_magic(s, p, FLAG) {
        Ok((_, q0)) => match spec_u16(s, q0) {
            Ok((size, q1)) => match spec_u32(s, q1) {
                Ok((flag, q2)) => Ok((Flag { size, flag }, q2)),
                Err(e) => Err(e),
            },
            Err(e) => Err(e),
        },
        Err(e) => Err(e),
    }
}

/// Grammar of an envelope: index, kind, then the `PRE `, `POST`, `KEY `, `TANI`, `TANO` and
/// `FLAG` sub-chunks in that order.
pub open spec fn spec_envelope(s: Seq<u8>, p: int) -> Result<(Envelope, int), ParseError> {
    match spec_vx(s, p) {
        Ok((index, q1)) => match spec_envelope_kind(s, q1) {
            Ok((kind, q2)) => match spec_tagged_behaviour(s, q2, PRE) {
                Ok((pre, q3)) => match spec_tagged_behaviour(s, q3, POST) {
                    Ok((post, q4)) => match spec_key(s, q4) {
                        Ok((key, q5)) => match spec_tangent_in(s, q5) {
                            Ok((tangent_in, q6)) => match spec_tangent_out(s, q6) {
                                Ok((tangent_out, q7)) => match spec_flag(s, q7) {
                                    Ok((flag, q8)) => Ok(
                                        (
                                            Envelope {
                                                index,
                                                kind,
                                                pre: Pre { size: pre.0, behaviour: pre.1 },
                                                post: Post { size: post.0, behaviour: post.1 },
                                                key,
                                                tangent_in,
                                                tangent_out,
                                                flag,
                                            },
                                            q8,
                                        ),
                                    ),
                                    Err(e) => Err(e),
                                },
                                Err(e) => Err(e),
                            },
                            Err(e) => Err(e),
                        },
                        Err(e) => Err(e),
                    },
                    Err(e) => Err(e),
                },
                Err(e) => Err(e),
            },
            Err(e) => Err(e),
        },
        Err(e) => Err(e),
    }
}

pub open spec fn behaviour_chunk_bytes(tag: u32, b: Behaviour) -> Seq<u8> {
    u32_bytes(tag) + u16_bytes(2) + u16_bytes(behaviour_number(b))
}

pub open spec fn key_bytes(k: Key) -> Seq<u8> {
    u32_bytes(KEY) + u16_bytes(8) + u32_bytes(k.time) + u32_bytes(k.value)
}

pub open spec fn tangent_in_bytes(t: TangentIn) -> Seq<u8> {
    u32_bytes(TANI) + u16_bytes(0x10) + u16_bytes(t.slope_type.bits) + u16_bytes(
        weight_number(t.weight_type),
    ) + u32_bytes(t.weight) + u32_bytes(t.slope) + u32_bytes(t.value)
}

pub open spec fn tangent_out_bytes(t: TangentOut) -> Seq<u8> {
    u32_bytes(TANO) + u16_bytes(0x14) + u32_bytes(break_number(t.breaks)) + u16_bytes(
        t.slope_type.bits,
    ) + u16_bytes(weight_number(t.weight_type)) + u32_bytes(t.weight) + u32_bytes(t.slope)
        + u32_bytes(t.value)
}

pub open spec fn flag_bytes(f: Flag) -> Seq<u8> {
    u32_bytes(FLAG) + u16_bytes(4) + u32_bytes(f.flag)
}

/// Encoding of an envelope. The size of each sub-chunk is written as the fixed size of its kind,
/// whatever size was read.
pub open spec fn envelope_bytes(v: Envelope) -> Seq<u8> {
    vx_bytes(v.index) + u32_bytes(envelope_kind_number(v.kind)) + behaviour_chunk_bytes(
        PRE,
        v.pre.behaviour,
    ) + behaviour_chunk_bytes(POST, v.post.behaviour) + key_bytes(v.key) + tangent_in_bytes(
        v.tangent_in,
    ) + tangent_out_bytes(v.tangent_out) + flag_bytes(v.flag)
}

fn write_behaviour_chunk(out: &mut Vec<u8>, tag: u32, b: Behaviour)
    ensures
        final(out)@ == old(out)@ + behaviour_chunk_bytes(tag, b),
{
    write_u32(out, tag);
    write_u16(out, 2);
    write_u16(out, b.number());
    assert(out@ =~= old(out)@ + behaviour_chunk_bytes(tag, b));
}

impl Key {
    pub fn write_be(&self, out: &mut Vec<u8>)
        ensures
            final(out)@ == old(out)@ + key_bytes(*self),
    {
        write_u32(out, KEY);
        write_u16(out, 8);
        write_u32(out, self.time);
        write_u32(out, self.value);
        assert(out@ =~= old(out)@ + key_bytes(*self));
    }
}

impl TangentIn {
    pub fn write_be(&self, out: &mut Vec<u8>)
        ensures
            final(out)@ == old(out)@ + tangent_in_bytes(*self),
    {
        write_u32(out, TANI);
        write_u16(out, 0x10);
        write_u16(out, self.slope_type.bits);
        write_u16(out, self.weight_type.number());
        write_u32(out, self.weight);
        write_u32(out, self.slope);
        write_u32(out, self.value);
        assert(out@ =~= old(out)@ + tangent_in_bytes(*self));
    }
}

impl TangentOut {
    pub fn write_be(&self, out: &mut Vec<u8>)
        ensures
            final(out)@ == old(out)@ + tangent_out_bytes(*self),
    {
        write_u32(out, TANO);
        write_u16(out, 0x14);
        write_u32(out, self.breaks.number());
        write_u16(out, self.slope_type.bits);
        write_u16(out, self.weight_type.number());
        write_u32(out, self.weight);
        write_u32(out, self.slope);
        write_u32(out, self.value);
        assert(out@ =~= old(out)@ + tangent_out_bytes(*self));
    }
}

impl Flag {
    pub fn write_be(&self, out: &mut Vec<u8>)
        ensures
            final(out)@ == old(out)@ + flag_bytes(*self),
    {
        write_u32(out, FLAG);
        write_u16(out, 4);
        write_u32(out, self.flag);
        assert(out@ =~= old(out)@ + flag_bytes(*self));
    }
}

impl Envelope {
    pub fn read_be(buf: &[u8], pos: u64) -> (r: Result<(Envelope, u64), ParseError>)
        requires
            pos_ok(buf@, pos as int),
        ensures
            parsed_as(r, spec_envelope(buf@, pos as int)),
            ends_ok(r, buf@, pos as int),
    {
        let (index, q1) = VX::read_be(buf, pos)?;
        let (kind, q2) = read_envelope_kind(buf, q1)?;
        let (_, p0) = read_magic(buf, q2, PRE)?;
        let (pre_size, p1) = read_u16(buf, p0)?;
        let (pre_b, q3) = read_behaviour(buf, p1)?;
        let (_, p2) = read_magic(buf, q3, POST)?;
        let (post_size, p3) = read_u16(buf, p2)?;
        let (post_b, q4) = read_behaviour(buf, p3)?;
        let (_, p4) = read_magic(buf, q4, KEY)?;
        let (key_size, p5) = read_u16(buf, p4)?;
        let (time, p6) = read_u32(buf, p5)?;
        let (value, q5) = read_u32(buf, p6)?;
        let (_, t0) = read_magic(buf, q5, TANI)?;
        let (ti_size, t1) = read_u16(buf, t0)?;
        let (ti_slope_bits, t2) = read_u16(buf, t1)?;
        let (ti_weight_type, t3) = read_weight(buf, t2)?;
        let (ti_weight, t4) = read_u32(buf, t3)?;
        let (ti_slope, t5) = read_u32(buf, t4)?;
        let (ti_value, q6) = read_u32(buf, t5)?;
        let (_, u0) = read_magic(buf, q6, TANO)?;
        let (to_size, u1) = read_u16(buf, u0)?;
        let (to_breaks, u2) = read_break(buf, u1)?;
        let (to_slope_bits, u3) = read_u16(buf, u2)?;
        let (to_weight_type, u4) = read_weight(buf, u3)?;
        let (to_weight, u5) = read_u32(buf, u4)?;
        let (to_slope, u6) = read_u32(buf, u5)?;
        let (to_value, q7) = read_u32(buf, u6)?;
        let (_, f0) = read_magic(buf, q7, FLAG)?;
        let (flag_size, f1) = read_u16(buf, f0)?;
        let (flag, q8) = read_u32(buf, f1)?;
        let env = Envelope {
            index,
            kind,
            pre: Pre { size: pre_size, behaviour: pre_b },
            post: Post { size: post_size, behaviour: post_b },
            key: Key { size: key_size, time, value },
            tangent_in: TangentIn {
                size: ti_size,
                slope_type: Slope { bits: ti_slope_bits },
                weight_type: ti_weight_type,
                weight: ti_weight,
                slope: ti_slope,
                value: ti_value,
            },
            tangent_out: TangentOut {
                size: to_size,
                breaks: to_breaks,
                slope_type: Slope { bits: to_slope_bits },
                weight_type: to_weight_type,
                weight: to_weight,
                slope: to_slope,
                value: to_value,
            },
            flag: Flag { size: flag_size, flag },
        };
        Ok((env, q8))
    }

    pub fn write_be(&self, out: &mut Vec<u8>)
        ensures
            final(out)@ == old(out)@ + envelope_bytes(*self),
    {
        self.index.write_be(out);
        write_u32(out, self.kind.number());
        write_behaviour_chunk(out, PRE, self.pre.behaviour);
        write_behaviour_chunk(out, POST, self.post.behaviour);
        self.key.write_be(out);
        self.tangent_in.write_be(out);
        self.tangent_out.write_be(out);
        self.flag.write_be(out);
        assert(out@ =~= old(out)@ + envelope_bytes(*self));
    }
}


/// A channel value of an action item, by index into the `CHNM` names (`CHAN`).
#[derive(Debug, Clone, PartialEq)]
pub struct ActionChannel {
    pub channel_index: VX,
    pub kind: u16,
    pub envelope_index: VX,
    pub variable: ChannelValue,
}

impl View for ActionChannel {
    type V = (VX, u16, VX, ChannelValueView);

    open spec fn view(&self) -> (VX, u16, VX, ChannelValueView) {
        (self.channel_index, self.kind, self.envelope_index, self.variable@)
    }
}

/// Grammar: channel index, type flag, envelope index, then a value of the flagged type.
pub open spec fn spec_action_channel(s: Seq<u8>, p: int) -> Result<
    ((VX, u16, VX, ChannelValueView), int),
    ParseError,
> {
    match spec_vx(s, p) {
        Ok((ci, q1)) => match spec_u16(s, q1) {
            Ok((kind, q2)) => match spec_vx(s, q2) {
                Ok((ei, q3)) => match spec_channel_value(s, q3, kind) {
                    Ok((v, q4)) => Ok(((ci, kind, ei, v), q4)),
                    Err(e) => Err(e),
                },
                Err(e) => Err(e),
            },
            Err(e) => Err(e),
        },
        Err(e) => Err(e),
    }
}

pub open spec fn action_channel_write(out: Seq<u8>, v: (VX, u16, VX, ChannelValueView)) -> Seq<u8> {
    channel_value_write(out + vx_bytes(v.0) + u16_bytes(v.1) + vx_bytes(v.2), v.3)
}

impl ActionChannel {
    pub fn read_be(buf: &[u8], pos: u64) -> (r: Result<(ActionChannel, u64), ParseError>)
        requires
            pos_ok(buf@, pos as int),
        ensures
            parsed_as(r, spec_action_channel(buf@, pos as int)),
            ends_ok(r, buf@, pos as int),
    {
        let (channel_index, q1) = VX::read_be(buf, pos)?;
        let (kind, q2) = read_u16(buf, q1)?;
        let (envelope_index, q3) = VX::read_be(buf, q2)?;
        let (variable, q4) = ChannelValue::read_be(buf, q3, kind)?;
        Ok((ActionChannel { channel_index, kind, envelope_index, variable }, q4))
    }

    /// Writes the channel; a value that cannot be written (see `channel_value_fits`) is
    /// refused and nothing is written.
    pub fn write_be(&self, out: &mut Vec<u8>) -> (r: Result<(), ParseError>)
        ensures
            r is Ok <==> channel_value_fits(self.variable@),
            r is Ok ==> final(out)@ == action_channel_write(old(out)@, self@),
            r is Err ==> r == Err::<(), ParseError>(ParseError::LengthOverflow) && final(out)@
                == old(out)@,
    {
        if !self.variable.fits() {
            return Err(ParseError::LengthOverflow);
        }
        self.channel_index.write_be(out);
        write_u16(out, self.kind);
        self.envelope_index.write_be(out);
        self.variable.write_be(out)
    }
}

/// A channel value of an action item with the channel named explicitly (`CHNN`).
#[derive(Debug, Clone, PartialEq)]
pub struct ActionNamedChannel {
    /// Name of the channel
    pub name: NullString,
    /// Type of the channel
    pub kind: u16,
    /// Index of the envelope in the ENVL chunk's array, if applicable
    pub envelope_index: VX,
    /// Value of the channel; its type is given by `kind`
    pub variable: ChannelValue,
}

impl View for ActionNamedChannel {
    type V = (Seq<u8>, u16, VX, ChannelValueView);

    open spec fn view(&self) -> (Seq<u8>, u16, VX, ChannelValueView) {
        (self.name@, self.kind, self.envelope_index, self.variable@)
    }
}

pub open spec fn spec_action_named_channel(s: Seq<u8>, p: int) -> Result<
    ((Seq<u8>, u16, VX, ChannelValueView), int),
    ParseError,
> {
    match spec_aligned_nullstring(s, p) {
        Ok((name, q1)) => match spec_u16(s, q1) {
            Ok((kind, q2)) => match spec_vx(s, q2) {
                Ok((ei, q3)) => match spec_channel_value(s, q3, kind) {
                    Ok((v, q4)) => Ok(((name, kind, ei, v), q4)),
                    Err(e) => Err(e),
                },
                Err(e) => Err(e),
            },
            Err(e) => Err(e),
        },
        Err(e) => Err(e),
    }
}

pub open spec fn action_named_channel_write(
    out: Seq<u8>,
    v: (Seq<u8>, u16, VX, ChannelValueView),
) -> Seq<u8> {
    channel_value_write(
        aligned_nullstring_write(out, v.0) + u16_bytes(v.1) + vx_bytes(v.2),
        v.3,
    )
}

impl ActionNamedChannel {
    pub fn read_be(buf: &[u8], pos: u64) -> (r: Result<(ActionNamedChannel, u64), ParseError>)
        requires
            pos_ok(buf@, pos as int),
        ensures
            parsed_as(r, spec_action_named_channel(buf@, pos as int)),
            ends_ok(r, buf@, pos as int),
    {
        let (name, q1) = read_aligned_nullstring(buf, pos)?;
        let (kind, q2) = read_u16(buf, q1)?;
        let (envelope_index, q3) = VX::read_be(buf, q2)?;
        let (variable, q4) = ChannelValue::read_be(buf, q3, kind)?;
        Ok((ActionNamedChannel { name, kind, envelope_index, variable }, q4))
    }

    /// Writes the channel; a value that cannot be written (see `channel_value_fits`) is
    /// refused and nothing is written.
    pub fn write_be(&self, out: &mut Vec<u8>) -> (r: Result<(), ParseError>)
        ensures
            r is Ok <==> channel_value_fits(self.variable@),
            r is Ok ==> final(out)@ == action_named_channel_write(old(out)@, self@),
            r is Err ==> r == Err::<(), ParseError>(ParseError::LengthOverflow) && final(out)@
                == old(out)@,
    {
        if !self.variable.fits() {
            return Err(ParseError::LengthOverflow);
        }
        write_aligned_nullstring(out, &self.name);
        write_u16(out, self.kind);
        self.envelope_index.write_be(out);
        self.variable.write_be(out)
    }
}

/// A gradient channel of an action item (`GRAD`).
#[derive(Debug, Clone, PartialEq)]
pub struct ActionGradient {
    /// Index of the channel's name in the CHNM chunk's array
    pub channel_index: VX,
    /// Index of the envelope in the ENVL chunk's array, if applicable
    pub envelope_index: VX,
    pub flags: u32,
    /// Optional channel name.
    pub name: Option<NullString>,
    pub kind0: Option<NullString>,
    pub kind1: Option<NullString>,
}

pub open spec fn opt_view(o: Option<NullString>) -> Option<Seq<u8>> {
    match o {
        Some(v) => Some(v@),
        None => None,
    }
}

pub type ActionGradientView = (VX, VX, u32, Option<Seq<u8>>, Option<Seq<u8>>, Option<Seq<u8>>);

impl View for ActionGradient {
    type V = ActionGradientView;

    open spec fn view(&self) -> ActionGradientView {
        (
            self.channel_index,
            self.envelope_index,
            self.flags,
            opt_view(self.name),
            opt_view(self.kind0),
            opt_view(self.kind1),
        )
    }
}

/// An optional aligned string: present exactly when fewer than `size` bytes have been read
/// since `start`.
pub open spec fn spec_opt_string(s: Seq<u8>, start: int, size: int, p: int) -> Result<
    (Option<Seq<u8>>, int),
    ParseError,
> {
    if p - start < size {
        match spec_aligned_nullstring(s, p) {
            Ok((v, q)) => Ok((Some(v), q)),
            Err(e) => Err(e),
        }
    } else {
        Ok((None, p))
    }
}

/// Output after writing an optional string: when present, null terminated; then padded to an
/// even length in both cases.
pub open spec fn opt_string_write(out: Seq<u8>, o: Option<Seq<u8>>) -> Seq<u8> {
    match o {
        Some(v) => aligned_nullstring_write(out, v),
        None => pad2(out),
    }
}

pub fn read_opt_string(buf: &[u8], start: u64, size: u64, pos: u64) -> (r: Result<
    (Option<NullString>, u64),
    ParseError,
>)
    requires
        pos_ok(buf@, pos as int),
        start <= pos,
    ensures
        match r {
            Ok((v, q)) => spec_opt_string(buf@, start as int, size as int, pos as int) == Ok::<
                (Option<Seq<u8>>, int),
                ParseError,
            >((opt_view(v), q as int)),
            Err(e) => spec_opt_string(buf@, start as int, size as int, pos as int) == Err::<
                (Option<Seq<u8>>, int),
                ParseError,
            >(e),
        },
        ends_ok(r, buf@, pos as int),
        r matches Ok((_, q)) ==> pos <= q,
{
    if pos - start < size {
        let (v, q) = read_aligned_nullstring(buf, pos)?;
        Ok((Some(v), q))
    } else {
        Ok((None, pos))
    }
}

pub fn write_opt_string(out: &mut Vec<u8>, o: &Option<NullString>)
    ensures
        final(out)@ == opt_string_write(old(out)@, opt_view(*o)),
{
    match o {
        Some(v) => write_aligned_nullstring(out, v),
        None => pad_even(out),
    }
}

/// Grammar of a `GRAD` sub-chunk of `size` bytes: two indices and flags, then up to three
/// strings, each present while the sub-chunk has bytes left.
pub open spec fn spec_action_gradient(s: Seq<u8>, p: int, size: u16) -> Result<
    (ActionGradientView, int),
    ParseError,
> {
    match spec_vx(s, p) {
        Ok((ci, q1)) => match spec_vx(s, q1) {
            Ok((ei, q2)) => match spec_u32(s, q2) {
                Ok((flags, q3)) => match spec_opt_string(s, p, size as int, q3) {
                    Ok((name, q4)) => match spec_opt_string(s, p, size as int, q4) {
                        Ok((k0, q5)) => match spec_opt_string(s, p, size as int, q5) {
                            Ok((k1, q6)) => Ok(((ci, ei, flags, name, k0, k1), q6)),
                            Err(e) => Err(e),
                        },
                        Err(e) => Err(e),
                    },
                    Err(e) => Err(e),
                },
                Err(e) => Err(e),
            },
            Err(e) => Err(e),
        },
        Err(e) => Err(e),
    }
}

pub open spec fn action_gradient_write(out: Seq<u8>, v: ActionGradientView) -> Seq<u8> {
    opt_string_write(
        opt_string_write(
            opt_string_write(out + vx_bytes(v.0) + vx_bytes(v.1) + u32_bytes(v.2), v.3),
            v.4,
        ),
        v.5,
    )
}

impl ActionGradient {
    pub fn read_be(buf: &[u8], pos: u64, size: u16) -> (r: Result<(ActionGradient, u64), ParseError>)
        requires
            pos_ok(buf@, pos as int),
        ensures
            parsed_as(r, spec_action_gradient(buf@, pos as int, size)),
            ends_ok(r, buf@, pos as int),
    {
        let (channel_index, q1) = VX::read_be(buf, pos)?;
        let (envelope_index, q2) = VX::read_be(buf, q1)?;
        let (flags, q3) = read_u32(buf, q2)?;
        let (name, q4) = read_opt_string(buf, pos, size as u64, q3)?;
        let (kind0, q5) = read_opt_string(buf, pos, size as u64, q4)?;
        let (kind1, q6) = read_opt_string(buf, pos, size as u64, q5)?;
        Ok((ActionGradient { channel_index, envelope_index, flags, name, kind0, kind1 }, q6))
    }

    pub fn write_be(&self, out: &mut Vec<u8>)
        ensures
            final(out)@ == action_gradient_write(old(out)@, self@),
    {
        self.channel_index.write_be(out);
        self.envelope_index.write_be(out);
        write_u32(out, self.flags);
        write_opt_string(out, &self.name);
        write_opt_string(out, &self.kind0);
        write_opt_string(out, &self.kind1);
    }
}

/// A string channel of an action item (`CHNS`).
#[derive(Debug, Clone, PartialEq)]
pub struct ActionString {
    pub name: NullString,
    pub channel_index: VX,
    pub value: NullString,
}

impl View for ActionString {
    type V = (Seq<u8>, VX, Seq<u8>);

    open spec fn view(&self) -> (Seq<u8>, VX, Seq<u8>) {
        (self.name@, self.channel_index, self.value@)
    }
}

pub open spec fn spec_action_string(s: Seq<u8>, p: int) -> Result<((Seq<u8>, VX, Seq<u8>), int), ParseError> {
    match spec_aligned_nullstring(s, p) {
        Ok((name, q1)) => match spec_vx(s, q1) {
            Ok((ci, q2)) => match spec_aligned_nullstring(s, q2) {
                Ok((value, q3)) => Ok(((name, ci, value), q3)),
                Err(e) => Err(e),
            },
            Err(e) => Err(e),
        },
        Err(e) => Err(e),
    }
}

impl ActionString {
    pub fn read_be(buf: &[u8], pos: u64) -> (r: Result<(ActionString, u64), ParseError>)
        requires
            pos_ok(buf@, pos as int),
        ensures
            parsed_as(r, spec_action_string(buf@, pos as int)),
            ends_ok(r, buf@, pos as int),
    {
        let (name, q1) = read_aligned_nullstring(buf, pos)?;
        let (channel_index, q2) = VX::read_be(buf, q1)?;
        let (value, q3) = read_aligned_nullstring(buf, q2)?;
        Ok((ActionString { name, channel_index, value }, q3))
    }
}

/// The channels an action holds for an item.
#[derive(Debug, Clone, PartialEq)]
pub enum ActionChannels {
    CHAN(ActionChannel),
    CHNN(ActionNamedChannel),
    GRAD(ActionGradient),
    CHNS(ActionString),
}

pub enum ActionChannelsView {
    CHAN((VX, u16, VX, ChannelValueView)),
    CHNN((Seq<u8>, u16, VX, ChannelValueView)),
    GRAD(ActionGradientView),
    CHNS((Seq<u8>, VX, Seq<u8>)),
}

impl View for ActionChannels {
    type V = ActionChannelsView;

    open spec fn view(&self) -> ActionChannelsView {
        match self {
            ActionChannels::CHAN(c) => ActionChannelsView::CHAN(c@),
            ActionChannels::CHNN(c) => ActionChannelsView::CHNN(c@),
            ActionChannels::GRAD(c) => ActionChannelsView::GRAD(c@),
            ActionChannels::CHNS(c) => ActionChannelsView::CHNS(c@),
        }
    }
}

/// An action (`ACTN`): a named set of channel values per item.
#[derive(Debug)]
pub struct Action {
    pub name: NullString,
    pub kind: NullString,
    pub reference: u32,
    pub parent: Option<u32>,
    pub items: BTreeMap<u32, Vec<ActionChannels>>,
}

/// The channels of each item, taken by their views.
pub open spec fn items_view(m: BTreeMap<u32, Vec<ActionChannels>>) -> Map<u32, Seq<ActionChannelsView>> {
    Map::new(|k: u32| m@.dom().contains(k), |k: u32| views(m@[k]@))
}

pub type ActionView = (Seq<u8>, Seq<u8>, u32, Option<u32>, Map<u32, Seq<ActionChannelsView>>);

impl View for Action {
    type V = ActionView;

    open spec fn view(&self) -> ActionView {
        (self.name@, self.kind@, self.reference, self.parent, items_view(self.items))
    }
}

/// `m` with `x` appended to the channels of item `k` (which start empty when `k` is absent).
pub open spec fn push_channel(
    m: Map<u32, Seq<ActionChannelsView>>,
    k: u32,
    x: ActionChannelsView,
) -> Map<u32, Seq<ActionChannelsView>> {
    m.insert(k, (if m.dom().contains(k) { m[k] } else { Seq::empty() }).push(x))
}

/// An `ITEM` sub-chunk naming item `k`, followed by a `CHAN` sub-chunk, gives item `k`
/// exactly that channel: the channel goes to the item named just before it, whatever item was
/// current, and reading goes on after the channel with `k` current.
pub proof fn law_action_channel_goes_to_named_item(
    s: Seq<u8>,
    start: int,
    size: int,
    p: int,
    parent: Option<u32>,
    current: u32,
    items: Map<u32, Seq<ActionChannelsView>>,
    k: u32,
    n: u16,
    m: u16,
    c: (VX, u16, VX, ChannelValueView),
    e: int,
)
    requires
        start <= p,
        p + 10 - start < size,
        spec_subchunk_header(s, p) == Ok::<((u32, u16), int), ParseError>(((ITEM, n), p + 6)),
        spec_u32(s, p + 6) == Ok::<(u32, int), ParseError>((k, p + 10)),
        spec_subchunk_header(s, p + 10) == Ok::<((u32, u16), int), ParseError>(
            ((CHAN, m), p + 16),
        ),
        spec_action_channel(s, p + 16) == Ok::<((VX, u16, VX, ChannelValueView), int), ParseError>(
            (c, e),
        ),
    ensures
        action_loop(s, start, size, p, parent, current, items) == action_loop(
            s,
            start,
            size,
            e,
            parent,
            k,
            items.insert(k, seq![ActionChannelsView::CHAN(c)]),
        ),
        e - start >= size ==> action_loop(s, start, size, p, parent, current, items) == Ok::<
            ((Option<u32>, Map<u32, Seq<ActionChannelsView>>), int),
            ParseError,
        >(((parent, items.insert(k, seq![ActionChannelsView::CHAN(c)])), e)),
{
    let items1 = items.insert(k, seq![]);
    assert(push_channel(items1, k, ActionChannelsView::CHAN(c)) =~= items.insert(
        k,
        seq![ActionChannelsView::CHAN(c)],
    ));
    assert(action_loop(s, start, size, p, parent, current, items) == action_loop(
        s,
        start,
        size,
        p + 10,
        parent,
        k,
        items1,
    ));
}

/// The sub-chunk loop of `ACTN`. `PRNT` sets the parent; `ITEM` makes its index the current
/// item and starts it with no channels (replacing any it had); `CHAN`, `CHNN`, `GRAD` and
/// `CHNS` append a channel to the current item (item 0 before any `ITEM`); any other
/// sub-chunk is skipped by its size.
pub open spec fn action_loop(
    s: Seq<u8>,
    start: int,
    size: int,
    p: int,
    parent: Option<u32>,
    current: u32,
    items: Map<u32, Seq<ActionChannelsView>>,
) -> Result<((Option<u32>, Map<u32, Seq<ActionChannelsView>>), int), ParseError>
    decreases loop_measure(start, size, p),
{
    if p - start < size {
        match spec_subchunk_header(s, p) {
            Ok(((k, n), q)) => if k == PRNT {
                match spec_u32(s, q) {
                    Ok((v, q2)) => action_loop(s, start, size, q2, Some(v), current, items),
                    Err(e) => Err(e),
                }
            } else if k == ITEM {
                match spec_u32(s, q) {
                    Ok((v, q2)) => action_loop(s, start, size, q2, parent, v, items.insert(v, seq![])),
                    Err(e) => Err(e),
                }
            } else if k == CHAN {
                match spec_action_channel(s, q) {
                    Ok((c, q2)) => action_loop(
                        s,
                        start,
                        size,
                        q2,
                        parent,
                        current,
                        push_channel(items, current, ActionChannelsView::CHAN(c)),
                    ),
                    Err(e) => Err(e),
                }
            } else if k == CHNN {
                match spec_action_named_channel(s, q) {
                    Ok((c, q2)) => action_loop(
                        s,
                        start,
                        size,
                        q2,
                        parent,
                        current,
                        push_channel(items, current, ActionChannelsView::CHNN(c)),
                    ),
                    Err(e) => Err(e),
                }
            } else if k == GRAD {
                match spec_action_gradient(s, q, n) {
                    Ok((c, q2)) => action_loop(
                        s,
                        start,
                        size,
                        q2,
                        parent,
                        current,
                        push_channel(items, current, ActionChannelsView::GRAD(c)),
                    ),
                    Err(e) => Err(e),
                }
            } else if k == CHNS {
                match spec_action_string(s, q) {
                    Ok((c, q2)) => action_loop(
                        s,
                        start,
                        size,
                        q2,
                        parent,
                        current,
                        push_channel(items, current, ActionChannelsView::CHNS(c)),
                    ),
                    Err(e) => Err(e),
                }
            } else {
                action_loop(s, start, size, q + n, parent, current, items)
            },
            Err(e) => Err(e),
        }
    } else {
        Ok(((parent, items), p))
    }
}

/// Grammar of an `ACTN` chunk of `size` bytes: name, kind, reference, then the sub-chunk loop,
/// which counts the chunk's size from the chunk start.
pub open spec fn spec_action(s: Seq<u8>, p: int, size: u32) -> Result<(ActionView, int), ParseError> {
    match spec_aligned_nullstring(s, p) {
        Ok((name, q1)) => match spec_aligned_nullstring(s, q1) {
            Ok((kind, q2)) => match spec_u32(s, q2) {
                Ok((reference, q3)) => match action_loop(
                    s,
                    p,
                    size as int,
                    q3,
                    None,
                    0,
                    Map::empty(),
                ) {
                    Ok(((parent, items), q4)) => Ok(((name, kind, reference, parent, items), q4)),
                    Err(e) => Err(e),
                },
                Err(e) => Err(e),
            },
            Err(e) => Err(e),
        },
        Err(e) => Err(e),
    }
}

/// Appends a channel to item `k`, creating the item's list when absent.
fn append_channel(items: &mut BTreeMap<u32, Vec<ActionChannels>>, k: u32, x: ActionChannels)
    ensures
        items_view(*final(items)) == push_channel(items_view(*old(items)), k, x@),
{
    let ghost old_items = items_view(*items);
    let mut list = match items.remove(&k) {
        Some(l) => l,
        None => Vec::new(),
    };
    proof {
        lemma_views_push(list@, x);
    }
    let ghost lv = views(list@);
    list.push(x);
    items.insert(k, list);
    assert(items_view(*items) =~= push_channel(old_items, k, x@)) by {
        if old_items.dom().contains(k) {
            assert(lv == old_items[k]);
        } else {
            assert(lv =~= Seq::<ActionChannelsView>::empty());
        }
    }
}

/// Starts item `k` with no channels.
fn start_item(items: &mut BTreeMap<u32, Vec<ActionChannels>>, k: u32)
    ensures
        items_view(*final(items)) == items_view(*old(items)).insert(k, seq![]),
{
    let ghost old_items = items_view(*items);
    let list: Vec<ActionChannels> = Vec::new();
    items.insert(k, list);
    assert(items_view(*items) =~= old_items.insert(k, seq![])) by {
        assert(views(list@) =~= Seq::<ActionChannelsView>::empty());
    }
}

impl Action {
    pub fn read_be(buf: &[u8], pos: u64, size: u32) -> (r: Result<(Action, u64), ParseError>)
        requires
            pos_ok(buf@, pos as int),
        ensures
            parsed_as(r, spec_action(buf@, pos as int, size)),
            ends_ok(r, buf@, pos as int),
    {
        let start = pos;
        let (name, q1) = read_aligned_nullstring(buf, pos)?;
        let (kind, q2) = read_aligned_nullstring(buf, q1)?;
        let (reference, q3) = read_u32(buf, q2)?;
        let mut parent: Option<u32> = None;
        let mut items: BTreeMap<u32, Vec<ActionChannels>> = BTreeMap::new();
        let mut current: u32 = 0;
        let mut p = q3;
        assert(items_view(items) =~= Map::<u32, Seq<ActionChannelsView>>::empty());
        while p - start < size as u64
            invariant
                start <= p,
                start == pos,
                pos_ok(buf@, p as int),
                spec_aligned_nullstring(buf@, pos as int) == Ok::<(Seq<u8>, int), ParseError>(
                    (name@, q1 as int),
                ),
                spec_aligned_nullstring(buf@, q1 as int) == Ok::<(Seq<u8>, int), ParseError>(
                    (kind@, q2 as int),
                ),
                spec_u32(buf@, q2 as int) == Ok::<(u32, int), ParseError>((reference, q3 as int)),
                action_loop(buf@, start as int, size as int, p as int, parent, current, items_view(items))
                    == action_loop(buf@, start as int, size as int, q3 as int, None, 0, Map::empty()),
            decreases loop_measure(start as int, size as int, p as int),
        {
            let (h, q) = SubChunkHeader::read_be(buf, p)?;
            let k = h.kind.code();
            if k == PRNT {
                let (v, q4) = read_u32(buf, q)?;
                parent = Some(v);
                p = q4;
            } else if k == ITEM {
                let (v, q4) = read_u32(buf, q)?;
                current = v;
                start_item(&mut items, v);
                p = q4;
            } else if k == CHAN {
                let (c, q4) = ActionChannel::read_be(buf, q)?;
                append_channel(&mut items, current, ActionChannels::CHAN(c));
                p = q4;
            } else if k == CHNN {
                let (c, q4) = ActionNamedChannel::read_be(buf, q)?;
                append_channel(&mut items, current, ActionChannels::CHNN(c));
                p = q4;
            } else if k == GRAD {
                let (c, q4) = ActionGradient::read_be(buf, q, h.size)?;
                append_channel(&mut items, current, ActionChannels::GRAD(c));
                p = q4;
            } else if k == CHNS {
                let (c, q4) = ActionString::read_be(buf, q)?;
                append_channel(&mut items, current, ActionChannels::CHNS(c));
                p = q4;
            } else {
                p = q + h.size as u64;
            }
        }
        Ok((Action { name, kind, reference, parent, items }, p))
    }

    /// Writes the fixed fields of an action: name, kind and reference. Writing a parent or item
    /// channels is not supported, so the action must have neither.
    pub fn write_be(&self, out: &mut Vec<u8>)
        requires
            self.parent is None,
            self.items@.dom().len() == 0,
        ensures
            final(out)@ == aligned_nullstring_write(
                aligned_nullstring_write(old(out)@, self.name@),
                self.kind@,
            ) + u32_bytes(self.reference),
    {
        write_aligned_nullstring(out, &self.name);
        write_aligned_nullstring(out, &self.kind);
        write_u32(out, self.reference);
    }
}

} // verus!
