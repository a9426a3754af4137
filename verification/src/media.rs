//! Audio playback configuration (`AANI`).

use crate::primitives::{
    ends_ok, parsed_as, pos_ok, read_u16, read_u32, spec_subchunk_header, spec_u16, spec_u32,
    u16_bytes, u32_bytes, write_u16, write_u32, SubChunkHeader, ID4,
};
use crate::meta::loop_measure;
use crate::tags::{AAIT, AASE};
use crate::utils::{pad2, subchunk_bytes, write_subchunk};
use crate::ParseError;
use vstd::prelude::*;

verus! {

/// Audio settings (`AASE`): playback synchronization and behaviour.
#[derive(Debug, Clone, Copy, PartialEq, Eq)]
pub struct AudioSettings {
    /// Whether the audio plays repeatedly if it is shorter than the scene's start and end times.
    pub looping: u16,
    /// Whether audio playback is suspended.
    pub mute: u16,
    /// Whether the audio plays back when manually scrubbing the Timeline.
    pub scrub: u16,
    /// The frame on the Timeline where the audio file begins to play back (float bit pattern).
    pub start: u32,
}

impl View for AudioSettings {
    type V = (u16, u16, u16, u32);

    open spec fn view(&self) -> (u16, u16, u16, u32) {
        (self.looping, self.mute, self.scrub, self.start)
    }
}

pub open spec fn spec_audio_settings(s: Seq<u8>, p: int) -> Result<((u16, u16, u16, u32), int), ParseError> {
    match spec_u16(s, p) {
        Ok((a, q1)) => match spec_u16(s, q1) {
            Ok((b, q2)) => match spec_u16(s, q2) {
                Ok((c, q3)) => match spec_u32(s, q3) {
                    Ok((d, q4)) => Ok(((a, b, c, d), q4)),
                    Err(e) => Err(e),
                },
                Err(e) => Err(e),
            },
            Err(e) => Err(e),
        },
        Err(e) => Err(e),
    }
}

pub open spec fn audio_settings_bytes(v: (u16, u16, u16, u32)) -> Seq<u8> {
    u16_bytes(v.0) + u16_bytes(v.1) + u16_bytes(v.2) + u32_bytes(v.3)
}

impl AudioSettings {
    pub fn read_be(buf: &[u8], pos: u64) -> (r: Result<(AudioSettings, u64), ParseError>)
        requires
            pos_ok(buf@, pos as int),
        ensures
            parsed_as(r, spec_audio_settings(buf@, pos as int)),
            ends_ok(r, buf@, pos as int),
    {
        let (looping, q1) = read_u16(buf, pos)?;
        let (mute, q2) = read_u16(buf, q1)?;
        let (scrub, q3) = read_u16(buf, q2)?;
        let (start, q4) = read_u32(buf, q3)?;
        Ok((AudioSettings { looping, mute, scrub, start }, q4))
    }

    pub fn write_be(&self, out: &mut Vec<u8>)
        ensures
            final(out)@ == old(out)@ + audio_settings_bytes(self@),
    {
        write_u16(out, self.looping);
        write_u16(out, self.mute);
        write_u16(out, self.scrub);
        write_u32(out, self.start);
        assert(out@ =~= old(out)@ + audio_settings_bytes(self@));
    }
}

/// Audio (`AANI`): which audio item plays on the Timeline, and how.
#[derive(Debug, PartialEq)]
pub struct Audio {
    /// Index of the audio item in the scene's item list used for Timeline playback.
    pub item: Option<u32>,
    /// Playback settings for the selected audio file.
    pub settings: Option<AudioSettings>,
}

impl View for Audio {
    type V = (Option<u32>, Option<(u16, u16, u16, u32)>);

    open spec fn view(&self) -> (Option<u32>, Option<(u16, u16, u16, u32)>) {
        (
            self.item,
            match self.settings {
                Some(st) => Some(st@),
                None => None,
            },
        )
    }
}

/// The sub-chunk loop of `AANI`: `AAIT` holds the item index and `AASE` the settings, each
/// replacing any earlier one; other sub-chunks are skipped by their size.
pub open spec fn audio_loop(
    s: Seq<u8>,
    start: int,
    size: int,
    p: int,
    item: Option<u32>,
    settings: Option<(u16, u16, u16, u32)>,
) -> Result<((Option<u32>, Option<(u16, u16, u16, u32)>), int), ParseError>
    decreases loop_measure(start, size, p),
{
    if p - start < size {
        match spec_subchunk_header(s, p) {
            Ok(((k, n), q)) => if k == AAIT {
                match spec_u32(s, q) {
                    Ok((i, q2)) => audio_loop(s, start, size, q2, Some(i), settings),
                    Err(e) => Err(e),
                }
            } else if k == AASE {
                match spec_audio_settings(s, q) {
                    Ok((st, q2)) => audio_loop(s, start, size, q2, item, Some(st)),
                    Err(e) => Err(e),
                }
            } else {
                audio_loop(s, start, size, q + n, item, settings)
            },
            Err(e) => Err(e),
        }
    } else {
        Ok(((item, settings), p))
    }
}

pub open spec fn spec_audio(s: Seq<u8>, p: int, size: u32) -> Result<
    ((Option<u32>, Option<(u16, u16, u16, u32)>), int),
    ParseError,
> {
    audio_loop(s, p, size as int, p, None, None)
}

/// Encoding of an `AANI` body: an `AAIT` sub-chunk when there is an item, then an `AASE`
/// sub-chunk when there are settings.
pub open spec fn audio_bytes(v: (Option<u32>, Option<(u16, u16, u16, u32)>)) -> Seq<u8> {
    (match v.0 {
        Some(i) => subchunk_bytes(u32_bytes(AAIT), u32_bytes(i)),
        None => Seq::empty(),
    }) + (match v.1 {
        Some(st) => subchunk_bytes(u32_bytes(AASE), audio_settings_bytes(st)),
        None => Seq::empty(),
    })
}

impl Audio {
    pub fn read_be(buf: &[u8], pos: u64, size: u32) -> (r: Result<(Audio, u64), ParseError>)
        requires
            pos_ok(buf@, pos as int),
        ensures
            parsed_as(r, spec_audio(buf@, pos as int, size)),
            ends_ok(r, buf@, pos as int),
    {
        let start = pos;
        let mut p = pos;
        let mut item: Option<u32> = None;
        let mut settings: Option<AudioSettings> = None;
        while p - start < size as u64
            invariant
                start <= p,
                start == pos,
                pos_ok(buf@, p as int),
                audio_loop(buf@, start as int, size as int, p as int, item, match settings {
                    Some(st) => Some(st@),
                    None => None,
                }) == spec_audio(buf@, pos as int, size),
            decreases loop_measure(start as int, size as int, p as int),
        {
            let (h, q) = SubChunkHeader::read_be(buf, p)?;
            let k = h.kind.code();
            if k == AAIT {
                let (i, q2) = read_u32(buf, q)?;
                item = Some(i);
                p = q2;
            } else if k == AASE {
                let (st, q2) = AudioSettings::read_be(buf, q)?;
                settings = Some(st);
                p = q2;
            } else {
                p = q + h.size as u64;
            }
        }
        Ok((Audio { item, settings }, p))
    }

    pub fn write_be(&self, out: &mut Vec<u8>)
        ensures
            final(out)@ == old(out)@ + audio_bytes(self@),
    {
        if let Some(item) = self.item {
            let mut data: Vec<u8> = Vec::new();
            write_u32(&mut data, item);
            assert(data@.len() == 4 && pad2(data@) == data@);
            let r = write_subchunk(out, ID4::from_code(AAIT), &data);
        }
        let ghost mid = out@;
        if let Some(settings) = self.settings {
            let mut data: Vec<u8> = Vec::new();
            settings.write_be(&mut data);
            assert(data@.len() == 10 && pad2(data@) == data@);
            let r = write_subchunk(out, ID4::from_code(AASE), &data);
        }
        assert(out@ =~= old(out)@ + audio_bytes(self@));
    }
}

} // verus!
