//! Helpers shared by the chunk parsers and writers: even alignment, strings, chunk framing.

use crate::primitives::{
    id4_bytes, lemma_null_index, null_index, nullstring_bytes, parsed_as, ends_ok, pos_ok,
    read_nullstring, spec_nullstring, u16_bytes, u32_bytes, write_bytes, write_nullstring,
    ChunkHeader, NullString, SubChunkHeader, ID4, MAX_INPUT, views, lemma_views_push,
};
use crate::ParseError;
use vstd::prelude::*;
use vstd::slice::slice_to_vec;

verus! {

/// The next even position at or after `q`.
pub open spec fn align2(q: int) -> int {
    if q % 2 != 0 {
        q + 1
    } else {
        q
    }
}

/// Output padded with one zero byte when its length is odd.
pub open spec fn pad2(out: Seq<u8>) -> Seq<u8> {
    if out.len() % 2 != 0 {
        out.push(0)
    } else {
        out
    }
}

/// Grammar: a null terminated string, then a skip to the next even absolute position.
pub open spec fn spec_aligned_nullstring(s: Seq<u8>, p: int) -> Result<(Seq<u8>, int), ParseError> {
    match spec_nullstring(s, p) {
        Ok((v, q)) => Ok((v, align2(q))),
        Err(e) => Err(e),
    }
}

/// Output after writing a null terminated string and padding to an even length.
pub open spec fn aligned_nullstring_write(out: Seq<u8>, v: Seq<u8>) -> Seq<u8> {
    pad2(out + nullstring_bytes(v))
}

pub fn read_aligned_nullstring(buf: &[u8], pos: u64) -> (r: Result<(NullString, u64), ParseError>)
    requires
        pos_ok(buf@, pos as int),
    ensures
        parsed_as(r, spec_aligned_nullstring(buf@, pos as int)),
        ends_ok(r, buf@, pos as int),
{
    let (s, q) = read_nullstring(buf, pos)?;
    if q % 2 != 0 {
        Ok((s, q + 1))
    } else {
        Ok((s, q))
    }
}

pub fn write_aligned_nullstring(out: &mut Vec<u8>, s: &NullString)
    ensures
        final(out)@ == aligned_nullstring_write(old(out)@, s@),
{
    write_nullstring(out, s);
    pad_even(out);
}

/// Appends a zero byte when the output has odd length.
pub fn pad_even(out: &mut Vec<u8>)
    ensures
        final(out)@ == pad2(old(out)@),
{
    if out.len() % 2 != 0 {
        out.push(0);
    }
}

/// Grammar of `read_nullstring_from_bytes`: the string before the first zero, and the offset
/// just past that zero rounded up to an even number.
pub open spec fn spec_nullstring_from_bytes(s: Seq<u8>) -> Result<(Seq<u8>, int), ParseError> {
    let z = null_index(s, 0);
    if z < 0 {
        Err(ParseError::UnexpectedEof)
    } else {
        Ok((s.subrange(0, z), align2(z + 1)))
    }
}

/// Reads a null terminated string from the start of `buf`; the offset returned is just past
/// the terminator, rounded up to an even count.
pub fn read_nullstring_from_bytes(buf: &[u8]) -> (r: Result<(NullString, usize), ParseError>)
    requires
        buf@.len() <= MAX_INPUT,
        buf@.len() < usize::MAX,
    ensures
        match r {
            Ok((v, n)) => spec_nullstring_from_bytes(buf@) == Ok::<(Seq<u8>, int), ParseError>(
                (v@, n as int),
            ),
            Err(e) => spec_nullstring_from_bytes(buf@) == Err::<(Seq<u8>, int), ParseError>(e),
        },
{
    let mut i: usize = 0;
    while i < buf.len()
        invariant
            i <= buf@.len(),
            buf@.len() < usize::MAX,
            null_index(buf@, 0) == null_index(buf@, i as int),
        decreases buf@.len() - i,
    {
        if buf[i] == 0 {
            proof {
                lemma_null_index(buf@, 0);
            }
            let v = slice_to_vec(&buf[0..i]);
            let offset = if (i + 1) % 2 != 0 {
                i + 2
            } else {
                i + 1
            };
            return Ok((NullString(v), offset));
        }
        i = i + 1;
    }
    Err(ParseError::UnexpectedEof)
}

/// Sub-chunk framing of already encoded data: the data is padded to even length and
/// preceded by its kind and its length, a 16 bit field (see `subchunk_fits`).
pub open spec fn subchunk_bytes(kind: Seq<u8>, data: Seq<u8>) -> Seq<u8> {
    let d = pad2(data);
    kind + u16_bytes(d.len() as u16) + d
}

/// Whether data, padded to even length, has a length that a sub-chunk's 16 bit length field
/// can state.
pub open spec fn subchunk_fits(data: Seq<u8>) -> bool {
    pad2(data).len() <= 0xffff
}

/// Chunk framing of already encoded data: the data is padded to even length and preceded by
/// its kind and its length, a 32 bit field (see `chunk_fits`).
pub open spec fn chunk_bytes(kind: Seq<u8>, data: Seq<u8>) -> Seq<u8> {
    let d = pad2(data);
    kind + u32_bytes(d.len() as u32) + d
}

/// Whether data, padded to even length, has a length that a chunk's 32 bit length field can
/// state.
pub open spec fn chunk_fits(data: Seq<u8>) -> bool {
    pad2(data).len() <= 0xffff_ffff
}

/// Writes `data` as a sub-chunk of kind `kind`. Data whose padded length does not fit the
/// 16 bit length field is refused with `LengthOverflow`, and nothing is written.
pub fn write_subchunk(out: &mut Vec<u8>, kind: ID4, data: &Vec<u8>) -> (r: Result<(), ParseError>)
    ensures
        r is Ok <==> subchunk_fits(data@),
        r is Ok ==> final(out)@ == old(out)@ + subchunk_bytes(id4_bytes(kind), data@),
        r is Err ==> r == Err::<(), ParseError>(ParseError::LengthOverflow) && final(out)@ == old(
            out,
        )@,
{
    let mut d = data.clone();
    assert(d@ =~= data@);
    pad_even(&mut d);
    if d.len() > 0xffff {
        return Err(ParseError::LengthOverflow);
    }
    let n = d.len() as u16;
    SubChunkHeader { kind, size: n }.write_be(out);
    write_bytes(out, d.as_slice());
    assert(out@ =~= old(out)@ + subchunk_bytes(id4_bytes(kind), data@));
    Ok(())
}

/// Writes `data` as a chunk of kind `kind`. Data whose padded length does not fit the 32 bit
/// length field is refused with `LengthOverflow`, and nothing is written.
pub fn write_chunk(out: &mut Vec<u8>, kind: ID4, data: &Vec<u8>) -> (r: Result<(), ParseError>)
    ensures
        r is Ok <==> chunk_fits(data@),
        r is Ok ==> final(out)@ == old(out)@ + chunk_bytes(id4_bytes(kind), data@),
        r is Err ==> r == Err::<(), ParseError>(ParseError::LengthOverflow) && final(out)@ == old(
            out,
        )@,
{
    let mut d = data.clone();
    assert(d@ =~= data@);
    pad_even(&mut d);
    if d.len() as u64 > 0xffff_ffff {
        return Err(ParseError::LengthOverflow);
    }
    let n = d.len() as u32;
    ChunkHeader { kind, size: n }.write_be(out);
    write_bytes(out, d.as_slice());
    assert(out@ =~= old(out)@ + chunk_bytes(id4_bytes(kind), data@));
    Ok(())
}


/// Splitting of `s[i..]` at zero bytes, with `cur` the piece begun so far and `acc` the
/// non-empty pieces already complete; empty pieces are left out.
pub open spec fn split_pieces(s: Seq<u8>, i: int, cur: Seq<u8>, acc: Seq<Seq<u8>>) -> Seq<Seq<u8>>
    decreases s.len() - i,
{
    if i < 0 || i >= s.len() {
        if cur.len() > 0 {
            acc.push(cur)
        } else {
            acc
        }
    } else if s[i] == 0 {
        split_pieces(s, i + 1, seq![], if cur.len() > 0 { acc.push(cur) } else { acc })
    } else {
        split_pieces(s, i + 1, cur.push(s[i]), acc)
    }
}

/// The non-empty runs of bytes between zero bytes, in order.
pub open spec fn nonempty_pieces(s: Seq<u8>) -> Seq<Seq<u8>> {
    split_pieces(s, 0, seq![], seq![])
}

/// Splits data at its zero bytes, keeping the non-empty pieces as strings.
pub fn split_null_separated(data: &[u8]) -> (r: Vec<NullString>)
    ensures
        views(r@) == nonempty_pieces(data@),
{
    let mut acc: Vec<NullString> = Vec::new();
    let mut cur: Vec<u8> = Vec::new();
    let mut i: usize = 0;
    assert(views(acc@) =~= Seq::<Seq<u8>>::empty());
    assert(cur@ =~= Seq::<u8>::empty());
    while i < data.len()
        invariant
            i <= data@.len(),
            split_pieces(data@, i as int, cur@, views(acc@)) == nonempty_pieces(data@),
        decreases data@.len() - i,
    {
        if data[i] == 0 {
            if cur.len() > 0 {
                proof {
                    lemma_views_push(acc@, NullString(cur));
                }
                acc.push(NullString(cur));
            }
            cur = Vec::new();
            assert(cur@ =~= Seq::<u8>::empty());
        } else {
            cur.push(data[i]);
        }
        i = i + 1;
    }
    if cur.len() > 0 {
        proof {
            lemma_views_push(acc@, NullString(cur));
        }
        acc.push(NullString(cur));
    }
    acc
}

} // verus!
