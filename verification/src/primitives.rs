//! Basic encoded values: big-endian integers, IDs, variable length indices, strings.

use crate::ParseError;
use crate::utils::{aligned_nullstring_write, read_aligned_nullstring, spec_aligned_nullstring, write_aligned_nullstring};
use vstd::prelude::*;
use vstd::slice::slice_to_vec;
use vstd::string::StringSliceAdditionalSpecFns;
use vstd::utf8::valid_utf8;

verus! {

/// Largest buffer the parsers accept (a machine limit far beyond any real address space).
pub const MAX_INPUT: u64 = 0x1_0000_0000_0000;

/// A buffer within the machine limit and a position that parsers may start from: any position
/// up to twice that limit, inside or past the end of the buffer (a position past the end
/// reads as the end of the data). The bound keeps position arithmetic within 64 bits.
pub open spec fn pos_ok(s: Seq<u8>, p: int) -> bool {
    &&& s.len() <= MAX_INPUT
    &&& 0 <= p <= 2 * MAX_INPUT
}

/// The executable result `r` is exactly the grammar result `sp`, value taken by its view.
pub open spec fn parsed_as<T: View>(
    r: Result<(T, u64), ParseError>,
    sp: Result<(T::V, int), ParseError>,
) -> bool {
    match r {
        Ok((v, q)) => sp == Ok::<(T::V, int), ParseError>((v@, q as int)),
        Err(e) => sp == Err::<(T::V, int), ParseError>(e),
    }
}

/// A successful parse that started at `p` ends at or after `p`, at a position from which
/// parsing may continue.
pub open spec fn ends_ok<T>(r: Result<(T, u64), ParseError>, s: Seq<u8>, p: int) -> bool {
    match r {
        Ok((_, q)) => p <= q && pos_ok(s, q as int),
        Err(_) => true,
    }
}

/// The views of the elements of a sequence.
pub open spec fn views<T: View>(v: Seq<T>) -> Seq<T::V> {
    Seq::new(v.len(), |i: int| v[i]@)
}

/// The view of an optional value.
pub open spec fn view_opt<T: View>(o: Option<T>) -> Option<T::V> {
    match o {
        Some(v) => Some(v@),
        None => None,
    }
}

pub proof fn lemma_views_push<T: View>(v: Seq<T>, x: T)
    ensures
        views(v.push(x)) == views(v).push(x@),
{
    assert(views(v.push(x)) =~= views(v).push(x@));
}

// ---------------------------------------------------------------------------------------------
// Grammar of fixed size integers (all big-endian)
// ---------------------------------------------------------------------------------------------

pub open spec fn be_u16(b0: u8, b1: u8) -> u16 {
    (b0 as int * 0x100 + b1 as int) as u16
}

pub open spec fn be_u32(b0: u8, b1: u8, b2: u8, b3: u8) -> u32 {
    (b0 as int * 0x100_0000 + b1 as int * 0x1_0000 + b2 as int * 0x100 + b3 as int) as u32
}

/// Two's complement reading of a 32 bit pattern.
pub open spec fn u32_to_i32(u: u32) -> i32 {
    if u < 0x8000_0000 {
        u as i32
    } else {
        (u as int - 0x1_0000_0000) as i32
    }
}

pub open spec fn spec_u8(s: Seq<u8>, p: int) -> Result<(u8, int), ParseError> {
    if 0 <= p && p + 1 <= s.len() {
        Ok((s[p], p + 1))
    } else {
        Err(ParseError::UnexpectedEof)
    }
}

pub open spec fn spec_u16(s: Seq<u8>, p: int) -> Result<(u16, int), ParseError> {
    if 0 <= p && p + 2 <= s.len() {
        Ok((be_u16(s[p], s[p + 1]), p + 2))
    } else {
        Err(ParseError::UnexpectedEof)
    }
}

pub open spec fn spec_u32(s: Seq<u8>, p: int) -> Result<(u32, int), ParseError> {
    if 0 <= p && p + 4 <= s.len() {
        Ok((be_u32(s[p], s[p + 1], s[p + 2], s[p + 3]), p + 4))
    } else {
        Err(ParseError::UnexpectedEof)
    }
}

pub open spec fn spec_i32(s: Seq<u8>, p: int) -> Result<(i32, int), ParseError> {
    match spec_u32(s, p) {
        Ok((u, q)) => Ok((u32_to_i32(u), q)),
        Err(e) => Err(e),
    }
}

/// `n` raw bytes.
pub open spec fn spec_bytes(s: Seq<u8>, p: int, n: int) -> Result<(Seq<u8>, int), ParseError> {
    if 0 <= p && 0 <= n && p + n <= s.len() {
        Ok((s.subrange(p, p + n), p + n))
    } else {
        Err(ParseError::UnexpectedEof)
    }
}

/// The big-endian 32 bit value stored at `p`.
pub open spec fn u32_at(s: Seq<u8>, p: int) -> u32 {
    be_u32(s[p], s[p + 1], s[p + 2], s[p + 3])
}

/// `n` consecutive 32 bit values.
pub open spec fn spec_u32_array(s: Seq<u8>, p: int, n: int) -> Result<(Seq<u32>, int), ParseError> {
    if 0 <= p && 0 <= n && p + 4 * n <= s.len() {
        Ok((Seq::new(n as nat, |i: int| u32_at(s, p + 4 * i)), p + 4 * n))
    } else {
        Err(ParseError::UnexpectedEof)
    }
}

/// A 4 byte tag that must equal `code`.
pub open spec fn spec_magic(s: Seq<u8>, p: int, code: u32) -> Result<((), int), ParseError> {
    match spec_u32(s, p) {
        Ok((v, q)) => if v == code {
            Ok(((), q))
        } else {
            Err(ParseError::BadMagic)
        },
        Err(e) => Err(e),
    }
}

pub fn read_u8(buf: &[u8], pos: u64) -> (r: Result<(u8, u64), ParseError>)
    requires
        pos_ok(buf@, pos as int),
    ensures
        parsed_as(r, spec_u8(buf@, pos as int)),
        ends_ok(r, buf@, pos as int),
{
    let len = buf.len() as u64;
    if pos < len {
        Ok((buf[pos as usize], pos + 1))
    } else {
        Err(ParseError::UnexpectedEof)
    }
}

pub fn read_u16(buf: &[u8], pos: u64) -> (r: Result<(u16, u64), ParseError>)
    requires
        pos_ok(buf@, pos as int),
    ensures
        parsed_as(r, spec_u16(buf@, pos as int)),
        ends_ok(r, buf@, pos as int),
{
    let len = buf.len() as u64;
    if pos <= len && len - pos >= 2 {
        let i = pos as usize;
        let v = (buf[i] as u16) * 0x100 + buf[i + 1] as u16;
        Ok((v, pos + 2))
    } else {
        Err(ParseError::UnexpectedEof)
    }
}

pub fn read_u32(buf: &[u8], pos: u64) -> (r: Result<(u32, u64), ParseError>)
    requires
        pos_ok(buf@, pos as int),
    ensures
        parsed_as(r, spec_u32(buf@, pos as int)),
        ends_ok(r, buf@, pos as int),
{
    let len = buf.len() as u64;
    if pos <= len && len - pos >= 4 {
        let i = pos as usize;
        let v = (buf[i] as u32) * 0x100_0000 + (buf[i + 1] as u32) * 0x1_0000
            + (buf[i + 2] as u32) * 0x100 + buf[i + 3] as u32;
        Ok((v, pos + 4))
    } else {
        Err(ParseError::UnexpectedEof)
    }
}

pub fn to_i32(u: u32) -> (r: i32)
    ensures
        r == u32_to_i32(u),
{
    if u < 0x8000_0000 {
        u as i32
    } else {
        let m = (u - 0x8000_0000) as i32;
        m - 0x7fff_ffff - 1
    }
}

pub fn read_i32(buf: &[u8], pos: u64) -> (r: Result<(i32, u64), ParseError>)
    requires
        pos_ok(buf@, pos as int),
    ensures
        parsed_as(r, spec_i32(buf@, pos as int)),
        ends_ok(r, buf@, pos as int),
{
    let (u, q) = read_u32(buf, pos)?;
    Ok((to_i32(u), q))
}

pub fn read_bytes(buf: &[u8], pos: u64, n: u64) -> (r: Result<(Vec<u8>, u64), ParseError>)
    requires
        pos_ok(buf@, pos as int),
    ensures
        parsed_as(r, spec_bytes(buf@, pos as int, n as int)),
        ends_ok(r, buf@, pos as int),
{
    let len = buf.len() as u64;
    if pos <= len && len - pos >= n {
        let a = pos as usize;
        let b = (pos + n) as usize;
        let v = slice_to_vec(&buf[a..b]);
        Ok((v, pos + n))
    } else {
        Err(ParseError::UnexpectedEof)
    }
}

pub fn read_u32_array(buf: &[u8], pos: u64, n: u64) -> (r: Result<(Vec<u32>, u64), ParseError>)
    requires
        pos_ok(buf@, pos as int),
    ensures
        parsed_as(r, spec_u32_array(buf@, pos as int, n as int)),
        ends_ok(r, buf@, pos as int),
{
    let len = buf.len() as u64;
    if !(pos <= len && n <= (len - pos) / 4) {
        return Err(ParseError::UnexpectedEof);
    }
    let mut v: Vec<u32> = Vec::new();
    let mut i: u64 = 0;
    let mut p = pos;
    while i < n
        invariant
            i <= n,
            p == pos + 4 * i,
            pos <= len,
            len == buf@.len(),
            n <= (len - pos) / 4,
            pos_ok(buf@, pos as int),
            v@ == Seq::new(i as nat, |j: int| u32_at(buf@, pos + 4 * j)),
        decreases n - i,
    {
        let (x, q) = read_u32(buf, p)?;
        v.push(x);
        i = i + 1;
        p = q;
        assert(v@ =~= Seq::new(i as nat, |j: int| u32_at(buf@, pos + 4 * j)));
    }
    Ok((v, p))
}

pub fn read_magic(buf: &[u8], pos: u64, code: u32) -> (r: Result<((), u64), ParseError>)
    requires
        pos_ok(buf@, pos as int),
    ensures
        parsed_as(r, spec_magic(buf@, pos as int, code)),
        ends_ok(r, buf@, pos as int),
{
    let (v, q) = read_u32(buf, pos)?;
    if v == code {
        Ok(((), q))
    } else {
        Err(ParseError::BadMagic)
    }
}


pub open spec fn u16_bytes(x: u16) -> Seq<u8> {
    seq![(x / 0x100) as u8, (x % 0x100) as u8]
}

pub open spec fn u32_bytes(x: u32) -> Seq<u8> {
    seq![
        (x / 0x100_0000) as u8,
        ((x / 0x1_0000) % 0x100) as u8,
        ((x / 0x100) % 0x100) as u8,
        (x % 0x100) as u8,
    ]
}

pub open spec fn i32_bits(x: i32) -> u32 {
    if x >= 0 {
        x as u32
    } else {
        (x as int + 0x1_0000_0000) as u32
    }
}

pub fn write_u8(out: &mut Vec<u8>, v: u8)
    ensures
        final(out)@ == old(out)@.push(v),
{
    out.push(v);
}

pub fn write_u16(out: &mut Vec<u8>, v: u16)
    ensures
        final(out)@ == old(out)@ + u16_bytes(v),
{
    out.push((v / 0x100) as u8);
    out.push((v % 0x100) as u8);
    assert(out@ =~= old(out)@ + u16_bytes(v));
}

pub fn write_u32(out: &mut Vec<u8>, v: u32)
    ensures
        final(out)@ == old(out)@ + u32_bytes(v),
{
    out.push((v / 0x100_0000) as u8);
    out.push(((v / 0x1_0000) % 0x100) as u8);
    out.push(((v / 0x100) % 0x100) as u8);
    out.push((v % 0x100) as u8);
    assert(out@ =~= old(out)@ + u32_bytes(v));
}

pub fn write_i32(out: &mut Vec<u8>, v: i32)
    ensures
        final(out)@ == old(out)@ + u32_bytes(i32_bits(v)),
{
    let bits: u32 = if v >= 0 {
        v as u32
    } else {
        let m: u32 = (v + 0x7fff_ffff + 1) as u32;
        m + 0x8000_0000
    };
    write_u32(out, bits);
}

/// The big-endian encodings of a sequence of 32 bit values, one after the other.
pub open spec fn u32_seq_bytes(v: Seq<u32>) -> Seq<u8>
    decreases v.len(),
{
    if v.len() == 0 {
        Seq::empty()
    } else {
        u32_seq_bytes(v.drop_last()) + u32_bytes(v.last())
    }
}

pub fn write_u32_seq(out: &mut Vec<u8>, v: &[u32])
    ensures
        final(out)@ == old(out)@ + u32_seq_bytes(v@),
{
    let mut i: usize = 0;
    assert(v@.take(0) =~= Seq::<u32>::empty());
    while i < v.len()
        invariant
            i <= v@.len(),
            out@ == old(out)@ + u32_seq_bytes(v@.take(i as int)),
        decreases v@.len() - i,
    {
        write_u32(out, v[i]);
        assert(v@.take(i + 1).drop_last() =~= v@.take(i as int));
        i = i + 1;
        assert(out@ =~= old(out)@ + u32_seq_bytes(v@.take(i as int)));
    }
    assert(v@.take(i as int) =~= v@);
}

pub fn write_bytes(out: &mut Vec<u8>, data: &[u8])
    ensures
        final(out)@ == old(out)@ + data@,
{
    let mut i: usize = 0;
    while i < data.len()
        invariant
            i <= data@.len(),
            out@ == old(out)@ + data@.subrange(0, i as int),
        decreases data@.len() - i,
    {
        out.push(data[i]);
        i = i + 1;
        assert(out@ =~= old(out)@ + data@.subrange(0, i as int));
    }
    assert(data@.subrange(0, data@.len() as int) =~= data@);
}

// ---------------------------------------------------------------------------------------------
// ID4: four printable ASCII characters
// ---------------------------------------------------------------------------------------------

/// A four character chunk identifier. Its view is the big-endian code of its bytes.
#[derive(Debug, Clone, Copy, PartialEq, Eq, PartialOrd, Ord)]
pub struct ID4(pub [u8; 4]);

pub open spec fn printable(b: u8) -> bool {
    0x20 <= b <= 0x7e
}

pub open spec fn id4_printable(b: [u8; 4]) -> bool {
    printable(b[0]) && printable(b[1]) && printable(b[2]) && printable(b[3])
}

impl View for ID4 {
    type V = u32;

    open spec fn view(&self) -> u32 {
        be_u32(self.0[0], self.0[1], self.0[2], self.0[3])
    }
}

/// The bytes an ID4 with code `code` holds.
pub open spec fn id4_bytes(id: ID4) -> Seq<u8> {
    seq![id.0[0], id.0[1], id.0[2], id.0[3]]
}

/// Calls `std::str::from_utf8`, which gives the bytes as a string slice when they are valid
/// UTF-8 and an error otherwise; the error is dropped.
#[verifier::external_body]
fn str_from_utf8(v: &[u8]) -> (r: Option<&str>)
    ensures
        r is Some <==> valid_utf8(v@),
        r matches Some(s) ==> s.spec_bytes() == v@,
{
    std::str::from_utf8(v).ok()
}

/// The ID4 holding the big-endian bytes of `code`.
pub open spec fn id4_of_code(code: u32) -> ID4 {
    ID4(
        [
            (code / 0x100_0000) as u8,
            ((code / 0x1_0000) % 0x100) as u8,
            ((code / 0x100) % 0x100) as u8,
            (code % 0x100) as u8,
        ],
    )
}

/// Grammar: four bytes, each printable.
pub open spec fn spec_id4(s: Seq<u8>, p: int) -> Result<(u32, int), ParseError> {
    if 0 <= p && p + 4 <= s.len() {
        if printable(s[p]) && printable(s[p + 1]) && printable(s[p + 2]) && printable(s[p + 3]) {
            Ok((be_u32(s[p], s[p + 1], s[p + 2], s[p + 3]), p + 4))
        } else {
            Err(ParseError::InvalidID4)
        }
    } else {
        Err(ParseError::UnexpectedEof)
    }
}

impl ID4 {
    pub fn new(val: [u8; 4]) -> (r: Self)
        ensures
            r.0 == val,
    {
        ID4(val)
    }

    /// Builds an ID4 from bytes, refusing any byte outside printable ASCII (0x20..=0x7E).
    pub fn from_bytes(b: [u8; 4]) -> (r: Result<Self, ParseError>)
        ensures
            r is Ok <==> id4_printable(b),
            r matches Ok(id) ==> id.0 == b,
            r matches Err(e) ==> e == ParseError::InvalidID4,
    {
        if !(0x20 <= b[0] && b[0] <= 0x7e && 0x20 <= b[1] && b[1] <= 0x7e && 0x20 <= b[2]
            && b[2] <= 0x7e && 0x20 <= b[3] && b[3] <= 0x7e) {
            return Err(ParseError::InvalidID4);
        }
        Ok(ID4(b))
    }

    /// The big-endian code of the four bytes.
    pub fn code(&self) -> (r: u32)
        ensures
            r == self@,
    {
        (self.0[0] as u32) * 0x100_0000 + (self.0[1] as u32) * 0x1_0000 + (self.0[2] as u32)
            * 0x100 + self.0[3] as u32
    }

    /// The ID4 whose code is `code`.
    #[verifier::spinoff_prover]
    pub fn from_code(code: u32) -> (r: ID4)
        ensures
            r@ == code,
            id4_bytes(r) == u32_bytes(code),
            r == id4_of_code(code),
    {
        let b = [
            (code / 0x100_0000) as u8,
            ((code / 0x1_0000) % 0x100) as u8,
            ((code / 0x100) % 0x100) as u8,
            (code % 0x100) as u8,
        ];
        let r = ID4(b);
        assert(id4_bytes(r) =~= u32_bytes(code));
        r
    }

    /// The bytes of an ID4 are the big-endian bytes of its code.
    pub proof fn lemma_bytes_of_code(id: ID4)
        ensures
            id4_bytes(id) == u32_bytes(id@),
    {
        let b0 = id.0[0];
        let b1 = id.0[1];
        let b2 = id.0[2];
        let b3 = id.0[3];
        let x: u32 = id@;
        assert(x as int == b0 as int * 0x100_0000 + b1 as int * 0x1_0000 + b2 as int * 0x100 + b3 as int);
        assert(x / 0x100_0000 == b0) by (nonlinear_arith)
            requires
                x as int == b0 as int * 0x100_0000 + b1 as int * 0x1_0000 + b2 as int * 0x100 + b3 as int,
                b1 < 256, b2 < 256, b3 < 256;
        assert((x / 0x1_0000) % 0x100 == b1) by (nonlinear_arith)
            requires
                x as int == b0 as int * 0x100_0000 + b1 as int * 0x1_0000 + b2 as int * 0x100 + b3 as int,
                b1 < 256, b2 < 256, b3 < 256;
        assert((x / 0x100) % 0x100 == b2) by (nonlinear_arith)
            requires
                x as int == b0 as int * 0x100_0000 + b1 as int * 0x1_0000 + b2 as int * 0x100 + b3 as int,
                b1 < 256, b2 < 256, b3 < 256;
        assert(x % 0x100 == b3) by (nonlinear_arith)
            requires
                x as int == b0 as int * 0x100_0000 + b1 as int * 0x1_0000 + b2 as int * 0x100 + b3 as int,
                b1 < 256, b2 < 256, b3 < 256;
        assert(id4_bytes(id) =~= u32_bytes(id@));
    }

    pub fn to_bytes(self) -> (r: [u8; 4])
        ensures
            r == self.0,
    {
        self.0
    }

    /// The ID4 holding the bytes of a string of four printable ASCII characters (0x20..=0x7E);
    /// any other string is refused.
    pub fn from_str(s: &str) -> (r: Result<ID4, ParseError>)
        ensures
            r is Ok <==> s.spec_bytes().len() == 4 && printable(s.spec_bytes()[0]) && printable(
                s.spec_bytes()[1],
            ) && printable(s.spec_bytes()[2]) && printable(s.spec_bytes()[3]),
            r matches Ok(id) ==> id4_bytes(id) == s.spec_bytes(),
            r matches Err(e) ==> e == ParseError::InvalidID4,
    {
        let b = s.as_bytes();
        if b.len() != 4 {
            return Err(ParseError::InvalidID4);
        }
        let id = ID4::from_bytes([b[0], b[1], b[2], b[3]])?;
        assert(id4_bytes(id) =~= s.spec_bytes());
        Ok(id)
    }

    /// Whether the ID4 holds the bytes of `s`.
    pub fn eq_str(&self, s: &str) -> (r: bool)
        ensures
            r == (id4_bytes(*self) == s.spec_bytes()),
    {
        let b = s.as_bytes();
        if b.len() != 4 {
            assert(id4_bytes(*self).len() != s.spec_bytes().len());
            return false;
        }
        let r = self.0[0] == b[0] && self.0[1] == b[1] && self.0[2] == b[2] && self.0[3] == b[3];
        if r {
            assert(id4_bytes(*self) =~= s.spec_bytes());
        } else {
            assert(id4_bytes(*self) != s.spec_bytes()) by {
                if id4_bytes(*self) == s.spec_bytes() {
                    assert(id4_bytes(*self)[0] == b@[0] && id4_bytes(*self)[1] == b@[1]
                        && id4_bytes(*self)[2] == b@[2] && id4_bytes(*self)[3] == b@[3]);
                }
            }
        }
        r
    }

    /// The four bytes as text, or `UNKN` when they are not valid UTF-8.
    pub fn as_str(&self) -> (r: &str)
        ensures
            valid_utf8(self.0@) ==> r.spec_bytes() == self.0@,
            !valid_utf8(self.0@) ==> r@ == "UNKN"@,
    {
        match str_from_utf8(&self.0) {
            Some(s) => s,
            None => "UNKN",
        }
    }

    /// Whether this ID4 holds exactly the four given bytes.
    pub fn is(&self, b0: u8, b1: u8, b2: u8, b3: u8) -> (r: bool)
        ensures
            r == (self.0[0] == b0 && self.0[1] == b1 && self.0[2] == b2 && self.0[3] == b3),
    {
        self.0[0] == b0 && self.0[1] == b1 && self.0[2] == b2 && self.0[3] == b3
    }

    /// Reads an ID4 at `pos`.
    pub fn read_be(buf: &[u8], pos: u64) -> (r: Result<(ID4, u64), ParseError>)
        requires
            pos_ok(buf@, pos as int),
        ensures
            parsed_as(r, spec_id4(buf@, pos as int)),
            ends_ok(r, buf@, pos as int),
    {
        let len = buf.len() as u64;
        if pos <= len && len - pos >= 4 {
            let i = pos as usize;
            let b = [buf[i], buf[i + 1], buf[i + 2], buf[i + 3]];
            let id = ID4::from_bytes(b)?;
            Ok((id, pos + 4))
        } else {
            Err(ParseError::UnexpectedEof)
        }
    }

    pub fn write_be(&self, out: &mut Vec<u8>)
        ensures
            final(out)@ == old(out)@ + id4_bytes(*self),
    {
        out.push(self.0[0]);
        out.push(self.0[1]);
        out.push(self.0[2]);
        out.push(self.0[3]);
        assert(out@ =~= old(out)@ + id4_bytes(*self));
    }
}


// ---------------------------------------------------------------------------------------------
// VX: variable length index
// ---------------------------------------------------------------------------------------------

/// A variable length index: two bytes when below 0xFF00, otherwise four bytes whose first
/// byte is 0xFF and whose remaining three bytes hold the index.
#[derive(Debug, Clone, Copy, PartialEq, Eq, PartialOrd, Ord)]
pub enum VX {
    U2(u16),
    U4(u32),
}

impl View for VX {
    type V = VX;

    open spec fn view(&self) -> VX {
        *self
    }
}

pub open spec fn spec_vx(s: Seq<u8>, p: int) -> Result<(VX, int), ParseError> {
    match spec_u16(s, p) {
        Ok((a, q)) => if a < 0xff00 {
            Ok((VX::U2(a), q))
        } else {
            match spec_u16(s, q) {
                Ok((b, q2)) => Ok((VX::U4(((a - 0xff00) * 0x1_0000 + b) as u32), q2)),
                Err(e) => Err(e),
            }
        },
        Err(e) => Err(e),
    }
}

/// Encoding of a VX: U2 as its two bytes, U4 as 0xFF followed by its low three bytes.
pub open spec fn vx_bytes(v: VX) -> Seq<u8> {
    match v {
        VX::U2(x) => u16_bytes(x),
        VX::U4(x) => u32_bytes((0xff00_0000 + x % 0x100_0000) as u32),
    }
}

/// A VX whose encoding reads back as itself.
pub open spec fn vx_canonical(v: VX) -> bool {
    match v {
        VX::U2(x) => x < 0xff00,
        VX::U4(x) => x < 0x100_0000,
    }
}

impl VX {
    pub fn read_be(buf: &[u8], pos: u64) -> (r: Result<(VX, u64), ParseError>)
        requires
            pos_ok(buf@, pos as int),
        ensures
            parsed_as(r, spec_vx(buf@, pos as int)),
            ends_ok(r, buf@, pos as int),
    {
        let (a, q) = read_u16(buf, pos)?;
        if a < 0xff00 {
            return Ok((VX::U2(a), q));
        }
        let (b, q2) = read_u16(buf, q)?;
        Ok((VX::U4((a - 0xff00) as u32 * 0x1_0000 + b as u32), q2))
    }

    pub fn write_be(&self, out: &mut Vec<u8>)
        ensures
            final(out)@ == old(out)@ + vx_bytes(*self),
    {
        match self {
            VX::U2(x) => write_u16(out, *x),
            VX::U4(x) => write_u32(out, 0xff00_0000 + *x % 0x100_0000),
        }
    }

    /// The index value, whichever width it was stored in.
    pub fn value(&self) -> (r: u32)
        ensures
            r == match *self {
                VX::U2(x) => x as u32,
                VX::U4(x) => x,
            },
    {
        match self {
            VX::U2(x) => *x as u32,
            VX::U4(x) => *x,
        }
    }
}

/// Reads a VX from the start of a byte slice, returning it with the number of bytes it took.
pub fn read_vx_from_bytes(buf: &[u8]) -> (r: Result<(VX, usize), ParseError>)
    requires
        buf@.len() <= MAX_INPUT,
    ensures
        match r {
            Ok((v, n)) => spec_vx(buf@, 0) == Ok::<(VX, int), ParseError>((v, n as int)),
            Err(e) => spec_vx(buf@, 0) == Err::<(VX, int), ParseError>(e),
        },
{
    let (v, q) = VX::read_be(buf, 0)?;
    Ok((v, q as usize))
}

// ---------------------------------------------------------------------------------------------
// Chunk headers
// ---------------------------------------------------------------------------------------------

/// Header of a top level chunk: an ID4 and a 32 bit size.
#[derive(Debug, Clone, Copy, PartialEq, Eq)]
pub struct ChunkHeader {
    pub kind: ID4,
    pub size: u32,
}

/// Header of a sub-chunk: an ID4 and a 16 bit size.
#[derive(Debug, Clone, Copy, PartialEq, Eq)]
pub struct SubChunkHeader {
    pub kind: ID4,
    pub size: u16,
}

impl View for ChunkHeader {
    type V = (u32, u32);

    open spec fn view(&self) -> (u32, u32) {
        (self.kind@, self.size)
    }
}

impl View for SubChunkHeader {
    type V = (u32, u16);

    open spec fn view(&self) -> (u32, u16) {
        (self.kind@, self.size)
    }
}

pub open spec fn spec_chunk_header(s: Seq<u8>, p: int) -> Result<((u32, u32), int), ParseError> {
    match spec_id4(s, p) {
        Ok((k, q)) => match spec_u32(s, q) {
            Ok((n, q2)) => Ok(((k, n), q2)),
            Err(e) => Err(e),
        },
        Err(e) => Err(e),
    }
}

pub open spec fn spec_subchunk_header(s: Seq<u8>, p: int) -> Result<((u32, u16), int), ParseError> {
    match spec_id4(s, p) {
        Ok((k, q)) => match spec_u16(s, q) {
            Ok((n, q2)) => Ok(((k, n), q2)),
            Err(e) => Err(e),
        },
        Err(e) => Err(e),
    }
}

impl ChunkHeader {
    pub fn read_be(buf: &[u8], pos: u64) -> (r: Result<(ChunkHeader, u64), ParseError>)
        requires
            pos_ok(buf@, pos as int),
        ensures
            parsed_as(r, spec_chunk_header(buf@, pos as int)),
            ends_ok(r, buf@, pos as int),
    {
        let (kind, q) = ID4::read_be(buf, pos)?;
        let (size, q2) = read_u32(buf, q)?;
        Ok((ChunkHeader { kind, size }, q2))
    }

    pub fn write_be(&self, out: &mut Vec<u8>)
        ensures
            final(out)@ == old(out)@ + id4_bytes(self.kind) + u32_bytes(self.size),
    {
        self.kind.write_be(out);
        write_u32(out, self.size);
    }
}

impl SubChunkHeader {
    pub fn read_be(buf: &[u8], pos: u64) -> (r: Result<(SubChunkHeader, u64), ParseError>)
        requires
            pos_ok(buf@, pos as int),
        ensures
            parsed_as(r, spec_subchunk_header(buf@, pos as int)),
            ends_ok(r, buf@, pos as int),
    {
        let (kind, q) = ID4::read_be(buf, pos)?;
        let (size, q2) = read_u16(buf, q)?;
        Ok((SubChunkHeader { kind, size }, q2))
    }

    pub fn write_be(&self, out: &mut Vec<u8>)
        ensures
            final(out)@ == old(out)@ + id4_bytes(self.kind) + u16_bytes(self.size),
    {
        self.kind.write_be(out);
        write_u16(out, self.size);
    }
}

// ---------------------------------------------------------------------------------------------
// Points (three IEEE-754 single precision values, held as their bit patterns)
// ---------------------------------------------------------------------------------------------

/// A point of three single precision floats, each held as its IEEE-754 bit pattern.
#[derive(Debug, Clone, Copy, PartialEq, Eq)]
pub struct Point(pub [u32; 3]);

impl View for Point {
    type V = (u32, u32, u32);

    open spec fn view(&self) -> (u32, u32, u32) {
        (self.0[0], self.0[1], self.0[2])
    }
}

pub open spec fn spec_point(s: Seq<u8>, p: int) -> Result<((u32, u32, u32), int), ParseError> {
    match spec_u32(s, p) {
        Ok((x, q1)) => match spec_u32(s, q1) {
            Ok((y, q2)) => match spec_u32(s, q2) {
                Ok((z, q3)) => Ok(((x, y, z), q3)),
                Err(e) => Err(e),
            },
            Err(e) => Err(e),
        },
        Err(e) => Err(e),
    }
}

pub open spec fn point_bytes(v: (u32, u32, u32)) -> Seq<u8> {
    u32_bytes(v.0) + u32_bytes(v.1) + u32_bytes(v.2)
}

impl Point {
    pub fn read_be(buf: &[u8], pos: u64) -> (r: Result<(Point, u64), ParseError>)
        requires
            pos_ok(buf@, pos as int),
        ensures
            parsed_as(r, spec_point(buf@, pos as int)),
            ends_ok(r, buf@, pos as int),
    {
        let (x, q1) = read_u32(buf, pos)?;
        let (y, q2) = read_u32(buf, q1)?;
        let (z, q3) = read_u32(buf, q2)?;
        Ok((Point([x, y, z]), q3))
    }

    /// The bit pattern of the first coordinate.
    pub fn x(&self) -> (r: u32)
        ensures
            r == self.0[0],
    {
        self.0[0]
    }

    /// The bit pattern of the second coordinate.
    pub fn y(&self) -> (r: u32)
        ensures
            r == self.0[1],
    {
        self.0[1]
    }

    /// The bit pattern of the third coordinate.
    pub fn z(&self) -> (r: u32)
        ensures
            r == self.0[2],
    {
        self.0[2]
    }

    pub fn write_be(&self, out: &mut Vec<u8>)
        ensures
            final(out)@ == old(out)@ + point_bytes(self@),
    {
        write_u32(out, self.0[0]);
        write_u32(out, self.0[1]);
        write_u32(out, self.0[2]);
        assert(out@ =~= old(out)@ + point_bytes(self@));
    }
}

// ---------------------------------------------------------------------------------------------
// Null terminated strings
// ---------------------------------------------------------------------------------------------

/// A string of bytes that is stored followed by a zero byte (the zero is not part of it).
#[derive(Debug, Clone, PartialEq, Eq, Default)]
pub struct NullString(pub Vec<u8>);

impl View for NullString {
    type V = Seq<u8>;

    open spec fn view(&self) -> Seq<u8> {
        self.0@
    }
}

impl NullString {
    pub fn is_empty(&self) -> (r: bool)
        ensures
            r == (self@.len() == 0),
    {
        self.0.len() == 0
    }

    pub fn len(&self) -> (r: usize)
        ensures
            r == self@.len(),
    {
        self.0.len()
    }
}

/// Index of the first zero byte at or after `p`, or -1 when there is none.
pub open spec fn null_index(s: Seq<u8>, p: int) -> int
    decreases s.len() - p,
{
    if p < 0 || p >= s.len() {
        -1
    } else if s[p] == 0 {
        p
    } else {
        null_index(s, p + 1)
    }
}

pub proof fn lemma_null_index(s: Seq<u8>, p: int)
    ensures
        null_index(s, p) == -1 || (p <= null_index(s, p) < s.len() && s[null_index(s, p)] == 0
            && forall|k: int| p <= k < null_index(s, p) ==> s[k] != 0),
    decreases s.len() - p,
{
    if p >= 0 && p < s.len() && s[p] != 0 {
        lemma_null_index(s, p + 1);
    }
}

/// A null terminated string, when present, ends after its start and within the data.
pub broadcast proof fn lemma_nullstring_advances(s: Seq<u8>, p: int)
    ensures
        #[trigger] spec_nullstring(s, p) matches Ok((_, q)) ==> p < q <= s.len(),
{
    lemma_null_index(s, p);
}

/// Grammar: bytes up to the first zero, then the zero.
pub open spec fn spec_nullstring(s: Seq<u8>, p: int) -> Result<(Seq<u8>, int), ParseError> {
    let z = null_index(s, p);
    if z < 0 {
        Err(ParseError::UnexpectedEof)
    } else {
        Ok((s.subrange(p, z), z + 1))
    }
}

/// The stored form of a null terminated string: its bytes and a zero.
pub open spec fn nullstring_bytes(v: Seq<u8>) -> Seq<u8> {
    v.push(0)
}

pub fn read_nullstring(buf: &[u8], pos: u64) -> (r: Result<(NullString, u64), ParseError>)
    requires
        pos_ok(buf@, pos as int),
    ensures
        parsed_as(r, spec_nullstring(buf@, pos as int)),
        ends_ok(r, buf@, pos as int),
        r matches Ok((_, q)) ==> q <= buf@.len(),
{
    let len = buf.len() as u64;
    let mut i = pos;
    while i < len
        invariant
            pos <= i,
            i <= len || i == pos,
            len == buf@.len(),
            pos_ok(buf@, pos as int),
            null_index(buf@, pos as int) == null_index(buf@, i as int),
        decreases len - i,
    {
        if buf[i as usize] == 0 {
            proof {
                lemma_null_index(buf@, pos as int);
            }
            let v = slice_to_vec(&buf[pos as usize..i as usize]);
            return Ok((NullString(v), i + 1));
        }
        i = i + 1;
    }
    Err(ParseError::UnexpectedEof)
}

pub fn write_nullstring(out: &mut Vec<u8>, s: &NullString)
    ensures
        final(out)@ == old(out)@ + nullstring_bytes(s@),
{
    write_bytes(out, s.0.as_slice());
    out.push(0);
    assert(out@ =~= old(out)@ + nullstring_bytes(s@));
}


// ---------------------------------------------------------------------------------------------
// Channel values
// ---------------------------------------------------------------------------------------------

/// The value of a channel. Floats are held as their IEEE-754 bit patterns.
#[derive(Debug, Clone, PartialEq)]
pub enum ChannelValue {
    Integer(i32),
    Float(u32),
    String(NullString),
    /// Legacy: only found on CHNL and CHNV sub-chunks of ITEM
    Data(Vec<u8>),
}

/// View of a channel value.
pub enum ChannelValueView {
    Integer(i32),
    Float(u32),
    String(Seq<u8>),
    Data(Seq<u8>),
}

impl View for ChannelValue {
    type V = ChannelValueView;

    open spec fn view(&self) -> ChannelValueView {
        match self {
            ChannelValue::Integer(i) => ChannelValueView::Integer(*i),
            ChannelValue::Float(f) => ChannelValueView::Float(*f),
            ChannelValue::String(s) => ChannelValueView::String(s@),
            ChannelValue::Data(d) => ChannelValueView::Data(d@),
        }
    }
}

/// Grammar of a channel value whose kind is given by a type flag. The 0x20 bit (undefined
/// action) is ignored; 1/0x11 is an integer, 2/0x12 a float, 3/0x13 an aligned string.
pub open spec fn spec_channel_value(s: Seq<u8>, p: int, flag: u16) -> Result<
    (ChannelValueView, int),
    ParseError,
> {
    let f = flag & 0xffdf;
    if f == 1 || f == 0x11 {
        match spec_i32(s, p) {
            Ok((v, q)) => Ok((ChannelValueView::Integer(v), q)),
            Err(e) => Err(e),
        }
    } else if f == 2 || f == 0x12 {
        match spec_u32(s, p) {
            Ok((v, q)) => Ok((ChannelValueView::Float(v), q)),
            Err(e) => Err(e),
        }
    } else if f == 3 || f == 0x13 {
        match spec_aligned_nullstring(s, p) {
            Ok((v, q)) => Ok((ChannelValueView::String(v), q)),
            Err(e) => Err(e),
        }
    } else {
        Err(ParseError::InvalidItemFlag { flag })
    }
}

/// Output after writing a channel value: integers and floats as four bytes, strings null
/// terminated and padded to even length, raw data as its 16 bit length then its bytes (see
/// `channel_value_fits`).
pub open spec fn channel_value_write(out: Seq<u8>, v: ChannelValueView) -> Seq<u8> {
    match v {
        ChannelValueView::Integer(i) => out + u32_bytes(i32_bits(i)),
        ChannelValueView::Float(f) => out + u32_bytes(f),
        ChannelValueView::String(s) => aligned_nullstring_write(out, s),
        ChannelValueView::Data(d) => out + u16_bytes(d.len() as u16) + d,
    }
}

/// Whether a channel value can be written: raw data must have a length that its 16 bit
/// length field can state.
pub open spec fn channel_value_fits(v: ChannelValueView) -> bool {
    v matches ChannelValueView::Data(d) ==> d.len() <= 0xffff
}

impl ChannelValue {
    pub fn read_be(buf: &[u8], pos: u64, flag: u16) -> (r: Result<(ChannelValue, u64), ParseError>)
        requires
            pos_ok(buf@, pos as int),
        ensures
            parsed_as(r, spec_channel_value(buf@, pos as int, flag)),
            ends_ok(r, buf@, pos as int),
    {
        let f = flag & 0xffdf;
        if f == 1 || f == 0x11 {
            let (v, q) = read_i32(buf, pos)?;
            Ok((ChannelValue::Integer(v), q))
        } else if f == 2 || f == 0x12 {
            let (v, q) = read_u32(buf, pos)?;
            Ok((ChannelValue::Float(v), q))
        } else if f == 3 || f == 0x13 {
            let (v, q) = read_aligned_nullstring(buf, pos)?;
            Ok((ChannelValue::String(v), q))
        } else {
            Err(ParseError::InvalidItemFlag { flag })
        }
    }

    /// Whether the value can be written (see `channel_value_fits`).
    pub fn fits(&self) -> (r: bool)
        ensures
            r == channel_value_fits(self@),
    {
        match self {
            ChannelValue::Data(d) => d.len() <= 0xffff,
            _ => true,
        }
    }

    /// Writes the value. Raw data longer than its 16 bit length field can state is refused
    /// with `LengthOverflow`, and nothing is written.
    pub fn write_be(&self, out: &mut Vec<u8>) -> (r: Result<(), ParseError>)
        ensures
            r is Ok <==> channel_value_fits(self@),
            r is Ok ==> final(out)@ == channel_value_write(old(out)@, self@),
            r is Err ==> r == Err::<(), ParseError>(ParseError::LengthOverflow) && final(out)@
                == old(out)@,
    {
        match self {
            ChannelValue::Integer(i) => write_i32(out, *i),
            ChannelValue::Float(f) => write_u32(out, *f),
            ChannelValue::String(s) => write_aligned_nullstring(out, s),
            ChannelValue::Data(d) => {
                if d.len() > 0xffff {
                    return Err(ParseError::LengthOverflow);
                }
                write_u16(out, d.len() as u16);
                write_bytes(out, d.as_slice());
            },
        }
        Ok(())
    }
}

} // verus!
