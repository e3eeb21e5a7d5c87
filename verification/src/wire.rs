//! Framing of the client-to-server byte stream into X11 requests.
//!
//! A request starts with a four-byte little-endian header: the major opcode,
//! a data byte, and a 16-bit length counted in four-byte units that includes
//! the header. A zero length field announces the BIG-REQUESTS form, in which a
//! 32-bit length in the same units follows and the body starts at byte 8.

use vstd::prelude::*;
use vstd::slice::slice_subrange;

verus! {

/// Bytes of a header in the normal form.
pub const HEADER_LEN: usize = 4;

/// Bytes of a header in the BIG-REQUESTS form.
pub const BIG_HEADER_LEN: usize = 8;

/// The unsigned number that the first two bytes of `b` encode, low byte first.
pub open spec fn le_u16_value(b: Seq<u8>) -> int
    recommends
        b.len() >= 2,
{
    b[0] as int + 256 * (b[1] as int)
}

/// The unsigned number that the first four bytes of `b` encode, low byte first.
pub open spec fn le_u32_value(b: Seq<u8>) -> int
    recommends
        b.len() >= 4,
{
    b[0] as int + 256 * (b[1] as int) + 65536 * (b[2] as int) + 16777216 * (b[3] as int)
}

/// Reads a little-endian `u16` with `nom::le_u16`.
///
/// Trusted: nom reports an error when fewer than two bytes are present and
/// otherwise returns `(i[1] << 8) + i[0]`, which is `le_u16_value`.
#[verifier::external_body]
pub(crate) fn read_le_u16(i: &[u8]) -> (r: Option<u16>)
    ensures
        i@.len() < 2 ==> r is None,
        i@.len() >= 2 ==> r == Some(le_u16_value(i@) as u16),
{
    match nom::le_u16(i) {
        Ok((_, v)) => Some(v),
        Err(_) => None,
    }
}

/// Reads a little-endian `u32` with `nom::le_u32`.
///
/// Trusted: nom reports an error when fewer than four bytes are present and
/// otherwise returns `(i[3] << 24) + (i[2] << 16) + (i[1] << 8) + i[0]`, which
/// is `le_u32_value`.
#[verifier::external_body]
pub(crate) fn read_le_u32(i: &[u8]) -> (r: Option<u32>)
    ensures
        i@.len() < 4 ==> r is None,
        i@.len() >= 4 ==> r == Some(le_u32_value(i@) as u32),
{
    match nom::le_u32(i) {
        Ok((_, v)) => Some(v),
        Err(_) => None,
    }
}

/// The major opcodes whose requests are looked into.
#[derive(Clone, Copy, Debug, PartialEq, Eq, Structural)]
pub enum Opcode {
    ChangeWindowAttributes,
    InternAtom,
    ChangeProperty,
    GetProperty,
    GrabButton,
    QueryExtension,
}

impl Opcode {
    /// The byte that stands for this opcode on the wire.
    pub open spec fn code(self) -> u8 {
        match self {
            Opcode::ChangeWindowAttributes => 0x02,
            Opcode::InternAtom => 0x10,
            Opcode::ChangeProperty => 0x12,
            Opcode::GetProperty => 0x14,
            Opcode::GrabButton => 0x1C,
            Opcode::QueryExtension => 0x62,
        }
    }

    /// The opcode that a wire byte stands for, if it is a recognized one.
    pub open spec fn recognized(n: u8) -> Option<Opcode> {
        if n == 0x02 {
            Some(Opcode::ChangeWindowAttributes)
        } else if n == 0x10 {
            Some(Opcode::InternAtom)
        } else if n == 0x12 {
            Some(Opcode::ChangeProperty)
        } else if n == 0x14 {
            Some(Opcode::GetProperty)
        } else if n == 0x1C {
            Some(Opcode::GrabButton)
        } else if n == 0x62 {
            Some(Opcode::QueryExtension)
        } else {
            None
        }
    }

    /// Looks a wire byte up among the recognized opcodes.
    pub fn from_u8(n: u8) -> (r: Option<Opcode>)
        ensures
            r == Opcode::recognized(n),
    {
        match n {
            0x02 => Some(Opcode::ChangeWindowAttributes),
            0x10 => Some(Opcode::InternAtom),
            0x12 => Some(Opcode::ChangeProperty),
            0x14 => Some(Opcode::GetProperty),
            0x1C => Some(Opcode::GrabButton),
            0x62 => Some(Opcode::QueryExtension),
            _ => None,
        }
    }

    /// The wire byte of this opcode.
    pub fn to_u8(self) -> (n: u8)
        ensures
            n == self.code(),
    {
        match self {
            Opcode::ChangeWindowAttributes => 0x02,
            Opcode::InternAtom => 0x10,
            Opcode::ChangeProperty => 0x12,
            Opcode::GetProperty => 0x14,
            Opcode::GrabButton => 0x1C,
            Opcode::QueryExtension => 0x62,
        }
    }

    /// Bytes of the fields that every request with this opcode holds after
    /// its header.
    pub open spec fn fixed_len(self) -> int {
        match self {
            Opcode::ChangeWindowAttributes => 0,
            Opcode::InternAtom => 4,
            Opcode::ChangeProperty => 20,
            Opcode::GetProperty => 20,
            Opcode::GrabButton => 4,
            Opcode::QueryExtension => 4,
        }
    }
}

/// Each opcode is recognized by its own wire byte, and by no other.
pub proof fn lemma_opcode_code_roundtrip(op: Opcode, n: u8)
    ensures
        Opcode::recognized(op.code()) == Some(op),
        Opcode::recognized(n) == Some(op) <==> n == op.code(),
{
}

/// Bytes that the opcode asks for after the header: the fixed fields of a
/// recognized opcode, and nothing for any other.
pub open spec fn fixed_fields_len(opcode: u8) -> int {
    match Opcode::recognized(opcode) {
        Some(op) => op.fixed_len(),
        None => 0,
    }
}

/// Bytes that a request with this opcode holds after its header at the least.
pub fn fixed_fields(opcode: u8) -> (n: u32)
    ensures
        n == fixed_fields_len(opcode),
{
    match Opcode::from_u8(opcode) {
        Some(Opcode::ChangeWindowAttributes) => 0,
        Some(Opcode::InternAtom) => 4,
        Some(Opcode::ChangeProperty) => 20,
        Some(Opcode::GetProperty) => 20,
        Some(Opcode::GrabButton) => 4,
        Some(Opcode::QueryExtension) => 4,
        None => 0,
    }
}

/// Why a buffer does not start with a complete request.
#[derive(Clone, Copy, Debug, PartialEq, Eq, Structural)]
pub enum FrameError {
    /// Fewer bytes are present than the header or the declared length needs.
    Incomplete,
    /// The declared length is shorter than the header and the fixed fields of
    /// the opcode, or does not fit a 32-bit byte count.
    Malformed,
}

/// A framed request: the header fields and the body that follows the header.
#[derive(Clone, Copy, Debug, PartialEq, Eq)]
pub struct Request<'a> {
    /// Major opcode, byte 0.
    pub opcode: u8,
    /// Data byte, byte 1; its meaning depends on the opcode.
    pub datab: u8,
    /// Total length in bytes, header included.
    pub length: u32,
    /// The bytes after the header, up to the end of the request.
    pub data: &'a [u8],
}

/// One request cut from the front of a buffer.
#[derive(Clone, Copy, Debug)]
pub struct Framed<'a> {
    /// The decoded header and the body.
    pub request: Request<'a>,
    /// Every byte of the request, header included.
    pub raw: &'a [u8],
    /// What follows the request in the buffer.
    pub remaining: &'a [u8],
}

/// The 16-bit length field of the header, in four-byte units.
pub open spec fn length_field(b: Seq<u8>) -> int
    recommends
        b.len() >= 4,
{
    le_u16_value(b.subrange(2, 4))
}

/// The 32-bit length of the BIG-REQUESTS form, in four-byte units.
pub open spec fn extended_units(b: Seq<u8>) -> int
    recommends
        b.len() >= 8,
{
    le_u32_value(b.subrange(4, 8))
}

/// A zero length field selects the BIG-REQUESTS form, whoever the client is.
pub open spec fn is_big_request(b: Seq<u8>) -> bool
    recommends
        b.len() >= 4,
{
    length_field(b) == 0
}

/// Where the body starts.
pub open spec fn header_len(b: Seq<u8>) -> int
    recommends
        b.len() >= 4,
{
    if is_big_request(b) {
        8
    } else {
        4
    }
}

/// The total length in bytes that the header declares.
pub open spec fn declared_len(b: Seq<u8>) -> int
    recommends
        b.len() >= header_len(b),
{
    if is_big_request(b) {
        4 * extended_units(b)
    } else {
        4 * length_field(b)
    }
}

/// The least total length of a request with this header: the header and the
/// fixed fields of its opcode.
pub open spec fn minimum_len(b: Seq<u8>) -> int
    recommends
        b.len() >= 4,
{
    header_len(b) + fixed_fields_len(b[0])
}

/// The length of the request at the front of `b`, or why there is none.
///
/// Nothing can be said before the header is there, all eight bytes of it in
/// the BIG-REQUESTS form. A declared length below the minimum for the opcode,
/// or beyond a 32-bit byte count, is malformed. Otherwise the request is
/// framed once all the bytes that it declares are there.
pub open spec fn frame_len(b: Seq<u8>) -> Result<int, FrameError> {
    if b.len() < 4 || b.len() < header_len(b) {
        Err(FrameError::Incomplete)
    } else if declared_len(b) < minimum_len(b) || declared_len(b) > u32::MAX {
        Err(FrameError::Malformed)
    } else if b.len() < declared_len(b) {
        Err(FrameError::Incomplete)
    } else {
        Ok(declared_len(b))
    }
}

/// `r` is exactly one request: its header declares all of `r` and no more.
pub open spec fn is_request(r: Seq<u8>) -> bool {
    frame_len(r) == Ok::<int, FrameError>(r.len() as int)
}

/// Cuts the first request from `buf`.
///
/// Succeeds exactly when `frame_len` gives a length; the request is then the
/// first so many bytes, and `remaining` is the rest of the buffer.
pub fn frame_one<'a>(buf: &'a [u8]) -> (r: Result<Framed<'a>, FrameError>)
    ensures
        match frame_len(buf@) {
            Ok(n) => r matches Ok(f) && f.raw@ == buf@.take(n) && f.remaining@ == buf@.skip(n)
                && f.request.opcode == buf@[0] && f.request.datab == buf@[1] && f.request.length
                == n && f.request.data@ == buf@.subrange(header_len(buf@), n),
            Err(e) => r matches Err(e2) && e2 == e,
        },
{
    let size: usize = buf.len();
    if size < HEADER_LEN {
        return Err(FrameError::Incomplete);
    }
    let opcode: u8 = buf[0];
    let datab: u8 = buf[1];
    let field: u16 = match read_le_u16(slice_subrange(buf, 2, 4)) {
        Some(v) => v,
        None => {
            return Err(FrameError::Incomplete);
        },
    };
    let mut start: usize = HEADER_LEN;
    let mut length: u32 = 4 * (field as u32);
    if field == 0 {
        if size < BIG_HEADER_LEN {
            return Err(FrameError::Incomplete);
        }
        let units: u32 = match read_le_u32(slice_subrange(buf, 4, 8)) {
            Some(v) => v,
            None => {
                return Err(FrameError::Incomplete);
            },
        };
        if units > u32::MAX / 4 {
            return Err(FrameError::Malformed);
        }
        start = BIG_HEADER_LEN;
        length = 4 * units;
    }
    if length < start as u32 + fixed_fields(opcode) {
        return Err(FrameError::Malformed);
    }
    if size < length as usize {
        return Err(FrameError::Incomplete);
    }
    let end: usize = length as usize;
    Ok(
        Framed {
            request: Request { opcode, datab, length, data: slice_subrange(buf, start, end) },
            raw: slice_subrange(buf, 0, end),
            remaining: slice_subrange(buf, end, size),
        },
    )
}

/// A request followed by any other bytes is framed as exactly that request,
/// and what is left over is exactly those other bytes.
pub proof fn lemma_frame_request_then_rest(r: Seq<u8>, rest: Seq<u8>)
    requires
        is_request(r),
    ensures
        frame_len(r + rest) == Ok::<int, FrameError>(r.len() as int),
        (r + rest).take(r.len() as int) == r,
        (r + rest).skip(r.len() as int) == rest,
        header_len(r + rest) == header_len(r),
{
    let b = r + rest;
    assert(b.subrange(2, 4) =~= r.subrange(2, 4));
    if is_big_request(r) {
        assert(b.subrange(4, 8) =~= r.subrange(4, 8));
    }
    assert(b.take(r.len() as int) =~= r);
    assert(b.skip(r.len() as int) =~= rest);
}

/// Every proper prefix of a request is reported as incomplete.
pub proof fn lemma_frame_proper_prefix_incomplete(r: Seq<u8>, k: int)
    requires
        is_request(r),
        0 <= k < r.len(),
    ensures
        frame_len(r.take(k)) == Err::<int, FrameError>(FrameError::Incomplete),
{
    let p = r.take(k);
    if k >= 4 {
        assert(p.subrange(2, 4) =~= r.subrange(2, 4));
        if k >= 8 {
            assert(p.subrange(4, 8) =~= r.subrange(4, 8));
        }
    }
}

/// A header whose length field is zero is read in the BIG-REQUESTS form: the
/// request is four times the extended length long, and never shorter than the
/// eight-byte header.
pub proof fn lemma_zero_length_field_is_big_request(b: Seq<u8>)
    requires
        b.len() >= 4,
        length_field(b) == 0,
    ensures
        declared_len(b) == 4 * extended_units(b),
        header_len(b) == 8,
        frame_len(b) matches Ok(n) ==> n == 4 * extended_units(b) && 8 <= n <= b.len(),
{
}

/// A framed length always covers the header and the fixed fields of the
/// opcode, is a multiple of four, and lies within the buffer.
pub proof fn lemma_frame_len_bounds(b: Seq<u8>)
    ensures
        frame_len(b) matches Ok(n) ==> header_len(b) <= minimum_len(b) <= n <= b.len() && n % 4
            == 0 && n <= u32::MAX && n == declared_len(b),
{
}

/// The first request of a buffer is itself a request.
pub proof fn lemma_framed_prefix_is_request(b: Seq<u8>)
    ensures
        frame_len(b) matches Ok(n) ==> is_request(b.take(n)) && header_len(b.take(n))
            == header_len(b),
{
    if let Ok(n) = frame_len(b) {
        let p = b.take(n);
        assert(p.subrange(2, 4) =~= b.subrange(2, 4));
        if is_big_request(b) {
            assert(p.subrange(4, 8) =~= b.subrange(4, 8));
        }
    }
}

} // verus!
