//! Wire framing: the fixed 16-byte header and the split of a frame into
//! header, header-field bytes and body, under a size limit.
use vstd::prelude::*;
use crate::bytes::copy_range;
use crate::message::MessageType;

verus! {

#[derive(Clone, Copy, Debug, PartialEq, Eq, Structural)]
pub enum Endian {
    Little,
    Big,
}

/// The fixed part of a message header. The protocol version is always 1.
#[derive(Clone, Copy, Debug, PartialEq, Eq, Structural)]
pub struct FixedHeader {
    pub endian: Endian,
    pub msg_type: MessageType,
    pub flags: u8,
    pub body_len: u32,
    pub serial: u32,
    pub fields_len: u32,
}

#[derive(Clone, Copy, Debug, PartialEq, Eq, Structural)]
pub enum CodecError {
    /// The buffer ends before the frame does.
    NeedMoreData,
    /// The first byte is neither `l` nor `B`.
    BadEndian,
    /// The message type code is not one of 1 to 4.
    BadType,
    /// The protocol version is not 1.
    BadVersion,
    /// The frame would be longer than the allowed maximum.
    TooLarge,
    /// A header field with an unknown code, a wrong type or no terminator.
    BadField,
    /// A body signature with an unknown type code or unbalanced containers.
    BadSignature,
    /// A body signature nested deeper than the limit.
    TooDeep,
}

pub open spec fn endian_byte(e: Endian) -> u8 {
    match e {
        Endian::Little => 108u8,
        Endian::Big => 66u8,
    }
}

pub open spec fn type_code(t: MessageType) -> u8 {
    match t {
        MessageType::MethodCall => 1u8,
        MessageType::MethodReturn => 2u8,
        MessageType::Error => 3u8,
        MessageType::Signal => 4u8,
    }
}

pub open spec fn le_bytes(n: u32) -> Seq<u8> {
    seq![(n & 0xff) as u8, ((n >> 8u32) & 0xff) as u8, ((n >> 16u32) & 0xff) as u8, ((n >> 24u32) & 0xff) as u8]
}

pub open spec fn u32_of(b0: u8, b1: u8, b2: u8, b3: u8) -> u32 {
    (b0 as u32) | ((b1 as u32) << 8u32) | ((b2 as u32) << 16u32) | ((b3 as u32) << 24u32)
}

/// `n` in four bytes, in the given byte order.
pub open spec fn u32_bytes(e: Endian, n: u32) -> Seq<u8> {
    match e {
        Endian::Little => le_bytes(n),
        Endian::Big => seq![le_bytes(n)[3], le_bytes(n)[2], le_bytes(n)[1], le_bytes(n)[0]],
    }
}

/// The integer in the four bytes of `b` from `at`, in the given byte order.
pub open spec fn read_u32(e: Endian, b: Seq<u8>, at: int) -> u32 {
    match e {
        Endian::Little => u32_of(b[at], b[at + 1], b[at + 2], b[at + 3]),
        Endian::Big => u32_of(b[at + 3], b[at + 2], b[at + 1], b[at]),
    }
}

pub open spec fn fixed_bytes(h: FixedHeader) -> Seq<u8> {
    seq![endian_byte(h.endian), type_code(h.msg_type), h.flags, 1u8] + u32_bytes(h.endian, h.body_len) + u32_bytes(
        h.endian,
        h.serial,
    ) + u32_bytes(h.endian, h.fields_len)
}

pub open spec fn endian_of(b: u8) -> Option<Endian> {
    if b == 108u8 {
        Some(Endian::Little)
    } else if b == 66u8 {
        Some(Endian::Big)
    } else {
        None
    }
}

pub open spec fn type_of(b: u8) -> Option<MessageType> {
    if b == 1u8 {
        Some(MessageType::MethodCall)
    } else if b == 2u8 {
        Some(MessageType::MethodReturn)
    } else if b == 3u8 {
        Some(MessageType::Error)
    } else if b == 4u8 {
        Some(MessageType::Signal)
    } else {
        None
    }
}

/// Reads the fixed header at the start of `b`.
pub open spec fn parse_fixed(b: Seq<u8>) -> Result<FixedHeader, CodecError> {
    if b.len() < 16 {
        Err(CodecError::NeedMoreData)
    } else {
        match endian_of(b[0]) {
            None => Err(CodecError::BadEndian),
            Some(e) => match type_of(b[1]) {
                None => Err(CodecError::BadType),
                Some(t) => if b[3] != 1u8 {
                    Err(CodecError::BadVersion)
                } else {
                    Ok(
                        FixedHeader {
                            endian: e,
                            msg_type: t,
                            flags: b[2],
                            body_len: read_u32(e, b, 4),
                            serial: read_u32(e, b, 8),
                            fields_len: read_u32(e, b, 12),
                        },
                    )
                },
            },
        }
    }
}

/// Where the body starts: after the header fields, at a multiple of 8.
pub open spec fn body_start(h: FixedHeader) -> nat {
    let f = 16 + h.fields_len as nat;
    if f % 8 == 0 {
        f
    } else {
        f + (8 - f % 8) as nat
    }
}

pub open spec fn frame_len(h: FixedHeader) -> nat {
    body_start(h) + h.body_len as nat
}

/// Splits the frame at the start of `b` into its fixed header, the bytes of
/// its header fields and its body, given a largest allowed frame length.
pub open spec fn parse_frame(b: Seq<u8>, max: nat) -> Result<(FixedHeader, Seq<u8>, Seq<u8>), CodecError> {
    match parse_fixed(b) {
        Err(e) => Err(e),
        Ok(h) => if frame_len(h) > max {
            Err(CodecError::TooLarge)
        } else if b.len() < frame_len(h) {
            Err(CodecError::NeedMoreData)
        } else {
            Ok(
                (
                    h,
                    b.subrange(16, 16 + h.fields_len as int),
                    b.subrange(body_start(h) as int, frame_len(h) as int),
                ),
            )
        },
    }
}

/// The frame of a message: fixed header, header fields, zero padding, body.
pub open spec fn frame_bytes(h: FixedHeader, fields: Seq<u8>, body: Seq<u8>) -> Seq<u8> {
    fixed_bytes(h) + fields + Seq::new((body_start(h) - 16 - fields.len()) as nat, |i: int| 0u8) + body
}

pub proof fn lemma_u32_round_trip(n: u32)
    ensures
        u32_of(
            (n & 0xff) as u8,
            ((n >> 8u32) & 0xff) as u8,
            ((n >> 16u32) & 0xff) as u8,
            ((n >> 24u32) & 0xff) as u8,
        ) == n,
{
    assert(((((n & 0xff) as u8) as u32) | (((((n >> 8u32) & 0xff) as u8) as u32) << 8u32) | (((((n >> 16u32) & 0xff) as u8) as u32)
        << 16u32) | (((((n >> 24u32) & 0xff) as u8) as u32) << 24u32)) == n) by (bit_vector);
}

/// Reading back a fixed header gives the header that was written.
pub proof fn lemma_fixed_round_trip(h: FixedHeader)
    ensures
        parse_fixed(fixed_bytes(h)) == Ok::<FixedHeader, CodecError>(h),
{
    let b = fixed_bytes(h);
    lemma_u32_round_trip(h.body_len);
    lemma_u32_round_trip(h.serial);
    lemma_u32_round_trip(h.fields_len);
    assert(b.len() == 16);
    assert(read_u32(h.endian, b, 4) == h.body_len);
    assert(read_u32(h.endian, b, 8) == h.serial);
    assert(read_u32(h.endian, b, 12) == h.fields_len);
}

/// Splitting a written frame gives back its header, header fields and body,
/// whenever the frame is within the limit.
pub proof fn lemma_frame_round_trip(h: FixedHeader, fields: Seq<u8>, body: Seq<u8>, max: nat)
    requires
        fields.len() == h.fields_len,
        body.len() == h.body_len,
        frame_len(h) <= max,
    ensures
        parse_frame(frame_bytes(h, fields, body), max) == Ok::<(FixedHeader, Seq<u8>, Seq<u8>), CodecError>((h, fields, body)),
{
    let b = frame_bytes(h, fields, body);
    lemma_fixed_round_trip(h);
    assert(b.subrange(0, 16) =~= fixed_bytes(h));
    assert(parse_fixed(b) == parse_fixed(fixed_bytes(h))) by {
        assert(b[0] == fixed_bytes(h)[0]);
        assert(b[1] == fixed_bytes(h)[1]);
        assert(b[2] == fixed_bytes(h)[2]);
        assert(b[3] == fixed_bytes(h)[3]);
        assert(read_u32(h.endian, b, 4) == read_u32(h.endian, fixed_bytes(h), 4));
        assert(read_u32(h.endian, b, 8) == read_u32(h.endian, fixed_bytes(h), 8));
        assert(read_u32(h.endian, b, 12) == read_u32(h.endian, fixed_bytes(h), 12));
    }
    assert(b.len() == frame_len(h));
    assert(b.subrange(16, 16 + h.fields_len as int) =~= fields);
    assert(b.subrange(body_start(h) as int, frame_len(h) as int) =~= body);
}

pub(crate) fn push_u32(out: &mut Vec<u8>, e: Endian, n: u32)
    ensures
        final(out)@ == old(out)@ + u32_bytes(e, n),
{
    let b0 = (n & 0xff) as u8;
    let b1 = ((n >> 8u32) & 0xff) as u8;
    let b2 = ((n >> 16u32) & 0xff) as u8;
    let b3 = ((n >> 24u32) & 0xff) as u8;
    match e {
        Endian::Little => {
            out.push(b0);
            out.push(b1);
            out.push(b2);
            out.push(b3);
        },
        Endian::Big => {
            out.push(b3);
            out.push(b2);
            out.push(b1);
            out.push(b0);
        },
    }
    assert(out@ =~= old(out)@ + u32_bytes(e, n));
}

pub(crate) fn read_u32_at(e: Endian, b: &Vec<u8>, at: usize) -> (r: u32)
    requires
        at + 4 <= b@.len(),
    ensures
        r == read_u32(e, b@, at as int),
{
    let n = b.len();
    let a0 = b[at];
    let a1 = b[at + 1];
    let a2 = b[at + 2];
    let a3 = b[at + 3];
    let (x0, x1, x2, x3) = match e {
        Endian::Little => (a0, a1, a2, a3),
        Endian::Big => (a3, a2, a1, a0),
    };
    (x0 as u32) | ((x1 as u32) << 8u32) | ((x2 as u32) << 16u32) | ((x3 as u32) << 24u32)
}

/// Writes the fixed header.
pub fn encode_fixed(h: &FixedHeader) -> (r: Vec<u8>)
    ensures
        r@ == fixed_bytes(*h),
{
    let mut out: Vec<u8> = Vec::new();
    let e = match h.endian {
        Endian::Little => 108u8,
        Endian::Big => 66u8,
    };
    let t = match h.msg_type {
        MessageType::MethodCall => 1u8,
        MessageType::MethodReturn => 2u8,
        MessageType::Error => 3u8,
        MessageType::Signal => 4u8,
    };
    out.push(e);
    out.push(t);
    out.push(h.flags);
    out.push(1u8);
    let ghost start = out@;
    push_u32(&mut out, h.endian, h.body_len);
    push_u32(&mut out, h.endian, h.serial);
    push_u32(&mut out, h.endian, h.fields_len);
    assert(start =~= seq![endian_byte(h.endian), type_code(h.msg_type), h.flags, 1u8]);
    assert(out@ =~= fixed_bytes(*h));
    out
}

/// Reads the fixed header at the start of `b`.
pub fn decode_fixed(b: &Vec<u8>) -> (r: Result<FixedHeader, CodecError>)
    ensures
        r == parse_fixed(b@),
{
    if b.len() < 16 {
        return Err(CodecError::NeedMoreData);
    }
    let e = if b[0] == 108u8 {
        Endian::Little
    } else if b[0] == 66u8 {
        Endian::Big
    } else {
        return Err(CodecError::BadEndian);
    };
    let t = if b[1] == 1u8 {
        MessageType::MethodCall
    } else if b[1] == 2u8 {
        MessageType::MethodReturn
    } else if b[1] == 3u8 {
        MessageType::Error
    } else if b[1] == 4u8 {
        MessageType::Signal
    } else {
        return Err(CodecError::BadType);
    };
    if b[3] != 1u8 {
        return Err(CodecError::BadVersion);
    }
    Ok(
        FixedHeader {
            endian: e,
            msg_type: t,
            flags: b[2],
            body_len: read_u32_at(e, b, 4),
            serial: read_u32_at(e, b, 8),
            fields_len: read_u32_at(e, b, 12),
        },
    )
}

/// A frame taken apart.
#[derive(Debug)]
pub struct Frame {
    pub header: FixedHeader,
    pub fields: Vec<u8>,
    pub body: Vec<u8>,
}

fn body_start_of(h: &FixedHeader) -> (r: u64)
    ensures
        r == body_start(*h),
        r <= 16 + h.fields_len + 7,
{
    let f: u64 = 16 + h.fields_len as u64;
    if f % 8 == 0 {
        f
    } else {
        f + (8 - f % 8)
    }
}

/// Takes the frame at the start of `b` apart. Nothing is copied out of `b`
/// before the declared length has been checked against `max`, and nothing
/// past that length is read.
pub fn split_frame(b: &Vec<u8>, max: usize) -> (r: Result<Frame, CodecError>)
    ensures
        match parse_frame(b@, max as nat) {
            Ok(p) => r matches Ok(fr) && fr.header == p.0 && fr.fields@ == p.1 && fr.body@ == p.2,
            Err(e) => r == Err::<Frame, CodecError>(e),
        },
        r matches Ok(fr) ==> frame_len(fr.header) <= max && frame_len(fr.header) <= b@.len() && fr.body@.len()
            == fr.header.body_len && fr.fields@.len() == fr.header.fields_len,
{
    let h = match decode_fixed(b) {
        Ok(h) => h,
        Err(e) => return Err(e),
    };
    let start = body_start_of(&h);
    let total: u64 = start + h.body_len as u64;
    if total > max as u64 {
        return Err(CodecError::TooLarge);
    }
    if (b.len() as u64) < total {
        return Err(CodecError::NeedMoreData);
    }
    let fields = copy_range(b, 16, 16 + h.fields_len as usize);
    let body = copy_range(b, start as usize, total as usize);
    Ok(Frame { header: h, fields, body })
}

/// Writes a frame: the fixed header, the header fields, zero padding up to
/// a multiple of 8, and the body.
pub fn encode_frame(h: &FixedHeader, fields: &Vec<u8>, body: &Vec<u8>) -> (r: Vec<u8>)
    requires
        fields@.len() == h.fields_len,
        body@.len() == h.body_len,
    ensures
        r@ == frame_bytes(*h, fields@, body@),
{
    let mut out = encode_fixed(h);
    let ghost fixed = out@;
    let mut i: usize = 0;
    while i < fields.len()
        invariant
            0 <= i <= fields@.len(),
            out@ == fixed + fields@.subrange(0, i as int),
        decreases fields@.len() - i,
    {
        out.push(fields[i]);
        i = i + 1;
        assert(out@ =~= fixed + fields@.subrange(0, i as int));
    }
    assert(fields@.subrange(0, fields@.len() as int) =~= fields@);
    let pad: u64 = body_start_of(h) - 16 - h.fields_len as u64;
    let ghost before_pad = out@;
    let mut k: u64 = 0;
    while k < pad
        invariant
            0 <= k <= pad,
            pad < 8,
            out@ == before_pad + Seq::new(k as nat, |j: int| 0u8),
        decreases pad - k,
    {
        out.push(0u8);
        k = k + 1;
        assert(out@ =~= before_pad + Seq::new(k as nat, |j: int| 0u8));
    }
    let ghost before_body = out@;
    let mut m: usize = 0;
    while m < body.len()
        invariant
            0 <= m <= body@.len(),
            out@ == before_body + body@.subrange(0, m as int),
        decreases body@.len() - m,
    {
        out.push(body[m]);
        m = m + 1;
        assert(out@ =~= before_body + body@.subrange(0, m as int));
    }
    assert(body@.subrange(0, body@.len() as int) =~= body@);
    assert(out@ =~= frame_bytes(*h, fields@, body@));
    out
}

/// The length of the whole frame that `h` heads.
pub fn frame_length(h: &FixedHeader) -> (r: u64)
    ensures
        r == frame_len(*h),
{
    body_start_of(h) + h.body_len as u64
}

} // verus!
