//! The header-field array: (code, variant) pairs, each at a multiple of 8,
//! that carry a message's addressing.
use vstd::prelude::*;
use crate::bytes::copy_range;
use crate::message::opt_bytes;
use crate::codec::{CodecError, Endian, push_u32, read_u32, read_u32_at, u32_bytes};

verus! {

/// Decoded header fields; an absent field is `None`.
#[derive(Debug)]
pub struct Fields {
    pub path: Option<Vec<u8>>,
    pub interface: Option<Vec<u8>>,
    pub member: Option<Vec<u8>>,
    pub error_name: Option<Vec<u8>>,
    pub reply_serial: Option<u32>,
    pub destination: Option<Vec<u8>>,
    pub sender: Option<Vec<u8>>,
    pub signature: Option<Vec<u8>>,
    pub unix_fds: Option<u32>,
}

pub struct FieldsView {
    pub path: Option<Seq<u8>>,
    pub interface: Option<Seq<u8>>,
    pub member: Option<Seq<u8>>,
    pub error_name: Option<Seq<u8>>,
    pub reply_serial: Option<u32>,
    pub destination: Option<Seq<u8>>,
    pub sender: Option<Seq<u8>>,
    pub signature: Option<Seq<u8>>,
    pub unix_fds: Option<u32>,
}

impl View for Fields {
    type V = FieldsView;

    open spec fn view(&self) -> FieldsView {
        FieldsView {
            path: opt_bytes(self.path),
            interface: opt_bytes(self.interface),
            member: opt_bytes(self.member),
            error_name: opt_bytes(self.error_name),
            reply_serial: self.reply_serial,
            destination: opt_bytes(self.destination),
            sender: opt_bytes(self.sender),
            signature: opt_bytes(self.signature),
            unix_fds: self.unix_fds,
        }
    }
}

pub open spec fn no_fields() -> FieldsView {
    FieldsView {
        path: None,
        interface: None,
        member: None,
        error_name: None,
        reply_serial: None,
        destination: None,
        sender: None,
        signature: None,
        unix_fds: None,
    }
}

pub open spec fn align(n: int, a: int) -> int
    recommends
        a > 0,
{
    if n % a == 0 {
        n
    } else {
        n + (a - n % a)
    }
}

/// The type code that the field `code` must carry: `o`, `s`, `u` or `g`;
/// zero for a code that is not known.
pub open spec fn field_sig(code: u8) -> u8 {
    if code == 1 {
        111u8
    } else if code == 2 || code == 3 || code == 4 || code == 6 || code == 7 {
        115u8
    } else if code == 5 || code == 9 {
        117u8
    } else if code == 8 {
        103u8
    } else {
        0u8
    }
}

/// The fields with field `code` set to the string `s` or the integer `n`.
pub open spec fn set_field(f: FieldsView, code: u8, s: Seq<u8>, n: u32) -> FieldsView {
    if code == 1 {
        FieldsView { path: Some(s), ..f }
    } else if code == 2 {
        FieldsView { interface: Some(s), ..f }
    } else if code == 3 {
        FieldsView { member: Some(s), ..f }
    } else if code == 4 {
        FieldsView { error_name: Some(s), ..f }
    } else if code == 5 {
        FieldsView { reply_serial: Some(n), ..f }
    } else if code == 6 {
        FieldsView { destination: Some(s), ..f }
    } else if code == 7 {
        FieldsView { sender: Some(s), ..f }
    } else if code == 8 {
        FieldsView { signature: Some(s), ..f }
    } else {
        FieldsView { unix_fds: Some(n), ..f }
    }
}

/// One field at offset `p` (a multiple of 8): its code, its string or
/// integer value, and the offset just past it.
pub open spec fn parse_one(b: Seq<u8>, e: Endian, p: int) -> Result<(u8, Seq<u8>, u32, int), CodecError> {
    if p + 4 > b.len() {
        Err(CodecError::NeedMoreData)
    } else {
        let code = b[p];
        let t = b[p + 2];
        if field_sig(code) == 0 || b[p + 1] != 1 || t != field_sig(code) || b[p + 3] != 0 {
            Err(CodecError::BadField)
        } else if t == 103u8 {
            if p + 5 > b.len() {
                Err(CodecError::NeedMoreData)
            } else {
                let n = b[p + 4] as int;
                if p + 5 + n + 1 > b.len() {
                    Err(CodecError::NeedMoreData)
                } else if b[p + 5 + n] != 0 {
                    Err(CodecError::BadField)
                } else {
                    Ok((code, b.subrange(p + 5, p + 5 + n), 0u32, p + 5 + n + 1))
                }
            }
        } else {
            let q = align(p + 4, 4);
            if q + 4 > b.len() {
                Err(CodecError::NeedMoreData)
            } else if t == 117u8 {
                Ok((code, Seq::empty(), read_u32(e, b, q), q + 4))
            } else {
                let n = read_u32(e, b, q) as int;
                if q + 4 + n + 1 > b.len() {
                    Err(CodecError::NeedMoreData)
                } else if b[q + 4 + n] != 0 {
                    Err(CodecError::BadField)
                } else {
                    Ok((code, b.subrange(q + 4, q + 4 + n), 0u32, q + 4 + n + 1))
                }
            }
        }
    }
}

/// Reads the fields from offset `pos` on, into `acc`; a later field of a
/// code replaces an earlier one.
pub open spec fn parse_fields(b: Seq<u8>, e: Endian, pos: int, acc: FieldsView) -> Result<FieldsView, CodecError>
    decreases b.len() - pos,
{
    if pos >= b.len() {
        Ok(acc)
    } else {
        match parse_one(b, e, align(pos, 8)) {
            Err(err) => Err(err),
            Ok(r) => if r.3 <= pos {
                Err(CodecError::BadField)
            } else {
                parse_fields(b, e, r.3, set_field(acc, r.0, r.1, r.2))
            },
        }
    }
}

fn align_exec(n: usize, a: usize) -> (r: Option<usize>)
    requires
        a == 4 || a == 8,
    ensures
        match r {
            Some(v) => v == align(n as int, a as int),
            None => align(n as int, a as int) > usize::MAX,
        },
{
    if n % a == 0 {
        Some(n)
    } else if n > usize::MAX - (a - n % a) {
        None
    } else {
        Some(n + (a - n % a))
    }
}

fn parse_one_exec(b: &Vec<u8>, e: Endian, p: usize) -> (r: Result<(u8, Vec<u8>, u32, usize), CodecError>)
    ensures
        match parse_one(b@, e, p as int) {
            Ok(x) => r matches Ok(y) && y.0 == x.0 && y.1@ == x.1 && y.2 == x.2 && y.3 == x.3,
            Err(err) => r == Err::<(u8, Vec<u8>, u32, usize), CodecError>(err),
        },
{
    let len = b.len();
    if p > len || len - p < 4 {
        return Err(CodecError::NeedMoreData);
    }
    let code = b[p];
    let t = b[p + 2];
    let want: u8 = if code == 1 {
        111u8
    } else if code == 2 || code == 3 || code == 4 || code == 6 || code == 7 {
        115u8
    } else if code == 5 || code == 9 {
        117u8
    } else if code == 8 {
        103u8
    } else {
        0u8
    };
    if want == 0 || b[p + 1] != 1 || t != want || b[p + 3] != 0 {
        return Err(CodecError::BadField);
    }
    if t == 103u8 {
        if len - p < 5 {
            return Err(CodecError::NeedMoreData);
        }
        let n = b[p + 4] as usize;
        if len - p - 5 < n + 1 {
            return Err(CodecError::NeedMoreData);
        }
        if b[p + 5 + n] != 0 {
            return Err(CodecError::BadField);
        }
        let v = copy_range(b, p + 5, p + 5 + n);
        Ok((code, v, 0u32, p + 5 + n + 1))
    } else {
        let q = match align_exec(p + 4, 4) {
            Some(q) => q,
            None => return Err(CodecError::NeedMoreData),
        };
        if q > len || len - q < 4 {
            return Err(CodecError::NeedMoreData);
        }
        let x = read_u32_at(e, b, q);
        if t == 117u8 {
            return Ok((code, Vec::new(), x, q + 4));
        }
        let n = x as usize;
        if (x as u64) > (len - q - 4) as u64 || len - q - 4 - n < 1 {
            return Err(CodecError::NeedMoreData);
        }
        if b[q + 4 + n] != 0 {
            return Err(CodecError::BadField);
        }
        let v = copy_range(b, q + 4, q + 4 + n);
        Ok((code, v, 0u32, q + 4 + n + 1))
    }
}

fn set_field_exec(acc: &mut Fields, code: u8, v: Vec<u8>, n: u32)
    ensures
        final(acc)@ == set_field(old(acc)@, code, v@, n),
{
    if code == 1 {
        acc.path = Some(v);
    } else if code == 2 {
        acc.interface = Some(v);
    } else if code == 3 {
        acc.member = Some(v);
    } else if code == 4 {
        acc.error_name = Some(v);
    } else if code == 5 {
        acc.reply_serial = Some(n);
    } else if code == 6 {
        acc.destination = Some(v);
    } else if code == 7 {
        acc.sender = Some(v);
    } else if code == 8 {
        acc.signature = Some(v);
    } else {
        acc.unix_fds = Some(n);
    }
}

/// Decodes the header-field array `b` of a frame in byte order `e`.
pub fn decode_fields(b: &Vec<u8>, e: Endian) -> (r: Result<Fields, CodecError>)
    ensures
        match parse_fields(b@, e, 0, no_fields()) {
            Ok(f) => r matches Ok(x) && x@ == f,
            Err(err) => r == Err::<Fields, CodecError>(err),
        },
{
    let mut acc = Fields {
        path: None,
        interface: None,
        member: None,
        error_name: None,
        reply_serial: None,
        destination: None,
        sender: None,
        signature: None,
        unix_fds: None,
    };
    let mut pos: usize = 0;
    while pos < b.len()
        invariant
            parse_fields(b@, e, pos as int, acc@) == parse_fields(b@, e, 0, no_fields()),
        decreases b@.len() - pos,
    {
        let p = match align_exec(pos, 8) {
            Some(p) => p,
            None => return Err(CodecError::NeedMoreData),
        };
        match parse_one_exec(b, e, p) {
            Err(err) => return Err(err),
            Ok((code, v, n, next)) => {
                if next <= pos {
                    return Err(CodecError::BadField);
                }
                set_field_exec(&mut acc, code, v, n);
                pos = next;
            },
        }
    }
    Ok(acc)
}

/// `s` with zero bytes added up to a multiple of `a`.
pub open spec fn pad_to(s: Seq<u8>, a: int) -> Seq<u8> {
    s + Seq::new((align(s.len() as int, a) - s.len()) as nat, |i: int| 0u8)
}

/// `acc` followed by a string-valued field (`s`, `o` or `g`).
pub open spec fn emit_str(acc: Seq<u8>, e: Endian, code: u8, v: Seq<u8>) -> Seq<u8> {
    let sig = field_sig(code);
    let h = pad_to(acc, 8) + seq![code, 1u8, sig, 0u8];
    if sig == 103u8 {
        h + seq![v.len() as u8] + v + seq![0u8]
    } else {
        pad_to(h, 4) + u32_bytes(e, v.len() as u32) + v + seq![0u8]
    }
}

/// `acc` followed by an integer-valued field.
pub open spec fn emit_u32(acc: Seq<u8>, e: Endian, code: u8, n: u32) -> Seq<u8> {
    pad_to(pad_to(acc, 8) + seq![code, 1u8, 117u8, 0u8], 4) + u32_bytes(e, n)
}

pub open spec fn opt_str(acc: Seq<u8>, e: Endian, code: u8, o: Option<Seq<u8>>) -> Seq<u8> {
    match o {
        Some(v) => emit_str(acc, e, code, v),
        None => acc,
    }
}

pub open spec fn opt_u32(acc: Seq<u8>, e: Endian, code: u8, o: Option<u32>) -> Seq<u8> {
    match o {
        Some(n) => emit_u32(acc, e, code, n),
        None => acc,
    }
}

/// The header-field array of `f`, fields in the order of their codes.
pub open spec fn fields_bytes(e: Endian, f: FieldsView) -> Seq<u8> {
    let a1 = opt_str(Seq::empty(), e, 1, f.path);
    let a2 = opt_str(a1, e, 2, f.interface);
    let a3 = opt_str(a2, e, 3, f.member);
    let a4 = opt_str(a3, e, 4, f.error_name);
    let a5 = opt_u32(a4, e, 5, f.reply_serial);
    let a6 = opt_str(a5, e, 6, f.destination);
    let a7 = opt_str(a6, e, 7, f.sender);
    let a8 = opt_str(a7, e, 8, f.signature);
    opt_u32(a8, e, 9, f.unix_fds)
}

pub open spec fn str_fits(o: Option<Seq<u8>>) -> bool {
    o matches Some(v) ==> v.len() < 0x1_0000_0000
}

fn push_pad(out: &mut Vec<u8>, a: usize)
    requires
        a == 4 || a == 8,
    ensures
        final(out)@ == pad_to(old(out)@, a as int),
{
    let ghost start = out@;
    let pad: usize = if out.len() % a == 0 {
        0
    } else {
        a - out.len() % a
    };
    let mut k: usize = 0;
    while k < pad
        invariant
            0 <= k <= pad,
            out@ == start + Seq::new(k as nat, |i: int| 0u8),
        decreases pad - k,
    {
        out.push(0u8);
        k = k + 1;
        assert(out@ =~= start + Seq::new(k as nat, |i: int| 0u8));
    }
    assert(out@ =~= pad_to(start, a as int));
}

fn push_bytes(out: &mut Vec<u8>, v: &Vec<u8>)
    ensures
        final(out)@ == old(out)@ + v@,
{
    let ghost start = out@;
    let mut i: usize = 0;
    while i < v.len()
        invariant
            0 <= i <= v@.len(),
            out@ == start + v@.subrange(0, i as int),
        decreases v@.len() - i,
    {
        out.push(v[i]);
        i = i + 1;
        assert(out@ =~= start + v@.subrange(0, i as int));
    }
    assert(v@.subrange(0, v@.len() as int) =~= v@);
}

fn push_str_field(out: &mut Vec<u8>, e: Endian, code: u8, o: &Option<Vec<u8>>)
    requires
        1 <= code <= 8 && code != 5,
        code == 8 ==> (o matches Some(v) ==> v@.len() < 256),
        str_fits(opt_bytes(*o)),
    ensures
        final(out)@ == opt_str(old(out)@, e, code, opt_bytes(*o)),
{
    match o {
        Some(v) => {
            let sig: u8 = if code == 1 {
                111u8
            } else if code == 8 {
                103u8
            } else {
                115u8
            };
            push_pad(out, 8);
            out.push(code);
            out.push(1u8);
            out.push(sig);
            out.push(0u8);
            if sig == 103u8 {
                out.push(v.len() as u8);
            } else {
                push_pad(out, 4);
                push_u32(out, e, v.len() as u32);
            }
            push_bytes(out, v);
            out.push(0u8);
            assert(out@ =~= emit_str(old(out)@, e, code, v@));
        },
        None => {},
    }
}

fn push_u32_field(out: &mut Vec<u8>, e: Endian, code: u8, o: Option<u32>)
    ensures
        final(out)@ == opt_u32(old(out)@, e, code, o),
{
    match o {
        Some(n) => {
            push_pad(out, 8);
            out.push(code);
            out.push(1u8);
            out.push(117u8);
            out.push(0u8);
            push_pad(out, 4);
            push_u32(out, e, n);
        },
        None => {},
    }
}

/// Encodes the header-field array of `f` in byte order `e`.
pub fn encode_fields(f: &Fields, e: Endian) -> (r: Vec<u8>)
    requires
        str_fits(f@.path),
        str_fits(f@.interface),
        str_fits(f@.member),
        str_fits(f@.error_name),
        str_fits(f@.destination),
        str_fits(f@.sender),
        f@.signature matches Some(v) ==> v.len() < 256,
    ensures
        r@ == fields_bytes(e, f@),
{
    let mut out: Vec<u8> = Vec::new();
    assert(out@ =~= Seq::<u8>::empty());
    push_str_field(&mut out, e, 1, &f.path);
    push_str_field(&mut out, e, 2, &f.interface);
    push_str_field(&mut out, e, 3, &f.member);
    push_str_field(&mut out, e, 4, &f.error_name);
    push_u32_field(&mut out, e, 5, f.reply_serial);
    push_str_field(&mut out, e, 6, &f.destination);
    push_str_field(&mut out, e, 7, &f.sender);
    push_str_field(&mut out, e, 8, &f.signature);
    push_u32_field(&mut out, e, 9, f.unix_fds);
    out
}

pub proof fn lemma_read_written(b: Seq<u8>, at: int, e: Endian, n: u32)
    requires
        0 <= at,
        at + 4 <= b.len(),
        b.subrange(at, at + 4) == u32_bytes(e, n),
    ensures
        read_u32(e, b, at) == n,
{
    crate::codec::lemma_u32_round_trip(n);
    let w = u32_bytes(e, n);
    assert(b[at] == w[0]);
    assert(b[at + 1] == w[1]);
    assert(b[at + 2] == w[2]);
    assert(b[at + 3] == w[3]);
}

/// A string-valued field reads back from the bytes it was written to,
/// whatever follows it.
pub proof fn lemma_emit_str_reads(acc: Seq<u8>, e: Endian, code: u8, v: Seq<u8>, rest: Seq<u8>)
    requires
        1 <= code <= 8,
        code != 5,
        v.len() < 0x1_0000_0000,
        code == 8 ==> v.len() < 256,
    ensures
        parse_one(emit_str(acc, e, code, v) + rest, e, align(acc.len() as int, 8))
            == Ok::<(u8, Seq<u8>, u32, int), CodecError>((code, v, 0u32, emit_str(acc, e, code, v).len() as int)),
{
    let sig = field_sig(code);
    let p = align(acc.len() as int, 8);
    let h = pad_to(acc, 8) + seq![code, 1u8, sig, 0u8];
    let w = emit_str(acc, e, code, v);
    let b = w + rest;
    assert(pad_to(acc, 8).len() == p);
    assert(p % 8 == 0);
    assert(b[p] == code);
    assert(b[p + 1] == 1u8);
    assert(b[p + 2] == sig);
    assert(b[p + 3] == 0u8);
    if sig == 103u8 {
        let n = v.len() as int;
        assert(b[p + 4] == v.len() as u8);
        assert(b[p + 4] as int == n);
        assert(b[p + 5 + n] == 0u8);
        assert(b.subrange(p + 5, p + 5 + n) =~= v);
    } else {
        let q = align(p + 4, 4);
        assert(q == p + 4);
        assert(pad_to(h, 4) =~= h);
        assert(b.subrange(q, q + 4) =~= u32_bytes(e, v.len() as u32));
        lemma_read_written(b, q, e, v.len() as u32);
        let n = v.len() as int;
        assert(b[q + 4 + n] == 0u8);
        assert(b.subrange(q + 4, q + 4 + n) =~= v);
    }
}

/// An integer-valued field reads back from the bytes it was written to,
/// whatever follows it.
pub proof fn lemma_emit_u32_reads(acc: Seq<u8>, e: Endian, code: u8, n: u32, rest: Seq<u8>)
    requires
        code == 5 || code == 9,
    ensures
        parse_one(emit_u32(acc, e, code, n) + rest, e, align(acc.len() as int, 8))
            == Ok::<(u8, Seq<u8>, u32, int), CodecError>((code, Seq::empty(), n, emit_u32(acc, e, code, n).len() as int)),
{
    let p = align(acc.len() as int, 8);
    let h = pad_to(acc, 8) + seq![code, 1u8, 117u8, 0u8];
    let w = emit_u32(acc, e, code, n);
    let b = w + rest;
    assert(pad_to(acc, 8).len() == p);
    assert(p % 8 == 0);
    assert(b[p] == code);
    assert(b[p + 1] == 1u8);
    assert(b[p + 2] == 117u8);
    assert(b[p + 3] == 0u8);
    let q = align(p + 4, 4);
    assert(q == p + 4);
    assert(pad_to(h, 4) =~= h);
    assert(b.subrange(q, q + 4) =~= u32_bytes(e, n));
    lemma_read_written(b, q, e, n);
}

pub open spec fn is_prefix(p: Seq<u8>, b: Seq<u8>) -> bool {
    p.len() <= b.len() && b.subrange(0, p.len() as int) == p
}

proof fn lemma_is_prefix_refl(b: Seq<u8>)
    ensures
        is_prefix(b, b),
{
    assert(b.subrange(0, b.len() as int) =~= b);
}

proof fn lemma_opt_str_extends(acc: Seq<u8>, e: Endian, code: u8, o: Option<Seq<u8>>, b: Seq<u8>)
    requires
        is_prefix(opt_str(acc, e, code, o), b),
    ensures
        is_prefix(acc, b),
{
    let w = opt_str(acc, e, code, o);
    assert(w.subrange(0, acc.len() as int) =~= acc);
    assert(b.subrange(0, acc.len() as int) =~= w.subrange(0, acc.len() as int));
}

proof fn lemma_opt_u32_extends(acc: Seq<u8>, e: Endian, code: u8, o: Option<u32>, b: Seq<u8>)
    requires
        is_prefix(opt_u32(acc, e, code, o), b),
    ensures
        is_prefix(acc, b),
{
    let w = opt_u32(acc, e, code, o);
    assert(w.subrange(0, acc.len() as int) =~= acc);
    assert(b.subrange(0, acc.len() as int) =~= w.subrange(0, acc.len() as int));
}

proof fn lemma_str_step(b: Seq<u8>, e: Endian, acc: Seq<u8>, code: u8, o: Option<Seq<u8>>, rest: Seq<u8>, f: FieldsView)
    requires
        1 <= code <= 8,
        code != 5,
        o matches Some(v) ==> v.len() < 0x1_0000_0000,
        code == 8 ==> (o matches Some(v) ==> v.len() < 256),
        is_prefix(opt_str(acc, e, code, o), b),
        rest == b.subrange(opt_str(acc, e, code, o).len() as int, b.len() as int),
    ensures
        parse_fields(b, e, acc.len() as int, f) == parse_fields(
            b,
            e,
            opt_str(acc, e, code, o).len() as int,
            match o {
                Some(v) => set_field(f, code, v, 0u32),
                None => f,
            },
        ),
{
    assert(b =~= opt_str(acc, e, code, o) + rest);
    if let Some(v) = o {
        lemma_emit_str_reads(acc, e, code, v, rest);
        assert(acc.len() < b.len());
    }
}

proof fn lemma_u32_step(b: Seq<u8>, e: Endian, acc: Seq<u8>, code: u8, o: Option<u32>, rest: Seq<u8>, f: FieldsView)
    requires
        code == 5 || code == 9,
        is_prefix(opt_u32(acc, e, code, o), b),
        rest == b.subrange(opt_u32(acc, e, code, o).len() as int, b.len() as int),
    ensures
        parse_fields(b, e, acc.len() as int, f) == parse_fields(
            b,
            e,
            opt_u32(acc, e, code, o).len() as int,
            match o {
                Some(n) => set_field(f, code, Seq::empty(), n),
                None => f,
            },
        ),
{
    assert(b =~= opt_u32(acc, e, code, o) + rest);
    if let Some(n) = o {
        lemma_emit_u32_reads(acc, e, code, n, rest);
        assert(acc.len() < b.len());
    }
}

/// Decoding the header-field array written for `f` gives `f` back.
pub proof fn lemma_fields_round_trip(e: Endian, f: FieldsView)
    requires
        str_fits(f.path),
        str_fits(f.interface),
        str_fits(f.member),
        str_fits(f.error_name),
        str_fits(f.destination),
        str_fits(f.sender),
        f.signature matches Some(v) ==> v.len() < 256,
    ensures
        parse_fields(fields_bytes(e, f), e, 0, no_fields()) == Ok::<FieldsView, CodecError>(f),
{
    let b = fields_bytes(e, f);
    let a0 = Seq::<u8>::empty();
    let a1 = opt_str(a0, e, 1, f.path);
    let a2 = opt_str(a1, e, 2, f.interface);
    let a3 = opt_str(a2, e, 3, f.member);
    let a4 = opt_str(a3, e, 4, f.error_name);
    let a5 = opt_u32(a4, e, 5, f.reply_serial);
    let a6 = opt_str(a5, e, 6, f.destination);
    let a7 = opt_str(a6, e, 7, f.sender);
    let a8 = opt_str(a7, e, 8, f.signature);
    let a9 = opt_u32(a8, e, 9, f.unix_fds);
    assert(a9 == b);
    lemma_is_prefix_refl(b);
    lemma_opt_u32_extends(a8, e, 9, f.unix_fds, b);
    lemma_opt_str_extends(a7, e, 8, f.signature, b);
    lemma_opt_str_extends(a6, e, 7, f.sender, b);
    lemma_opt_str_extends(a5, e, 6, f.destination, b);
    lemma_opt_u32_extends(a4, e, 5, f.reply_serial, b);
    lemma_opt_str_extends(a3, e, 4, f.error_name, b);
    lemma_opt_str_extends(a2, e, 3, f.member, b);
    lemma_opt_str_extends(a1, e, 2, f.interface, b);
    lemma_opt_str_extends(a0, e, 1, f.path, b);
    let f0 = no_fields();
    let f1 = match f.path { Some(v) => set_field(f0, 1, v, 0u32), None => f0 };
    let f2 = match f.interface { Some(v) => set_field(f1, 2, v, 0u32), None => f1 };
    let f3 = match f.member { Some(v) => set_field(f2, 3, v, 0u32), None => f2 };
    let f4 = match f.error_name { Some(v) => set_field(f3, 4, v, 0u32), None => f3 };
    let f5 = match f.reply_serial { Some(n) => set_field(f4, 5, Seq::empty(), n), None => f4 };
    let f6 = match f.destination { Some(v) => set_field(f5, 6, v, 0u32), None => f5 };
    let f7 = match f.sender { Some(v) => set_field(f6, 7, v, 0u32), None => f6 };
    let f8 = match f.signature { Some(v) => set_field(f7, 8, v, 0u32), None => f7 };
    let f9 = match f.unix_fds { Some(n) => set_field(f8, 9, Seq::empty(), n), None => f8 };
    lemma_str_step(b, e, a0, 1, f.path, b.subrange(a1.len() as int, b.len() as int), f0);
    lemma_str_step(b, e, a1, 2, f.interface, b.subrange(a2.len() as int, b.len() as int), f1);
    lemma_str_step(b, e, a2, 3, f.member, b.subrange(a3.len() as int, b.len() as int), f2);
    lemma_str_step(b, e, a3, 4, f.error_name, b.subrange(a4.len() as int, b.len() as int), f3);
    lemma_u32_step(b, e, a4, 5, f.reply_serial, b.subrange(a5.len() as int, b.len() as int), f4);
    lemma_str_step(b, e, a5, 6, f.destination, b.subrange(a6.len() as int, b.len() as int), f5);
    lemma_str_step(b, e, a6, 7, f.sender, b.subrange(a7.len() as int, b.len() as int), f6);
    lemma_str_step(b, e, a7, 8, f.signature, b.subrange(a8.len() as int, b.len() as int), f7);
    lemma_u32_step(b, e, a8, 9, f.unix_fds, b.subrange(a9.len() as int, b.len() as int), f8);
    assert(f9 == f);
}

} // verus!
