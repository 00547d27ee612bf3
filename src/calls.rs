//! The methods the bus answers itself, read from a call's member and body,
//! and whole messages taken from and put into frames.
use vstd::prelude::*;
use crate::body::{parse_str_arg, parse_u32_arg, read_str_arg, read_u32_arg, read_string_args, string_args};
use crate::bytes::{bytes_eq, copy_bytes, copy_opt};
use crate::codec::{CodecError, Endian, FixedHeader, Frame, encode_frame, frame_bytes, frame_len, parse_frame, lemma_frame_round_trip};
use crate::fields::{Fields, FieldsView, decode_fields, encode_fields, fields_bytes, parse_fields, no_fields, lemma_fields_round_trip};
use crate::message::{Header, HeaderView, opt_bytes};
use crate::names::NameFlags;
use crate::signature::{check_signature, signature_check};

verus! {

#[derive(Debug)]
pub enum BusCall {
    Hello,
    RequestName(Vec<u8>, NameFlags),
    ReleaseName(Vec<u8>),
    GetNameOwner(Vec<u8>),
    NameHasOwner(Vec<u8>),
    ListNames,
    ListQueuedOwners(Vec<u8>),
    AddMatch(Vec<u8>),
    RemoveMatch(Vec<u8>),
}

pub enum CallView {
    Hello,
    RequestName(Seq<u8>, NameFlags),
    ReleaseName(Seq<u8>),
    GetNameOwner(Seq<u8>),
    NameHasOwner(Seq<u8>),
    ListNames,
    ListQueuedOwners(Seq<u8>),
    AddMatch(Seq<u8>),
    RemoveMatch(Seq<u8>),
}

impl View for BusCall {
    type V = CallView;

    open spec fn view(&self) -> CallView {
        match self {
            BusCall::Hello => CallView::Hello,
            BusCall::RequestName(n, f) => CallView::RequestName(n@, *f),
            BusCall::ReleaseName(n) => CallView::ReleaseName(n@),
            BusCall::GetNameOwner(n) => CallView::GetNameOwner(n@),
            BusCall::NameHasOwner(n) => CallView::NameHasOwner(n@),
            BusCall::ListNames => CallView::ListNames,
            BusCall::ListQueuedOwners(n) => CallView::ListQueuedOwners(n@),
            BusCall::AddMatch(n) => CallView::AddMatch(n@),
            BusCall::RemoveMatch(n) => CallView::RemoveMatch(n@),
        }
    }
}

/// The flags of `RequestName`: bit 1 allows replacement, bit 2 replaces
/// the owner, bit 4 asks not to queue.
pub open spec fn flags_of(n: u32) -> NameFlags {
    NameFlags { allow_replacement: n & 1 != 0, replace_existing: n & 2 != 0, do_not_queue: n & 4 != 0 }
}

pub open spec fn m_hello() -> Seq<u8> {
    seq![72u8, 101, 108, 108, 111]
}

pub open spec fn m_request_name() -> Seq<u8> {
    seq![82u8, 101, 113, 117, 101, 115, 116, 78, 97, 109, 101]
}

pub open spec fn m_release_name() -> Seq<u8> {
    seq![82u8, 101, 108, 101, 97, 115, 101, 78, 97, 109, 101]
}

pub open spec fn m_get_name_owner() -> Seq<u8> {
    seq![71u8, 101, 116, 78, 97, 109, 101, 79, 119, 110, 101, 114]
}

pub open spec fn m_name_has_owner() -> Seq<u8> {
    seq![78u8, 97, 109, 101, 72, 97, 115, 79, 119, 110, 101, 114]
}

pub open spec fn m_list_names() -> Seq<u8> {
    seq![76u8, 105, 115, 116, 78, 97, 109, 101, 115]
}

pub open spec fn m_add_match() -> Seq<u8> {
    seq![65u8, 100, 100, 77, 97, 116, 99, 104]
}

pub open spec fn m_remove_match() -> Seq<u8> {
    seq![82u8, 101, 109, 111, 118, 101, 77, 97, 116, 99, 104]
}

pub open spec fn m_list_queued_owners() -> Seq<u8> {
    seq![76u8, 105, 115, 116, 81, 117, 101, 117, 101, 100, 79, 119, 110, 101, 114, 115]
}

/// The call that a member and body name; `None` for an unknown member or
/// arguments that do not read.
pub open spec fn call_of(member: Seq<u8>, body: Seq<u8>, e: Endian) -> Option<CallView> {
    let s = parse_str_arg(body, e, 0);
    if member == m_hello() {
        Some(CallView::Hello)
    } else if member == m_list_names() {
        Some(CallView::ListNames)
    } else if member == m_request_name() {
        match s {
            Some(a) => match parse_u32_arg(body, e, a.1) {
                Some(f) => Some(CallView::RequestName(a.0, flags_of(f.0))),
                None => None,
            },
            None => None,
        }
    } else {
        match s {
            None => None,
            Some(a) => if member == m_release_name() {
                Some(CallView::ReleaseName(a.0))
            } else if member == m_get_name_owner() {
                Some(CallView::GetNameOwner(a.0))
            } else if member == m_name_has_owner() {
                Some(CallView::NameHasOwner(a.0))
            } else if member == m_list_queued_owners() {
                Some(CallView::ListQueuedOwners(a.0))
            } else if member == m_add_match() {
                Some(CallView::AddMatch(a.0))
            } else if member == m_remove_match() {
                Some(CallView::RemoveMatch(a.0))
            } else {
                None
            },
        }
    }
}

/// Reads a call to the bus from its member and body.
pub fn parse_bus_call(member: &Vec<u8>, body: &Vec<u8>, e: Endian) -> (r: Option<BusCall>)
    ensures
        match call_of(member@, body@, e) {
            Some(c) => r matches Some(x) && x@ == c,
            None => r is None,
        },
{
    let hello: Vec<u8> = vec![72u8, 101, 108, 108, 111];
    let request: Vec<u8> = vec![82u8, 101, 113, 117, 101, 115, 116, 78, 97, 109, 101];
    let release: Vec<u8> = vec![82u8, 101, 108, 101, 97, 115, 101, 78, 97, 109, 101];
    let get_owner: Vec<u8> = vec![71u8, 101, 116, 78, 97, 109, 101, 79, 119, 110, 101, 114];
    let has_owner: Vec<u8> = vec![78u8, 97, 109, 101, 72, 97, 115, 79, 119, 110, 101, 114];
    let list: Vec<u8> = vec![76u8, 105, 115, 116, 78, 97, 109, 101, 115];
    let queued: Vec<u8> = vec![76u8, 105, 115, 116, 81, 117, 101, 117, 101, 100, 79, 119, 110, 101, 114, 115];
    assert(hello@ =~= m_hello());
    assert(request@ =~= m_request_name());
    assert(release@ =~= m_release_name());
    assert(get_owner@ =~= m_get_name_owner());
    assert(has_owner@ =~= m_name_has_owner());
    assert(list@ =~= m_list_names());
    let add: Vec<u8> = vec![65u8, 100, 100, 77, 97, 116, 99, 104];
    let remove: Vec<u8> = vec![82u8, 101, 109, 111, 118, 101, 77, 97, 116, 99, 104];
    assert(queued@ =~= m_list_queued_owners());
    assert(add@ =~= m_add_match());
    assert(remove@ =~= m_remove_match());
    let s = read_str_arg(body, e, 0);
    if bytes_eq(member, &hello) {
        Some(BusCall::Hello)
    } else if bytes_eq(member, &list) {
        Some(BusCall::ListNames)
    } else if bytes_eq(member, &request) {
        match s {
            Some((name, next)) => match read_u32_arg(body, e, next) {
                Some((f, _)) => Some(
                    BusCall::RequestName(
                        name,
                        NameFlags { allow_replacement: f & 1 != 0, replace_existing: f & 2 != 0, do_not_queue: f & 4 != 0 },
                    ),
                ),
                None => None,
            },
            None => None,
        }
    } else {
        match s {
            None => None,
            Some((name, _)) => if bytes_eq(member, &release) {
                Some(BusCall::ReleaseName(name))
            } else if bytes_eq(member, &get_owner) {
                Some(BusCall::GetNameOwner(name))
            } else if bytes_eq(member, &has_owner) {
                Some(BusCall::NameHasOwner(name))
            } else if bytes_eq(member, &queued) {
                Some(BusCall::ListQueuedOwners(name))
            } else if bytes_eq(member, &add) {
                Some(BusCall::AddMatch(name))
            } else if bytes_eq(member, &remove) {
                Some(BusCall::RemoveMatch(name))
            } else {
                None
            },
        }
    }
}

/// The routing fields of a message read from a frame, with the sender set
/// to the unique name of the connection it came from: a peer cannot choose
/// its own sender.
pub open spec fn header_of(h: FixedHeader, f: FieldsView, sender: Seq<u8>, args: Seq<Seq<u8>>) -> HeaderView {
    HeaderView {
        msg_type: h.msg_type,
        serial: h.serial,
        sender: Some(sender),
        destination: f.destination,
        path: f.path,
        interface: f.interface,
        member: f.member,
        error_name: f.error_name,
        reply_serial: f.reply_serial,
        args,
    }
}

/// Reads the header of a frame that `split_frame` took apart, and checks
/// its body signature.
pub fn read_header(frame: &Frame, sender: &Vec<u8>) -> (r: Result<(Header, Fields), CodecError>)
    ensures
        match parse_fields(frame.fields@, frame.header.endian, 0, no_fields()) {
            Ok(f) if signature_check(sig_of(f)) is Err => r == Err::<(Header, Fields), CodecError>(
                signature_check(sig_of(f))->Err_0,
            ),
            Ok(f) => r matches Ok(x) && x.1@ == f && x.0@ == header_of(
                frame.header,
                f,
                sender@,
                string_args(
                    match f.signature {
                        Some(g) => g,
                        None => Seq::empty(),
                    },
                    frame.body@,
                    frame.header.endian,
                    0,
                    0,
                ),
            ),
            Err(err) => r is Err && r == Err::<(Header, Fields), CodecError>(err),
        },
{
    match decode_fields(&frame.fields, frame.header.endian) {
        Err(err) => Err(err),
        Ok(f) => {
            let sig = match &f.signature {
                Some(g) => crate::bytes::copy_bytes(g),
                None => Vec::new(),
            };
            match check_signature(&sig) {
                Err(err) => return Err(err),
                Ok(()) => {},
            }
            let args = read_string_args(&sig, &frame.body, frame.header.endian);
            let h = Header {
                msg_type: frame.header.msg_type,
                serial: frame.header.serial,
                sender: Some(copy_bytes(sender)),
                destination: copy_opt(&f.destination),
                path: copy_opt(&f.path),
                interface: copy_opt(&f.interface),
                member: copy_opt(&f.member),
                error_name: copy_opt(&f.error_name),
                reply_serial: f.reply_serial,
                args,
            };
            Ok((h, f))
        },
    }
}

/// The body signature that header fields give; none means an empty body.
pub open spec fn sig_of(f: FieldsView) -> Seq<u8> {
    match f.signature {
        Some(g) => g,
        None => Seq::empty(),
    }
}

pub open spec fn fits(o: Option<Seq<u8>>) -> bool {
    o matches Some(v) ==> v.len() < 0x1_0000_0000
}

/// The header fields that carry a header and a body signature.
pub open spec fn fields_for(h: HeaderView, signature: Seq<u8>) -> FieldsView {
    FieldsView {
        path: h.path,
        interface: h.interface,
        member: h.member,
        error_name: h.error_name,
        reply_serial: h.reply_serial,
        destination: h.destination,
        sender: h.sender,
        signature: if signature.len() == 0 { None } else { Some(signature) },
        unix_fds: None,
    }
}

/// What `encode_message` needs: every string field, the header-field array
/// and the body fit 32-bit lengths, and the signature fits one byte.
pub open spec fn encodable_spec(h: HeaderView, signature: Seq<u8>, body: Seq<u8>, e: Endian) -> bool {
    &&& fits(h.path)
    &&& fits(h.interface)
    &&& fits(h.member)
    &&& fits(h.error_name)
    &&& fits(h.destination)
    &&& fits(h.sender)
    &&& signature.len() < 256
    &&& body.len() < 0x1_0000_0000
    &&& fields_bytes(e, fields_for(h, signature)).len() < 0x1_0000_0000
}

fn fits_exec(o: &Option<Vec<u8>>) -> (r: bool)
    ensures
        r == fits(opt_bytes(*o)),
{
    match o {
        Some(v) => (v.len() as u64) < 0x1_0000_0000u64,
        None => true,
    }
}

/// Whether `encode_message` can take these arguments.
pub fn encodable(h: &Header, signature: &Vec<u8>, body: &Vec<u8>, e: Endian) -> (r: bool)
    ensures
        r == encodable_spec(h@, signature@, body@, e),
{
    if !(fits_exec(&h.path) && fits_exec(&h.interface) && fits_exec(&h.member) && fits_exec(&h.error_name)
        && fits_exec(&h.destination) && fits_exec(&h.sender) && signature.len() < 256
        && (body.len() as u64) < 0x1_0000_0000u64) {
        return false;
    }
    let f = Fields {
        path: copy_opt(&h.path),
        interface: copy_opt(&h.interface),
        member: copy_opt(&h.member),
        error_name: copy_opt(&h.error_name),
        reply_serial: h.reply_serial,
        destination: copy_opt(&h.destination),
        sender: copy_opt(&h.sender),
        signature: if signature.len() == 0 { None } else { Some(copy_bytes(signature)) },
        unix_fds: None,
    };
    assert(f@ == fields_for(h@, signature@));
    let fb = encode_fields(&f, e);
    (fb.len() as u64) < 0x1_0000_0000u64
}

/// Writes a whole message in byte order `e` with header flags `flags`: its
/// frame with the header fields of `h`, the body signature and the body
/// (already in that order).
pub fn encode_message(h: &Header, signature: &Vec<u8>, body: &Vec<u8>, e: Endian, flags: u8) -> (r: Vec<u8>)
    requires
        encodable_spec(h@, signature@, body@, e),
    ensures
        r@ == frame_bytes(
            FixedHeader {
                endian: e,
                msg_type: h.msg_type,
                flags,
                body_len: body@.len() as u32,
                serial: h.serial,
                fields_len: fields_bytes(e, fields_for(h@, signature@)).len() as u32,
            },
            fields_bytes(e, fields_for(h@, signature@)),
            body@,
        ),
{
    let f = Fields {
        path: copy_opt(&h.path),
        interface: copy_opt(&h.interface),
        member: copy_opt(&h.member),
        error_name: copy_opt(&h.error_name),
        reply_serial: h.reply_serial,
        destination: copy_opt(&h.destination),
        sender: copy_opt(&h.sender),
        signature: if signature.len() == 0 { None } else { Some(copy_bytes(signature)) },
        unix_fds: None,
    };
    assert(f@ == fields_for(h@, signature@));
    let fb = encode_fields(&f, e);
    let fixed = FixedHeader {
        endian: e,
        msg_type: h.msg_type,
        flags,
        body_len: body.len() as u32,
        serial: h.serial,
        fields_len: fb.len() as u32,
    };
    encode_frame(&fixed, &fb, body)
}

/// The fixed header that `encode_message` writes for `h`.
pub open spec fn fixed_for(h: HeaderView, signature: Seq<u8>, body: Seq<u8>, e: Endian, flags: u8) -> FixedHeader {
    FixedHeader {
        endian: e,
        msg_type: h.msg_type,
        flags,
        body_len: body.len() as u32,
        serial: h.serial,
        fields_len: fields_bytes(e, fields_for(h, signature)).len() as u32,
    }
}

/// A message written by `encode_message` and read back by `split_frame` and
/// `read_header` has the same header, signature and body; only the sender
/// is the one the reading side gives.
pub proof fn lemma_message_round_trip(h: HeaderView, signature: Seq<u8>, body: Seq<u8>, max: nat, sender: Seq<u8>, e: Endian, flags: u8)
    requires
        fits(h.path),
        fits(h.interface),
        fits(h.member),
        fits(h.error_name),
        fits(h.destination),
        fits(h.sender),
        signature.len() < 256,
        body.len() < 0x1_0000_0000,
        fields_bytes(e, fields_for(h, signature)).len() < 0x1_0000_0000,
        frame_len(fixed_for(h, signature, body, e, flags)) <= max,
    ensures
        parse_frame(
            frame_bytes(fixed_for(h, signature, body, e, flags), fields_bytes(e, fields_for(h, signature)), body),
            max,
        ) == Ok::<(FixedHeader, Seq<u8>, Seq<u8>), CodecError>(
            (fixed_for(h, signature, body, e, flags), fields_bytes(e, fields_for(h, signature)), body),
        ),
        parse_fields(fields_bytes(e, fields_for(h, signature)), e, 0, no_fields())
            == Ok::<FieldsView, CodecError>(fields_for(h, signature)),
        header_of(fixed_for(h, signature, body, e, flags), fields_for(h, signature), sender, h.args) == (HeaderView {
            sender: Some(sender),
            ..h
        }),
{
    let fx = fixed_for(h, signature, body, e, flags);
    let fb = fields_bytes(e, fields_for(h, signature));
    lemma_frame_round_trip(fx, fb, body, max);
    lemma_fields_round_trip(e, fields_for(h, signature));
}

} // verus!
