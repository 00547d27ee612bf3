//! What the bus sends: its answers to calls addressed to it, the signals
//! that announce owner changes, and the failures of calls whose callee left.
//! Message serials are stamped by the sender at the moment of sending; the
//! headers built here carry serial 0.
use vstd::prelude::*;
use crate::bus::{BusState, PeerView, Route, bus_name, bus_name_bytes, is_peer, name_owner};
use crate::calls::{BusCall, CallView};
use crate::matching::wants;
use crate::message::{Header, HeaderView, MessageType, opt_bytes};
use crate::names::{
    OwnerChange, ReleaseReply, RequestReply, change_of, opt_change_view, owned_names, queued_owners, release_step,
    request_step, slot_of,
};
use crate::matching::RuleView;
use crate::rules::{parse_rule, rule_of};
use crate::unique::{unique_name, unique_name_of};
use crate::body::{append_str_args, str_args, str_args_onto, str_array, write_str_args, write_str_array, write_u32_arg};
use crate::codec::{Endian, u32_bytes};

verus! {

/// The errors the bus answers with.
#[derive(Clone, Copy, Debug, PartialEq, Eq, Structural)]
pub enum BusError {
    AccessDenied,
    Failed,
    UnknownMethod,
    MatchRuleInvalid,
    MatchRuleNotFound,
    NameHasNoOwner,
    LimitsExceeded,
    Disconnected,
    InvalidArgs,
}

/// The name under which an error travels: `org.freedesktop.DBus.Error.` and the variant.
pub open spec fn error_name(e: BusError) -> Seq<u8> {
    match e {
        BusError::AccessDenied => seq![111u8, 114, 103, 46, 102, 114, 101, 101, 100, 101, 115, 107, 116, 111, 112, 46, 68, 66, 117, 115, 46, 69, 114, 114, 111, 114, 46, 65, 99, 99, 101, 115, 115, 68, 101, 110, 105, 101, 100],
        BusError::Failed => seq![111u8, 114, 103, 46, 102, 114, 101, 101, 100, 101, 115, 107, 116, 111, 112, 46, 68, 66, 117, 115, 46, 69, 114, 114, 111, 114, 46, 70, 97, 105, 108, 101, 100],
        BusError::UnknownMethod => seq![111u8, 114, 103, 46, 102, 114, 101, 101, 100, 101, 115, 107, 116, 111, 112, 46, 68, 66, 117, 115, 46, 69, 114, 114, 111, 114, 46, 85, 110, 107, 110, 111, 119, 110, 77, 101, 116, 104, 111, 100],
        BusError::MatchRuleInvalid => seq![111u8, 114, 103, 46, 102, 114, 101, 101, 100, 101, 115, 107, 116, 111, 112, 46, 68, 66, 117, 115, 46, 69, 114, 114, 111, 114, 46, 77, 97, 116, 99, 104, 82, 117, 108, 101, 73, 110, 118, 97, 108, 105, 100],
        BusError::MatchRuleNotFound => seq![111u8, 114, 103, 46, 102, 114, 101, 101, 100, 101, 115, 107, 116, 111, 112, 46, 68, 66, 117, 115, 46, 69, 114, 114, 111, 114, 46, 77, 97, 116, 99, 104, 82, 117, 108, 101, 78, 111, 116, 70, 111, 117, 110, 100],
        BusError::NameHasNoOwner => seq![111u8, 114, 103, 46, 102, 114, 101, 101, 100, 101, 115, 107, 116, 111, 112, 46, 68, 66, 117, 115, 46, 69, 114, 114, 111, 114, 46, 78, 97, 109, 101, 72, 97, 115, 78, 111, 79, 119, 110, 101, 114],
        BusError::LimitsExceeded => seq![111u8, 114, 103, 46, 102, 114, 101, 101, 100, 101, 115, 107, 116, 111, 112, 46, 68, 66, 117, 115, 46, 69, 114, 114, 111, 114, 46, 76, 105, 109, 105, 116, 115, 69, 120, 99, 101, 101, 100, 101, 100],
        BusError::InvalidArgs => seq![111u8, 114, 103, 46, 102, 114, 101, 101, 100, 101, 115, 107, 116, 111, 112, 46, 68, 66, 117, 115, 46, 69, 114, 114, 111, 114, 46, 73, 110, 118, 97, 108, 105, 100, 65, 114, 103, 115],
        BusError::Disconnected => seq![111u8, 114, 103, 46, 102, 114, 101, 101, 100, 101, 115, 107, 116, 111, 112, 46, 68, 66, 117, 115, 46, 69, 114, 114, 111, 114, 46, 68, 105, 115, 99, 111, 110, 110, 101, 99, 116, 101, 100],
    }
}

pub fn error_name_bytes(e: BusError) -> (r: Vec<u8>)
    ensures
        r@ == error_name(e),
{
    let r: Vec<u8> = match e {
        BusError::AccessDenied => vec![111u8, 114, 103, 46, 102, 114, 101, 101, 100, 101, 115, 107, 116, 111, 112, 46, 68, 66, 117, 115, 46, 69, 114, 114, 111, 114, 46, 65, 99, 99, 101, 115, 115, 68, 101, 110, 105, 101, 100],
        BusError::Failed => vec![111u8, 114, 103, 46, 102, 114, 101, 101, 100, 101, 115, 107, 116, 111, 112, 46, 68, 66, 117, 115, 46, 69, 114, 114, 111, 114, 46, 70, 97, 105, 108, 101, 100],
        BusError::UnknownMethod => vec![111u8, 114, 103, 46, 102, 114, 101, 101, 100, 101, 115, 107, 116, 111, 112, 46, 68, 66, 117, 115, 46, 69, 114, 114, 111, 114, 46, 85, 110, 107, 110, 111, 119, 110, 77, 101, 116, 104, 111, 100],
        BusError::MatchRuleInvalid => vec![111u8, 114, 103, 46, 102, 114, 101, 101, 100, 101, 115, 107, 116, 111, 112, 46, 68, 66, 117, 115, 46, 69, 114, 114, 111, 114, 46, 77, 97, 116, 99, 104, 82, 117, 108, 101, 73, 110, 118, 97, 108, 105, 100],
        BusError::MatchRuleNotFound => vec![111u8, 114, 103, 46, 102, 114, 101, 101, 100, 101, 115, 107, 116, 111, 112, 46, 68, 66, 117, 115, 46, 69, 114, 114, 111, 114, 46, 77, 97, 116, 99, 104, 82, 117, 108, 101, 78, 111, 116, 70, 111, 117, 110, 100],
        BusError::NameHasNoOwner => vec![111u8, 114, 103, 46, 102, 114, 101, 101, 100, 101, 115, 107, 116, 111, 112, 46, 68, 66, 117, 115, 46, 69, 114, 114, 111, 114, 46, 78, 97, 109, 101, 72, 97, 115, 78, 111, 79, 119, 110, 101, 114],
        BusError::LimitsExceeded => vec![111u8, 114, 103, 46, 102, 114, 101, 101, 100, 101, 115, 107, 116, 111, 112, 46, 68, 66, 117, 115, 46, 69, 114, 114, 111, 114, 46, 76, 105, 109, 105, 116, 115, 69, 120, 99, 101, 101, 100, 101, 100],
        BusError::InvalidArgs => vec![111u8, 114, 103, 46, 102, 114, 101, 101, 100, 101, 115, 107, 116, 111, 112, 46, 68, 66, 117, 115, 46, 69, 114, 114, 111, 114, 46, 73, 110, 118, 97, 108, 105, 100, 65, 114, 103, 115],
        BusError::Disconnected => vec![111u8, 114, 103, 46, 102, 114, 101, 101, 100, 101, 115, 107, 116, 111, 112, 46, 68, 66, 117, 115, 46, 69, 114, 114, 111, 114, 46, 68, 105, 115, 99, 111, 110, 110, 101, 99, 116, 101, 100],
    };
    assert(r@ =~= error_name(e));
    r
}

pub open spec fn m_name_owner_changed() -> Seq<u8> {
    seq![78u8, 97, 109, 101, 79, 119, 110, 101, 114, 67, 104, 97, 110, 103, 101, 100]
}

fn m_name_owner_changed_bytes() -> (r: Vec<u8>)
    ensures
        r@ == m_name_owner_changed(),
{
    let r: Vec<u8> = vec![78u8, 97, 109, 101, 79, 119, 110, 101, 114, 67, 104, 97, 110, 103, 101, 100];
    assert(r@ =~= m_name_owner_changed());
    r
}

pub open spec fn m_name_lost() -> Seq<u8> {
    seq![78u8, 97, 109, 101, 76, 111, 115, 116]
}

fn m_name_lost_bytes() -> (r: Vec<u8>)
    ensures
        r@ == m_name_lost(),
{
    let r: Vec<u8> = vec![78u8, 97, 109, 101, 76, 111, 115, 116];
    assert(r@ =~= m_name_lost());
    r
}

pub open spec fn m_name_acquired() -> Seq<u8> {
    seq![78u8, 97, 109, 101, 65, 99, 113, 117, 105, 114, 101, 100]
}

fn m_name_acquired_bytes() -> (r: Vec<u8>)
    ensures
        r@ == m_name_acquired(),
{
    let r: Vec<u8> = vec![78u8, 97, 109, 101, 65, 99, 113, 117, 105, 114, 101, 100];
    assert(r@ =~= m_name_acquired());
    r
}

pub open spec fn bus_path() -> Seq<u8> {
    seq![47u8, 111, 114, 103, 47, 102, 114, 101, 101, 100, 101, 115, 107, 116, 111, 112, 47, 68, 66, 117, 115]
}

fn bus_path_bytes() -> (r: Vec<u8>)
    ensures
        r@ == bus_path(),
{
    let r: Vec<u8> = vec![47u8, 111, 114, 103, 47, 102, 114, 101, 101, 100, 101, 115, 107, 116, 111, 112, 47, 68, 66, 117, 115];
    assert(r@ =~= bus_path());
    r
}

/// The body of an outgoing message, by its arguments.
#[derive(Debug)]
pub enum Body {
    Empty,
    /// One string (`s`).
    Str(Vec<u8>),
    /// Several strings (`s` repeated).
    Strs(Vec<Vec<u8>>),
    U32(u32),
    Bool(bool),
    /// An array of strings (`as`).
    Names(Vec<Vec<u8>>),
}

pub enum BodyView {
    Empty,
    Str(Seq<u8>),
    Strs(Seq<Seq<u8>>),
    U32(u32),
    Bool(bool),
    Names(Seq<Seq<u8>>),
}

impl View for Body {
    type V = BodyView;

    open spec fn view(&self) -> BodyView {
        match self {
            Body::Empty => BodyView::Empty,
            Body::Str(s) => BodyView::Str(s@),
            Body::Strs(v) => BodyView::Strs(v@.map_values(|x: Vec<u8>| x@)),
            Body::U32(n) => BodyView::U32(*n),
            Body::Bool(b) => BodyView::Bool(*b),
            Body::Names(v) => BodyView::Names(v@.map_values(|x: Vec<u8>| x@)),
        }
    }
}

/// A message for connection `to`. A droppable one (a broadcast) may be
/// dropped when that connection's queue is full; the others wait for room.
#[derive(Debug)]
pub struct Outgoing {
    pub to: u64,
    pub droppable: bool,
    pub header: Header,
    pub body: Body,
}

pub struct OutView {
    pub to: u64,
    pub droppable: bool,
    pub header: HeaderView,
    pub body: BodyView,
}

impl View for Outgoing {
    type V = OutView;

    open spec fn view(&self) -> OutView {
        OutView { to: self.to, droppable: self.droppable, header: self.header@, body: self.body@ }
    }
}

/// The header of the bus's answer to the call `call` from connection `c`.
pub open spec fn reply_header(c: u64, call: HeaderView, err: Option<BusError>) -> HeaderView {
    HeaderView {
        msg_type: if err is Some { MessageType::Error } else { MessageType::MethodReturn },
        serial: 0,
        sender: Some(bus_name()),
        destination: Some(unique_name_of(c as nat)),
        path: None,
        interface: None,
        member: None,
        error_name: match err {
            Some(e) => Some(error_name(e)),
            None => None,
        },
        reply_serial: Some(call.serial),
        args: Seq::empty(),
    }
}

/// The answer to `call` from `c`: a return with a body, or an error.
pub open spec fn reply_to(c: u64, call: HeaderView, res: Result<BodyView, BusError>) -> OutView {
    match res {
        Ok(b) => OutView { to: c, droppable: false, header: reply_header(c, call, None), body: b },
        Err(e) => OutView { to: c, droppable: false, header: reply_header(c, call, Some(e)), body: BodyView::Empty },
    }
}

pub open spec fn request_code(r: RequestReply) -> u32 {
    match r {
        RequestReply::PrimaryOwner => 1,
        RequestReply::InQueue => 2,
        RequestReply::Exists => 3,
        RequestReply::AlreadyOwner => 4,
    }
}

pub open spec fn release_code(r: ReleaseReply) -> u32 {
    match r {
        ReleaseReply::Released => 1,
        ReleaseReply::NonExistent => 2,
        ReleaseReply::NotOwner => 3,
    }
}

pub open spec fn has_rule(s: &BusState, c: u64, r: RuleView) -> bool {
    exists|i: int| 0 <= i < s.rules_view().len() && s.rules_view()[i].conn == c && s.rules_view()[i].rule == r
}

/// What the bus answers a registered connection `c` for a call other than `Hello`.
pub open spec fn answer(s: &BusState, c: u64, call: CallView) -> Result<BodyView, BusError> {
    match call {
        CallView::Hello => Err(BusError::Failed),
        CallView::RequestName(n, f) => Ok(BodyView::U32(request_code(request_step(slot_of(s.names_view(), n), c, f).1))),
        CallView::ReleaseName(n) => Ok(BodyView::U32(release_code(release_step(slot_of(s.names_view(), n), c).1))),
        CallView::GetNameOwner(n) => match name_owner(s.peers_view(), s.names_view(), n) {
            Some(o) => Ok(BodyView::Str(o)),
            None => Err(BusError::NameHasNoOwner),
        },
        CallView::NameHasOwner(n) => Ok(BodyView::Bool(name_owner(s.peers_view(), s.names_view(), n) is Some)),
        CallView::ListNames => Ok(
            BodyView::Names(
                seq![bus_name()] + s.peers_view().map_values(|p: PeerView| p.name) + owned_names(s.names_view()),
            ),
        ),
        CallView::ListQueuedOwners(n) => {
            let q = queued_owners(slot_of(s.names_view(), n));
            if q.len() == 0 {
                Err(BusError::NameHasNoOwner)
            } else {
                Ok(BodyView::Names(q.map_values(|x: u64| unique_name_of(x as nat))))
            }
        },
        CallView::AddMatch(t) => match rule_of(t) {
            None => Err(BusError::MatchRuleInvalid),
            Some(_) => if s.rules_next() < u64::MAX {
                Ok(BodyView::Empty)
            } else {
                Err(BusError::LimitsExceeded)
            },
        },
        CallView::RemoveMatch(t) => match rule_of(t) {
            None => Err(BusError::MatchRuleInvalid),
            Some(r) => if has_rule(s, c, r) {
                Ok(BodyView::Empty)
            } else {
                Err(BusError::MatchRuleNotFound)
            },
        },
    }
}

pub open spec fn opt_call(c: Option<BusCall>) -> Option<CallView> {
    match c {
        Some(x) => Some(x@),
        None => None,
    }
}

fn make_reply(c: u64, h: &Header, res: Result<Body, BusError>) -> (r: Outgoing)
    ensures
        r@ == reply_to(
            c,
            h@,
            match res {
                Ok(b) => Ok(b@),
                Err(e) => Err(e),
            },
        ),
{
    let (err, body) = match res {
        Ok(b) => (None, b),
        Err(e) => (Some(e), Body::Empty),
    };
    let header = Header {
        msg_type: if err.is_some() { MessageType::Error } else { MessageType::MethodReturn },
        serial: 0,
        sender: Some(bus_name_bytes()),
        destination: Some(unique_name(c)),
        path: None,
        interface: None,
        member: None,
        error_name: match err {
            Some(e) => Some(error_name_bytes(e)),
            None => None,
        },
        reply_serial: Some(h.serial),
        args: Vec::new(),
    };
    assert(header@.args =~= Seq::<Seq<u8>>::empty());
    Outgoing { to: c, droppable: false, header, body }
}

fn unique_names_of(v: &Vec<u64>) -> (r: Vec<Vec<u8>>)
    ensures
        r@.map_values(|x: Vec<u8>| x@) == v@.map_values(|x: u64| unique_name_of(x as nat)),
{
    let mut out: Vec<Vec<u8>> = Vec::new();
    let mut i: usize = 0;
    while i < v.len()
        invariant
            0 <= i <= v@.len(),
            out@.map_values(|x: Vec<u8>| x@) == v@.subrange(0, i as int).map_values(|x: u64| unique_name_of(x as nat)),
        decreases v@.len() - i,
    {
        let ghost prev = out@;
        let nm = unique_name(v[i]);
        out.push(nm);
        assert(out@.map_values(|x: Vec<u8>| x@) =~= prev.map_values(|x: Vec<u8>| x@).push(nm@));
        assert(v@.subrange(0, i + 1).map_values(|x: u64| unique_name_of(x as nat)) =~= v@.subrange(0, i as int).map_values(
            |x: u64| unique_name_of(x as nat),
        ).push(nm@));
        i = i + 1;
    }
    assert(v@.subrange(0, v@.len() as int) =~= v@);
    out
}

impl BusState {
    /// Handles a call addressed to the bus from the connection numbered
    /// `conn` (none before `Hello`). Returns the connection's number after
    /// the call, the answer to send (none where the connection has no number
    /// to be reached at) and the owner changes the call caused.
    pub fn call_bus(&mut self, conn: Option<u64>, h: &Header, call: Option<BusCall>) -> (r: (Option<u64>, Option<Outgoing>, Vec<OwnerChange>))
        requires
            old(self).wf(),
        ensures
            final(self).wf(),
            final(self).next() == old(self).next() || (r.0 == Some(old(self).next()) && final(self).next() == old(self).next() + 1),
            match (opt_call(call), conn) {
                (Some(CallView::Hello), None) => if old(self).next() < u64::MAX {
                    &&& r.0 == Some(old(self).next())
                    &&& r.1 matches Some(o) && o@ == reply_to(
                        old(self).next(),
                        h@,
                        Ok(BodyView::Str(unique_name_of(old(self).next() as nat))),
                    )
                    &&& r.2@.len() == 0
                } else {
                    r.0 is None && r.1 is None && r.2@.len() == 0
                },
                (_, None) => r.0 is None && r.1 is None && r.2@.len() == 0 && *final(self) == *old(self),
                (None, Some(c)) => {
                    &&& r.0 == conn
                    &&& r.2@.len() == 0
                    &&& r.1 matches Some(o) && o@ == reply_to(c, h@, Err(BusError::UnknownMethod))
                },
                (Some(cv), Some(c)) => {
                    &&& r.0 == conn
                    &&& r.1 matches Some(o) && o@ == reply_to(c, h@, answer(old(self), c, cv))
                    &&& match cv {
                        CallView::RequestName(n, f) => {
                            &&& slot_of(final(self).names_view(), n) == request_step(slot_of(old(self).names_view(), n), c, f).0
                            &&& r.2@.map_values(|x: OwnerChange| x@) == opt_seq(change_of(
                                n,
                                slot_of(old(self).names_view(), n),
                                request_step(slot_of(old(self).names_view(), n), c, f).0,
                            ))
                        },
                        CallView::ReleaseName(n) => {
                            &&& slot_of(final(self).names_view(), n) == release_step(slot_of(old(self).names_view(), n), c).0
                            &&& r.2@.map_values(|x: OwnerChange| x@) == opt_seq(change_of(
                                n,
                                slot_of(old(self).names_view(), n),
                                release_step(slot_of(old(self).names_view(), n), c).0,
                            ))
                        },
                        CallView::AddMatch(t) => r.2@.len() == 0 && match (rule_of(t), answer(old(self), c, cv)) {
                            (Some(rv), Ok(_)) => final(self).rules_view() == old(self).rules_view().push(
                                crate::matching::SubView { conn: c, id: old(self).rules_next(), rule: rv },
                            ),
                            _ => final(self).rules_view() == old(self).rules_view(),
                        },
                        CallView::RemoveMatch(t) => r.2@.len() == 0 && match rule_of(t) {
                            Some(rv) => has_rule(old(self), c, rv) ==> exists|i: int|
                                0 <= i < old(self).rules_view().len() && old(self).rules_view()[i].conn == c
                                    && old(self).rules_view()[i].rule == rv && final(self).rules_view()
                                    == old(self).rules_view().remove(i),
                            None => final(self).rules_view() == old(self).rules_view(),
                        },
                        _ => r.2@.len() == 0 && *final(self) == *old(self),
                    }
                },
            },
    {
        let c = match conn {
            None => {
                match call {
                    Some(BusCall::Hello) => match self.hello() {
                        Some((id, name)) => {
                            let o = make_reply(id, h, Ok(Body::Str(name)));
                            return (Some(id), Some(o), Vec::new());
                        },
                        None => return (None, None, Vec::new()),
                    },
                    _ => return (None, None, Vec::new()),
                }
            },
            Some(c) => c,
        };
        let ghost s0 = *self;
        let mut changes: Vec<OwnerChange> = Vec::new();
        let res: Result<Body, BusError> = match call {
            None => Err(BusError::UnknownMethod),
            Some(BusCall::Hello) => Err(BusError::Failed),
            Some(BusCall::RequestName(n, f)) => {
                let (rep, ch) = self.request_name(c, &n, f);
                match ch {
                    Some(x) => changes.push(x),
                    None => {},
                }
                assert(changes@.map_values(|x: OwnerChange| x@) =~= opt_seq(opt_change_view(ch)));
                Ok(
                    Body::U32(
                        match rep {
                            RequestReply::PrimaryOwner => 1,
                            RequestReply::InQueue => 2,
                            RequestReply::Exists => 3,
                            RequestReply::AlreadyOwner => 4,
                        },
                    ),
                )
            },
            Some(BusCall::ReleaseName(n)) => {
                let (rep, ch) = self.release_name(c, &n);
                match ch {
                    Some(x) => changes.push(x),
                    None => {},
                }
                assert(changes@.map_values(|x: OwnerChange| x@) =~= opt_seq(opt_change_view(ch)));
                Ok(
                    Body::U32(
                        match rep {
                            ReleaseReply::Released => 1,
                            ReleaseReply::NonExistent => 2,
                            ReleaseReply::NotOwner => 3,
                        },
                    ),
                )
            },
            Some(BusCall::GetNameOwner(n)) => match self.get_name_owner(&n) {
                Some(o) => Ok(Body::Str(o)),
                None => Err(BusError::NameHasNoOwner),
            },
            Some(BusCall::NameHasOwner(n)) => Ok(Body::Bool(self.get_name_owner(&n).is_some())),
            Some(BusCall::ListNames) => Ok(Body::Names(self.list_names())),
            Some(BusCall::ListQueuedOwners(n)) => {
                let q = self.list_queued_owners(&n);
                if q.len() == 0 {
                    Err(BusError::NameHasNoOwner)
                } else {
                    Ok(Body::Names(unique_names_of(&q)))
                }
            },
            Some(BusCall::AddMatch(t)) => match parse_rule(&t) {
                None => Err(BusError::MatchRuleInvalid),
                Some(rule) => match self.add_match(c, rule) {
                    Some(_) => Ok(Body::Empty),
                    None => Err(BusError::LimitsExceeded),
                },
            },
            Some(BusCall::RemoveMatch(t)) => match parse_rule(&t) {
                None => Err(BusError::MatchRuleInvalid),
                Some(rule) => if self.remove_rule(c, &rule) {
                    Ok(Body::Empty)
                } else {
                    Err(BusError::MatchRuleNotFound)
                },
            },
        };
        let o = make_reply(c, h, res);
        (conn, Some(o), changes)
    }
}

pub open spec fn opt_seq(o: Option<crate::names::ChangeView>) -> Seq<crate::names::ChangeView> {
    match o {
        Some(c) => seq![c],
        None => Seq::empty(),
    }
}

/// A signal from the bus with the given member, destination and string
/// arguments (the header carries them so that argument filters can see them).
pub open spec fn bus_signal(member: Seq<u8>, destination: Option<Seq<u8>>, args: Seq<Seq<u8>>) -> HeaderView {
    HeaderView {
        msg_type: MessageType::Signal,
        serial: 0,
        sender: Some(bus_name()),
        destination,
        path: Some(bus_path()),
        interface: Some(bus_name()),
        member: Some(member),
        error_name: None,
        reply_serial: None,
        args,
    }
}

/// The arguments of `NameOwnerChanged`: the name, the old owner, the new one.
pub open spec fn change_args(c: crate::names::ChangeView) -> Seq<Seq<u8>> {
    seq![c.name, owner_text(c.old_owner), owner_text(c.new_owner)]
}

/// An owner in the text of `NameOwnerChanged`: its unique name, or empty.
pub open spec fn owner_text(o: Option<u64>) -> Seq<u8> {
    match o {
        Some(c) => unique_name_of(c as nat),
        None => Seq::empty(),
    }
}

/// The messages sent straight to the two owners of a change: `NameLost` to
/// the old one, then `NameAcquired` to the new one.
pub open spec fn direct_notices(c: crate::names::ChangeView) -> Seq<OutView> {
    let lost = match c.old_owner {
        Some(o) => seq![OutView {
            to: o,
            droppable: false,
            header: bus_signal(m_name_lost(), Some(unique_name_of(o as nat)), seq![c.name]),
            body: BodyView::Str(c.name),
        }],
        None => Seq::empty(),
    };
    let acquired = match c.new_owner {
        Some(n) => seq![OutView {
            to: n,
            droppable: false,
            header: bus_signal(m_name_acquired(), Some(unique_name_of(n as nat)), seq![c.name]),
            body: BodyView::Str(c.name),
        }],
        None => Seq::empty(),
    };
    lost + acquired
}

fn signal_header(member: Vec<u8>, destination: Option<Vec<u8>>, args: Vec<Vec<u8>>) -> (r: Header)
    ensures
        r@ == bus_signal(member@, opt_bytes(destination), args@.map_values(|a: Vec<u8>| a@)),
{
    let h = Header {
        msg_type: MessageType::Signal,
        serial: 0,
        sender: Some(bus_name_bytes()),
        destination,
        path: Some(bus_path_bytes()),
        interface: Some(bus_name_bytes()),
        member: Some(member),
        error_name: None,
        reply_serial: None,
        args,
    };
    h
}

fn change_args_bytes(c: &OwnerChange) -> (r: Vec<Vec<u8>>)
    ensures
        r@.map_values(|a: Vec<u8>| a@) == change_args(c@),
{
    let r: Vec<Vec<u8>> = vec![crate::bytes::copy_bytes(&c.name), owner_text_bytes(c.old_owner), owner_text_bytes(c.new_owner)];
    assert(r@.map_values(|a: Vec<u8>| a@) =~= change_args(c@));
    r
}

fn name_arg(c: &OwnerChange) -> (r: Vec<Vec<u8>>)
    ensures
        r@.map_values(|a: Vec<u8>| a@) == seq![c.name@],
{
    let r: Vec<Vec<u8>> = vec![crate::bytes::copy_bytes(&c.name)];
    assert(r@.map_values(|a: Vec<u8>| a@) =~= seq![c.name@]);
    r
}

fn owner_text_bytes(o: Option<u64>) -> (r: Vec<u8>)
    ensures
        r@ == owner_text(o),
{
    match o {
        Some(c) => unique_name(c),
        None => Vec::new(),
    }
}

impl BusState {
    /// The messages that announce an owner change: `NameOwnerChanged(name,
    /// old, new)` to every live connection with a rule that accepts it, each
    /// once, then `NameLost` and `NameAcquired` to the two owners.
    pub fn owner_change_signals(&self, c: &OwnerChange) -> (r: Vec<Outgoing>)
        requires
            self.wf(),
        ensures
            r@.len() >= direct_notices(c@).len(),
            ({
                let k = r@.len() - direct_notices(c@).len();
                let sig = bus_signal(m_name_owner_changed(), None, change_args(c@));
                &&& forall|i: int| 0 <= i < k ==> (#[trigger] r@[i])@ == (OutView {
                    to: r@[i].to,
                    droppable: true,
                    header: sig,
                    body: BodyView::Strs(seq![c.name@, owner_text(c.old_owner), owner_text(c.new_owner)]),
                })
                &&& forall|x: u64| (exists|i: int| 0 <= i < k && r@[i].to == x) <==> is_peer(self.peers_view(), x) && wants(
                    self.rules_view(),
                    x,
                    sig,
                )
                &&& forall|i: int, j: int| 0 <= i < j < k ==> r@[i].to != r@[j].to
                &&& forall|i: int| 0 <= i < direct_notices(c@).len() ==> (#[trigger] r@[k + i])@ == direct_notices(c@)[i]
            }),
    {
        let h = signal_header(m_name_owner_changed_bytes(), None, change_args_bytes(c));
        let v = match self.route(&h) {
            Route::Broadcast(v) => v,
            _ => Vec::new(),
        };
        let ghost body = BodyView::Strs(seq![c.name@, owner_text(c.old_owner), owner_text(c.new_owner)]);
        let ghost sig = bus_signal(m_name_owner_changed(), None, change_args(c@));
        assert(v@.no_duplicates());
        assert(forall|x: u64| v@.contains(x) <==> is_peer(self.peers_view(), x) && wants(self.rules_view(), x, sig));
        let mut out: Vec<Outgoing> = Vec::new();
        let mut i: usize = 0;
        while i < v.len()
            invariant
                0 <= i <= v@.len(),
                out@.len() == i,
                body == BodyView::Strs(seq![c.name@, owner_text(c.old_owner), owner_text(c.new_owner)]),
                sig == bus_signal(m_name_owner_changed(), None, change_args(c@)),
                forall|j: int| 0 <= j < i ==> (#[trigger] out@[j])@ == (OutView { to: v@[j], droppable: true, header: sig, body }),
            decreases v@.len() - i,
        {
            let args: Vec<Vec<u8>> = vec![
                crate::bytes::copy_bytes(&c.name),
                owner_text_bytes(c.old_owner),
                owner_text_bytes(c.new_owner),
            ];
            assert(args@.map_values(|x: Vec<u8>| x@) =~= seq![c.name@, owner_text(c.old_owner), owner_text(c.new_owner)]);
            let hh = signal_header(m_name_owner_changed_bytes(), None, change_args_bytes(c));
            out.push(Outgoing { to: v[i], droppable: true, header: hh, body: Body::Strs(args) });
            i = i + 1;
        }
        let ghost k = out@.len();
        let ghost c0 = out@;
        match c.old_owner {
            Some(o) => {
                let hd = signal_header(m_name_lost_bytes(), Some(unique_name(o)), name_arg(c));
                out.push(Outgoing { to: o, droppable: false, header: hd, body: Body::Str(crate::bytes::copy_bytes(&c.name)) });
            },
            None => {},
        }
        match c.new_owner {
            Some(n) => {
                let hd = signal_header(m_name_acquired_bytes(), Some(unique_name(n)), name_arg(c));
                out.push(Outgoing { to: n, droppable: false, header: hd, body: Body::Str(crate::bytes::copy_bytes(&c.name)) });
            },
            None => {},
        }
        proof {
            assert(out@.len() == k + direct_notices(c@).len());
            assert(out@.len() - direct_notices(c@).len() == k);
            assert forall|i: int| 0 <= i < k implies #[trigger] out@[i] == c0[i] by {}
            assert forall|i: int| 0 <= i < k implies (#[trigger] out@[i])@ == (OutView { to: out@[i].to, droppable: true, header: sig, body }) by {
                assert(c0[i]@.to == v@[i]);
            }
            assert forall|x: u64| (exists|i: int| 0 <= i < k && out@[i].to == x) <==> is_peer(self.peers_view(), x) && wants(self.rules_view(), x, sig) by {
                if v@.contains(x) {
                    let t = choose|t: int| 0 <= t < v@.len() && v@[t] == x;
                    assert(out@[t] == c0[t]);
                    assert(c0[t]@.to == x);
                }
                if exists|i: int| 0 <= i < k && out@[i].to == x {
                    let t = choose|t: int| 0 <= t < k && out@[t].to == x;
                    assert(out@[t] == c0[t]);
                    assert(c0[t]@.to == v@[t]);
                }
            }
            assert forall|a: int, b: int| 0 <= a < b < k implies out@[a].to != out@[b].to by {
                assert(out@[a] == c0[a] && out@[b] == c0[b]);
                assert(c0[a]@.to == v@[a]);
                assert(c0[b]@.to == v@[b]);
            }
            assert forall|i: int| 0 <= i < direct_notices(c@).len() implies (#[trigger] out@[k + i])@ == direct_notices(c@)[i] by {}
        }
        out
    }
}

/// Failures for the calls of `caller` that waited on a connection that
/// left: one `Disconnected` error for each serial, in order.
pub open spec fn failure_of(caller: u64, serial: u32) -> OutView {
    OutView {
        to: caller,
        droppable: false,
        header: HeaderView {
            msg_type: MessageType::Error,
            serial: 0,
            sender: Some(bus_name()),
            destination: Some(unique_name_of(caller as nat)),
            path: None,
            interface: None,
            member: None,
            error_name: Some(error_name(BusError::Disconnected)),
            reply_serial: Some(serial),
            args: Seq::empty(),
        },
        body: BodyView::Empty,
    }
}

/// The `Disconnected` error for the call `serial` of `caller`.
pub fn failure(caller: u64, serial: u32) -> (r: Outgoing)
    ensures
        r@ == failure_of(caller, serial),
{
    let header = Header {
        msg_type: MessageType::Error,
        serial: 0,
        sender: Some(bus_name_bytes()),
        destination: Some(unique_name(caller)),
        path: None,
        interface: None,
        member: None,
        error_name: Some(error_name_bytes(BusError::Disconnected)),
        reply_serial: Some(serial),
        args: Vec::new(),
    };
    assert(header@.args =~= Seq::<Seq<u8>>::empty());
    Outgoing { to: caller, droppable: false, header, body: Body::Empty }
}

pub fn waiter_failures(caller: u64, serials: &Vec<u32>) -> (r: Vec<Outgoing>)
    ensures
        r@.len() == serials@.len(),
        forall|i: int| 0 <= i < r@.len() ==> (#[trigger] r@[i])@ == failure_of(caller, serials@[i]),
{
    let mut out: Vec<Outgoing> = Vec::new();
    let mut i: usize = 0;
    while i < serials.len()
        invariant
            0 <= i <= serials@.len(),
            out@.len() == i,
            forall|j: int| 0 <= j < i ==> (#[trigger] out@[j])@ == failure_of(caller, serials@[j]),
        decreases serials@.len() - i,
    {
        let header = Header {
            msg_type: MessageType::Error,
            serial: 0,
            sender: Some(bus_name_bytes()),
            destination: Some(unique_name(caller)),
            path: None,
            interface: None,
            member: None,
            error_name: Some(error_name_bytes(BusError::Disconnected)),
            reply_serial: Some(serials[i]),
            args: Vec::new(),
        };
        assert(header@.args =~= Seq::<Seq<u8>>::empty());
        out.push(Outgoing { to: caller, droppable: false, header, body: Body::Empty });
        i = i + 1;
    }
    out
}

pub open spec fn body_signature(b: BodyView) -> Seq<u8> {
    match b {
        BodyView::Empty => Seq::empty(),
        BodyView::Str(_) => seq![115u8],
        BodyView::Strs(v) => Seq::new(v.len(), |i: int| 115u8),
        BodyView::U32(_) => seq![117u8],
        BodyView::Bool(_) => seq![98u8],
        BodyView::Names(_) => seq![97u8, 115u8],
    }
}

pub open spec fn body_bytes(b: BodyView, e: Endian) -> Seq<u8> {
    match b {
        BodyView::Empty => Seq::empty(),
        BodyView::Str(s) => str_args(e, seq![s]),
        BodyView::Strs(v) => str_args(e, v),
        BodyView::U32(n) => u32_bytes(e, n),
        BodyView::Bool(x) => u32_bytes(e, if x { 1u32 } else { 0u32 }),
        BodyView::Names(v) => str_array(e, v),
    }
}

pub open spec fn all_fit(v: Seq<Seq<u8>>) -> bool {
    forall|i: int| 0 <= i < v.len() ==> #[trigger] v[i].len() < 0x1_0000_0000
}

/// Each string fits a 32-bit length, and an array fits as a whole.
pub open spec fn body_fits(b: BodyView, e: Endian) -> bool {
    match b {
        BodyView::Str(s) => s.len() < 0x1_0000_0000,
        BodyView::Strs(v) => all_fit(v),
        BodyView::Names(v) => all_fit(v) && str_args_onto(seq![0u8, 0u8, 0u8, 0u8], e, v).len() <= 0x1_0000_0003,
        _ => true,
    }
}

/// The signature and bytes of a body, in byte order `e`.
pub fn marshal(b: &Body, e: Endian) -> (r: (Vec<u8>, Vec<u8>))
    requires
        body_fits(b@, e),
    ensures
        r.0@ == body_signature(b@),
        r.1@ == body_bytes(b@, e),
{
    match b {
        Body::Empty => {
            let a: Vec<u8> = Vec::new();
            let c: Vec<u8> = Vec::new();
            assert(a@ =~= body_signature(b@));
            assert(c@ =~= body_bytes(b@, e));
            (a, c)
        },
        Body::Str(s) => {
            let args: Vec<Vec<u8>> = vec![crate::bytes::copy_bytes(s)];
            assert(args@.map_values(|x: Vec<u8>| x@) =~= seq![s@]);
            let sig: Vec<u8> = vec![115u8];
            assert(sig@ =~= body_signature(b@));
            (sig, write_str_args(&args, e))
        },
        Body::Strs(v) => {
            let mut sig: Vec<u8> = Vec::new();
            let mut i: usize = 0;
            while i < v.len()
                invariant
                    0 <= i <= v@.len(),
                    sig@ == Seq::new(i as nat, |j: int| 115u8),
                decreases v@.len() - i,
            {
                sig.push(115u8);
                i = i + 1;
                assert(sig@ =~= Seq::new(i as nat, |j: int| 115u8));
            }
            proof {
                let m = v@.map_values(|x: Vec<u8>| x@);
                assert(b@ == BodyView::Strs(m));
                assert(body_fits(b@, e));
                assert(m.len() == v@.len());
                assert(all_fit(m));
                assert forall|k: int| 0 <= k < v@.len() implies #[trigger] v@[k]@.len() < 0x1_0000_0000 by {
                    assert(m[k] == v@[k]@);
                    assert(m[k].len() < 0x1_0000_0000);
                }
                assert(sig@ =~= body_signature(b@));
            }
            (sig, write_str_args(v, e))
        },
        Body::U32(n) => {
            let sig: Vec<u8> = vec![117u8];
            assert(sig@ =~= body_signature(b@));
            (sig, write_u32_arg(*n, e))
        },
        Body::Bool(x) => {
            let sig: Vec<u8> = vec![98u8];
            assert(sig@ =~= body_signature(b@));
            (sig, write_u32_arg(if *x { 1u32 } else { 0u32 }, e))
        },
        Body::Names(v) => {
            let sig: Vec<u8> = vec![97u8, 115u8];
            assert(sig@ =~= body_signature(b@));
            proof {
                let m = v@.map_values(|x: Vec<u8>| x@);
                assert(b@ == BodyView::Names(m));
                assert(all_fit(m));
                assert forall|k: int| 0 <= k < v@.len() implies #[trigger] v@[k]@.len() < 0x1_0000_0000 by {
                    assert(m[k] == v@[k]@);
                    assert(m[k].len() < 0x1_0000_0000);
                }
            }
            (sig, write_str_array(v, e))
        },
    }
}

/// Whether a message may be routed: a connection without a unique name
/// may only talk to the bus (to send `Hello`).
pub fn admits(conn: Option<u64>, route: &Route) -> (r: bool)
    ensures
        r == (conn is Some || route is ToBus),
{
    conn.is_some() || matches!(route, Route::ToBus)
}

fn all_fit_exec(v: &Vec<Vec<u8>>) -> (r: bool)
    ensures
        r == all_fit(v@.map_values(|x: Vec<u8>| x@)),
{
    let ghost m = v@.map_values(|x: Vec<u8>| x@);
    let mut i: usize = 0;
    while i < v.len()
        invariant
            0 <= i <= v@.len(),
            m == v@.map_values(|x: Vec<u8>| x@),
            forall|k: int| 0 <= k < i ==> #[trigger] m[k].len() < 0x1_0000_0000,
        decreases v@.len() - i,
    {
        assert(m[i as int] == v@[i as int]@);
        if (v[i].len() as u64) >= 0x1_0000_0000u64 {
            return false;
        }
        i = i + 1;
    }
    true
}

/// Whether `marshal` can take this body.
pub fn marshalable(b: &Body, e: Endian) -> (r: bool)
    ensures
        r == body_fits(b@, e),
{
    match b {
        Body::Str(s) => (s.len() as u64) < 0x1_0000_0000u64,
        Body::Strs(v) => all_fit_exec(v),
        Body::Names(v) => {
            if !all_fit_exec(v) {
                return false;
            }
            let ghost m = v@.map_values(|x: Vec<u8>| x@);
            proof {
                assert forall|k: int| 0 <= k < v@.len() implies #[trigger] v@[k]@.len() < 0x1_0000_0000 by {
                    assert(m[k] == v@[k]@);
                    assert(m[k].len() < 0x1_0000_0000);
                }
            }
            let mut scratch: Vec<u8> = vec![0u8, 0u8, 0u8, 0u8];
            assert(scratch@ =~= seq![0u8, 0u8, 0u8, 0u8]);
            append_str_args(&mut scratch, v, e);
            (scratch.len() as u64) <= 0x1_0000_0003u64
        },
        _ => true,
    }
}

/// The answer to a frame from connection `c` whose header fields or body
/// signature do not read: where the frame is a method call, an
/// `InvalidArgs` error to its serial, sent before the connection is closed;
/// otherwise nothing.
pub fn protocol_error_reply(c: u64, fixed: &crate::codec::FixedHeader) -> (r: Option<Outgoing>)
    ensures
        fixed.msg_type == MessageType::MethodCall ==> (r matches Some(o) && o@ == failure_with(c, fixed.serial, BusError::InvalidArgs)),
        fixed.msg_type != MessageType::MethodCall ==> r is None,
{
    if fixed.msg_type != MessageType::MethodCall {
        return None;
    }
    let header = Header {
        msg_type: MessageType::Error,
        serial: 0,
        sender: Some(bus_name_bytes()),
        destination: Some(unique_name(c)),
        path: None,
        interface: None,
        member: None,
        error_name: Some(error_name_bytes(BusError::InvalidArgs)),
        reply_serial: Some(fixed.serial),
        args: Vec::new(),
    };
    assert(header@.args =~= Seq::<Seq<u8>>::empty());
    Some(Outgoing { to: c, droppable: false, header, body: Body::Empty })
}

/// An error `e` from the bus to the call `serial` of `caller`.
pub open spec fn failure_with(caller: u64, serial: u32, e: BusError) -> OutView {
    OutView {
        to: caller,
        droppable: false,
        header: HeaderView {
            msg_type: MessageType::Error,
            serial: 0,
            sender: Some(bus_name()),
            destination: Some(unique_name_of(caller as nat)),
            path: None,
            interface: None,
            member: None,
            error_name: Some(error_name(e)),
            reply_serial: Some(serial),
            args: Seq::empty(),
        },
        body: BodyView::Empty,
    }
}

} // verus!
