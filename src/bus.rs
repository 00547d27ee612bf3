//! The shared state of the bus: live connections, names and match rules,
//! and the routing decision for each inbound message.
use vstd::prelude::*;
use crate::bytes::{bytes_eq, copy_bytes, copy_opt};
use crate::matching::{MatchRule, MatchTable, SubView, others, wants};
use crate::message::{Header, HeaderView, MessageType, opt_bytes};
use crate::names::{
    EntryView, NameFlags, NameRegistry, OwnerChange, ReleaseReply, RequestReply, change_of, changes_view,
    departure_changes, opt_change_view, owned_names, owner_conn, queued_owners, release_step, request_step, slot_of,
};
use crate::unique::{unique_name, unique_name_of};
use crate::pending::{CallTable, WaitingCall, calls_on, calls_without};
use crate::outbound::{Outgoing, failure, failure_of};

verus! {

/// `org.freedesktop.DBus`, the name under which the bus itself answers.
pub open spec fn bus_name() -> Seq<u8> {
    seq![111u8, 114, 103, 46, 102, 114, 101, 101, 100, 101, 115, 107, 116, 111, 112, 46, 68, 66, 117, 115]
}

pub fn bus_name_bytes() -> (r: Vec<u8>)
    ensures
        r@ == bus_name(),
{
    let r: Vec<u8> = vec![111u8, 114, 103, 46, 102, 114, 101, 101, 100, 101, 115, 107, 116, 111, 112, 46, 68, 66, 117, 115];
    assert(r@ =~= bus_name());
    r
}

/// `org.freedesktop.DBus.Error.ServiceUnknown`.
pub open spec fn service_unknown() -> Seq<u8> {
    bus_name() + seq![46u8, 69, 114, 114, 111, 114, 46, 83, 101, 114, 118, 105, 99, 101, 85, 110, 107, 110, 111, 119, 110]
}

pub fn service_unknown_bytes() -> (r: Vec<u8>)
    ensures
        r@ == service_unknown(),
{
    let mut r = bus_name_bytes();
    let tail: Vec<u8> = vec![46u8, 69, 114, 114, 111, 114, 46, 83, 101, 114, 118, 105, 99, 101, 85, 110, 107, 110, 111, 119, 110];
    let ghost pre = r@;
    let mut i: usize = 0;
    while i < tail.len()
        invariant
            0 <= i <= tail@.len(),
            pre == bus_name(),
            tail@ == seq![46u8, 69, 114, 114, 111, 114, 46, 83, 101, 114, 118, 105, 99, 101, 85, 110, 107, 110, 111, 119, 110],
            r@ == pre + tail@.subrange(0, i as int),
        decreases tail@.len() - i,
    {
        r.push(tail[i]);
        i = i + 1;
        assert(r@ =~= pre + tail@.subrange(0, i as int));
    }
    assert(tail@.subrange(0, tail@.len() as int) =~= tail@);
    r
}

/// A unique name is one that starts with a colon.
pub open spec fn is_unique_form(d: Seq<u8>) -> bool {
    d.len() > 0 && d[0] == 58u8
}

/// The unique name behind `n`, as `GetNameOwner` answers it.
pub open spec fn name_owner(peers: Seq<PeerView>, names: Seq<crate::names::EntryView>, n: Seq<u8>) -> Option<Seq<u8>> {
    if n == bus_name() {
        Some(bus_name())
    } else if is_unique_form(n) {
        if no_peer_named(peers, n) {
            None
        } else {
            Some(n)
        }
    } else {
        match owner_conn(slot_of(names, n)) {
            Some(c) => Some(unique_name_of(c as nat)),
            None => None,
        }
    }
}

/// A live connection and its unique name.
#[derive(Debug)]
pub struct Peer {
    pub id: u64,
    pub name: Vec<u8>,
}

pub struct PeerView {
    pub id: u64,
    pub name: Seq<u8>,
}

impl View for Peer {
    type V = PeerView;

    open spec fn view(&self) -> PeerView {
        PeerView { id: self.id, name: self.name@ }
    }
}

pub open spec fn is_peer(peers: Seq<PeerView>, c: u64) -> bool {
    exists|i: int| 0 <= i < peers.len() && peers[i].id == c
}

pub open spec fn peer_named(peers: Seq<PeerView>, d: Seq<u8>, c: u64) -> bool {
    exists|i: int| 0 <= i < peers.len() && peers[i].id == c && peers[i].name == d
}

pub open spec fn no_peer_named(peers: Seq<PeerView>, d: Seq<u8>) -> bool {
    forall|i: int| 0 <= i < peers.len() ==> peers[i].name != d
}

/// Where an inbound message goes.
#[derive(Debug)]
pub enum Route {
    /// Addressed to the bus itself.
    ToBus,
    /// To the one connection with this number.
    Unicast(u64),
    /// A method call to a name nobody has: answer with `ServiceUnknown`.
    ServiceUnknown,
    /// Addressed to a name nobody has, and no call: dropped.
    Drop,
    /// A broadcast, to these connections.
    Broadcast(Vec<u64>),
}

pub struct BusState {
    calls: CallTable,
    names: NameRegistry,
    rules: MatchTable,
    peers: Vec<Peer>,
    next_id: u64,
}

impl BusState {
    pub closed spec fn names_view(&self) -> Seq<EntryView> {
        self.names@
    }

    pub closed spec fn rules_view(&self) -> Seq<SubView> {
        self.rules@
    }

    pub closed spec fn peers_view(&self) -> Seq<PeerView> {
        self.peers@.map_values(|p: Peer| p@)
    }

    /// The calls waiting for a reply, bus-wide.
    pub closed spec fn calls_view(&self) -> Seq<WaitingCall> {
        self.calls@
    }

    /// A unicast message from `from` to `to`, decided after routing. A
    /// method call is recorded as waiting unless its flags (bit 1) say no
    /// reply is expected. A reply or an error is delivered only if it answers
    /// a call that `to` made to `from`, which it then resolves. Anything else
    /// is delivered. Returns whether to deliver.
    pub fn unicast(&mut self, from: u64, to: u64, h: &Header, flags: u8) -> (r: bool)
        requires
            old(self).wf(),
        ensures
            final(self).wf(),
            final(self).names_view() == old(self).names_view(),
            final(self).peers_view() == old(self).peers_view(),
            final(self).rules_view() == old(self).rules_view(),
            final(self).next() == old(self).next(),
            final(self).rules_next() == old(self).rules_next(),
            h@.msg_type == MessageType::MethodCall ==> r && final(self).calls_view() == if flags & 1 == 0 {
                old(self).calls_view().push(WaitingCall { caller: from, serial: h.serial, callee: to })
            } else {
                old(self).calls_view()
            },
            h@.msg_type == MessageType::Signal ==> r && final(self).calls_view() == old(self).calls_view(),
            (h@.msg_type == MessageType::MethodReturn || h@.msg_type == MessageType::Error) ==> match h@.reply_serial {
                Some(rs) => {
                    let w = WaitingCall { caller: to, serial: rs, callee: from };
                    &&& r == old(self).calls_view().contains(w)
                    &&& r ==> exists|i: int|
                        0 <= i < old(self).calls_view().len() && old(self).calls_view()[i] == w
                            && final(self).calls_view() == old(self).calls_view().remove(i)
                    &&& !r ==> final(self).calls_view() == old(self).calls_view()
                },
                None => !r && final(self).calls_view() == old(self).calls_view(),
            },
    {
        match h.msg_type {
            MessageType::MethodCall => {
                if flags & 1 == 0 {
                    self.calls.note(WaitingCall { caller: from, serial: h.serial, callee: to });
                }
                true
            },
            MessageType::Signal => true,
            _ => match h.reply_serial {
                Some(rs) => self.calls.take(WaitingCall { caller: to, serial: rs, callee: from }),
                None => false,
            },
        }
    }

    /// `gone` left: its own calls and the calls waiting on it are dropped,
    /// and each call of another connection that waited on it gets a
    /// `Disconnected` error, in the order the calls were made.
    pub fn fail_calls_to(&mut self, gone: u64) -> (r: Vec<Outgoing>)
        requires
            old(self).wf(),
        ensures
            final(self).wf(),
            final(self).names_view() == old(self).names_view(),
            final(self).peers_view() == old(self).peers_view(),
            final(self).rules_view() == old(self).rules_view(),
            final(self).next() == old(self).next(),
            final(self).rules_next() == old(self).rules_next(),
            final(self).calls_view() == calls_without(old(self).calls_view(), gone),
            r@.len() == calls_on(old(self).calls_view(), gone).len(),
            forall|i: int| 0 <= i < r@.len() ==> (#[trigger] r@[i])@ == failure_of(
                calls_on(old(self).calls_view(), gone)[i].caller,
                calls_on(old(self).calls_view(), gone)[i].serial,
            ),
    {
        let failed = self.calls.drop_peer(gone);
        let mut out: Vec<Outgoing> = Vec::new();
        let mut i: usize = 0;
        while i < failed.len()
            invariant
                0 <= i <= failed@.len(),
                out@.len() == i,
                forall|k: int| 0 <= k < i ==> (#[trigger] out@[k])@ == failure_of(failed@[k].caller, failed@[k].serial),
            decreases failed@.len() - i,
        {
            out.push(failure(failed[i].caller, failed[i].serial));
            i = i + 1;
        }
        out
    }

    /// The id that the next match rule will get.
    pub closed spec fn rules_next(&self) -> u64 {
        self.rules.next()
    }

    /// The number that the next connection will get.
    pub closed spec fn next(&self) -> u64 {
        self.next_id
    }

    /// Live connections are listed in increasing order of their numbers,
    /// each below the next number, each under its own unique name.
    pub closed spec fn wf(&self) -> bool {
        &&& self.names.wf()
        &&& self.rules.wf()
        &&& forall|i: int, j: int| 0 <= i < j < self.peers@.len() ==> self.peers@[i].id < self.peers@[j].id
        &&& forall|i: int| 0 <= i < self.peers@.len() ==> #[trigger] self.peers@[i].id < self.next_id
        &&& forall|i: int| 0 <= i < self.peers@.len() ==> #[trigger] self.peers@[i].name@ == unique_name_of(self.peers@[i].id as nat)
    }

    /// A well-formed bus has a well-formed registry and live connections in
    /// strictly increasing order of their numbers.
    pub proof fn lemma_wf_parts(&self)
        requires
            self.wf(),
        ensures
            crate::names::registry_wf(self.names_view()),
            forall|i: int, j: int| 0 <= i < j < self.peers_view().len() ==> self.peers_view()[i].id < self.peers_view()[j].id,
            forall|i: int| 0 <= i < self.peers_view().len() ==> #[trigger] self.peers_view()[i].id < self.next(),
    {
        assert forall|i: int, j: int| 0 <= i < j < self.peers_view().len() implies self.peers_view()[i].id < self.peers_view()[j].id by {
            assert(self.peers_view()[i] == self.peers@[i]@);
            assert(self.peers_view()[j] == self.peers@[j]@);
        }
        assert forall|i: int| 0 <= i < self.peers_view().len() implies #[trigger] self.peers_view()[i].id < self.next() by {
            assert(self.peers_view()[i] == self.peers@[i]@);
        }
    }

    pub fn new() -> (r: BusState)
        ensures
            r.wf(),
            r.next() == 0,
            r.rules_next() == 0,
            r.peers_view().len() == 0,
            r.rules_view().len() == 0,
            forall|n: Seq<u8>| slot_of(r.names_view(), n) == crate::names::empty_slot(),
    {
        let r = BusState { calls: CallTable::new(), names: NameRegistry::new(), rules: MatchTable::new(), peers: Vec::new(), next_id: 0 };
        assert(r.peers_view() =~= Seq::<PeerView>::empty());
        r
    }

    /// `Hello`: admits a new connection under the next number and returns
    /// that number and its unique name; `None` once numbers have run out.
    pub fn hello(&mut self) -> (r: Option<(u64, Vec<u8>)>)
        requires
            old(self).wf(),
        ensures
            final(self).wf(),
            final(self).names_view() == old(self).names_view(),
            final(self).rules_view() == old(self).rules_view(),
            final(self).rules_next() == old(self).rules_next(),
            old(self).next() == u64::MAX ==> r is None && final(self).peers_view() == old(self).peers_view()
                && final(self).next() == old(self).next(),
            old(self).next() < u64::MAX ==> r is Some,
            r matches Some(p) ==> {
                &&& p.0 == old(self).next()
                &&& p.1@ == unique_name_of(p.0 as nat)
                &&& final(self).next() == old(self).next() + 1
                &&& final(self).peers_view() == old(self).peers_view().push(PeerView { id: p.0, name: p.1@ })
                &&& forall|i: int| 0 <= i < old(self).peers_view().len() ==> #[trigger] old(self).peers_view()[i].id < p.0
            },
    {
        if self.next_id == u64::MAX {
            return None;
        }
        let id = self.next_id;
        let name = unique_name(id);
        let ghost pv = self.peers_view();
        self.peers.push(Peer { id, name: copy_bytes(&name) });
        self.next_id = id + 1;
        assert(self.peers_view() =~= pv.push(PeerView { id, name: name@ }));
        assert forall|i: int| 0 <= i < pv.len() implies #[trigger] pv[i].id < id by {
            assert(pv[i] == old(self).peers@[i]@);
        }
        Some((id, name))
    }

    /// The numbers of all live connections, in increasing order.
    pub fn peer_ids(&self) -> (r: Vec<u64>)
        ensures
            r@ == self.peers_view().map_values(|p: PeerView| p.id),
    {
        let mut out: Vec<u64> = Vec::new();
        let mut i: usize = 0;
        while i < self.peers.len()
            invariant
                0 <= i <= self.peers@.len(),
                out@ == self.peers_view().subrange(0, i as int).map_values(|p: PeerView| p.id),
            decreases self.peers@.len() - i,
        {
            out.push(self.peers[i].id);
            i = i + 1;
            assert(out@ =~= self.peers_view().subrange(0, i as int).map_values(|p: PeerView| p.id));
        }
        assert(self.peers_view().subrange(0, self.peers@.len() as int) =~= self.peers_view());
        out
    }

    fn find_peer(&self, d: &Vec<u8>) -> (r: Option<u64>)
        ensures
            r matches Some(c) ==> peer_named(self.peers_view(), d@, c),
            r is None ==> no_peer_named(self.peers_view(), d@),
    {
        let mut i: usize = 0;
        while i < self.peers.len()
            invariant
                0 <= i <= self.peers@.len(),
                forall|k: int| 0 <= k < i ==> self.peers_view()[k].name != d@,
            decreases self.peers@.len() - i,
        {
            if bytes_eq(&self.peers[i].name, d) {
                assert(self.peers_view()[i as int] == self.peers@[i as int]@);
                return Some(self.peers[i].id);
            }
            i = i + 1;
        }
        None
    }

    /// Decides where a message goes.
    pub fn route(&self, h: &Header) -> (r: Route)
        requires
            self.wf(),
        ensures
            match h@.destination {
                Some(d) => if d == bus_name() {
                    r is ToBus
                } else if is_unique_form(d) {
                    match r {
                        Route::Unicast(c) => peer_named(self.peers_view(), d, c),
                        Route::ServiceUnknown => no_peer_named(self.peers_view(), d) && h@.msg_type == MessageType::MethodCall,
                        Route::Drop => no_peer_named(self.peers_view(), d) && h@.msg_type != MessageType::MethodCall,
                        _ => false,
                    }
                } else {
                    match owner_conn(slot_of(self.names_view(), d)) {
                        Some(c) => r == Route::Unicast(c),
                        None => if h@.msg_type == MessageType::MethodCall {
                            r is ServiceUnknown
                        } else {
                            r is Drop
                        },
                    }
                },
                None => match r {
                    Route::Broadcast(v) => v@.no_duplicates() && forall|c: u64|
                        v@.contains(c) <==> is_peer(self.peers_view(), c) && wants(self.rules_view(), c, h@),
                    _ => false,
                },
            },
    {
        match &h.destination {
            Some(d) => {
                let bus = bus_name_bytes();
                if bytes_eq(d, &bus) {
                    return Route::ToBus;
                }
                let target = if d.len() > 0 && d[0] == 58u8 {
                    self.find_peer(d)
                } else {
                    self.names.get_name_owner(d)
                };
                match target {
                    Some(c) => Route::Unicast(c),
                    None => if h.msg_type == MessageType::MethodCall {
                        Route::ServiceUnknown
                    } else {
                        Route::Drop
                    },
                }
            },
            None => {
                let ids = self.peer_ids();
                proof {
                    assert forall|a: int, b: int| 0 <= a < ids@.len() && 0 <= b < ids@.len() && a != b implies ids@[a] != ids@[b] by {
                        assert(ids@[a] == self.peers@[a].id);
                        assert(ids@[b] == self.peers@[b].id);
                    }
                }
                let v = self.rules.recipients(&ids, h);
                proof {
                    assert forall|c: u64| ids@.contains(c) <==> is_peer(self.peers_view(), c) by {
                        if ids@.contains(c) {
                            let t = choose|t: int| 0 <= t < ids@.len() && ids@[t] == c;
                            assert(self.peers_view()[t].id == c);
                        }
                        if is_peer(self.peers_view(), c) {
                            let t = choose|t: int| 0 <= t < self.peers_view().len() && self.peers_view()[t].id == c;
                            assert(ids@[t] == c);
                        }
                    }
                }
                Route::Broadcast(v)
            },
        }
    }

    /// `RequestName` on behalf of connection `conn`.
    pub fn request_name(&mut self, conn: u64, name: &Vec<u8>, flags: NameFlags) -> (r: (RequestReply, Option<OwnerChange>))
        requires
            old(self).wf(),
        ensures
            final(self).wf(),
            final(self).peers_view() == old(self).peers_view(),
            final(self).rules_view() == old(self).rules_view(),
            final(self).next() == old(self).next(),
            final(self).rules_next() == old(self).rules_next(),
            r.0 == request_step(slot_of(old(self).names_view(), name@), conn, flags).1,
            slot_of(final(self).names_view(), name@) == request_step(slot_of(old(self).names_view(), name@), conn, flags).0,
            forall|n: Seq<u8>| n != name@ ==> slot_of(final(self).names_view(), n) == slot_of(old(self).names_view(), n),
            opt_change_view(r.1) == change_of(
                name@,
                slot_of(old(self).names_view(), name@),
                request_step(slot_of(old(self).names_view(), name@), conn, flags).0,
            ),
    {
        self.names.request_name(name, conn, flags)
    }

    /// `ReleaseName` on behalf of connection `conn`.
    pub fn release_name(&mut self, conn: u64, name: &Vec<u8>) -> (r: (ReleaseReply, Option<OwnerChange>))
        requires
            old(self).wf(),
        ensures
            final(self).wf(),
            final(self).peers_view() == old(self).peers_view(),
            final(self).rules_view() == old(self).rules_view(),
            final(self).next() == old(self).next(),
            final(self).rules_next() == old(self).rules_next(),
            r.0 == release_step(slot_of(old(self).names_view(), name@), conn).1,
            slot_of(final(self).names_view(), name@) == release_step(slot_of(old(self).names_view(), name@), conn).0,
            forall|n: Seq<u8>| n != name@ ==> slot_of(final(self).names_view(), n) == slot_of(old(self).names_view(), n),
            opt_change_view(r.1) == change_of(
                name@,
                slot_of(old(self).names_view(), name@),
                release_step(slot_of(old(self).names_view(), name@), conn).0,
            ),
    {
        self.names.release_name(name, conn)
    }

    /// `GetNameOwner`: the unique name behind `name`. The bus answers for
    /// itself, a unique name for its live connection, a well-known name for
    /// its owner.
    pub fn get_name_owner(&self, name: &Vec<u8>) -> (r: Option<Vec<u8>>)
        requires
            self.wf(),
        ensures
            name@ == bus_name() ==> opt_bytes(r) == Some(bus_name()),
            name@ != bus_name() && is_unique_form(name@) ==> (r is Some <==> !no_peer_named(self.peers_view(), name@)),
            name@ != bus_name() && is_unique_form(name@) && r is Some ==> opt_bytes(r) == Some(name@),
            name@ != bus_name() && !is_unique_form(name@) ==> match owner_conn(slot_of(self.names_view(), name@)) {
                Some(c) => opt_bytes(r) == Some(unique_name_of(c as nat)),
                None => r is None,
            },
            opt_bytes(r) == name_owner(self.peers_view(), self.names_view(), name@),
    {
        let bus = bus_name_bytes();
        if bytes_eq(name, &bus) {
            return Some(bus);
        }
        if name.len() > 0 && name[0] == 58u8 {
            match self.find_peer(name) {
                Some(_) => Some(copy_bytes(name)),
                None => None,
            }
        } else {
            match self.names.get_name_owner(name) {
                Some(c) => Some(unique_name(c)),
                None => None,
            }
        }
    }

    /// `ListNames`: the bus's own name, the unique names of the live
    /// connections in order, then the well-known names that have an owner.
    pub fn list_names(&self) -> (r: Vec<Vec<u8>>)
        ensures
            r@.map_values(|v: Vec<u8>| v@) == seq![bus_name()] + self.peers_view().map_values(|p: PeerView| p.name)
                + owned_names(self.names_view()),
    {
        let mut out: Vec<Vec<u8>> = Vec::new();
        out.push(bus_name_bytes());
        let ghost head = seq![bus_name()];
        assert(out@.map_values(|v: Vec<u8>| v@) =~= head);
        let mut i: usize = 0;
        while i < self.peers.len()
            invariant
                0 <= i <= self.peers@.len(),
                out@.map_values(|v: Vec<u8>| v@) == head + self.peers_view().subrange(0, i as int).map_values(|p: PeerView| p.name),
            decreases self.peers@.len() - i,
        {
            let ghost prev = out@;
            let nm = copy_bytes(&self.peers[i].name);
            assert(nm@ == self.peers_view()[i as int].name);
            out.push(nm);
            assert(out@.map_values(|v: Vec<u8>| v@) =~= prev.map_values(|v: Vec<u8>| v@).push(nm@));
            assert(self.peers_view().subrange(0, i + 1).map_values(|p: PeerView| p.name) =~= self.peers_view().subrange(0, i as int).map_values(|p: PeerView| p.name).push(nm@));
            i = i + 1;
            assert(out@.map_values(|v: Vec<u8>| v@) =~= head + self.peers_view().subrange(0, i as int).map_values(|p: PeerView| p.name));
        }
        assert(self.peers_view().subrange(0, self.peers@.len() as int) =~= self.peers_view());
        let ghost mid = out@.map_values(|v: Vec<u8>| v@);
        let owned = self.names.list_names();
        let mut k: usize = 0;
        while k < owned.len()
            invariant
                0 <= k <= owned@.len(),
                out@.map_values(|v: Vec<u8>| v@) == mid + owned@.subrange(0, k as int).map_values(|v: Vec<u8>| v@),
            decreases owned@.len() - k,
        {
            let ghost prev = out@;
            let nm = copy_bytes(&owned[k]);
            out.push(nm);
            assert(out@.map_values(|v: Vec<u8>| v@) =~= prev.map_values(|v: Vec<u8>| v@).push(nm@));
            assert(owned@.subrange(0, k + 1).map_values(|v: Vec<u8>| v@) =~= owned@.subrange(0, k as int).map_values(|v: Vec<u8>| v@).push(nm@));
            k = k + 1;
            assert(out@.map_values(|v: Vec<u8>| v@) =~= mid + owned@.subrange(0, k as int).map_values(|v: Vec<u8>| v@));
        }
        assert(owned@.subrange(0, owned@.len() as int) =~= owned@);
        out
    }

    /// `ListQueuedOwners`: the owner of `name`, then its waiters in order,
    /// by unique-name number.
    pub fn list_queued_owners(&self, name: &Vec<u8>) -> (r: Vec<u64>)
        requires
            self.wf(),
        ensures
            r@ == queued_owners(slot_of(self.names_view(), name@)),
    {
        self.names.list_queued_owners(name)
    }

    /// `AddMatch` for connection `conn`.
    pub fn add_match(&mut self, conn: u64, rule: MatchRule) -> (r: Option<u64>)
        requires
            old(self).wf(),
        ensures
            final(self).wf(),
            final(self).peers_view() == old(self).peers_view(),
            final(self).names_view() == old(self).names_view(),
            final(self).next() == old(self).next(),
            old(self).rules_next() < u64::MAX ==> r == Some(old(self).rules_next()) && final(self).rules_next() == old(self).rules_next() + 1,
            old(self).rules_next() == u64::MAX ==> r is None && final(self).rules_next() == old(self).rules_next(),
            r matches Some(id) ==> final(self).rules_view() == old(self).rules_view().push(SubView { conn, id, rule: rule@ }),
            r matches Some(id) ==> forall|i: int| 0 <= i < old(self).rules_view().len() ==> #[trigger] old(self).rules_view()[i].id != id,
            r is None ==> final(self).rules_view() == old(self).rules_view(),
    {
        self.rules.add_match(conn, rule)
    }

    /// `RemoveMatch` for connection `conn`.
    pub fn remove_match(&mut self, conn: u64, id: u64) -> (r: bool)
        requires
            old(self).wf(),
        ensures
            final(self).wf(),
            final(self).peers_view() == old(self).peers_view(),
            final(self).names_view() == old(self).names_view(),
            final(self).next() == old(self).next(),
            final(self).rules_next() == old(self).rules_next(),
            r == exists|i: int| 0 <= i < old(self).rules_view().len() && old(self).rules_view()[i].conn == conn && old(self).rules_view()[i].id == id,
            r ==> exists|i: int| 0 <= i < old(self).rules_view().len() && old(self).rules_view()[i].conn == conn
                && old(self).rules_view()[i].id == id && final(self).rules_view() == old(self).rules_view().remove(i),
            !r ==> final(self).rules_view() == old(self).rules_view(),
    {
        self.rules.remove_match(conn, id)
    }

    /// `RemoveMatch` by rule for connection `conn`.
    pub fn remove_rule(&mut self, conn: u64, rule: &MatchRule) -> (r: bool)
        requires
            old(self).wf(),
        ensures
            final(self).wf(),
            final(self).peers_view() == old(self).peers_view(),
            final(self).names_view() == old(self).names_view(),
            final(self).next() == old(self).next(),
            final(self).rules_next() == old(self).rules_next(),
            r == exists|i: int| 0 <= i < old(self).rules_view().len() && old(self).rules_view()[i].conn == conn && old(self).rules_view()[i].rule == rule@,
            r ==> exists|i: int| 0 <= i < old(self).rules_view().len() && old(self).rules_view()[i].conn == conn
                && old(self).rules_view()[i].rule == rule@ && final(self).rules_view() == old(self).rules_view().remove(i),
            !r ==> final(self).rules_view() == old(self).rules_view(),
    {
        self.rules.remove_rule(conn, rule)
    }

    /// Connection `conn` is gone: its names are released, its rules dropped
    /// and it leaves the list of live connections. Returns the owner changes.
    pub fn disconnect(&mut self, conn: u64) -> (r: Vec<OwnerChange>)
        requires
            old(self).wf(),
        ensures
            final(self).wf(),
            final(self).next() == old(self).next(),
            final(self).rules_next() == old(self).rules_next(),
            forall|n: Seq<u8>| slot_of(final(self).names_view(), n) == release_step(slot_of(old(self).names_view(), n), conn).0,
            changes_view(r@) == departure_changes(old(self).names_view(), conn),
            final(self).rules_view() == others(old(self).rules_view(), conn),
            forall|c: u64| is_peer(final(self).peers_view(), c) <==> is_peer(old(self).peers_view(), c) && c != conn,
    {
        let changes = self.names.release_all(conn);
        self.rules.remove_connection(conn);
        let ghost pv = self.peers_view();
        let ghost nv = self.names_view();
        let ghost rv = self.rules_view();
        let mut i: usize = 0;
        while i < self.peers.len()
            invariant
                0 <= i <= self.peers@.len(),
                pv == self.peers_view(),
                self.wf(),
                nv == self.names_view(),
                rv == self.rules_view(),
                self.next_id == old(self).next_id,
                pv == old(self).peers_view(),
                self.rules.next() == old(self).rules.next(),
                forall|n: Seq<u8>| slot_of(nv, n) == release_step(slot_of(old(self).names_view(), n), conn).0,
                changes_view(changes@) == departure_changes(old(self).names_view(), conn),
                rv == others(old(self).rules_view(), conn),
                forall|k: int| 0 <= k < i ==> self.peers@[k].id != conn,
            decreases self.peers@.len() - i,
        {
            if self.peers[i].id == conn {
                let ghost before = self.peers@;
                self.peers.remove(i);
                proof {
                    assert(self.peers_view() =~= pv.remove(i as int));
                    assert forall|a: int, b: int| 0 <= a < b < self.peers@.len() implies self.peers@[a].id < self.peers@[b].id by {
                        let a0 = if a < i { a } else { a + 1 };
                        let b0 = if b < i { b } else { b + 1 };
                        assert(self.peers@[a] == before[a0]);
                        assert(self.peers@[b] == before[b0]);
                    }
                    assert forall|a: int| 0 <= a < self.peers@.len() implies #[trigger] self.peers@[a].id < self.next_id
                        && self.peers@[a].name@ == unique_name_of(self.peers@[a].id as nat) by {
                        let a0 = if a < i { a } else { a + 1 };
                        assert(self.peers@[a] == before[a0]);
                    }
                    assert forall|c: u64| is_peer(self.peers_view(), c) <==> is_peer(pv, c) && c != conn by {
                        if is_peer(pv, c) && c != conn {
                            let t = choose|t: int| 0 <= t < pv.len() && pv[t].id == c;
                            let t2 = if t < i { t } else { t - 1 };
                            assert(self.peers_view()[t2] == pv[t]);
                        }
                        if is_peer(self.peers_view(), c) {
                            let t = choose|t: int| 0 <= t < self.peers_view().len() && self.peers_view()[t].id == c;
                            let t0 = if t < i { t } else { t + 1 };
                            assert(pv[t0] == self.peers_view()[t]);
                            assert(before[t0] == self.peers@[t]);
                            if t0 != i {
                                if t0 < i {
                                    assert(before[t0].id < before[i as int].id);
                                } else {
                                    assert(before[i as int].id < before[t0].id);
                                }
                            }
                        }
                    }
                }
                return changes;
            }
            i = i + 1;
        }
        proof {
            assert forall|c: u64| is_peer(self.peers_view(), c) <==> is_peer(pv, c) && c != conn by {
                if is_peer(pv, c) {
                    let t = choose|t: int| 0 <= t < pv.len() && pv[t].id == c;
                    assert(pv[t] == self.peers@[t]@);
                }
            }
        }
        changes
    }
}

/// The header of an `Error` reply from the bus to the call `h`.
pub fn error_reply(h: &Header, serial: u32, error_name: Vec<u8>) -> (r: Header)
    ensures
        r@ == (HeaderView {
            msg_type: MessageType::Error,
            serial,
            sender: Some(bus_name()),
            destination: h@.sender,
            path: None,
            interface: None,
            member: None,
            error_name: Some(error_name@),
            reply_serial: Some(h.serial),
            args: Seq::empty(),
        }),
{
    let h = Header {
        msg_type: MessageType::Error,
        serial,
        sender: Some(bus_name_bytes()),
        destination: copy_opt(&h.sender),
        path: None,
        interface: None,
        member: None,
        error_name: Some(error_name),
        reply_serial: Some(h.serial),
        args: Vec::new(),
    };
    assert(h@.args =~= Seq::<Seq<u8>>::empty());
    h
}

/// The header of a `MethodReturn` from the bus to the call `h`.
pub fn method_return(h: &Header, serial: u32) -> (r: Header)
    ensures
        r@ == (HeaderView {
            msg_type: MessageType::MethodReturn,
            serial,
            sender: Some(bus_name()),
            destination: h@.sender,
            path: None,
            interface: None,
            member: None,
            error_name: None,
            reply_serial: Some(h.serial),
            args: Seq::empty(),
        }),
{
    let h = Header {
        msg_type: MessageType::MethodReturn,
        serial,
        sender: Some(bus_name_bytes()),
        destination: copy_opt(&h.sender),
        path: None,
        interface: None,
        member: None,
        error_name: None,
        reply_serial: Some(h.serial),
        args: Vec::new(),
    };
    assert(h@.args =~= Seq::<Seq<u8>>::empty());
    h
}

} // verus!
