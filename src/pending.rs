//! Method calls of one connection that still wait for their reply.
use vstd::prelude::*;
use crate::message::{Header, MessageType};

verus! {

/// An outstanding call: its serial and the connection it was sent to.
#[derive(Clone, Copy, Debug, PartialEq, Eq, Structural)]
pub struct PendingCall {
    pub serial: u32,
    pub callee: u64,
}

pub struct PendingReplies {
    calls: Vec<PendingCall>,
}

impl View for PendingReplies {
    type V = Seq<PendingCall>;

    closed spec fn view(&self) -> Seq<PendingCall> {
        self.calls@
    }
}

impl PendingReplies {
    pub fn new() -> (r: PendingReplies)
        ensures
            r@.len() == 0,
    {
        PendingReplies { calls: Vec::new() }
    }

    /// Records a call with `serial` sent to `callee`.
    pub fn expect(&mut self, serial: u32, callee: u64)
        ensures
            final(self)@ == old(self)@.push(PendingCall { serial, callee }),
    {
        self.calls.push(PendingCall { serial, callee });
    }

    /// A unicast message left this table's connection for `to`: a method
    /// call is recorded unless its flags (bit 1) say that no reply is expected.
    pub fn note_sent(&mut self, h: &Header, flags: u8, to: u64)
        ensures
            h@.msg_type == MessageType::MethodCall && flags & 1 == 0 ==> final(self)@ == old(self)@.push(
                PendingCall { serial: h.serial, callee: to },
            ),
            !(h@.msg_type == MessageType::MethodCall && flags & 1 == 0) ==> final(self)@ == old(self)@,
    {
        if h.msg_type == MessageType::MethodCall && flags & 1 == 0 {
            self.expect(h.serial, to);
        }
    }

    /// Whether a unicast message from `from` may reach this table's
    /// connection. A reply or an error must answer an outstanding call to
    /// `from`, which it then resolves; other messages always pass.
    pub fn accept_reply(&mut self, h: &Header, from: u64) -> (r: bool)
        ensures
            (h@.msg_type == MessageType::MethodReturn || h@.msg_type == MessageType::Error) ==> match h@.reply_serial {
                Some(rs) => {
                    &&& r == old(self)@.contains(PendingCall { serial: rs, callee: from })
                    &&& r ==> exists|i: int|
                        0 <= i < old(self)@.len() && old(self)@[i] == (PendingCall { serial: rs, callee: from })
                            && final(self)@ == old(self)@.remove(i)
                    &&& !r ==> final(self)@ == old(self)@
                },
                None => !r && final(self)@ == old(self)@,
            },
            !(h@.msg_type == MessageType::MethodReturn || h@.msg_type == MessageType::Error) ==> r && final(self)@ == old(self)@,
    {
        if h.msg_type == MessageType::MethodReturn || h.msg_type == MessageType::Error {
            match h.reply_serial {
                Some(rs) => self.resolve(rs, from),
                None => false,
            }
        } else {
            true
        }
    }

    /// Number of outstanding calls.
    pub fn len(&self) -> (r: usize)
        ensures
            r == self@.len(),
    {
        self.calls.len()
    }

    /// A reply with `reply_serial` came from `from`: resolves the first
    /// matching outstanding call, and only that one. False, with nothing
    /// changed, where no call matches.
    pub fn resolve(&mut self, reply_serial: u32, from: u64) -> (r: bool)
        ensures
            r == old(self)@.contains(PendingCall { serial: reply_serial, callee: from }),
            r ==> exists|i: int|
                0 <= i < old(self)@.len() && old(self)@[i] == (PendingCall { serial: reply_serial, callee: from })
                    && (forall|k: int| 0 <= k < i ==> old(self)@[k] != (PendingCall { serial: reply_serial, callee: from }))
                    && final(self)@ == old(self)@.remove(i),
            !r ==> final(self)@ == old(self)@,
    {
        let want = PendingCall { serial: reply_serial, callee: from };
        let mut i: usize = 0;
        while i < self.calls.len()
            invariant
                0 <= i <= self@.len(),
                self@ == old(self)@,
                forall|k: int| 0 <= k < i ==> self@[k] != want,
                want == (PendingCall { serial: reply_serial, callee: from }),
            decreases self@.len() - i,
        {
            assert(self@[i as int] == self.calls@[i as int]);
            if self.calls[i].serial == reply_serial && self.calls[i].callee == from {
                assert(old(self)@[i as int] == want);
                assert(old(self)@.contains(want));
                self.calls.remove(i);
                return true;
            }
            i = i + 1;
        }
        false
    }

    /// The connection is going away: every outstanding call fails. Returns
    /// their serials in the order the calls were made.
    pub fn fail_all(&mut self) -> (r: Vec<u32>)
        ensures
            final(self)@.len() == 0,
            r@ == old(self)@.map_values(|c: PendingCall| c.serial),
    {
        let mut out: Vec<u32> = Vec::new();
        let mut i: usize = 0;
        while i < self.calls.len()
            invariant
                0 <= i <= self@.len(),
                self@ == old(self)@,
                out@ == self@.subrange(0, i as int).map_values(|c: PendingCall| c.serial),
            decreases self@.len() - i,
        {
            out.push(self.calls[i].serial);
            i = i + 1;
            assert(out@ =~= self@.subrange(0, i as int).map_values(|c: PendingCall| c.serial));
        }
        assert(self@.subrange(0, self@.len() as int) =~= self@);
        self.calls = Vec::new();
        assert(self@ =~= Seq::<PendingCall>::empty());
        out
    }

    /// The connection `callee` went away: every call waiting on it is
    /// dropped from the table. Returns their serials in the order the calls
    /// were made, so that each can be failed.
    pub fn drop_callee(&mut self, callee: u64) -> (r: Vec<u32>)
        ensures
            final(self)@ == calls_not_to(old(self)@, callee),
            r@ == serials_to(old(self)@, callee),
    {
        let ghost s0 = self@;
        let mut kept: Vec<PendingCall> = Vec::new();
        let mut out: Vec<u32> = Vec::new();
        let mut i: usize = 0;
        while i < self.calls.len()
            invariant
                0 <= i <= s0.len(),
                self@ == s0,
                kept@ == calls_not_to(s0.subrange(0, i as int), callee),
                out@ == serials_to(s0.subrange(0, i as int), callee),
            decreases s0.len() - i,
        {
            assert(s0.subrange(0, i + 1).drop_last() =~= s0.subrange(0, i as int));
            let c = self.calls[i];
            if c.callee == callee {
                out.push(c.serial);
            } else {
                kept.push(c);
            }
            i = i + 1;
        }
        assert(s0.subrange(0, s0.len() as int) =~= s0);
        self.calls = kept;
        out
    }
}

/// The calls that do not wait on `callee`, order kept.
pub open spec fn calls_not_to(s: Seq<PendingCall>, callee: u64) -> Seq<PendingCall>
    decreases s.len(),
{
    if s.len() == 0 {
        s
    } else if s.last().callee == callee {
        calls_not_to(s.drop_last(), callee)
    } else {
        calls_not_to(s.drop_last(), callee).push(s.last())
    }
}

/// The serials of the calls that wait on `callee`, in order.
pub open spec fn serials_to(s: Seq<PendingCall>, callee: u64) -> Seq<u32>
    decreases s.len(),
{
    if s.len() == 0 {
        Seq::empty()
    } else if s.last().callee == callee {
        serials_to(s.drop_last(), callee).push(s.last().serial)
    } else {
        serials_to(s.drop_last(), callee)
    }
}

/// A call waiting for its reply, bus-wide: who made it, its serial, and
/// the connection it went to.
#[derive(Clone, Copy, Debug, PartialEq, Eq, Structural)]
pub struct WaitingCall {
    pub caller: u64,
    pub serial: u32,
    pub callee: u64,
}

/// The calls without the ones that wait on or come from `gone`, order kept.
pub open spec fn calls_without(s: Seq<WaitingCall>, gone: u64) -> Seq<WaitingCall>
    decreases s.len(),
{
    if s.len() == 0 {
        s
    } else if s.last().callee == gone || s.last().caller == gone {
        calls_without(s.drop_last(), gone)
    } else {
        calls_without(s.drop_last(), gone).push(s.last())
    }
}

/// The calls of other connections that wait on `gone`, in order.
pub open spec fn calls_on(s: Seq<WaitingCall>, gone: u64) -> Seq<WaitingCall>
    decreases s.len(),
{
    if s.len() == 0 {
        s
    } else if s.last().callee == gone && s.last().caller != gone {
        calls_on(s.drop_last(), gone).push(s.last())
    } else {
        calls_on(s.drop_last(), gone)
    }
}

/// Every call waiting for a reply on the bus.
pub struct CallTable {
    calls: Vec<WaitingCall>,
}

impl View for CallTable {
    type V = Seq<WaitingCall>;

    closed spec fn view(&self) -> Seq<WaitingCall> {
        self.calls@
    }
}

impl CallTable {
    pub fn new() -> (r: CallTable)
        ensures
            r@.len() == 0,
    {
        CallTable { calls: Vec::new() }
    }

    pub fn note(&mut self, c: WaitingCall)
        ensures
            final(self)@ == old(self)@.push(c),
    {
        self.calls.push(c);
    }

    /// Takes the first waiting call equal to `c`; false, with nothing
    /// changed, where there is none.
    pub fn take(&mut self, c: WaitingCall) -> (r: bool)
        ensures
            r == old(self)@.contains(c),
            r ==> exists|i: int|
                0 <= i < old(self)@.len() && old(self)@[i] == c && final(self)@ == old(self)@.remove(i),
            !r ==> final(self)@ == old(self)@,
    {
        let mut i: usize = 0;
        while i < self.calls.len()
            invariant
                0 <= i <= self@.len(),
                self@ == old(self)@,
                forall|k: int| 0 <= k < i ==> self@[k] != c,
            decreases self@.len() - i,
        {
            let x = self.calls[i];
            if x.caller == c.caller && x.serial == c.serial && x.callee == c.callee {
                assert(old(self)@[i as int] == c);
                assert(old(self)@.contains(c));
                self.calls.remove(i);
                return true;
            }
            i = i + 1;
        }
        false
    }

    /// `gone` left: drops every call it made or that waits on it, and
    /// returns the calls of others that waited on it, to be failed.
    pub fn drop_peer(&mut self, gone: u64) -> (r: Vec<WaitingCall>)
        ensures
            final(self)@ == calls_without(old(self)@, gone),
            r@ == calls_on(old(self)@, gone),
    {
        let ghost s0 = self@;
        let mut kept: Vec<WaitingCall> = Vec::new();
        let mut out: Vec<WaitingCall> = Vec::new();
        let mut i: usize = 0;
        while i < self.calls.len()
            invariant
                0 <= i <= s0.len(),
                self@ == s0,
                kept@ == calls_without(s0.subrange(0, i as int), gone),
                out@ == calls_on(s0.subrange(0, i as int), gone),
            decreases s0.len() - i,
        {
            assert(s0.subrange(0, i + 1).drop_last() =~= s0.subrange(0, i as int));
            let c = self.calls[i];
            if c.callee == gone || c.caller == gone {
                if c.caller != gone {
                    out.push(c);
                }
            } else {
                kept.push(c);
            }
            i = i + 1;
        }
        assert(s0.subrange(0, s0.len() as int) =~= s0);
        self.calls = kept;
        out
    }
}

} // verus!
