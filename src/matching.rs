//! Match rules: the filters by which connections subscribe to signals.
use vstd::prelude::*;
use crate::bytes::bytes_eq;
use crate::message::{Header, HeaderView, MessageType, opt_bytes};

verus! {

/// A filter on the string argument at `index` of a message body.
#[derive(Debug)]
pub struct ArgMatch {
    pub index: u8,
    pub value: Vec<u8>,
}

/// A subscription filter; an unset field matches anything.
#[derive(Debug)]
pub struct MatchRule {
    pub msg_type: Option<MessageType>,
    pub sender: Option<Vec<u8>>,
    pub interface: Option<Vec<u8>>,
    pub member: Option<Vec<u8>>,
    pub path: Option<Vec<u8>>,
    pub destination: Option<Vec<u8>>,
    pub args: Vec<ArgMatch>,
}

pub struct RuleView {
    pub msg_type: Option<MessageType>,
    pub sender: Option<Seq<u8>>,
    pub interface: Option<Seq<u8>>,
    pub member: Option<Seq<u8>>,
    pub path: Option<Seq<u8>>,
    pub destination: Option<Seq<u8>>,
    pub args: Seq<(u8, Seq<u8>)>,
}

impl View for MatchRule {
    type V = RuleView;

    open spec fn view(&self) -> RuleView {
        RuleView {
            msg_type: self.msg_type,
            sender: opt_bytes(self.sender),
            interface: opt_bytes(self.interface),
            member: opt_bytes(self.member),
            path: opt_bytes(self.path),
            destination: opt_bytes(self.destination),
            args: self.args@.map_values(|a: ArgMatch| (a.index, a.value@)),
        }
    }
}

/// A filter field is met when it is unset, or set on the message and equal.
pub open spec fn field_ok(filter: Option<Seq<u8>>, field: Option<Seq<u8>>) -> bool {
    match filter {
        None => true,
        Some(f) => field == Some(f),
    }
}

pub open spec fn rule_matches(r: RuleView, m: HeaderView) -> bool {
    &&& (r.msg_type matches Some(t) ==> m.msg_type == t)
    &&& field_ok(r.sender, m.sender)
    &&& field_ok(r.interface, m.interface)
    &&& field_ok(r.member, m.member)
    &&& field_ok(r.path, m.path)
    &&& field_ok(r.destination, m.destination)
    &&& args_ok(r.args, m.args)
}

/// Every argument filter names a string argument that the message has,
/// with the same value.
pub open spec fn args_ok(filters: Seq<(u8, Seq<u8>)>, args: Seq<Seq<u8>>) -> bool {
    forall|i: int| 0 <= i < filters.len() ==> (#[trigger] filters[i]).0 < args.len() && args[filters[i].0 as int] == filters[i].1
}

fn check_args(filters: &Vec<ArgMatch>, args: &Vec<Vec<u8>>) -> (r: bool)
    ensures
        r == args_ok(filters@.map_values(|a: ArgMatch| (a.index, a.value@)), args@.map_values(|a: Vec<u8>| a@)),
{
    let ghost fs = filters@.map_values(|a: ArgMatch| (a.index, a.value@));
    let ghost xs = args@.map_values(|a: Vec<u8>| a@);
    let mut i: usize = 0;
    while i < filters.len()
        invariant
            0 <= i <= filters@.len(),
            fs == filters@.map_values(|a: ArgMatch| (a.index, a.value@)),
            xs == args@.map_values(|a: Vec<u8>| a@),
            forall|k: int| 0 <= k < i ==> (#[trigger] fs[k]).0 < xs.len() && xs[fs[k].0 as int] == fs[k].1,
        decreases filters@.len() - i,
    {
        let n = filters[i].index as usize;
        assert(fs[i as int] == (filters@[i as int].index, filters@[i as int].value@));
        if n >= args.len() {
            return false;
        }
        assert(xs[n as int] == args@[n as int]@);
        if !bytes_eq(&args[n], &filters[i].value) {
            return false;
        }
        i = i + 1;
    }
    true
}

fn check_field(filter: &Option<Vec<u8>>, field: &Option<Vec<u8>>) -> (r: bool)
    ensures
        r == field_ok(opt_bytes(*filter), opt_bytes(*field)),
{
    match filter {
        None => true,
        Some(f) => match field {
            Some(v) => bytes_eq(f, v),
            None => false,
        },
    }
}

impl MatchRule {
    /// Whether the rule accepts the message.
    pub fn matches(&self, m: &Header) -> (r: bool)
        ensures
            r == rule_matches(self@, m@),
    {
        let type_ok = match self.msg_type {
            Some(t) => t == m.msg_type,
            None => true,
        };
        type_ok && check_field(&self.sender, &m.sender) && check_field(&self.interface, &m.interface)
            && check_field(&self.member, &m.member) && check_field(&self.path, &m.path)
            && check_field(&self.destination, &m.destination) && check_args(&self.args, &m.args)
    }
}

/// A rule registered by a connection, with the id handed back to it.
#[derive(Debug)]
pub struct Subscription {
    pub conn: u64,
    pub id: u64,
    pub rule: MatchRule,
}

pub struct SubView {
    pub conn: u64,
    pub id: u64,
    pub rule: RuleView,
}

impl View for Subscription {
    type V = SubView;

    open spec fn view(&self) -> SubView {
        SubView { conn: self.conn, id: self.id, rule: self.rule@ }
    }
}

/// Whether some rule of `conn` accepts the message.
pub open spec fn wants(subs: Seq<SubView>, conn: u64, m: HeaderView) -> bool {
    exists|i: int| 0 <= i < subs.len() && subs[i].conn == conn && rule_matches(subs[i].rule, m)
}

/// The match rules of all connections.
pub struct MatchTable {
    subs: Vec<Subscription>,
    next_id: u64,
}

impl View for MatchTable {
    type V = Seq<SubView>;

    closed spec fn view(&self) -> Seq<SubView> {
        self.subs@.map_values(|s: Subscription| s@)
    }
}

impl MatchTable {
    /// Every id handed out is below the next one.
    pub closed spec fn wf(&self) -> bool {
        forall|i: int| 0 <= i < self@.len() ==> #[trigger] self@[i].id < self.next_id
    }

    pub closed spec fn next(&self) -> u64 {
        self.next_id
    }

    pub fn new() -> (r: MatchTable)
        ensures
            r.wf(),
            r.next() == 0,
            r@.len() == 0,
    {
        let r = MatchTable { subs: Vec::new(), next_id: 0 };
        assert(r@ =~= Seq::<SubView>::empty());
        r
    }

    /// `AddMatch`: registers `rule` for `conn`. The id is fresh; `None` once
    /// ids have run out, with the table unchanged.
    pub fn add_match(&mut self, conn: u64, rule: MatchRule) -> (r: Option<u64>)
        requires
            old(self).wf(),
        ensures
            final(self).wf(),
            old(self).next() < u64::MAX ==> final(self).next() == old(self).next() + 1,
            old(self).next() == u64::MAX ==> final(self).next() == old(self).next(),
            old(self).next() < u64::MAX ==> r == Some(old(self).next()) && final(self)@ == old(self)@.push(
                SubView { conn, id: old(self).next(), rule: rule@ },
            ),
            old(self).next() == u64::MAX ==> r is None && final(self)@ == old(self)@,
            r matches Some(id) ==> forall|i: int| 0 <= i < old(self)@.len() ==> #[trigger] old(self)@[i].id != id,
    {
        if self.next_id == u64::MAX {
            return None;
        }
        let id = self.next_id;
        let ghost s0 = self@;
        let ghost v = rule@;
        self.subs.push(Subscription { conn, id, rule });
        self.next_id = id + 1;
        assert(self@ =~= s0.push(SubView { conn, id, rule: v }));
        Some(id)
    }

    /// `RemoveMatch`: drops the rule `id` of `conn`; false where `conn` has
    /// no rule of that id.
    pub fn remove_match(&mut self, conn: u64, id: u64) -> (r: bool)
        requires
            old(self).wf(),
        ensures
            final(self).wf(),
            final(self).next() == old(self).next(),
            r == exists|i: int| 0 <= i < old(self)@.len() && old(self)@[i].conn == conn && old(self)@[i].id == id,
            r ==> exists|i: int| 0 <= i < old(self)@.len() && old(self)@[i].conn == conn && old(self)@[i].id == id
                && final(self)@ == old(self)@.remove(i),
            !r ==> final(self)@ == old(self)@,
    {
        let mut i: usize = 0;
        while i < self.subs.len()
            invariant
                0 <= i <= self@.len(),
                self@.len() == self.subs@.len(),
                forall|k: int| 0 <= k < i ==> !(self@[k].conn == conn && self@[k].id == id),
                self@ == old(self)@,
                self.next_id == old(self).next_id,
                old(self).wf(),
            decreases self@.len() - i,
        {
            assert(self@[i as int] == self.subs@[i as int]@);
            if self.subs[i].conn == conn && self.subs[i].id == id {
                let ghost s0 = self@;
                self.subs.remove(i);
                assert(self@ =~= s0.remove(i as int));
                assert forall|k: int| 0 <= k < self@.len() implies #[trigger] self@[k].id < self.next_id by {
                    assert(old(self).wf());
                    if k < i {
                        assert(self@[k] == s0[k]);
                        assert(old(self)@[k].id < old(self).next_id);
                    } else {
                        assert(self@[k] == s0[k + 1]);
                        assert(old(self)@[k + 1].id < old(self).next_id);
                    }
                }
                return true;
            }
            i = i + 1;
        }
        false
    }

    /// Drops every rule of `conn`, as when it disconnects.
    pub fn remove_connection(&mut self, conn: u64)
        requires
            old(self).wf(),
        ensures
            final(self).wf(),
            final(self).next() == old(self).next(),
            final(self)@ == others(old(self)@, conn),
            forall|i: int| 0 <= i < final(self)@.len() ==> #[trigger] final(self)@[i].conn != conn,
            forall|c: u64, m: HeaderView| c != conn ==> (wants(final(self)@, c, m) <==> wants(old(self)@, c, m)),
    {
        let ghost s0 = self@;
        let ghost j: int = 0;
        let mut i: usize = 0;
        while i < self.subs.len()
            invariant
                0 <= j <= s0.len(),
                self@.len() == self.subs@.len(),
                i == others(s0.subrange(0, j), conn).len(),
                self@ == others(s0.subrange(0, j), conn) + s0.subrange(j, s0.len() as int),
                s0 == old(self)@,
                self.next_id == old(self).next_id,
            decreases self@.len() - i,
        {
            proof {
                assert(s0.subrange(0, j + 1).drop_last() =~= s0.subrange(0, j));
                assert(self@[i as int] == s0[j]);
                assert(self@[i as int] == self.subs@[i as int]@);
            }
            if self.subs[i].conn == conn {
                let ghost before = self@;
                self.subs.remove(i);
                proof {
                    assert(self@ =~= before.remove(i as int));
                    j = j + 1;
                    assert(self@ =~= others(s0.subrange(0, j), conn) + s0.subrange(j, s0.len() as int));
                }
            } else {
                proof {
                    j = j + 1;
                    assert(self@ =~= others(s0.subrange(0, j), conn) + s0.subrange(j, s0.len() as int));
                }
                i = i + 1;
            }
        }
        proof {
            assert(s0.subrange(0, s0.len() as int) =~= s0);
            assert(j == s0.len()) by {
                if j < s0.len() {
                    assert(self@.len() > i);
                }
            }
            assert(self@ =~= others(s0, conn));
            lemma_others_members(s0, conn);
            assert forall|c: u64, m: HeaderView| c != conn implies (wants(self@, c, m) <==> wants(s0, c, m)) by {
                if wants(s0, c, m) {
                    let k = choose|k: int| 0 <= k < s0.len() && s0[k].conn == c && rule_matches(s0[k].rule, m);
                    assert(s0.contains(s0[k]));
                    assert(self@.contains(s0[k]));
                    let t = choose|t: int| 0 <= t < self@.len() && self@[t] == s0[k];
                }
                if wants(self@, c, m) {
                    let k = choose|k: int| 0 <= k < self@.len() && self@[k].conn == c && rule_matches(self@[k].rule, m);
                    assert(self@.contains(self@[k]));
                    assert(s0.contains(self@[k]));
                    let t = choose|t: int| 0 <= t < s0.len() && s0[t] == self@[k];
                }
            }
            assert forall|k: int| 0 <= k < self@.len() implies #[trigger] self@[k].id < self.next_id by {
                assert(self@.contains(self@[k]));
                assert(s0.contains(self@[k]));
                let t = choose|t: int| 0 <= t < s0.len() && s0[t] == self@[k];
                assert(s0[t].id < self.next_id);
            }
            assert forall|k: int| 0 <= k < self@.len() implies #[trigger] self@[k].conn != conn by {
                assert(self@.contains(self@[k]));
            }
        }
    }

    /// The connections among `conns` to which a broadcast of `m` goes: those
    /// with a rule that accepts it, in the order of `conns`.
    pub fn recipients(&self, conns: &Vec<u64>, m: &Header) -> (r: Vec<u64>)
        requires
            conns@.no_duplicates(),
        ensures
            forall|c: u64| r@.contains(c) <==> conns@.contains(c) && wants(self@, c, m@),
            r@.no_duplicates(),
    {
        let mut out: Vec<u64> = Vec::new();
        let mut k: usize = 0;
        while k < conns.len()
            invariant
                0 <= k <= conns@.len(),
                forall|c: u64| out@.contains(c) <==> conns@.subrange(0, k as int).contains(c) && wants(self@, c, m@),
                out@.no_duplicates(),
                conns@.no_duplicates(),
            decreases conns@.len() - k,
        {
            let c = conns[k];
            let w = self.wants_conn(c, m);
            let ghost prev = out@;
            proof {
                if prev.contains(c) {
                    let t = choose|t: int| 0 <= t < k && conns@[t] == c;
                    assert(conns@.subrange(0, k as int)[t] == c);
                    assert(conns@[k as int] == c);
                }
            }
            if w {
                out.push(c);
                proof {
                    assert forall|a: int, b: int| 0 <= a < out@.len() && 0 <= b < out@.len() && a != b implies out@[a] != out@[b] by {
                        if a < prev.len() && b < prev.len() {
                            assert(prev[a] == out@[a] && prev[b] == out@[b]);
                        } else if a < prev.len() {
                            assert(prev.contains(out@[a]));
                        } else if b < prev.len() {
                            assert(prev.contains(out@[b]));
                        }
                    }
                }
            }
            proof {
                let pre = conns@.subrange(0, k as int);
                let nxt = conns@.subrange(0, k + 1);
                assert(nxt =~= pre.push(c));
                assert forall|x: u64| out@.contains(x) <==> nxt.contains(x) && wants(self@, x, m@) by {
                    if nxt.contains(x) && x != c {
                        let t = choose|t: int| 0 <= t < nxt.len() && nxt[t] == x;
                        assert(pre[t] == x);
                    }
                    if pre.contains(x) {
                        let t = choose|t: int| 0 <= t < pre.len() && pre[t] == x;
                        assert(nxt[t] == x);
                    }
                    if w && out@.contains(x) && x != c {
                        let t = choose|t: int| 0 <= t < out@.len() && out@[t] == x;
                        assert(prev[t] == x);
                    }
                    if w && prev.contains(x) {
                        let t = choose|t: int| 0 <= t < prev.len() && prev[t] == x;
                        assert(out@[t] == x);
                    }
                    if w && x == c {
                        assert(out@[prev.len() as int] == x);
                        assert(nxt[k as int] == x);
                    }
                }
            }
            k = k + 1;
        }
        assert(conns@.subrange(0, conns@.len() as int) =~= conns@);
        out
    }

    /// Whether a rule of `conn` accepts `m`.
    pub fn wants_conn(&self, conn: u64, m: &Header) -> (r: bool)
        ensures
            r == wants(self@, conn, m@),
    {
        let mut i: usize = 0;
        while i < self.subs.len()
            invariant
                0 <= i <= self@.len(),
                self@.len() == self.subs@.len(),
                forall|k: int| 0 <= k < i ==> !(self@[k].conn == conn && rule_matches(self@[k].rule, m@)),
            decreases self@.len() - i,
        {
            assert(self@[i as int] == self.subs@[i as int]@);
            if self.subs[i].conn == conn && self.subs[i].rule.matches(m) {
                return true;
            }
            i = i + 1;
        }
        false
    }
}

fn same_bytes(a: &Option<Vec<u8>>, b: &Option<Vec<u8>>) -> (r: bool)
    ensures
        r == (opt_bytes(*a) == opt_bytes(*b)),
{
    match (a, b) {
        (Some(x), Some(y)) => bytes_eq(x, y),
        (None, None) => true,
        _ => false,
    }
}

fn same_args(a: &Vec<ArgMatch>, b: &Vec<ArgMatch>) -> (r: bool)
    ensures
        r == (a@.map_values(|x: ArgMatch| (x.index, x.value@)) == b@.map_values(|x: ArgMatch| (x.index, x.value@))),
{
    let ghost fa = a@.map_values(|x: ArgMatch| (x.index, x.value@));
    let ghost fb = b@.map_values(|x: ArgMatch| (x.index, x.value@));
    if a.len() != b.len() {
        assert(fa.len() != fb.len());
        return false;
    }
    let mut i: usize = 0;
    while i < a.len()
        invariant
            0 <= i <= a@.len(),
            a@.len() == b@.len(),
            fa == a@.map_values(|x: ArgMatch| (x.index, x.value@)),
            fb == b@.map_values(|x: ArgMatch| (x.index, x.value@)),
            forall|k: int| 0 <= k < i ==> fa[k] == fb[k],
        decreases a@.len() - i,
    {
        assert(fa[i as int] == (a@[i as int].index, a@[i as int].value@));
        assert(fb[i as int] == (b@[i as int].index, b@[i as int].value@));
        if a[i].index != b[i].index || !bytes_eq(&a[i].value, &b[i].value) {
            return false;
        }
        i = i + 1;
    }
    assert(fa =~= fb);
    true
}

impl MatchRule {
    /// Whether two rules state the same filters.
    pub fn same_as(&self, o: &MatchRule) -> (r: bool)
        ensures
            r == (self@ == o@),
    {
        let t = match (self.msg_type, o.msg_type) {
            (Some(x), Some(y)) => x == y,
            (None, None) => true,
            _ => false,
        };
        t && same_bytes(&self.sender, &o.sender) && same_bytes(&self.interface, &o.interface) && same_bytes(
            &self.member,
            &o.member,
        ) && same_bytes(&self.path, &o.path) && same_bytes(&self.destination, &o.destination) && same_args(
            &self.args,
            &o.args,
        )
    }
}

impl MatchTable {
    /// `RemoveMatch` by rule: drops the first rule of `conn` equal to `rule`;
    /// false, with nothing changed, where `conn` has none.
    pub fn remove_rule(&mut self, conn: u64, rule: &MatchRule) -> (r: bool)
        requires
            old(self).wf(),
        ensures
            final(self).wf(),
            final(self).next() == old(self).next(),
            r == exists|i: int| 0 <= i < old(self)@.len() && old(self)@[i].conn == conn && old(self)@[i].rule == rule@,
            r ==> exists|i: int|
                0 <= i < old(self)@.len() && old(self)@[i].conn == conn && old(self)@[i].rule == rule@
                    && final(self)@ == old(self)@.remove(i),
            !r ==> final(self)@ == old(self)@,
    {
        let mut i: usize = 0;
        while i < self.subs.len()
            invariant
                0 <= i <= self@.len(),
                self@.len() == self.subs@.len(),
                forall|k: int| 0 <= k < i ==> !(self@[k].conn == conn && self@[k].rule == rule@),
                self@ == old(self)@,
                self.next_id == old(self).next_id,
                old(self).wf(),
            decreases self@.len() - i,
        {
            assert(self@[i as int] == self.subs@[i as int]@);
            if self.subs[i].conn == conn && self.subs[i].rule.same_as(rule) {
                let ghost s0 = self@;
                self.subs.remove(i);
                assert(self@ =~= s0.remove(i as int));
                assert forall|k: int| 0 <= k < self@.len() implies #[trigger] self@[k].id < self.next_id by {
                    assert(old(self).wf());
                    if k < i {
                        assert(self@[k] == s0[k]);
                        assert(old(self)@[k].id < old(self).next_id);
                    } else {
                        assert(self@[k] == s0[k + 1]);
                        assert(old(self)@[k + 1].id < old(self).next_id);
                    }
                }
                return true;
            }
            i = i + 1;
        }
        false
    }
}

/// The subscriptions of every connection but `conn`, order kept.
pub open spec fn others(s: Seq<SubView>, conn: u64) -> Seq<SubView>
    decreases s.len(),
{
    if s.len() == 0 {
        s
    } else {
        let rest = others(s.drop_last(), conn);
        if s.last().conn == conn {
            rest
        } else {
            rest.push(s.last())
        }
    }
}

pub proof fn lemma_others_members(s: Seq<SubView>, conn: u64)
    ensures
        forall|x: SubView| #[trigger] others(s, conn).contains(x) ==> s.contains(x) && x.conn != conn,
        forall|x: SubView| #[trigger] s.contains(x) && x.conn != conn ==> others(s, conn).contains(x),
    decreases s.len(),
{
    if s.len() > 0 {
        let p = s.drop_last();
        lemma_others_members(p, conn);
        let o = others(s, conn);
        let op = others(p, conn);
        assert forall|x: SubView| #[trigger] o.contains(x) implies s.contains(x) && x.conn != conn by {
            let t = choose|t: int| 0 <= t < o.len() && o[t] == x;
            if t < op.len() {
                assert(op[t] == x);
                assert(op.contains(x));
                assert(p.contains(x));
                let u = choose|u: int| 0 <= u < p.len() && p[u] == x;
                assert(s[u] == p[u]);
            } else {
                assert(s[s.len() - 1] == x);
            }
        }
        assert forall|x: SubView| #[trigger] s.contains(x) && x.conn != conn implies o.contains(x) by {
            let t = choose|t: int| 0 <= t < s.len() && s[t] == x;
            if t < p.len() {
                assert(p[t] == x);
                assert(p.contains(x));
                assert(op.contains(x));
                let u = choose|u: int| 0 <= u < op.len() && op[u] == x;
                assert(o[u] == x);
            } else {
                assert(o[o.len() - 1] == x);
            }
        }
    }
}

} // verus!
