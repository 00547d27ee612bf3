//! Registry of well-known bus names: who owns each name and who waits for it.
//!
//! Entries live in an arena whose positions never move; a name whose owner
//! is gone stays in its slot with no owner and an empty queue, which is the
//! same as the name not existing.
use vstd::prelude::*;
use crate::bytes::{bytes_eq, copy_bytes};

verus! {

/// Flags of a `RequestName` call.
#[derive(Clone, Copy, Debug, PartialEq, Eq, Structural)]
pub struct NameFlags {
    pub allow_replacement: bool,
    pub replace_existing: bool,
    pub do_not_queue: bool,
}

/// A connection (by its unique-name number) holding or waiting for a name.
#[derive(Clone, Copy, Debug, PartialEq, Eq, Structural)]
pub struct Waiter {
    pub conn: u64,
    pub flags: NameFlags,
}

#[derive(Clone, Copy, Debug, PartialEq, Eq, Structural)]
pub enum RequestReply {
    PrimaryOwner,
    InQueue,
    Exists,
    AlreadyOwner,
}

#[derive(Clone, Copy, Debug, PartialEq, Eq, Structural)]
pub enum ReleaseReply {
    Released,
    NonExistent,
    NotOwner,
}

/// The ownership state of one name.
pub struct Slot {
    pub owner: Option<Waiter>,
    pub queue: Seq<Waiter>,
}

pub struct EntryView {
    pub name: Seq<u8>,
    pub slot: Slot,
}

/// A change of a name's primary owner.
pub struct ChangeView {
    pub name: Seq<u8>,
    pub old_owner: Option<u64>,
    pub new_owner: Option<u64>,
}

pub open spec fn empty_slot() -> Slot {
    Slot { owner: None, queue: Seq::empty() }
}

pub open spec fn owner_conn(s: Slot) -> Option<u64> {
    match s.owner {
        Some(w) => Some(w.conn),
        None => None,
    }
}

pub open spec fn in_queue(q: Seq<Waiter>, conn: u64) -> bool {
    exists|k: int| 0 <= k < q.len() && q[k].conn == conn
}

/// The queue with every entry of `conn` taken out, order kept.
pub open spec fn without(q: Seq<Waiter>, conn: u64) -> Seq<Waiter>
    decreases q.len(),
{
    if q.len() == 0 {
        q
    } else {
        let rest = without(q.drop_last(), conn);
        if q.last().conn == conn {
            rest
        } else {
            rest.push(q.last())
        }
    }
}

pub open spec fn distinct_conns(q: Seq<Waiter>) -> bool {
    forall|i: int, j: int| 0 <= i < j < q.len() ==> q[i].conn != q[j].conn
}

/// A slot is well formed: a queue only behind an owner, every waiter once,
/// and the owner not waiting as well.
pub open spec fn slot_wf(s: Slot) -> bool {
    &&& s.owner is None ==> s.queue.len() == 0
    &&& distinct_conns(s.queue)
    &&& s.owner matches Some(o) ==> !in_queue(s.queue, o.conn)
}

/// `RequestName` on one name: the new state and the reply.
pub open spec fn request_step(s: Slot, conn: u64, flags: NameFlags) -> (Slot, RequestReply) {
    match s.owner {
        None => (Slot { owner: Some(Waiter { conn, flags }), queue: Seq::empty() }, RequestReply::PrimaryOwner),
        Some(o) => if o.conn == conn {
            (s, RequestReply::AlreadyOwner)
        } else if flags.replace_existing && o.flags.allow_replacement {
            let rest = without(s.queue, conn);
            let q = if o.flags.do_not_queue { rest } else { rest.push(o) };
            (Slot { owner: Some(Waiter { conn, flags }), queue: q }, RequestReply::PrimaryOwner)
        } else if flags.do_not_queue {
            (s, RequestReply::Exists)
        } else if in_queue(s.queue, conn) {
            (s, RequestReply::InQueue)
        } else {
            (Slot { owner: s.owner, queue: s.queue.push(Waiter { conn, flags }) }, RequestReply::InQueue)
        },
    }
}

/// `ReleaseName` on one name: the new state and the reply.
pub open spec fn release_step(s: Slot, conn: u64) -> (Slot, ReleaseReply) {
    match s.owner {
        None => (s, ReleaseReply::NonExistent),
        Some(o) => if o.conn == conn {
            if s.queue.len() == 0 {
                (Slot { owner: None, queue: s.queue }, ReleaseReply::Released)
            } else {
                (Slot { owner: Some(s.queue[0]), queue: s.queue.drop_first() }, ReleaseReply::Released)
            }
        } else if in_queue(s.queue, conn) {
            (Slot { owner: s.owner, queue: without(s.queue, conn) }, ReleaseReply::Released)
        } else {
            (s, ReleaseReply::NotOwner)
        },
    }
}

/// The owner change between two states of a name, if its owner differs.
pub open spec fn change_of(name: Seq<u8>, before: Slot, after: Slot) -> Option<ChangeView> {
    if owner_conn(before) != owner_conn(after) {
        Some(ChangeView { name, old_owner: owner_conn(before), new_owner: owner_conn(after) })
    } else {
        None
    }
}

pub open spec fn has_name(s: Seq<EntryView>, name: Seq<u8>) -> bool {
    exists|i: int| 0 <= i < s.len() && s[i].name == name
}

/// The state of `name` in a registry: empty where the name was never seen.
pub open spec fn slot_of(s: Seq<EntryView>, name: Seq<u8>) -> Slot {
    if has_name(s, name) {
        s[choose|i: int| 0 <= i < s.len() && s[i].name == name].slot
    } else {
        empty_slot()
    }
}

/// The owner changes that the departure of `conn` causes, in entry order.
pub open spec fn departure_changes(s: Seq<EntryView>, conn: u64) -> Seq<ChangeView>
    decreases s.len(),
{
    if s.len() == 0 {
        Seq::empty()
    } else {
        let rest = departure_changes(s.drop_last(), conn);
        let e = s.last();
        match change_of(e.name, e.slot, release_step(e.slot, conn).0) {
            Some(c) => rest.push(c),
            None => rest,
        }
    }
}

pub proof fn lemma_without_members(q: Seq<Waiter>, conn: u64)
    ensures
        without(q, conn).len() <= q.len(),
        forall|k: int| 0 <= k < without(q, conn).len() ==> #[trigger] without(q, conn)[k].conn != conn,
        forall|k: int| 0 <= k < without(q, conn).len() ==> exists|j: int| 0 <= j < q.len() && q[j] == #[trigger] without(q, conn)[k],
        !in_queue(without(q, conn), conn),
        distinct_conns(q) ==> distinct_conns(without(q, conn)),
        forall|c: u64| in_queue(without(q, conn), c) ==> in_queue(q, c),
    decreases q.len(),
{
    if q.len() > 0 {
        let p = q.drop_last();
        lemma_without_members(p, conn);
        let w = without(q, conn);
        let wp = without(p, conn);
        assert forall|k: int| 0 <= k < w.len() implies exists|j: int| 0 <= j < q.len() && q[j] == #[trigger] w[k] by {
            if k < wp.len() {
                let j = choose|j: int| 0 <= j < p.len() && p[j] == wp[k];
                assert(q[j] == w[k]);
            } else {
                assert(q[q.len() - 1] == w[k]);
            }
        }
        if distinct_conns(q) {
            assert(distinct_conns(p));
            assert forall|i: int, j: int| 0 <= i < j < w.len() implies w[i].conn != w[j].conn by {
                if j >= wp.len() {
                    let ji = choose|ji: int| 0 <= ji < p.len() && p[ji] == wp[i];
                    assert(q[ji] == p[ji]);
                }
            }
        }
        assert forall|c: u64| in_queue(w, c) implies in_queue(q, c) by {
            let k = choose|k: int| 0 <= k < w.len() && w[k].conn == c;
            let j = choose|j: int| 0 <= j < q.len() && q[j] == w[k];
        }
    }
}

/// Every state reached by `RequestName` from a well-formed one is well formed.
pub proof fn lemma_request_keeps_wf(s: Slot, conn: u64, flags: NameFlags)
    requires
        slot_wf(s),
    ensures
        slot_wf(request_step(s, conn, flags).0),
{
    lemma_without_members(s.queue, conn);
    let t = request_step(s, conn, flags).0;
    if let Some(o) = s.owner {
        if o.conn != conn && flags.replace_existing && o.flags.allow_replacement {
            let rest = without(s.queue, conn);
            if !o.flags.do_not_queue {
                assert(!in_queue(rest, o.conn));
                assert forall|i: int, j: int| 0 <= i < j < t.queue.len() implies t.queue[i].conn != t.queue[j].conn by {
                    if j == rest.len() {
                        assert(rest[i].conn != o.conn);
                    }
                }
                assert(!in_queue(t.queue, conn)) by {
                    if in_queue(t.queue, conn) {
                        let k = choose|k: int| 0 <= k < t.queue.len() && t.queue[k].conn == conn;
                        if k < rest.len() {
                            assert(rest[k].conn != conn);
                        }
                    }
                }
            }
        } else if o.conn != conn && !flags.do_not_queue && !in_queue(s.queue, conn) {
            let q = s.queue.push(Waiter { conn, flags });
            assert forall|i: int, j: int| 0 <= i < j < q.len() implies q[i].conn != q[j].conn by {
                if j == s.queue.len() {
                    assert(s.queue[i].conn != conn);
                }
            }
            assert(!in_queue(q, o.conn)) by {
                if in_queue(q, o.conn) {
                    let k = choose|k: int| 0 <= k < q.len() && q[k].conn == o.conn;
                    if k < s.queue.len() {
                        assert(in_queue(s.queue, o.conn));
                    }
                }
            }
        }
    }
}

/// Every state reached by `ReleaseName` from a well-formed one is well formed.
pub proof fn lemma_release_keeps_wf(s: Slot, conn: u64)
    requires
        slot_wf(s),
    ensures
        slot_wf(release_step(s, conn).0),
{
    lemma_without_members(s.queue, conn);
    let t = release_step(s, conn).0;
    if let Some(o) = s.owner {
        if o.conn == conn && s.queue.len() > 0 {
            let h = s.queue[0];
            assert forall|i: int, j: int| 0 <= i < j < t.queue.len() implies t.queue[i].conn != t.queue[j].conn by {
                assert(t.queue[i] == s.queue[i + 1]);
                assert(t.queue[j] == s.queue[j + 1]);
            }
            assert(!in_queue(t.queue, h.conn)) by {
                if in_queue(t.queue, h.conn) {
                    let k = choose|k: int| 0 <= k < t.queue.len() && t.queue[k].conn == h.conn;
                    assert(t.queue[k] == s.queue[k + 1]);
                }
            }
        } else if o.conn != conn && in_queue(s.queue, conn) {
            assert(!in_queue(t.queue, o.conn));
        }
    }
}

/// Registry-wide well-formedness: each name in one entry, each entry well formed.
pub open spec fn registry_wf(s: Seq<EntryView>) -> bool {
    &&& forall|i: int, j: int| 0 <= i < s.len() && 0 <= j < s.len() && s[i].name == s[j].name ==> i == j
    &&& forall|i: int| 0 <= i < s.len() ==> slot_wf(#[trigger] s[i].slot)
}

pub proof fn lemma_slot_of_index(s: Seq<EntryView>, i: int)
    requires
        registry_wf(s),
        0 <= i < s.len(),
    ensures
        slot_of(s, s[i].name) == s[i].slot,
{
    assert(has_name(s, s[i].name));
}

pub proof fn lemma_slot_of_wf(s: Seq<EntryView>, name: Seq<u8>)
    requires
        registry_wf(s),
    ensures
        slot_wf(slot_of(s, name)),
{
    if !has_name(s, name) {
        assert(!in_queue(empty_slot().queue, 0));
    }
}

pub proof fn lemma_update_slot(s: Seq<EntryView>, i: int, t: Slot)
    requires
        registry_wf(s),
        0 <= i < s.len(),
        slot_wf(t),
    ensures
        registry_wf(s.update(i, EntryView { name: s[i].name, slot: t })),
        slot_of(s.update(i, EntryView { name: s[i].name, slot: t }), s[i].name) == t,
        forall|n: Seq<u8>| n != s[i].name ==> slot_of(s.update(i, EntryView { name: s[i].name, slot: t }), n) == slot_of(s, n),
{
    let s2 = s.update(i, EntryView { name: s[i].name, slot: t });
    assert forall|a: int, b: int| 0 <= a < s2.len() && 0 <= b < s2.len() && s2[a].name == s2[b].name implies a == b by {
        assert(s2[a].name == s[a].name);
        assert(s2[b].name == s[b].name);
    }
    assert(registry_wf(s2));
    lemma_slot_of_index(s2, i);
    assert forall|n: Seq<u8>| n != s[i].name implies slot_of(s2, n) == slot_of(s, n) by {
        if has_name(s, n) {
            let j = choose|j: int| 0 <= j < s.len() && s[j].name == n;
            lemma_slot_of_index(s, j);
            lemma_slot_of_index(s2, j);
        } else {
            assert forall|j: int| 0 <= j < s2.len() implies s2[j].name != n by {
                assert(s2[j].name == s[j].name);
            }
        }
    }
}

pub proof fn lemma_push_slot(s: Seq<EntryView>, name: Seq<u8>, t: Slot)
    requires
        registry_wf(s),
        !has_name(s, name),
        slot_wf(t),
    ensures
        registry_wf(s.push(EntryView { name, slot: t })),
        slot_of(s.push(EntryView { name, slot: t }), name) == t,
        forall|n: Seq<u8>| n != name ==> slot_of(s.push(EntryView { name, slot: t }), n) == slot_of(s, n),
{
    let s2 = s.push(EntryView { name, slot: t });
    assert forall|a: int, b: int| 0 <= a < s2.len() && 0 <= b < s2.len() && s2[a].name == s2[b].name implies a == b by {
        if a < s.len() {
            assert(s2[a] == s[a]);
        }
        if b < s.len() {
            assert(s2[b] == s[b]);
        }
    }
    assert(registry_wf(s2));
    lemma_slot_of_index(s2, s.len() as int);
    assert forall|n: Seq<u8>| n != name implies slot_of(s2, n) == slot_of(s, n) by {
        if has_name(s, n) {
            let j = choose|j: int| 0 <= j < s.len() && s[j].name == n;
            lemma_slot_of_index(s, j);
            assert(s2[j] == s[j]);
            lemma_slot_of_index(s2, j);
        } else {
            assert forall|j: int| 0 <= j < s2.len() implies s2[j].name != n by {
                if j < s.len() {
                    assert(s2[j] == s[j]);
                }
            }
        }
    }
}

/// When the owner of a name leaves, the name goes to the head of its queue,
/// or to nobody where the queue is empty, and the change names the leaving
/// connection as the old owner and the head as the new one.
pub proof fn lemma_departure_hands_over(s: Slot, name: Seq<u8>, conn: u64)
    requires
        slot_wf(s),
        owner_conn(s) == Some(conn),
    ensures
        s.queue.len() > 0 ==> release_step(s, conn).0.owner == Some(s.queue[0]) && change_of(name, s, release_step(s, conn).0)
            == Some(ChangeView { name, old_owner: Some(conn), new_owner: Some(s.queue[0].conn) }),
        s.queue.len() > 0 ==> release_step(s, conn).0.queue == s.queue.drop_first(),
        s.queue.len() == 0 ==> release_step(s, conn).0.owner is None && change_of(name, s, release_step(s, conn).0)
            == Some(ChangeView { name, old_owner: Some(conn), new_owner: None }),
{
    if s.queue.len() > 0 {
        assert(s.queue[0].conn != conn);
    }
}

/// A connection that leaves neither owns nor waits for the name afterwards.
pub proof fn lemma_departure_leaves_nothing(s: Slot, conn: u64)
    requires
        slot_wf(s),
    ensures
        owner_conn(release_step(s, conn).0) != Some(conn),
        !in_queue(release_step(s, conn).0.queue, conn),
{
    lemma_without_members(s.queue, conn);
    let t = release_step(s, conn).0;
    if owner_conn(s) == Some(conn) && s.queue.len() > 0 {
        assert(s.queue[0].conn != conn);
        if in_queue(t.queue, conn) {
            let k = choose|k: int| 0 <= k < t.queue.len() && t.queue[k].conn == conn;
            assert(t.queue[k] == s.queue[k + 1]);
        }
    }
}

/// The owner and then the waiters of a name, as `ListQueuedOwners` gives them.
pub open spec fn queued_owners(s: Slot) -> Seq<u64> {
    let q = s.queue.map_values(|w: Waiter| w.conn);
    match s.owner {
        Some(o) => seq![o.conn] + q,
        None => q,
    }
}

/// The names that have an owner, in entry order.
pub open spec fn owned_names(s: Seq<EntryView>) -> Seq<Seq<u8>>
    decreases s.len(),
{
    if s.len() == 0 {
        Seq::empty()
    } else {
        let rest = owned_names(s.drop_last());
        if s.last().slot.owner is Some {
            rest.push(s.last().name)
        } else {
            rest
        }
    }
}

/// A change of a name's primary owner.
#[derive(Debug)]
pub struct OwnerChange {
    pub name: Vec<u8>,
    pub old_owner: Option<u64>,
    pub new_owner: Option<u64>,
}

impl View for OwnerChange {
    type V = ChangeView;

    open spec fn view(&self) -> ChangeView {
        ChangeView { name: self.name@, old_owner: self.old_owner, new_owner: self.new_owner }
    }
}

pub open spec fn opt_change_view(c: Option<OwnerChange>) -> Option<ChangeView> {
    match c {
        Some(c) => Some(c@),
        None => None,
    }
}

pub open spec fn changes_view(v: Seq<OwnerChange>) -> Seq<ChangeView> {
    v.map_values(|c: OwnerChange| c@)
}

#[derive(Debug)]
pub struct NameEntry {
    pub name: Vec<u8>,
    pub owner: Option<Waiter>,
    pub queue: Vec<Waiter>,
}

impl View for NameEntry {
    type V = EntryView;

    open spec fn view(&self) -> EntryView {
        EntryView { name: self.name@, slot: Slot { owner: self.owner, queue: self.queue@ } }
    }
}

fn queue_has(q: &Vec<Waiter>, conn: u64) -> (r: bool)
    ensures
        r == in_queue(q@, conn),
{
    let mut i: usize = 0;
    while i < q.len()
        invariant
            0 <= i <= q@.len(),
            forall|k: int| 0 <= k < i ==> q@[k].conn != conn,
        decreases q@.len() - i,
    {
        if q[i].conn == conn {
            return true;
        }
        i = i + 1;
    }
    false
}

fn queue_without(q: &Vec<Waiter>, conn: u64) -> (r: Vec<Waiter>)
    ensures
        r@ == without(q@, conn),
{
    let mut out: Vec<Waiter> = Vec::new();
    let mut i: usize = 0;
    while i < q.len()
        invariant
            0 <= i <= q@.len(),
            out@ == without(q@.subrange(0, i as int), conn),
        decreases q@.len() - i,
    {
        assert(q@.subrange(0, i + 1).drop_last() =~= q@.subrange(0, i as int));
        if q[i].conn != conn {
            out.push(q[i]);
        }
        i = i + 1;
    }
    assert(q@.subrange(0, q@.len() as int) =~= q@);
    out
}

fn queue_from(q: &Vec<Waiter>, start: usize) -> (r: Vec<Waiter>)
    requires
        start <= q@.len(),
    ensures
        r@ == q@.subrange(start as int, q@.len() as int),
        start == 0 ==> r@ == q@,
{
    let mut out: Vec<Waiter> = Vec::new();
    let mut i: usize = start;
    while i < q.len()
        invariant
            start <= i <= q@.len(),
            out@ == q@.subrange(start as int, i as int),
        decreases q@.len() - i,
    {
        out.push(q[i]);
        i = i + 1;
        assert(out@ =~= q@.subrange(start as int, i as int));
    }
    assert(q@.subrange(0, q@.len() as int) =~= q@);
    out
}

fn request_on(owner: Option<Waiter>, queue: &Vec<Waiter>, conn: u64, flags: NameFlags) -> (r: (Option<Waiter>, Vec<Waiter>, RequestReply))
    ensures
        request_step(Slot { owner, queue: queue@ }, conn, flags) == (Slot { owner: r.0, queue: r.1@ }, r.2),
{
    match owner {
        None => {
            let q: Vec<Waiter> = Vec::new();
            assert(q@ =~= Seq::<Waiter>::empty());
            (Some(Waiter { conn, flags }), q, RequestReply::PrimaryOwner)
        },
        Some(o) => {
            if o.conn == conn {
                (owner, queue_from(queue, 0), RequestReply::AlreadyOwner)
            } else if flags.replace_existing && o.flags.allow_replacement {
                let mut q = queue_without(queue, conn);
                if !o.flags.do_not_queue {
                    q.push(o);
                }
                (Some(Waiter { conn, flags }), q, RequestReply::PrimaryOwner)
            } else if flags.do_not_queue {
                (owner, queue_from(queue, 0), RequestReply::Exists)
            } else if queue_has(queue, conn) {
                (owner, queue_from(queue, 0), RequestReply::InQueue)
            } else {
                let mut q = queue_from(queue, 0);
                q.push(Waiter { conn, flags });
                (owner, q, RequestReply::InQueue)
            }
        },
    }
}

fn release_on(owner: Option<Waiter>, queue: &Vec<Waiter>, conn: u64) -> (r: (Option<Waiter>, Vec<Waiter>, ReleaseReply))
    ensures
        release_step(Slot { owner, queue: queue@ }, conn) == (Slot { owner: r.0, queue: r.1@ }, r.2),
{
    match owner {
        None => (owner, queue_from(queue, 0), ReleaseReply::NonExistent),
        Some(o) => {
            if o.conn == conn {
                if queue.len() == 0 {
                    (None, queue_from(queue, 0), ReleaseReply::Released)
                } else {
                    let q = queue_from(queue, 1);
                    assert(q@ =~= queue@.drop_first());
                    (Some(queue[0]), q, ReleaseReply::Released)
                }
            } else if queue_has(queue, conn) {
                (owner, queue_without(queue, conn), ReleaseReply::Released)
            } else {
                (owner, queue_from(queue, 0), ReleaseReply::NotOwner)
            }
        },
    }
}

fn change_between(name: &Vec<u8>, before: Option<Waiter>, after: Option<Waiter>) -> (r: Option<OwnerChange>)
    ensures
        opt_change_view(r) == change_of(
            name@,
            Slot { owner: before, queue: Seq::empty() },
            Slot { owner: after, queue: Seq::empty() },
        ),
{
    let old_owner = match before {
        Some(w) => Some(w.conn),
        None => None,
    };
    let new_owner = match after {
        Some(w) => Some(w.conn),
        None => None,
    };
    if old_owner != new_owner {
        Some(OwnerChange { name: copy_bytes(name), old_owner, new_owner })
    } else {
        None
    }
}

/// The well-known names of the bus and their owners.
pub struct NameRegistry {
    entries: Vec<NameEntry>,
}

impl View for NameRegistry {
    type V = Seq<EntryView>;

    closed spec fn view(&self) -> Seq<EntryView> {
        self.entries@.map_values(|e: NameEntry| e@)
    }
}

impl NameRegistry {
    pub open spec fn wf(&self) -> bool {
        registry_wf(self@)
    }

    pub fn new() -> (r: NameRegistry)
        ensures
            r.wf(),
            forall|n: Seq<u8>| slot_of(r@, n) == empty_slot(),
    {
        let r = NameRegistry { entries: Vec::new() };
        assert(r@ =~= Seq::<EntryView>::empty());
        r
    }

    fn find(&self, name: &Vec<u8>) -> (r: Option<usize>)
        ensures
            match r {
                Some(i) => i < self@.len() && self@[i as int].name == name@,
                None => !has_name(self@, name@),
            },
    {
        let mut i: usize = 0;
        while i < self.entries.len()
            invariant
                0 <= i <= self@.len(),
                self@.len() == self.entries@.len(),
                forall|k: int| 0 <= k < i ==> self@[k].name != name@,
            decreases self@.len() - i,
        {
            assert(self@[i as int] == self.entries@[i as int]@);
            if bytes_eq(&self.entries[i].name, name) {
                return Some(i);
            }
            i = i + 1;
        }
        None
    }

    /// The unique-name number of the primary owner of `name`, if any.
    pub fn get_name_owner(&self, name: &Vec<u8>) -> (r: Option<u64>)
        requires
            self.wf(),
        ensures
            r == owner_conn(slot_of(self@, name@)),
    {
        match self.find(name) {
            Some(i) => {
                proof { lemma_slot_of_index(self@, i as int); }
                assert(self@[i as int] == self.entries@[i as int]@);
                match self.entries[i].owner {
                    Some(w) => Some(w.conn),
                    None => None,
                }
            },
            None => None,
        }
    }

    /// Whether `name` has a primary owner.
    pub fn name_has_owner(&self, name: &Vec<u8>) -> (r: bool)
        requires
            self.wf(),
        ensures
            r == (slot_of(self@, name@).owner is Some),
    {
        self.get_name_owner(name).is_some()
    }
    /// `RequestName`: asks for `name` on behalf of connection `conn`.
    pub fn request_name(&mut self, name: &Vec<u8>, conn: u64, flags: NameFlags) -> (r: (RequestReply, Option<OwnerChange>))
        requires
            old(self).wf(),
        ensures
            final(self).wf(),
            r.0 == request_step(slot_of(old(self)@, name@), conn, flags).1,
            slot_of(final(self)@, name@) == request_step(slot_of(old(self)@, name@), conn, flags).0,
            forall|n: Seq<u8>| n != name@ ==> slot_of(final(self)@, n) == slot_of(old(self)@, n),
            opt_change_view(r.1) == change_of(
                name@,
                slot_of(old(self)@, name@),
                request_step(slot_of(old(self)@, name@), conn, flags).0,
            ),
    {
        let ghost s0 = self@;
        match self.find(name) {
            Some(i) => {
                proof { lemma_slot_of_index(s0, i as int); }
                assert(s0[i as int] == self.entries@[i as int]@);
                let before = self.entries[i].owner;
                let (owner, queue, reply) = request_on(before, &self.entries[i].queue, conn, flags);
                let change = change_between(name, before, owner);
                proof { lemma_request_keeps_wf(s0[i as int].slot, conn, flags); }
                let entry = NameEntry { name: copy_bytes(name), owner, queue };
                self.entries.set(i, entry);
                proof {
                    assert(self@ =~= s0.update(i as int, EntryView { name: s0[i as int].name, slot: Slot { owner, queue: entry@.slot.queue } }));
                    lemma_update_slot(s0, i as int, Slot { owner, queue: entry@.slot.queue });
                }
                (reply, change)
            },
            None => {
                let empty: Vec<Waiter> = Vec::new();
                assert(empty@ =~= Seq::<Waiter>::empty());
                let (owner, queue, reply) = request_on(None, &empty, conn, flags);
                let change = change_between(name, None, owner);
                proof { lemma_request_keeps_wf(empty_slot(), conn, flags); }
                let entry = NameEntry { name: copy_bytes(name), owner, queue };
                let ghost ev = entry@;
                self.entries.push(entry);
                proof {
                    assert(self@ =~= s0.push(ev));
                    lemma_push_slot(s0, name@, ev.slot);
                }
                (reply, change)
            },
        }
    }

    /// `ReleaseName`: gives up `name`, or the place in its queue, for `conn`.
    pub fn release_name(&mut self, name: &Vec<u8>, conn: u64) -> (r: (ReleaseReply, Option<OwnerChange>))
        requires
            old(self).wf(),
        ensures
            final(self).wf(),
            r.0 == release_step(slot_of(old(self)@, name@), conn).1,
            slot_of(final(self)@, name@) == release_step(slot_of(old(self)@, name@), conn).0,
            forall|n: Seq<u8>| n != name@ ==> slot_of(final(self)@, n) == slot_of(old(self)@, n),
            opt_change_view(r.1) == change_of(
                name@,
                slot_of(old(self)@, name@),
                release_step(slot_of(old(self)@, name@), conn).0,
            ),
    {
        let ghost s0 = self@;
        match self.find(name) {
            Some(i) => {
                proof { lemma_slot_of_index(s0, i as int); }
                assert(s0[i as int] == self.entries@[i as int]@);
                let before = self.entries[i].owner;
                let (owner, queue, reply) = release_on(before, &self.entries[i].queue, conn);
                let change = change_between(name, before, owner);
                proof { lemma_release_keeps_wf(s0[i as int].slot, conn); }
                let entry = NameEntry { name: copy_bytes(name), owner, queue };
                self.entries.set(i, entry);
                proof {
                    assert(self@ =~= s0.update(i as int, EntryView { name: s0[i as int].name, slot: Slot { owner, queue: entry@.slot.queue } }));
                    lemma_update_slot(s0, i as int, Slot { owner, queue: entry@.slot.queue });
                }
                (reply, change)
            },
            None => (ReleaseReply::NonExistent, None),
        }
    }

    /// Releases every name that `conn` owns or waits for, as when it
    /// disconnects, and returns the owner changes in entry order.
    pub fn release_all(&mut self, conn: u64) -> (r: Vec<OwnerChange>)
        requires
            old(self).wf(),
        ensures
            final(self).wf(),
            forall|n: Seq<u8>| slot_of(final(self)@, n) == release_step(slot_of(old(self)@, n), conn).0,
            forall|n: Seq<u8>|
                owner_conn(#[trigger] slot_of(final(self)@, n)) != Some(conn) && !in_queue(slot_of(final(self)@, n).queue, conn),
            changes_view(r@) == departure_changes(old(self)@, conn),
    {
        let ghost s0 = self@;
        let mut out: Vec<OwnerChange> = Vec::new();
        let mut i: usize = 0;
        while i < self.entries.len()
            invariant
                0 <= i <= self@.len(),
                self@.len() == s0.len() == self.entries@.len(),
                registry_wf(self@),
                forall|k: int| 0 <= k < i ==> #[trigger] self@[k] == (EntryView { name: s0[k].name, slot: release_step(s0[k].slot, conn).0 }),
                forall|k: int| i <= k < s0.len() ==> #[trigger] self@[k] == s0[k],
                changes_view(out@) == departure_changes(s0.subrange(0, i as int), conn),
            decreases s0.len() - i,
        {
            let ghost cur = self@;
            assert(cur[i as int] == self.entries@[i as int]@);
            let before = self.entries[i].owner;
            let (owner, queue, _reply) = release_on(before, &self.entries[i].queue, conn);
            let change = change_between(&self.entries[i].name, before, owner);
            proof { lemma_release_keeps_wf(s0[i as int].slot, conn); }
            let entry = NameEntry { name: copy_bytes(&self.entries[i].name), owner, queue };
            self.entries.set(i, entry);
            proof {
                assert(self@ =~= cur.update(i as int, EntryView { name: cur[i as int].name, slot: Slot { owner, queue: entry@.slot.queue } }));
                lemma_update_slot(cur, i as int, Slot { owner, queue: entry@.slot.queue });
                assert(s0.subrange(0, i + 1).drop_last() =~= s0.subrange(0, i as int));
            }
            match change {
                Some(c) => {
                    out.push(c);
                },
                None => {},
            }
            proof {
                assert(changes_view(out@) =~= departure_changes(s0.subrange(0, i + 1), conn));
            }
            i = i + 1;
        }
        proof {
            assert(s0.subrange(0, s0.len() as int) =~= s0);
            let s1 = self@;
            assert forall|n: Seq<u8>| slot_of(s1, n) == release_step(slot_of(s0, n), conn).0 by {
                if has_name(s0, n) {
                    let j = choose|j: int| 0 <= j < s0.len() && s0[j].name == n;
                    lemma_slot_of_index(s0, j);
                    assert(s1[j] == EntryView { name: s0[j].name, slot: release_step(s0[j].slot, conn).0 });
                    lemma_slot_of_index(s1, j);
                } else {
                    assert forall|j: int| 0 <= j < s1.len() implies s1[j].name != n by {
                        assert(s1[j] == EntryView { name: s0[j].name, slot: release_step(s0[j].slot, conn).0 });
                    }
                    assert(release_step(empty_slot(), conn).0 == empty_slot());
                }
            }
            assert forall|n: Seq<u8>|
                owner_conn(#[trigger] slot_of(s1, n)) != Some(conn) && !in_queue(slot_of(s1, n).queue, conn) by {
                lemma_slot_of_wf(s0, n);
                lemma_departure_leaves_nothing(slot_of(s0, n), conn);
            }
        }
        out
    }

    /// `ListQueuedOwners`: the owner of `name`, then its waiters in order.
    pub fn list_queued_owners(&self, name: &Vec<u8>) -> (r: Vec<u64>)
        requires
            self.wf(),
        ensures
            r@ == queued_owners(slot_of(self@, name@)),
    {
        let mut out: Vec<u64> = Vec::new();
        match self.find(name) {
            Some(i) => {
                proof { lemma_slot_of_index(self@, i as int); }
                assert(self@[i as int] == self.entries@[i as int]@);
                let e = &self.entries[i];
                match e.owner {
                    Some(o) => { out.push(o.conn); },
                    None => {},
                }
                let ghost start = out@;
                let mut k: usize = 0;
                while k < e.queue.len()
                    invariant
                        0 <= k <= e.queue@.len(),
                        out@ == start + e.queue@.subrange(0, k as int).map_values(|w: Waiter| w.conn),
                    decreases e.queue@.len() - k,
                {
                    out.push(e.queue[k].conn);
                    k = k + 1;
                    assert(out@ =~= start + e.queue@.subrange(0, k as int).map_values(|w: Waiter| w.conn));
                }
                assert(e.queue@.subrange(0, e.queue@.len() as int) =~= e.queue@);
                assert(out@ =~= queued_owners(slot_of(self@, name@)));
                out
            },
            None => {
                assert(out@ =~= queued_owners(slot_of(self@, name@)));
                out
            },
        }
    }

    /// The well-known names that currently have an owner, in the order in
    /// which they were first requested.
    pub fn list_names(&self) -> (r: Vec<Vec<u8>>)
        ensures
            r@.map_values(|v: Vec<u8>| v@) == owned_names(self@),
    {
        let mut out: Vec<Vec<u8>> = Vec::new();
        let mut i: usize = 0;
        while i < self.entries.len()
            invariant
                0 <= i <= self@.len(),
                self@.len() == self.entries@.len(),
                out@.map_values(|v: Vec<u8>| v@) == owned_names(self@.subrange(0, i as int)),
            decreases self@.len() - i,
        {
            assert(self@[i as int] == self.entries@[i as int]@);
            assert(self@.subrange(0, i + 1).drop_last() =~= self@.subrange(0, i as int));
            if self.entries[i].owner.is_some() {
                out.push(copy_bytes(&self.entries[i].name));
            }
            i = i + 1;
            assert(out@.map_values(|v: Vec<u8>| v@) =~= owned_names(self@.subrange(0, i as int)));
        }
        assert(self@.subrange(0, self@.len() as int) =~= self@);
        out
    }
}

} // verus!
