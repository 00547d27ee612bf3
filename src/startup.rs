//! Decisions made at start-up: which configuration file to read and which
//! address to listen on.
use vstd::prelude::*;

verus! {

/// `/usr/share/dbus-1/system.conf`
pub open spec fn system_conf() -> Seq<u8> {
    seq![47u8, 117, 115, 114, 47, 115, 104, 97, 114, 101, 47, 100, 98, 117, 115, 45, 49, 47, 115, 121, 115, 116, 101, 109, 46, 99, 111, 110, 102]
}

/// `/usr/share/dbus-1/session.conf`
pub open spec fn session_conf() -> Seq<u8> {
    seq![47u8, 117, 115, 114, 47, 115, 104, 97, 114, 101, 47, 100, 98, 117, 115, 45, 49, 47, 115, 101, 115, 115, 105, 111, 110, 46, 99, 111, 110, 102]
}

/// The configuration file to read: the system one when asked for, else the
/// one given, else the session one.
pub fn config_path(system: bool, config: Option<Vec<u8>>) -> (r: Vec<u8>)
    ensures
        system ==> r@ == system_conf(),
        !system ==> match config {
            Some(c) => r@ == c@,
            None => r@ == session_conf(),
        },
{
    if system {
        let r: Vec<u8> = vec![47u8, 117, 115, 114, 47, 115, 104, 97, 114, 101, 47, 100, 98, 117, 115, 45, 49, 47, 115, 121, 115, 116, 101, 109, 46, 99, 111, 110, 102];
        assert(r@ =~= system_conf());
        r
    } else {
        match config {
            Some(c) => c,
            None => {
                let r: Vec<u8> = vec![47u8, 117, 115, 114, 47, 115, 104, 97, 114, 101, 47, 100, 98, 117, 115, 45, 49, 47, 115, 101, 115, 115, 105, 111, 110, 46, 99, 111, 110, 102];
                assert(r@ =~= session_conf());
                r
            },
        }
    }
}

/// The address to listen on: the one given on the command line wins over
/// the one from the configuration file.
pub fn listen_address(flag: Option<Vec<u8>>, from_config: Option<Vec<u8>>) -> (r: Option<Vec<u8>>)
    ensures
        flag is Some ==> r == flag,
        flag is None ==> r == from_config,
{
    match flag {
        Some(a) => Some(a),
        None => from_config,
    }
}

pub open spec fn occurs_at(s: Seq<u8>, pat: Seq<u8>, i: int) -> bool {
    0 <= i && i + pat.len() <= s.len() && s.subrange(i, i + pat.len()) == pat
}

/// `<listen>`
pub open spec fn open_tag() -> Seq<u8> {
    seq![60u8, 108, 105, 115, 116, 101, 110, 62]
}

/// `</listen>`
pub open spec fn close_tag() -> Seq<u8> {
    seq![60u8, 47, 108, 105, 115, 116, 101, 110, 62]
}

fn occurs_exec(s: &Vec<u8>, pat: &Vec<u8>, i: usize) -> (r: bool)
    ensures
        r == occurs_at(s@, pat@, i as int),
{
    if i > s.len() || s.len() - i < pat.len() {
        return false;
    }
    let n = s.len();
    let mut k: usize = 0;
    while k < pat.len()
        invariant
            n == s@.len(),
            i + pat@.len() <= s@.len(),
            0 <= k <= pat@.len(),
            forall|j: int| 0 <= j < k ==> s@[i + j] == pat@[j],
        decreases pat@.len() - k,
    {
        if s[i + k] != pat[k] {
            assert(s@.subrange(i as int, i + pat@.len())[k as int] != pat@[k as int]);
            return false;
        }
        k = k + 1;
    }
    assert(s@.subrange(i as int, i + pat@.len()) =~= pat@);
    true
}

/// The first place at or after `from` where `pat` occurs.
fn find_from(s: &Vec<u8>, pat: &Vec<u8>, from: usize) -> (r: Option<usize>)
    ensures
        match r {
            Some(i) => from <= i && occurs_at(s@, pat@, i as int) && forall|j: int| from <= j < i ==> !occurs_at(s@, pat@, j),
            None => forall|j: int| from <= j ==> !occurs_at(s@, pat@, j),
        },
{
    let mut i = from;
    while i < s.len()
        invariant
            from <= i,
            forall|j: int| from <= j < i ==> !occurs_at(s@, pat@, j),
        decreases s@.len() - i,
    {
        if occurs_exec(s, pat, i) {
            return Some(i);
        }
        i = i + 1;
    }
    if occurs_exec(s, pat, i) {
        return Some(i);
    }
    None
}

/// The text of the first `<listen>` element of a configuration document:
/// what stands between the first `<listen>` and the first `</listen>` after it.
pub fn listen_element(doc: &Vec<u8>) -> (r: Option<Vec<u8>>)
    ensures
        match r {
            Some(v) => exists|o: int, c: int|
                occurs_at(doc@, open_tag(), o) && (forall|j: int| 0 <= j < o ==> !occurs_at(doc@, open_tag(), j))
                    && o + 8 <= c && occurs_at(doc@, close_tag(), c)
                    && (forall|j: int| o + 8 <= j < c ==> !occurs_at(doc@, close_tag(), j))
                    && v@ == doc@.subrange(o + 8, c),
            None => forall|o: int|
                occurs_at(doc@, open_tag(), o) ==> forall|c: int| o + 8 <= c ==> !occurs_at(doc@, close_tag(), c),
        },
{
    let open: Vec<u8> = vec![60u8, 108, 105, 115, 116, 101, 110, 62];
    let close: Vec<u8> = vec![60u8, 47, 108, 105, 115, 116, 101, 110, 62];
    assert(open@ =~= open_tag());
    assert(close@ =~= close_tag());
    let o = match find_from(doc, &open, 0) {
        Some(o) => o,
        None => return None,
    };
    let n = doc.len();
    assert(o + 8 <= n);
    let start = o + 8;
    let c = match find_from(doc, &close, start) {
        Some(c) => c,
        None => {
            assert forall|o2: int| occurs_at(doc@, open_tag(), o2) implies forall|c2: int| o2 + 8 <= c2 ==> !occurs_at(doc@, close_tag(), c2) by {
                assert(o2 >= o);
            }
            return None;
        },
    };
    let mut v: Vec<u8> = Vec::new();
    let mut i = start;
    while i < c
        invariant
            start <= i <= c,
            c + 9 <= doc@.len(),
            v@ == doc@.subrange(start as int, i as int),
        decreases c - i,
    {
        v.push(doc[i]);
        i = i + 1;
        assert(v@ =~= doc@.subrange(start as int, i as int));
    }
    Some(v)
}

} // verus!
