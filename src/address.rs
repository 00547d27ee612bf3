//! Bus addresses: `transport:key=value[,key=value...]`, for example
//! `unix:path=/run/bus` or `tcp:host=localhost,port=4000`.
use vstd::prelude::*;
use crate::bytes::copy_range;
use crate::rules::find_byte;

verus! {

/// One `key=value` pair.
#[derive(Debug)]
pub struct KeyValue {
    pub key: Vec<u8>,
    pub value: Vec<u8>,
}

/// A parsed address: the transport and its pairs in order.
#[derive(Debug)]
pub struct Address {
    pub transport: Vec<u8>,
    pub pairs: Vec<KeyValue>,
}

pub open spec fn pairs_view(v: Seq<KeyValue>) -> Seq<(Seq<u8>, Seq<u8>)> {
    v.map_values(|p: KeyValue| (p.key@, p.value@))
}

/// The pairs in `s` from `pos` on, each `key=value` with a non-empty key,
/// separated by commas; `None` where they do not read.
pub open spec fn parse_pairs(s: Seq<u8>, pos: int) -> Option<Seq<(Seq<u8>, Seq<u8>)>>
    decreases s.len() - pos,
{
    if pos < 0 || pos >= s.len() {
        Some(Seq::empty())
    } else {
        let comma = find_byte(s, pos, 44u8);
        let eq = find_byte(s, pos, 61u8);
        if comma < pos || eq <= pos || eq >= comma {
            None
        } else {
            let item = (s.subrange(pos, eq), s.subrange(eq + 1, comma));
            if comma >= s.len() {
                Some(seq![item])
            } else {
                match parse_pairs(s, comma + 1) {
                    Some(rest) => Some(seq![item] + rest),
                    None => None,
                }
            }
        }
    }
}

/// The transport (non-empty, before the first colon) and the pairs.
pub open spec fn address_of(s: Seq<u8>) -> Option<(Seq<u8>, Seq<(Seq<u8>, Seq<u8>)>)> {
    let colon = find_byte(s, 0, 58u8);
    if colon <= 0 || colon >= s.len() {
        None
    } else {
        match parse_pairs(s, colon + 1) {
            Some(p) => Some((s.subrange(0, colon), p)),
            None => None,
        }
    }
}

fn find_exec(s: &Vec<u8>, from: usize, c: u8) -> (r: usize)
    requires
        from <= s@.len(),
    ensures
        r == find_byte(s@, from as int, c),
        from <= r <= s@.len(),
{
    let mut i = from;
    while i < s.len() && s[i] != c
        invariant
            from <= i <= s@.len(),
            find_byte(s@, i as int, c) == find_byte(s@, from as int, c),
        decreases s@.len() - i,
    {
        i = i + 1;
    }
    i
}

/// Reads an address.
pub fn parse_address(s: &Vec<u8>) -> (r: Option<Address>)
    ensures
        match address_of(s@) {
            Some(a) => r matches Some(x) && x.transport@ == a.0 && pairs_view(x.pairs@) == a.1,
            None => r is None,
        },
{
    let colon = find_exec(s, 0, 58u8);
    if colon == 0 || colon >= s.len() {
        return None;
    }
    let transport = copy_range(s, 0, colon);
    let mut pairs: Vec<KeyValue> = Vec::new();
    let mut pos = colon + 1;
    while pos < s.len()
        invariant
            colon + 1 <= pos <= s@.len(),
            0 < colon < s@.len(),
            colon == find_byte(s@, 0, 58u8),
            transport@ == s@.subrange(0, colon as int),
            match parse_pairs(s@, colon + 1) {
                Some(all) => match parse_pairs(s@, pos as int) {
                    Some(rest) => all == pairs_view(pairs@) + rest,
                    None => false,
                },
                None => parse_pairs(s@, pos as int) is None,
            },
        decreases s@.len() - pos,
    {
        let comma = find_exec(s, pos, 44u8);
        let eq = find_exec(s, pos, 61u8);
        if eq <= pos || eq >= comma {
            assert(parse_pairs(s@, pos as int) is None);
            assert(parse_pairs(s@, colon + 1) is None);
            return None;
        }
        let key = copy_range(s, pos, eq);
        let value = copy_range(s, eq + 1, comma);
        let ghost before = pairs_view(pairs@);
        pairs.push(KeyValue { key, value });
        assert(pairs_view(pairs@) =~= before.push((s@.subrange(pos as int, eq as int), s@.subrange(eq + 1, comma as int))));
        if comma >= s.len() {
            assert(parse_pairs(s@, s@.len() as int) == Some(Seq::<(Seq<u8>, Seq<u8>)>::empty()));
            assert(before + seq![(s@.subrange(pos as int, eq as int), s@.subrange(eq + 1, comma as int))] =~= pairs_view(pairs@));
            assert(pairs_view(pairs@) =~= pairs_view(pairs@) + Seq::<(Seq<u8>, Seq<u8>)>::empty());
            pos = comma;
        } else {
            proof {
                let item = (s@.subrange(pos as int, eq as int), s@.subrange(eq + 1, comma as int));
                if let Some(rest) = parse_pairs(s@, comma + 1) {
                    assert(before + (seq![item] + rest) =~= pairs_view(pairs@) + rest);
                }
            }
            pos = comma + 1;
        }
    }
    proof {
        assert(parse_pairs(s@, pos as int) == Some(Seq::<(Seq<u8>, Seq<u8>)>::empty()));
        if let Some(all) = parse_pairs(s@, colon + 1) {
            assert(pairs_view(pairs@) + Seq::<(Seq<u8>, Seq<u8>)>::empty() =~= pairs_view(pairs@));
        }
    }
    Some(Address { transport, pairs })
}

} // verus!
