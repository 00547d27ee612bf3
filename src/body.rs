//! Message bodies made of strings (`s`) and 32-bit unsigned integers (`u`),
//! the argument types of the bus's own methods and signals.
use vstd::prelude::*;
use crate::bytes::copy_range;
use crate::codec::{Endian, push_u32, read_u32, read_u32_at, u32_bytes};
use crate::fields::{align, pad_to};

verus! {

/// `acc` followed by the string `s`, aligned to 4: length, bytes, a zero.
pub open spec fn str_arg(acc: Seq<u8>, e: Endian, s: Seq<u8>) -> Seq<u8> {
    pad_to(acc, 4) + u32_bytes(e, s.len() as u32) + s + seq![0u8]
}

/// `acc` followed by string arguments, in order.
pub open spec fn str_args_onto(acc: Seq<u8>, e: Endian, args: Seq<Seq<u8>>) -> Seq<u8>
    decreases args.len(),
{
    if args.len() == 0 {
        acc
    } else {
        str_arg(str_args_onto(acc, e, args.drop_last()), e, args.last())
    }
}

/// A body of string arguments, in order.
pub open spec fn str_args(e: Endian, args: Seq<Seq<u8>>) -> Seq<u8> {
    str_args_onto(Seq::empty(), e, args)
}

/// A body of one array of strings: its length in bytes, then the strings.
pub open spec fn str_array(e: Endian, items: Seq<Seq<u8>>) -> Seq<u8> {
    let all = str_args_onto(seq![0u8, 0u8, 0u8, 0u8], e, items);
    u32_bytes(e, (all.len() - 4) as u32) + all.subrange(4, all.len() as int)
}

/// The string argument at `pos` (aligned up to 4) and the offset past it.
pub open spec fn parse_str_arg(b: Seq<u8>, e: Endian, pos: int) -> Option<(Seq<u8>, int)> {
    let q = align(pos, 4);
    if q + 4 > b.len() {
        None
    } else {
        let n = read_u32(e, b, q) as int;
        if q + 4 + n + 1 > b.len() || b[q + 4 + n] != 0 {
            None
        } else {
            Some((b.subrange(q + 4, q + 4 + n), q + 4 + n + 1))
        }
    }
}

/// The integer argument at `pos` (aligned up to 4) and the offset past it.
pub open spec fn parse_u32_arg(b: Seq<u8>, e: Endian, pos: int) -> Option<(u32, int)> {
    let q = align(pos, 4);
    if q + 4 > b.len() {
        None
    } else {
        Some((read_u32(e, b, q), q + 4))
    }
}

fn align4(pos: usize) -> (r: Option<usize>)
    ensures
        match r {
            Some(q) => q == align(pos as int, 4),
            None => align(pos as int, 4) > usize::MAX,
        },
{
    if pos % 4 == 0 {
        Some(pos)
    } else if pos > usize::MAX - (4 - pos % 4) {
        None
    } else {
        Some(pos + (4 - pos % 4))
    }
}

/// Reads a string argument.
pub fn read_str_arg(b: &Vec<u8>, e: Endian, pos: usize) -> (r: Option<(Vec<u8>, usize)>)
    ensures
        match parse_str_arg(b@, e, pos as int) {
            Some(x) => r matches Some(y) && y.0@ == x.0 && y.1 == x.1,
            None => r is None,
        },
{
    let len = b.len();
    let q = match align4(pos) {
        Some(q) => q,
        None => return None,
    };
    if q > len || len - q < 4 {
        return None;
    }
    let x = read_u32_at(e, b, q);
    if (x as u64) >= (len - q - 4) as u64 {
        return None;
    }
    let n = x as usize;
    if b[q + 4 + n] != 0 {
        return None;
    }
    let v = copy_range(b, q + 4, q + 4 + n);
    Some((v, q + 4 + n + 1))
}

/// Reads an integer argument.
pub fn read_u32_arg(b: &Vec<u8>, e: Endian, pos: usize) -> (r: Option<(u32, usize)>)
    ensures
        match parse_u32_arg(b@, e, pos as int) {
            Some(x) => r matches Some(y) && y.0 == x.0 && y.1 == x.1,
            None => r is None,
        },
{
    let len = b.len();
    let q = match align4(pos) {
        Some(q) => q,
        None => return None,
    };
    if q > len || len - q < 4 {
        return None;
    }
    Some((read_u32_at(e, b, q), q + 4))
}

pub(crate) fn append_str_args(out: &mut Vec<u8>, args: &Vec<Vec<u8>>, e: Endian)
    requires
        forall|i: int| 0 <= i < args@.len() ==> #[trigger] args@[i]@.len() < 0x1_0000_0000,
    ensures
        final(out)@ == str_args_onto(old(out)@, e, args@.map_values(|a: Vec<u8>| a@)),
{
    let ghost views = args@.map_values(|a: Vec<u8>| a@);
    let ghost start = out@;
    let mut i: usize = 0;
    while i < args.len()
        invariant
            0 <= i <= args@.len(),
            views == args@.map_values(|a: Vec<u8>| a@),
            forall|k: int| 0 <= k < args@.len() ==> #[trigger] args@[k]@.len() < 0x1_0000_0000,
            out@ == str_args_onto(start, e, views.subrange(0, i as int)),
        decreases args@.len() - i,
    {
        let a = &args[i];
        let ghost before = out@;
        let pad: usize = if out.len() % 4 == 0 {
            0
        } else {
            4 - out.len() % 4
        };
        let mut k: usize = 0;
        while k < pad
            invariant
                0 <= k <= pad,
                out@ == before + Seq::new(k as nat, |j: int| 0u8),
            decreases pad - k,
        {
            out.push(0u8);
            k = k + 1;
            assert(out@ =~= before + Seq::new(k as nat, |j: int| 0u8));
        }
        assert(out@ =~= pad_to(before, 4));
        push_u32(out, e, a.len() as u32);
        let mut m: usize = 0;
        let ghost mid = out@;
        while m < a.len()
            invariant
                0 <= m <= a@.len(),
                out@ == mid + a@.subrange(0, m as int),
            decreases a@.len() - m,
        {
            out.push(a[m]);
            m = m + 1;
            assert(out@ =~= mid + a@.subrange(0, m as int));
        }
        out.push(0u8);
        proof {
            assert(a@.subrange(0, a@.len() as int) =~= a@);
            assert(views.subrange(0, i + 1).drop_last() =~= views.subrange(0, i as int));
            assert(out@ =~= str_arg(before, e, a@));
        }
        i = i + 1;
    }
    assert(views.subrange(0, args@.len() as int) =~= views);
}

/// Writes a body of string arguments.
pub fn write_str_args(args: &Vec<Vec<u8>>, e: Endian) -> (r: Vec<u8>)
    requires
        forall|i: int| 0 <= i < args@.len() ==> #[trigger] args@[i]@.len() < 0x1_0000_0000,
    ensures
        r@ == str_args(e, args@.map_values(|a: Vec<u8>| a@)),
{
    let mut out: Vec<u8> = Vec::new();
    append_str_args(&mut out, args, e);
    out
}

/// Writes a body of one array of strings.
pub fn write_str_array(items: &Vec<Vec<u8>>, e: Endian) -> (r: Vec<u8>)
    requires
        forall|i: int| 0 <= i < items@.len() ==> #[trigger] items@[i]@.len() < 0x1_0000_0000,
        str_args_onto(seq![0u8, 0u8, 0u8, 0u8], e, items@.map_values(|a: Vec<u8>| a@)).len() <= 0x1_0000_0003,
    ensures
        r@ == str_array(e, items@.map_values(|a: Vec<u8>| a@)),
{
    let mut all: Vec<u8> = vec![0u8, 0u8, 0u8, 0u8];
    assert(all@ =~= seq![0u8, 0u8, 0u8, 0u8]);
    append_str_args(&mut all, items, e);
    let len = all.len();
    let mut out: Vec<u8> = Vec::new();
    push_u32(&mut out, e, (len - 4) as u32);
    let ghost head = out@;
    let mut i: usize = 4;
    while i < len
        invariant
            4 <= i <= len,
            len == all@.len(),
            out@ == head + all@.subrange(4, i as int),
        decreases len - i,
    {
        out.push(all[i]);
        i = i + 1;
        assert(out@ =~= head + all@.subrange(4, i as int));
    }
    out
}

/// Writes a body of one integer.
pub fn write_u32_arg(n: u32, e: Endian) -> (r: Vec<u8>)
    ensures
        r@ == u32_bytes(e, n),
{
    let mut out: Vec<u8> = Vec::new();
    push_u32(&mut out, e, n);
    assert(out@ =~= u32_bytes(e, n));
    out
}

/// A string argument reads back from the bytes it was written to, whatever
/// follows it.
pub proof fn lemma_str_arg_round_trip(acc: Seq<u8>, e: Endian, v: Seq<u8>, rest: Seq<u8>)
    requires
        v.len() < 0x1_0000_0000,
    ensures
        parse_str_arg(str_arg(acc, e, v) + rest, e, acc.len() as int) == Some((v, str_arg(acc, e, v).len() as int)),
{
    let b = str_arg(acc, e, v) + rest;
    let q = align(acc.len() as int, 4);
    assert(pad_to(acc, 4).len() == q);
    assert(b.subrange(q, q + 4) =~= u32_bytes(e, v.len() as u32));
    crate::fields::lemma_read_written(b, q, e, v.len() as u32);
    let n = v.len() as int;
    assert(b[q + 4 + n] == 0u8);
    assert(b.subrange(q + 4, q + 4 + n) =~= v);
}

/// The leading string arguments (`s` or `o`) of a body with signature
/// `sig`, read from signature index `i` and body offset `pos`; reading stops
/// at the first argument of another type or one that does not read.
pub open spec fn string_args(sig: Seq<u8>, body: Seq<u8>, e: Endian, i: int, pos: int) -> Seq<Seq<u8>>
    decreases sig.len() - i,
{
    if i < 0 || i >= sig.len() || !(sig[i] == 115u8 || sig[i] == 111u8) {
        Seq::empty()
    } else {
        match parse_str_arg(body, e, pos) {
            None => Seq::empty(),
            Some(a) => seq![a.0] + string_args(sig, body, e, i + 1, a.1),
        }
    }
}

/// Reads the leading string arguments of a body.
pub fn read_string_args(sig: &Vec<u8>, body: &Vec<u8>, e: Endian) -> (r: Vec<Vec<u8>>)
    ensures
        r@.map_values(|a: Vec<u8>| a@) == string_args(sig@, body@, e, 0, 0),
{
    let mut out: Vec<Vec<u8>> = Vec::new();
    let mut i: usize = 0;
    let mut pos: usize = 0;
    while i < sig.len() && (sig[i] == 115u8 || sig[i] == 111u8)
        invariant
            i <= sig@.len(),
            out@.map_values(|a: Vec<u8>| a@) + string_args(sig@, body@, e, i as int, pos as int) == string_args(sig@, body@, e, 0, 0),
        decreases sig@.len() - i,
    {
        match read_str_arg(body, e, pos) {
            None => {
                assert(out@.map_values(|a: Vec<u8>| a@) =~= out@.map_values(|a: Vec<u8>| a@) + string_args(sig@, body@, e, i as int, pos as int));
                return out;
            },
            Some((v, next)) => {
                let ghost prev = out@.map_values(|a: Vec<u8>| a@);
                let ghost rest = string_args(sig@, body@, e, i + 1, next as int);
                assert(string_args(sig@, body@, e, i as int, pos as int) == seq![v@] + rest);
                out.push(v);
                assert(out@.map_values(|a: Vec<u8>| a@) =~= prev.push(v@));
                assert(prev + (seq![v@] + rest) =~= prev.push(v@) + rest);
                i = i + 1;
                pos = next;
            },
        }
    }
    assert(string_args(sig@, body@, e, i as int, pos as int) =~= Seq::<Seq<u8>>::empty());
    assert(out@.map_values(|a: Vec<u8>| a@) + Seq::<Seq<u8>>::empty() =~= out@.map_values(|a: Vec<u8>| a@));
    out
}

} // verus!
