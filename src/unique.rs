//! Unique connection names of the form `:1.N`.
use vstd::prelude::*;

verus! {

/// The decimal digits of `n`, most significant first, no leading zero.
pub open spec fn decimal(n: nat) -> Seq<u8>
    decreases n,
{
    if n < 10 {
        seq![(48 + n) as u8]
    } else {
        decimal(n / 10).push((48 + n % 10) as u8)
    }
}

/// The unique name of the connection numbered `n`: `:1.` and then `n` in decimal.
pub open spec fn unique_name_of(n: nat) -> Seq<u8> {
    seq![58u8, 49u8, 46u8] + decimal(n)
}

pub proof fn lemma_decimal_injective(a: nat, b: nat)
    requires
        decimal(a) == decimal(b),
    ensures
        a == b,
    decreases a,
{
    let da = decimal(a);
    let db = decimal(b);
    if a >= 10 {
        lemma_decimal_len(a / 10);
    }
    if b >= 10 {
        lemma_decimal_len(b / 10);
    }
    assert(da.len() == db.len());
    assert(da.last() == db.last());
    if a >= 10 {
        assert(da == decimal(a / 10).push((48 + a % 10) as u8));
        assert(da.last() == (48 + a % 10) as u8);
    } else {
        assert(da == seq![(48 + a) as u8]);
    }
    if b >= 10 {
        assert(db == decimal(b / 10).push((48 + b % 10) as u8));
        assert(db.last() == (48 + b % 10) as u8);
    } else {
        assert(db == seq![(48 + b) as u8]);
    }
    if a >= 10 && b >= 10 {
        assert(decimal(a / 10) =~= da.drop_last());
        assert(decimal(b / 10) =~= db.drop_last());
        lemma_decimal_injective(a / 10, b / 10);
        assert(((48 + a % 10) as u8) as int == 48 + a % 10);
        assert(((48 + b % 10) as u8) as int == 48 + b % 10);
        assert(a % 10 == b % 10);
        assert(a == 10 * (a / 10) + a % 10);
        assert(b == 10 * (b / 10) + b % 10);
        assert(a / 10 == b / 10);
        assert(a == b);
    } else if a < 10 && b < 10 {
        assert(da[0] == (48 + a) as u8);
        assert(db[0] == (48 + b) as u8);
        assert(da[0] == db[0]);
        assert(((48 + a) as u8) as int == 48 + a);
        assert(((48 + b) as u8) as int == 48 + b);
    } else {
        assert(false);
    }
}

pub proof fn lemma_decimal_len(n: nat)
    ensures
        decimal(n).len() >= 1,
    decreases n,
{
    if n >= 10 {
        lemma_decimal_len(n / 10);
    }
}

/// Connections numbered differently have different unique names.
pub proof fn lemma_unique_names_differ(a: nat, b: nat)
    requires
        a != b,
    ensures
        unique_name_of(a) != unique_name_of(b),
{
    if unique_name_of(a) == unique_name_of(b) {
        assert(decimal(a) =~= unique_name_of(a).subrange(3, unique_name_of(a).len() as int));
        assert(decimal(b) =~= unique_name_of(b).subrange(3, unique_name_of(b).len() as int));
        lemma_decimal_injective(a, b);
    }
}

fn push_decimal(out: &mut Vec<u8>, n: u64)
    ensures
        final(out)@ == old(out)@ + decimal(n as nat),
    decreases n,
{
    if n >= 10 {
        push_decimal(out, n / 10);
    }
    let ghost mid = out@;
    out.push((48 + n % 10) as u8);
    proof {
        if n >= 10 {
            assert(out@ =~= old(out)@ + decimal(n as nat));
        } else {
            assert(out@ =~= old(out)@ + decimal(n as nat));
        }
    }
}

/// Formats `n` in decimal.
pub fn decimal_bytes(n: u64) -> (r: Vec<u8>)
    ensures
        r@ == decimal(n as nat),
{
    let mut out: Vec<u8> = Vec::new();
    push_decimal(&mut out, n);
    assert(out@ =~= decimal(n as nat));
    out
}

/// Formats the unique name of connection `n`.
pub fn unique_name(n: u64) -> (r: Vec<u8>)
    ensures
        r@ == unique_name_of(n as nat),
{
    let mut out: Vec<u8> = Vec::new();
    out.push(58u8);
    out.push(49u8);
    out.push(46u8);
    let ghost pre = out@;
    push_decimal(&mut out, n);
    assert(pre =~= seq![58u8, 49u8, 46u8]);
    out
}

proof fn lemma_monotone(nexts: Seq<u64>, a: int, b: int)
    requires
        0 <= a <= b < nexts.len(),
        forall|k: int| 0 <= k < nexts.len() - 1 ==> #[trigger] nexts[k] <= nexts[k + 1],
    ensures
        nexts[a] <= nexts[b],
    decreases b - a,
{
    if a < b {
        lemma_monotone(nexts, a, b - 1);
        assert(nexts[b - 1] <= nexts[b]);
    }
}

/// Unique names over a whole run of the bus. `nexts[k]` is the number the
/// next connection would get after `k` operations; every operation keeps it
/// or raises it (as the contracts of the bus state say). A `hello` at step
/// `i` hands out `nexts[i]` and raises it by one, so any later `hello`, at
/// step `j > i`, hands out a larger number and a different unique name,
/// whatever connections closed in between.
pub proof fn lemma_hellos_increase(nexts: Seq<u64>, i: int, j: int)
    requires
        0 <= i < j < nexts.len(),
        forall|k: int| 0 <= k < nexts.len() - 1 ==> #[trigger] nexts[k] <= nexts[k + 1],
        nexts[i + 1] == nexts[i] + 1,
    ensures
        nexts[i] < nexts[j],
        unique_name_of(nexts[i] as nat) != unique_name_of(nexts[j] as nat),
{
    lemma_monotone(nexts, i + 1, j);
    lemma_unique_names_differ(nexts[i] as nat, nexts[j] as nat);
}

} // verus!
