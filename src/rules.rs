//! Match rules in their text form: `key='value'` items separated by commas,
//! for example `type='signal',interface='org.example.Iface'`.
use vstd::prelude::*;
use crate::bytes::{bytes_eq, copy_range};
use crate::matching::{ArgMatch, MatchRule, RuleView};
use crate::message::MessageType;

verus! {

/// The first index at or after `from` that holds byte `c`, or the length.
pub open spec fn find_byte(s: Seq<u8>, from: int, c: u8) -> int
    decreases s.len() - from,
{
    if from < 0 || from >= s.len() {
        s.len() as int
    } else if s[from] == c {
        from
    } else {
        find_byte(s, from + 1, c)
    }
}

pub open spec fn empty_rule() -> RuleView {
    RuleView {
        msg_type: None,
        sender: None,
        interface: None,
        member: None,
        path: None,
        destination: None,
        args: Seq::empty(),
    }
}

pub open spec fn k_type() -> Seq<u8> {
    seq![116u8, 121, 112, 101]
}

pub open spec fn k_sender() -> Seq<u8> {
    seq![115u8, 101, 110, 100, 101, 114]
}

pub open spec fn k_interface() -> Seq<u8> {
    seq![105u8, 110, 116, 101, 114, 102, 97, 99, 101]
}

pub open spec fn k_member() -> Seq<u8> {
    seq![109u8, 101, 109, 98, 101, 114]
}

pub open spec fn k_path() -> Seq<u8> {
    seq![112u8, 97, 116, 104]
}

pub open spec fn k_destination() -> Seq<u8> {
    seq![100u8, 101, 115, 116, 105, 110, 97, 116, 105, 111, 110]
}

pub open spec fn v_signal() -> Seq<u8> {
    seq![115u8, 105, 103, 110, 97, 108]
}

pub open spec fn v_method_call() -> Seq<u8> {
    seq![109u8, 101, 116, 104, 111, 100, 95, 99, 97, 108, 108]
}

pub open spec fn v_method_return() -> Seq<u8> {
    seq![109u8, 101, 116, 104, 111, 100, 95, 114, 101, 116, 117, 114, 110]
}

pub open spec fn v_error() -> Seq<u8> {
    seq![101u8, 114, 114, 111, 114]
}

pub open spec fn type_named(v: Seq<u8>) -> Option<MessageType> {
    if v == v_signal() {
        Some(MessageType::Signal)
    } else if v == v_method_call() {
        Some(MessageType::MethodCall)
    } else if v == v_method_return() {
        Some(MessageType::MethodReturn)
    } else if v == v_error() {
        Some(MessageType::Error)
    } else {
        None
    }
}

pub open spec fn is_digit(b: u8) -> bool {
    48 <= b <= 57
}

/// The argument index that a key `argN` names, N from 0 to 63 without a
/// leading zero.
pub open spec fn arg_index(k: Seq<u8>) -> Option<u8> {
    if (k.len() == 4 || k.len() == 5) && k[0] == 97u8 && k[1] == 114u8 && k[2] == 103u8 && is_digit(k[3]) {
        if k.len() == 4 {
            Some((k[3] - 48) as u8)
        } else if is_digit(k[4]) && k[3] != 48u8 && (k[3] - 48) * 10 + (k[4] - 48) < 64 {
            Some(((k[3] - 48) * 10 + (k[4] - 48)) as u8)
        } else {
            None
        }
    } else {
        None
    }
}

/// The rule with key `k` set to `v`; `None` for a key or a type not known.
pub open spec fn set_key(r: RuleView, k: Seq<u8>, v: Seq<u8>) -> Option<RuleView> {
    if k == k_type() {
        match type_named(v) {
            Some(t) => Some(RuleView { msg_type: Some(t), ..r }),
            None => None,
        }
    } else if k == k_sender() {
        Some(RuleView { sender: Some(v), ..r })
    } else if k == k_interface() {
        Some(RuleView { interface: Some(v), ..r })
    } else if k == k_member() {
        Some(RuleView { member: Some(v), ..r })
    } else if k == k_path() {
        Some(RuleView { path: Some(v), ..r })
    } else if k == k_destination() {
        Some(RuleView { destination: Some(v), ..r })
    } else {
        match arg_index(k) {
            Some(n) => Some(RuleView { args: r.args.push((n, v)), ..r }),
            None => None,
        }
    }
}

/// Reads the items from `pos` on into `acc`.
pub open spec fn parse_items(s: Seq<u8>, pos: int, acc: RuleView) -> Option<RuleView>
    decreases s.len() - pos,
{
    if pos < 0 || pos >= s.len() {
        Some(acc)
    } else {
        let eq = find_byte(s, pos, 61u8);
        if eq < pos || eq + 1 >= s.len() || s[eq + 1] != 39u8 {
            None
        } else {
            let close = find_byte(s, eq + 2, 39u8);
            if close < eq + 2 || close >= s.len() {
                None
            } else {
                match set_key(acc, s.subrange(pos, eq), s.subrange(eq + 2, close)) {
                    None => None,
                    Some(next) => if close + 1 == s.len() {
                        Some(next)
                    } else if s[close + 1] == 44u8 {
                        parse_items(s, close + 2, next)
                    } else {
                        None
                    },
                }
            }
        }
    }
}

/// The rule that a rule text states; `None` where it does not read.
pub open spec fn rule_of(s: Seq<u8>) -> Option<RuleView> {
    parse_items(s, 0, empty_rule())
}

fn find_byte_exec(s: &Vec<u8>, from: usize, c: u8) -> (r: usize)
    ensures
        r == find_byte(s@, from as int, c),
        r <= s@.len(),
        from <= s@.len() ==> from <= r,
{
    let mut i = from;
    if i >= s.len() {
        return s.len();
    }
    while i < s.len() && s[i] != c
        invariant
            from <= i <= s@.len(),
            find_byte(s@, i as int, c) == find_byte(s@, from as int, c),
        decreases s@.len() - i,
    {
        i = i + 1;
    }
    i
}

fn arg_index_exec(k: &Vec<u8>) -> (r: Option<u8>)
    ensures
        r == arg_index(k@),
{
    if (k.len() == 4 || k.len() == 5) && k[0] == 97u8 && k[1] == 114u8 && k[2] == 103u8 && 48 <= k[3] && k[3] <= 57 {
        if k.len() == 4 {
            Some(k[3] - 48)
        } else if 48 <= k[4] && k[4] <= 57 && k[3] != 48u8 && (k[3] - 48) * 10 + (k[4] - 48) < 64 {
            Some((k[3] - 48) * 10 + (k[4] - 48))
        } else {
            None
        }
    } else {
        None
    }
}

fn set_key_exec(r: MatchRule, k: &Vec<u8>, v: Vec<u8>) -> (out: Option<MatchRule>)
    ensures
        match set_key(r@, k@, v@) {
            Some(x) => out matches Some(y) && y@ == x,
            None => out is None,
        },
{
    let ty: Vec<u8> = vec![116u8, 121, 112, 101];
    let sender: Vec<u8> = vec![115u8, 101, 110, 100, 101, 114];
    let interface: Vec<u8> = vec![105u8, 110, 116, 101, 114, 102, 97, 99, 101];
    let member: Vec<u8> = vec![109u8, 101, 109, 98, 101, 114];
    let path: Vec<u8> = vec![112u8, 97, 116, 104];
    let destination: Vec<u8> = vec![100u8, 101, 115, 116, 105, 110, 97, 116, 105, 111, 110];
    assert(ty@ =~= k_type());
    assert(sender@ =~= k_sender());
    assert(interface@ =~= k_interface());
    assert(member@ =~= k_member());
    assert(path@ =~= k_path());
    assert(destination@ =~= k_destination());
    let mut r = r;
    if bytes_eq(k, &ty) {
        let signal: Vec<u8> = vec![115u8, 105, 103, 110, 97, 108];
        let call: Vec<u8> = vec![109u8, 101, 116, 104, 111, 100, 95, 99, 97, 108, 108];
        let ret: Vec<u8> = vec![109u8, 101, 116, 104, 111, 100, 95, 114, 101, 116, 117, 114, 110];
        let error: Vec<u8> = vec![101u8, 114, 114, 111, 114];
        assert(signal@ =~= v_signal());
        assert(call@ =~= v_method_call());
        assert(ret@ =~= v_method_return());
        assert(error@ =~= v_error());
        let t = if bytes_eq(&v, &signal) {
            MessageType::Signal
        } else if bytes_eq(&v, &call) {
            MessageType::MethodCall
        } else if bytes_eq(&v, &ret) {
            MessageType::MethodReturn
        } else if bytes_eq(&v, &error) {
            MessageType::Error
        } else {
            return None;
        };
        r.msg_type = Some(t);
    } else if bytes_eq(k, &sender) {
        r.sender = Some(v);
    } else if bytes_eq(k, &interface) {
        r.interface = Some(v);
    } else if bytes_eq(k, &member) {
        r.member = Some(v);
    } else if bytes_eq(k, &path) {
        r.path = Some(v);
    } else if bytes_eq(k, &destination) {
        r.destination = Some(v);
    } else {
        match arg_index_exec(k) {
            Some(n) => {
                let ghost before = r@.args;
                r.args.push(ArgMatch { index: n, value: v });
                assert(r@.args =~= before.push((n, v@)));
            },
            None => return None,
        }
    }
    Some(r)
}

/// Reads a rule text.
pub fn parse_rule(s: &Vec<u8>) -> (r: Option<MatchRule>)
    ensures
        match rule_of(s@) {
            Some(x) => r matches Some(y) && y@ == x,
            None => r is None,
        },
{
    let mut acc = MatchRule {
        msg_type: None,
        sender: None,
        interface: None,
        member: None,
        path: None,
        destination: None,
        args: Vec::new(),
    };
    assert(acc@.args =~= Seq::<(u8, Seq<u8>)>::empty());
    assert(acc@ == empty_rule());
    let mut pos: usize = 0;
    while pos < s.len()
        invariant
            parse_items(s@, pos as int, acc@) == rule_of(s@),
        decreases s@.len() - pos,
    {
        let eq = find_byte_exec(s, pos, 61u8);
        if eq >= s.len() || s.len() - eq < 2 || s[eq + 1] != 39u8 {
            return None;
        }
        let close = find_byte_exec(s, eq + 2, 39u8);
        if close >= s.len() {
            return None;
        }
        let k = copy_range(s, pos, eq);
        let v = copy_range(s, eq + 2, close);
        acc = match set_key_exec(acc, &k, v) {
            None => return None,
            Some(next) => next,
        };
        if close + 1 == s.len() {
            return Some(acc);
        } else if s[close + 1] == 44u8 {
            pos = close + 2;
        } else {
            return None;
        }
    }
    Some(acc)
}

} // verus!
