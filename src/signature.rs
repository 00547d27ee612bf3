//! Body signatures: strings of one-byte type codes. They are checked with
//! an explicit stack of open containers, never by recursion, so a crafted
//! signature cannot exhaust the stack.
use vstd::prelude::*;
use crate::codec::CodecError;

verus! {

/// Containers may nest this deep and no deeper.
pub const MAX_DEPTH: usize = 32;

/// A one-byte type code of a basic type.
pub open spec fn is_basic(c: u8) -> bool {
    c == 121u8 || c == 98u8 || c == 110u8 || c == 113u8 || c == 105u8 || c == 117u8 || c == 120u8 || c == 116u8 || c == 100u8 || c == 115u8 || c == 111u8 || c == 103u8 || c == 104u8 || c == 118u8
}

/// The stack with the arrays on its top closed: their element type is complete.
pub open spec fn close_arrays(st: Seq<u8>) -> Seq<u8>
    decreases st.len(),
{
    if st.len() > 0 && st.last() == 97u8 {
        close_arrays(st.drop_last())
    } else {
        st
    }
}

/// Checks `s` from index `i` with the open containers `st` (`a`, `(` or `{`).
pub open spec fn sig_scan(s: Seq<u8>, i: int, st: Seq<u8>) -> Result<(), CodecError>
    decreases s.len() - i,
{
    if i < 0 || i >= s.len() {
        if st.len() == 0 {
            Ok(())
        } else {
            Err(CodecError::BadSignature)
        }
    } else {
        let c = s[i];
        if is_basic(c) {
            sig_scan(s, i + 1, close_arrays(st))
        } else if c == 97u8 || c == 40u8 || c == 123u8 {
            if st.len() >= MAX_DEPTH {
                Err(CodecError::TooDeep)
            } else if c == 123u8 && !(st.len() > 0 && st.last() == 97u8) {
                Err(CodecError::BadSignature)
            } else {
                sig_scan(s, i + 1, st.push(c))
            }
        } else if c == 41u8 || c == 125u8 {
            let open: u8 = if c == 41u8 { 40u8 } else { 123u8 };
            if st.len() == 0 || st.last() != open || i == 0 || s[i - 1] == open {
                Err(CodecError::BadSignature)
            } else {
                sig_scan(s, i + 1, close_arrays(st.drop_last()))
            }
        } else {
            Err(CodecError::BadSignature)
        }
    }
}

pub open spec fn signature_check(s: Seq<u8>) -> Result<(), CodecError> {
    sig_scan(s, 0, Seq::empty())
}

fn close_arrays_exec(st: &mut Vec<u8>)
    ensures
        final(st)@ == close_arrays(old(st)@),
{
    while st.len() > 0 && st[st.len() - 1] == 97u8
        invariant
            close_arrays(st@) == close_arrays(old(st)@),
        decreases st@.len(),
    {
        let ghost before = st@;
        st.pop();
        assert(st@ =~= before.drop_last());
    }
}

/// Checks a body signature: known type codes, containers that close in
/// order and are not empty, dict entries only inside arrays, and nesting no
/// deeper than `MAX_DEPTH`.
pub fn check_signature(s: &Vec<u8>) -> (r: Result<(), CodecError>)
    ensures
        r == signature_check(s@),
{
    let mut st: Vec<u8> = Vec::new();
    assert(st@ =~= Seq::<u8>::empty());
    let mut i: usize = 0;
    while i < s.len()
        invariant
            i <= s@.len(),
            sig_scan(s@, i as int, st@) == signature_check(s@),
        decreases s@.len() - i,
    {
        let c = s[i];
        if c == 121u8 || c == 98u8 || c == 110u8 || c == 113u8 || c == 105u8 || c == 117u8 || c == 120u8 || c == 116u8 || c == 100u8 || c == 115u8 || c == 111u8 || c == 103u8 || c == 104u8 || c == 118u8 {
            close_arrays_exec(&mut st);
        } else if c == 97u8 || c == 40u8 || c == 123u8 {
            if st.len() >= MAX_DEPTH {
                return Err(CodecError::TooDeep);
            }
            if c == 123u8 && !(st.len() > 0 && st[st.len() - 1] == 97u8) {
                return Err(CodecError::BadSignature);
            }
            st.push(c);
        } else if c == 41u8 || c == 125u8 {
            let open: u8 = if c == 41u8 { 40u8 } else { 123u8 };
            if st.len() == 0 || st[st.len() - 1] != open || i == 0 || s[i - 1] == open {
                return Err(CodecError::BadSignature);
            }
            let ghost before = st@;
            st.pop();
            assert(st@ =~= before.drop_last());
            close_arrays_exec(&mut st);
        } else {
            return Err(CodecError::BadSignature);
        }
        i = i + 1;
    }
    if st.len() == 0 {
        Ok(())
    } else {
        Err(CodecError::BadSignature)
    }
}

} // verus!
