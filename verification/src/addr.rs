//! 32-byte addresses: comparison, membership in lists, and removal from lists.
use vstd::prelude::*;
use crate::keymap::MapKey;

verus! {

/// Two addresses are equal exactly when their byte sequences are.
pub proof fn lemma_addr_view_eq(a: [u8; 32], b: [u8; 32])
    ensures
        (a@ == b@) == (a == b),
{
    if a@ == b@ {
        assert(a =~= b);
    }
}

/// The all-zero address.
pub open spec fn zero_address() -> Seq<u8> {
    Seq::new(32, |i: int| 0u8)
}

/// Whether two addresses are equal.
pub fn addr_eq(a: &[u8; 32], b: &[u8; 32]) -> (r: bool)
    ensures
        r == (*a == *b),
{
    proof {
        lemma_addr_view_eq(*a, *b);
    }
    a.same_key(b)
}

/// Whether `v` holds the address `a`.
pub fn addr_in(v: &Vec<[u8; 32]>, a: &[u8; 32]) -> (r: bool)
    ensures
        r == v@.contains(*a),
{
    let mut i: usize = 0;
    while i < v.len()
        invariant
            i <= v@.len(),
            forall|j: int| 0 <= j < i ==> v@[j] != *a,
        decreases v@.len() - i,
    {
        if addr_eq(&v[i], a) {
            assert(v@[i as int] == *a);
            return true;
        }
        i += 1;
    }
    false
}

/// Removes every occurrence of `a` from `v`, keeping the order of the rest.
pub fn remove_addr(v: &mut Vec<[u8; 32]>, a: &[u8; 32])
    ensures
        final(v)@ == old(v)@.filter(|x: [u8; 32]| x != *a),
{
    let ghost pred = |x: [u8; 32]| x != *a;
    let mut kept: Vec<[u8; 32]> = Vec::new();
    let mut i: usize = 0;
    while i < v.len()
        invariant
            i <= v@.len(),
            kept@ == v@.take(i as int).filter(pred),
            pred == (|x: [u8; 32]| x != *a),
        decreases v@.len() - i,
    {
        let x = v[i];
        proof {
            assert(v@.take(i + 1) =~= v@.take(i as int).push(x));
            v@.take(i as int).lemma_filter_push(x, pred);
        }
        if !addr_eq(&x, a) {
            kept.push(x);
        }
        i += 1;
    }
    assert(v@.take(v@.len() as int) =~= v@);
    *v = kept;
}

/// Adds `a` to the end of `v` unless it is already there.
pub fn push_addr_once(v: &mut Vec<[u8; 32]>, a: [u8; 32])
    ensures
        old(v)@.contains(a) ==> final(v)@ == old(v)@,
        !old(v)@.contains(a) ==> final(v)@ == old(v)@.push(a),
{
    if !addr_in(v, &a) {
        v.push(a);
    }
}

} // verus!
