//! Byte strings: appending, and the little-endian bytes of integers.
use vstd::prelude::*;

verus! {

/// The little-endian bytes of the low `n` bytes of `v`.
pub open spec fn le_bytes(v: nat, n: nat) -> Seq<u8>
    decreases n,
{
    if n == 0 {
        Seq::empty()
    } else {
        seq![(v % 256) as u8] + le_bytes(v / 256, (n - 1) as nat)
    }
}

/// Appends `b` to `out`.
pub fn append_bytes(out: &mut Vec<u8>, b: &[u8])
    ensures
        final(out)@ == old(out)@ + b@,
{
    let mut i: usize = 0;
    while i < b.len()
        invariant
            i <= b@.len(),
            out@ == old(out)@ + b@.take(i as int),
        decreases b@.len() - i,
    {
        out.push(b[i]);
        assert(b@.take(i + 1) =~= b@.take(i as int).push(b@[i as int]));
        i += 1;
    }
    assert(b@.take(b@.len() as int) =~= b@);
}

/// The eight little-endian bytes of `v`.
pub fn le_bytes_of(v: u64) -> (r: Vec<u8>)
    ensures
        r@ == le_bytes(v as nat, 8),
{
    let mut out: Vec<u8> = Vec::new();
    let mut x: u64 = v;
    let mut i: usize = 0;
    while i < 8
        invariant
            i <= 8,
            out@ + le_bytes(x as nat, (8 - i) as nat) == le_bytes(v as nat, 8),
        decreases 8 - i,
    {
        let ghost before = out@;
        let ghost k = (8 - i) as nat;
        out.push((x % 256) as u8);
        proof {
            assert(le_bytes(x as nat, k) == seq![(x as nat % 256) as u8] + le_bytes(x as nat / 256, (k - 1) as nat));
            assert(out@ + le_bytes((x / 256) as nat, (k - 1) as nat) =~= before + le_bytes(x as nat, k));
        }
        x = x / 256;
        i += 1;
    }
    assert(out@ + le_bytes(x as nat, 0) =~= out@);
    out
}

} // verus!
