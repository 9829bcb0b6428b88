//! Little-endian byte encodings of unsigned integers.

use vstd::prelude::*;
use vstd::arithmetic::div_mod::lemma_mod_breakdown;

verus! {

/// The `n` low bytes of `v`, least significant first.
pub open spec fn le_bytes(v: nat, n: nat) -> Seq<u8>
    decreases n,
{
    if n == 0 {
        Seq::empty()
    } else {
        seq![(v % 256) as u8] + le_bytes(v / 256, (n - 1) as nat)
    }
}

/// The number whose bytes, least significant first, are `s`.
pub open spec fn from_le(s: Seq<u8>) -> nat
    decreases s.len(),
{
    if s.len() == 0 {
        0
    } else {
        s[0] as nat + 256 * from_le(s.drop_first())
    }
}

/// `256^n`.
pub open spec fn pow256(n: nat) -> nat
    decreases n,
{
    if n == 0 { 1 } else { 256 * pow256((n - 1) as nat) }
}

/// Reading back `n` bytes of `v` gives `v` modulo `256^n`; in particular a `u64`
/// survives eight bytes.
pub proof fn lemma_le_round_trip(v: nat, n: nat)
    ensures
        le_bytes(v, n).len() == n,
        from_le(le_bytes(v, n)) == v % pow256(n),
    decreases n,
{
    if n > 0 {
        lemma_le_round_trip(v / 256, (n - 1) as nat);
        let s = le_bytes(v, n);
        assert(s.drop_first() =~= le_bytes(v / 256, (n - 1) as nat));
        lemma_pow256_positive((n - 1) as nat);
        let p = pow256((n - 1) as nat);
        lemma_mod_breakdown(v as int, 256, p as int);
    }
}

pub proof fn lemma_pow256_positive(n: nat)
    ensures
        pow256(n) > 0,
    decreases n,
{
    if n > 0 {
        lemma_pow256_positive((n - 1) as nat);
    }
}

pub proof fn lemma_from_le_bound(s: Seq<u8>)
    ensures
        from_le(s) < pow256(s.len()),
    decreases s.len(),
{
    if s.len() > 0 {
        lemma_from_le_bound(s.drop_first());
        let p = pow256((s.len() - 1) as nat);
        let r = from_le(s.drop_first());
        let b = s[0] as nat;
        assert(b + 256 * r < 256 * p) by (nonlinear_arith)
            requires b < 256, r < p;
    }
}

pub proof fn lemma_pow256_le(n: nat, m: nat)
    requires
        n <= m,
    ensures
        pow256(n) <= pow256(m),
    decreases m,
{
    if n < m {
        lemma_pow256_le(n, (m - 1) as nat);
    }
}

} // verus!
