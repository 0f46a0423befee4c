//! Powers of two: the padding of evaluation tables and the shape of
//! Merkle trees.

use vstd::prelude::*;

verus! {

/// The least power of two that is at least `n` (and at least 1).
pub open spec fn next_pow2(n: nat) -> nat
    decreases n,
{
    if n <= 1 {
        1
    } else {
        2 * next_pow2(((n + 1) / 2) as nat)
    }
}

/// Whether `n` is a power of two (1, 2, 4, ...).
pub open spec fn is_pow2(n: nat) -> bool
    decreases n,
{
    if n == 0 {
        false
    } else if n == 1 {
        true
    } else {
        n % 2 == 0 && is_pow2(n / 2)
    }
}

/// The base-two logarithm of a power of two.
pub open spec fn log2(n: nat) -> nat
    decreases n,
{
    if n <= 1 {
        0
    } else {
        1 + log2(n / 2)
    }
}

/// `2^k`.
pub open spec fn pow2(k: nat) -> nat
    decreases k,
{
    if k == 0 {
        1
    } else {
        2 * pow2((k - 1) as nat)
    }
}

/// `next_pow2(n)` is a power of two, at least `n`, and less than `2n` for `n >= 1`.
pub proof fn lemma_next_pow2(n: nat)
    ensures
        is_pow2(next_pow2(n)),
        n <= next_pow2(n),
        next_pow2(n) >= 1,
        n >= 1 ==> next_pow2(n) < 2 * n,
        next_pow2(n) == pow2(log2(next_pow2(n))),
    decreases n,
{
    if n > 1 {
        let h = ((n + 1) / 2) as nat;
        lemma_next_pow2(h);
        let m = next_pow2(h);
        assert(next_pow2(n) == 2 * m);
        assert(log2(2 * m) == 1 + log2(m));
    }
}

/// Computes `2^d`, or `None` where it does not fit in a `usize`.
pub fn pow2_checked(d: usize) -> (r: Option<usize>)
    ensures
        r matches Some(p) ==> p == pow2(d as nat),
        r is None ==> pow2(d as nat) > usize::MAX,
{
    let mut p: usize = 1;
    let mut i: usize = 0;
    while i < d
        invariant
            i <= d,
            p == pow2(i as nat),
        decreases d - i,
    {
        match p.checked_mul(2) {
            Some(q) => { p = q; },
            None => {
                proof { lemma_pow2_monotone((i + 1) as nat, d as nat); }
                return None;
            },
        }
        i = i + 1;
    }
    Some(p)
}

/// `2^a <= 2^b` for `a <= b`.
pub proof fn lemma_pow2_monotone(a: nat, b: nat)
    requires
        a <= b,
    ensures
        pow2(a) <= pow2(b),
    decreases b,
{
    if a < b {
        lemma_pow2_monotone(a, (b - 1) as nat);
    }
}

/// `log2(n) <= n`.
pub proof fn lemma_log2_le(n: nat)
    ensures
        log2(n) <= n,
    decreases n,
{
    if n > 1 {
        lemma_log2_le(n / 2);
    }
}

/// Computes [`log2`] of a power of two.
pub fn log2_exec(n: usize) -> (r: usize)
    requires
        is_pow2(n as nat),
    ensures
        r == log2(n as nat),
{
    proof { lemma_log2_le(n as nat); }
    let mut m: usize = n;
    let mut k: usize = 0;
    while m > 1
        invariant
            is_pow2(m as nat),
            k + log2(m as nat) == log2(n as nat),
            log2(n as nat) <= n,
        decreases m,
    {
        m = m / 2;
        k = k + 1;
    }
    k
}

/// Between a power of two `p < n` and any power of two `q >= n`, the double of `p` still fits under `q`.
pub(crate) proof fn lemma_pow2_double_below(p: nat, q: nat, n: nat)
    requires
        is_pow2(p),
        is_pow2(q),
        p < n,
        n <= q,
    ensures
        2 * p <= q,
        is_pow2(2 * p),
        forall|r: nat| is_pow2(r) && r >= n ==> 2 * p <= r,
{
    assert(is_pow2(2 * p));
    assert forall|r: nat| is_pow2(r) && r >= n implies 2 * p <= r by {
        lemma_pow2_divides(p, r);
    }
    lemma_pow2_divides(p, q);
}

/// Of two powers of two `p < r`, `2p <= r`.
proof fn lemma_pow2_divides(p: nat, r: nat)
    requires
        is_pow2(p),
        is_pow2(r),
        p < r,
    ensures
        2 * p <= r,
    decreases r,
{
    if p == 1 {
        assert(r >= 2);
    } else {
        assert(r > 1);
        lemma_pow2_divides(p / 2, r / 2);
    }
}

/// `next_pow2(n)` is the least power of two that is at least `n`.
pub(crate) proof fn lemma_next_pow2_least(n: nat, p: nat)
    requires
        is_pow2(p),
        n <= p,
        forall|q: nat| is_pow2(q) && q >= n ==> p <= q,
    ensures
        p == next_pow2(n),
{
    lemma_next_pow2(n);
    assert(p <= next_pow2(n));
    if p < next_pow2(n) {
        if n >= 1 {
            lemma_pow2_divides(p, next_pow2(n));
        } else {
            lemma_pow2_divides(p, next_pow2(n));
        }
        lemma_pow2_half_below(n, next_pow2(n));
    }
}

/// The half of `next_pow2(n)` is below `n` when `n > 1`.
proof fn lemma_pow2_half_below(n: nat, m: nat)
    requires
        m == next_pow2(n),
    ensures
        n > 1 ==> m / 2 < n,
        n <= 1 ==> m == 1,
    decreases n,
{
    if n > 1 {
        let h = ((n + 1) / 2) as nat;
        lemma_next_pow2(h);
        if h > 1 {
            lemma_pow2_half_below(h, next_pow2(h));
        }
    }
}

} // verus!
