use vstd::arithmetic::power2::{lemma_pow2_adds, lemma_pow2_pos, lemma_pow2_strictly_increases, pow2};
use vstd::prelude::*;

verus! {

/// The largest `e` with `pow2(e) <= n`, for `n >= 1`.
pub open spec fn log2_floor(n: nat) -> nat
    decreases n,
{
    if n <= 1 {
        0
    } else {
        1 + log2_floor(n / 2)
    }
}

/// The height of a binary commitment tree over `n` leaves: pairs are
/// combined (duplicating a trailing odd element) until one label remains.
pub open spec fn merkle_height(n: nat) -> nat
    decreases n,
{
    if n <= 1 {
        0
    } else {
        1 + merkle_height((n + 1) / 2)
    }
}

pub proof fn lemma_log2_floor_bounds(n: nat)
    requires
        n >= 1,
    ensures
        pow2(log2_floor(n)) <= n < pow2(log2_floor(n) + 1),
    decreases n,
{
    if n <= 1 {
        vstd::arithmetic::power2::lemma2_to64();
    } else {
        lemma_log2_floor_bounds(n / 2);
        let e = log2_floor(n / 2);
        lemma_pow2_adds(e, 1);
        lemma_pow2_adds(e + 1, 1);
        vstd::arithmetic::power2::lemma2_to64();
        assert(pow2(e + 1) == 2 * pow2(e));
        assert(pow2(e + 2) == 2 * pow2(e + 1));
    }
}

pub proof fn lemma_log2_floor_unique(n: nat, e: nat)
    requires
        pow2(e) <= n < pow2(e + 1),
    ensures
        e == log2_floor(n),
{
    lemma_pow2_pos(e);
    lemma_log2_floor_bounds(n);
    let f = log2_floor(n);
    if e < f {
        if e + 1 < f {
            lemma_pow2_strictly_increases(e + 1, f);
        }
        assert(pow2(e + 1) <= pow2(f));
    }
    if f < e {
        if f + 1 < e {
            lemma_pow2_strictly_increases(f + 1, e);
        }
        assert(pow2(f + 1) <= pow2(e));
    }
}

/// `merkle_height` is exactly the ceiling of the base-two logarithm:
/// the least `h` with `n <= pow2(h)`.
pub proof fn lemma_merkle_height_bounds(n: nat)
    requires
        n >= 2,
    ensures
        merkle_height(n) >= 1,
        pow2((merkle_height(n) - 1) as nat) < n <= pow2(merkle_height(n)),
    decreases n,
{
    let m = (n + 1) / 2;
    let h = merkle_height(n);
    if m <= 1 {
        // n == 2 exactly
        vstd::arithmetic::power2::lemma2_to64();
    } else {
        lemma_merkle_height_bounds(m);
        let hm = merkle_height(m);
        lemma_pow2_adds((hm - 1) as nat, 1);
        lemma_pow2_adds(hm, 1);
        vstd::arithmetic::power2::lemma2_to64();
        assert(pow2(hm) == 2 * pow2((hm - 1) as nat));
        assert(pow2(hm + 1) == 2 * pow2(hm));
        // m <= pow2(hm) gives n <= 2 * pow2(hm)
        assert(n <= 2 * m);
        // pow2(hm - 1) < m gives pow2(hm) < n
        assert(pow2((hm - 1) as nat) + 1 <= m);
        assert(2 * m <= n + 1);
        assert(pow2(hm) + 2 <= n + 1);
    }
}

pub proof fn lemma_merkle_height_unique(n: nat, h: nat)
    requires
        n >= 2,
        h >= 1,
        pow2((h - 1) as nat) < n <= pow2(h),
    ensures
        h == merkle_height(n),
{
    lemma_merkle_height_bounds(n);
    let g = merkle_height(n);
    if h < g {
        if h < g - 1 {
            lemma_pow2_strictly_increases(h, (g - 1) as nat);
        }
        assert(pow2(h) <= pow2((g - 1) as nat));
    }
    if g < h {
        if g < h - 1 {
            lemma_pow2_strictly_increases(g, (h - 1) as nat);
        }
        assert(pow2(g) <= pow2((h - 1) as nat));
    }
}

/// The largest `e` with `pow2(e) <= x`, computed by repeated doubling.
pub fn floor_log2(x: u64) -> (r: u64)
    requires
        x >= 1,
    ensures
        r == log2_floor(x as nat),
        pow2(r as nat) <= x < pow2(r as nat + 1),
{
    let mut p: u64 = 1;
    let mut r: u64 = 0;
    proof {
        vstd::arithmetic::power2::lemma2_to64();
    }
    while p <= x / 2
        invariant
            1 <= x,
            1 <= p,
            p == pow2(r as nat),
            p <= x,
            r < 64,
        decreases x - p,
    {
        proof {
            lemma_pow2_adds(r as nat, 1);
            vstd::arithmetic::power2::lemma2_to64();
            if r as nat + 1 > 64 {
                lemma_pow2_strictly_increases(64, r as nat + 1);
            }
        }
        p = 2 * p;
        r = r + 1;
    }
    proof {
        assert(2 * (x / 2) + 2 > x);
        lemma_pow2_adds(r as nat, 1);
        vstd::arithmetic::power2::lemma2_to64();
        lemma_log2_floor_unique(x as nat, r as nat);
    }
    r
}

/// The smaller of `pow2(e)` and `cap`, without ever overflowing.
pub fn pow2_min(e: u64, cap: u64) -> (r: u64)
    requires
        cap >= 1,
    ensures
        r == if pow2(e as nat) <= cap as nat {
            pow2(e as nat) as int
        } else {
            cap as int
        },
{
    let mut p: u64 = 1;
    let mut i: u64 = 0;
    proof {
        vstd::arithmetic::power2::lemma2_to64();
    }
    while i < e
        invariant
            i <= e,
            p == pow2(i as nat),
            p <= cap,
        decreases e - i,
    {
        proof {
            lemma_pow2_adds(i as nat, 1);
            vstd::arithmetic::power2::lemma2_to64();
        }
        if p > cap / 2 {
            proof {
                assert(2 * (cap / 2) + 1 >= cap);
                assert(pow2(i as nat + 1) > cap);
                if i as nat + 1 < e as nat {
                    lemma_pow2_strictly_increases(i as nat + 1, e as nat);
                }
            }
            return cap;
        }
        p = 2 * p;
        i = i + 1;
    }
    if p <= cap {
        p
    } else {
        cap
    }
}

} // verus!
