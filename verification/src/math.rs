//! Integer geometry: square roots and distances between grid positions.

use vstd::prelude::*;

verus! {

/// `r` is the square root of `n`, rounded down.
pub open spec fn is_isqrt(n: nat, r: nat) -> bool {
    r * r <= n && n < (r + 1) * (r + 1)
}

/// The square root of `n`, rounded down.
pub open spec fn isqrt(n: nat) -> nat {
    choose|r: nat| is_isqrt(n, r)
}

/// The distance between `a` and `b` on a line.
pub open spec fn gap(a: int, b: int) -> nat {
    if a >= b {
        (a - b) as nat
    } else {
        (b - a) as nat
    }
}

/// The square of the Euclidean distance between `(x, y)` and `(x2, y2)`.
pub open spec fn sq_dist(x: int, y: int, x2: int, y2: int) -> nat {
    gap(x, x2) * gap(x, x2) + gap(y, y2) * gap(y, y2)
}

/// The Euclidean distance between `(x, y)` and `(x2, y2)`, rounded down.
pub open spec fn dist(x: int, y: int, x2: int, y2: int) -> nat {
    isqrt(sq_dist(x, y, x2, y2))
}

proof fn lemma_square_monotonic(a: nat, b: nat)
    requires
        a <= b,
    ensures
        a * a <= b * b,
{
    assert(a * a <= b * b) by (nonlinear_arith)
        requires
            a <= b,
    ;
}

/// Every natural number has a rounded-down square root.
pub proof fn lemma_isqrt_exists(n: nat)
    ensures
        is_isqrt(n, isqrt(n)),
    decreases n,
{
    if n == 0 {
        assert(is_isqrt(0, 0)) by (nonlinear_arith);
    } else {
        lemma_isqrt_exists((n - 1) as nat);
        let r = isqrt((n - 1) as nat);
        if (r + 1) * (r + 1) <= n {
            assert((r + 2) * (r + 2) > (r + 1) * (r + 1)) by (nonlinear_arith);
            assert(n <= (r + 1) * (r + 1));
            assert(is_isqrt(n, r + 1));
        } else {
            assert(is_isqrt(n, r));
        }
    }
}

/// A number has only one rounded-down square root.
pub proof fn lemma_isqrt_unique(n: nat, a: nat, b: nat)
    requires
        is_isqrt(n, a),
        is_isqrt(n, b),
    ensures
        a == b,
{
    if a < b {
        lemma_square_monotonic(a + 1, b);
    } else if b < a {
        lemma_square_monotonic(b + 1, a);
    }
}

/// Whatever passes the test for the square root of `n` is `isqrt(n)`.
pub proof fn lemma_isqrt_is(n: nat, r: nat)
    requires
        is_isqrt(n, r),
    ensures
        isqrt(n) == r,
{
    lemma_isqrt_exists(n);
    lemma_isqrt_unique(n, r, isqrt(n));
}

/// The distance between two positions of a `w` by `h` grid is at most
/// `w * h`, so it fits wherever the number of cells fits.
pub proof fn lemma_dist_in_grid(w: nat, h: nat, x: nat, y: nat, x2: nat, y2: nat)
    requires
        x < w,
        x2 < w,
        y < h,
        y2 < h,
    ensures
        dist(x as int, y as int, x2 as int, y2 as int) <= w * h,
{
    let dx = gap(x as int, x2 as int);
    let dy = gap(y as int, y2 as int);
    let n = sq_dist(x as int, y as int, x2 as int, y2 as int);
    let m = w * h;
    let a = (w - 1) as nat;
    let b = (h - 1) as nat;
    lemma_square_monotonic(dx, a);
    lemma_square_monotonic(dy, b);
    assert(a + b + 1 <= m) by (nonlinear_arith)
        requires
            m == w * h,
            a == w - 1,
            b == h - 1,
    ;
    assert(a * a + b * b <= (a + b + 1) * (a + b + 1)) by (nonlinear_arith);
    lemma_square_monotonic(a + b + 1, m);
    assert(m * m < (m + 1) * (m + 1)) by (nonlinear_arith);
    lemma_isqrt_exists(n);
    let r = isqrt(n);
    if r > m {
        lemma_square_monotonic(m + 1, r);
    }
}

/// The square root of `n`, rounded down, by bisection.
pub fn isqrt_u128(n: u128) -> (r: u128)
    ensures
        r == isqrt(n as nat),
        r <= u64::MAX,
{
    let mut lo: u128 = 0;
    let mut hi: u128 = if n < 0x1_0000_0000_0000_0000 {
        n + 1
    } else {
        0x1_0000_0000_0000_0000
    };
    proof {
        assert(n < hi * hi) by (nonlinear_arith)
            requires
                n < 0x1_0000_0000_0000_0000_0000_0000_0000_0000,
                hi == (if n < 0x1_0000_0000_0000_0000 {
                    n + 1
                } else {
                    0x1_0000_0000_0000_0000
                }),
        ;
    }
    while hi - lo > 1
        invariant
            lo < hi,
            hi <= 0x1_0000_0000_0000_0000,
            lo * lo <= n,
            n < hi * hi,
        decreases hi - lo,
    {
        let mid: u128 = lo + (hi - lo) / 2;
        assert(mid * mid < 0x1_0000_0000_0000_0000_0000_0000_0000_0000) by (nonlinear_arith)
            requires
                mid < 0x1_0000_0000_0000_0000,
        ;
        if mid * mid <= n {
            lo = mid;
        } else {
            hi = mid;
        }
    }
    proof {
        assert(is_isqrt(n as nat, lo as nat));
        lemma_isqrt_is(n as nat, lo as nat);
    }
    lo
}

} // verus!
