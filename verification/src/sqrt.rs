//! Integer square root, rounded to the nearest integer.

use vstd::arithmetic::power2::{lemma2_to64, lemma_pow2_pos, lemma_pow2_unfold, pow2};
use vstd::prelude::*;

verus! {

/// `r` is the integer nearest to the real square root of `x`.
///
/// The reals that round to `r` are those in `[r - 1/2, r + 1/2)`; squaring the
/// two ends and keeping the integers in between leaves `r*r - r < x <= r*r + r`.
/// A square root of an integer never sits exactly halfway between two
/// integers, so no tie rule is needed. Zero is its own root.
pub open spec fn is_rounded_sqrt(x: nat, r: nat) -> bool {
    if x == 0 {
        r == 0
    } else {
        r * r - r < x <= r * r + r
    }
}

/// The integer nearest to the square root of `x`.
pub open spec fn rounded_sqrt(x: nat) -> nat {
    choose|r: nat| is_rounded_sqrt(x, r)
}

/// At most one integer is the rounded square root of `x`.
pub proof fn lemma_rounded_sqrt_unique(x: nat, r1: nat, r2: nat)
    requires
        is_rounded_sqrt(x, r1),
        is_rounded_sqrt(x, r2),
    ensures
        r1 == r2,
{
    if x != 0 {
        assert(r1 == r2) by (nonlinear_arith)
            requires
                r1 * r1 - r1 < x <= r1 * r1 + r1,
                r2 * r2 - r2 < x <= r2 * r2 + r2,
        {
            if r1 < r2 {
                assert(r2 * r2 - r2 >= r1 * r1 + r1);
            } else if r2 < r1 {
                assert(r1 * r1 - r1 >= r2 * r2 + r2);
            }
        }
    }
}

/// Every number has a rounded square root, and `rounded_sqrt` names it.
pub proof fn lemma_rounded_sqrt_exists(x: nat)
    ensures
        is_rounded_sqrt(x, rounded_sqrt(x)),
    decreases x,
{
    if x == 0 {
        assert(is_rounded_sqrt(x, 0));
    } else if x == 1 {
        assert(is_rounded_sqrt(x, 1));
    } else {
        // The root of `x - 1` still fits `x`, unless `x` is the first number
        // past its interval: then the next integer does.
        let r = rounded_sqrt((x - 1) as nat);
        lemma_rounded_sqrt_exists((x - 1) as nat);
        if x <= r * r + r {
            assert(is_rounded_sqrt(x, r));
        } else {
            assert((r + 1) * (r + 1) == r * r + 2 * r + 1) by (nonlinear_arith);
            assert(is_rounded_sqrt(x, r + 1));
        }
    }
}

/// Any integer that rounds the square root of `x` is `rounded_sqrt(x)`.
pub proof fn lemma_rounded_sqrt_is(x: nat, r: nat)
    requires
        is_rounded_sqrt(x, r),
    ensures
        rounded_sqrt(x) == r,
{
    lemma_rounded_sqrt_unique(x, rounded_sqrt(x), r);
}

/// The rounded root squared misses `x` by at most the root itself.
pub proof fn lemma_rounded_sqrt_squared_is_close(x: nat, r: nat)
    requires
        is_rounded_sqrt(x, r),
    ensures
        r * r - r <= x <= r * r + r,
{
    if x == 0 {
        assert(r * r == 0) by (nonlinear_arith)
            requires
                r == 0,
        ;
    }
}

/// A larger argument never has a smaller rounded root.
pub proof fn lemma_rounded_sqrt_monotonic(x: nat, y: nat, rx: nat, ry: nat)
    requires
        x <= y,
        is_rounded_sqrt(x, rx),
        is_rounded_sqrt(y, ry),
    ensures
        rx <= ry,
{
    if x != 0 {
        assert(rx <= ry) by (nonlinear_arith)
            requires
                x <= y,
                rx * rx - rx < x,
                y <= ry * ry + ry,
        {
            if ry < rx {
                assert(rx * rx - rx >= ry * ry + ry);
            }
        }
    }
}

/// Square root of a 64-bit number, rounded to the nearest integer.
///
/// The root is built one binary digit at a time, from bit 31 down to bit 0, by
/// the restoring method: 32 rounds of compare, subtract and shift, whatever the
/// argument. A last comparison of the remainder with the root rounds it.
pub fn u64sqrt(x0: u64) -> (root: u64)
    ensures
        is_rounded_sqrt(x0 as nat, root as nat),
        root == rounded_sqrt(x0 as nat),
        root * root - root <= x0 <= root * root + root,
        root <= 0x1_0000_0000,
{
    let mut x: u64 = x0;
    let mut xr: u64 = 0;
    let mut q2: u64 = 0x4000_0000_0000_0000;
    // Ghost bookkeeping: `p` is the part of the root decided so far, and
    // `k` counts the digits still open, so that `p` is a multiple of `2^k`.
    let ghost mut p: nat = 0;
    let ghost mut k: nat = 32;
    proof {
        lemma2_to64();
        lemma_pow2_unfold(32);
    }
    while q2 != 0
        invariant
            k <= 32,
            k == 0 ==> q2 == 0,
            k >= 1 ==> q2 == pow2((k - 1) as nat) * pow2((k - 1) as nat),
            xr == p * pow2(k),
            x0 == x + p * p,
            x < 2 * xr + pow2(k) * pow2(k),
            p + pow2(k) <= 0x1_0000_0000,
        decreases q2,
    {
        let ghost h = pow2((k - 1) as nat);
        proof {
            lemma_pow2_pos((k - 1) as nat);
            lemma_pow2_unfold(k);
            assert(xr == 2 * (p * h) && pow2(k) * pow2(k) == 4 * (h * h) && 2 * (p * h) + h * h
                < 0x1_0000_0000_0000_0000) by (nonlinear_arith)
                requires
                    pow2(k) == 2 * h,
                    xr == p * pow2(k),
                    h > 0,
                    p + 2 * h <= 0x1_0000_0000,
            ;
            assert(xr >> 1 == xr / 2) by (bit_vector);
            assert(q2 >> 2 == q2 / 4) by (bit_vector);
        }
        if xr + q2 <= x {
            x -= xr + q2;
            xr >>= 1;
            xr += q2;
            proof {
                assert((p + h) * (p + h) == p * p + 2 * (p * h) + h * h && (p + h) * h == p * h
                    + h * h) by (nonlinear_arith);
                p = p + h;
            }
        } else {
            xr >>= 1;
        }
        q2 >>= 2;
        proof {
            if k >= 2 {
                let g = pow2((k - 2) as nat);
                lemma_pow2_unfold((k - 1) as nat);
                assert((h * h) / 4 == g * g) by (nonlinear_arith)
                    requires
                        h == 2 * g,
                ;
            } else {
                lemma2_to64();
            }
            k = (k - 1) as nat;
        }
    }
    proof {
        if k >= 1 {
            let h = pow2((k - 1) as nat);
            lemma_pow2_pos((k - 1) as nat);
            assert(h * h > 0) by (nonlinear_arith)
                requires
                    h > 0,
            ;
        }
        lemma2_to64();
        assert(xr == p && x <= 2 * p) by (nonlinear_arith)
            requires
                pow2(k) == 1,
                xr == p * pow2(k),
                x < 2 * xr + pow2(k) * pow2(k),
        ;
    }
    // Round up when the remainder puts `x0` past the midpoint `p*p + p`.
    let root = if xr < x {
        xr + 1
    } else {
        xr
    };
    proof {
        let r = root as nat;
        assert((p + 1) * (p + 1) == p * p + 2 * p + 1 && (p > 0 ==> p * p > 0))
            by (nonlinear_arith);
        if xr < x {
            assert(r * r == p * p + 2 * p + 1);
        } else {
            assert(r * r == p * p);
        }
        assert(is_rounded_sqrt(x0 as nat, r));
        lemma_rounded_sqrt_is(x0 as nat, root as nat);
        lemma_rounded_sqrt_squared_is_close(x0 as nat, root as nat);
    }
    root
}

} // verus!
