use vstd::prelude::*;
use vstd::arithmetic::div_mod::{
    lemma_div_pos_is_pos, lemma_fundamental_div_mod, lemma_fundamental_div_mod_converse,
    lemma_mod_pos_bound,
};

verus! {

/// The fraction `k * minor / major`, rounded to the nearest integer, a half
/// rounded up.
pub open spec fn rounded_share(k: int, minor: int, major: int) -> int {
    if major > 0 {
        (2 * (k * minor) + major) / (2 * major)
    } else {
        0
    }
}

/// How far the rounded share is ahead of the exact fraction, in units of
/// `1 / major`.
pub open spec fn lead(k: int, minor: int, major: int) -> int {
    rounded_share(k, minor, major) * major - k * minor
}

/// One more step moves the rounded share up by one or leaves it, and the lead
/// tells which: the share rises when the lead has fallen to at most
/// `minor - major / 2`.
pub proof fn lemma_share_step(k: int, minor: int, major: int)
    requires
        0 <= minor <= major,
        0 < major,
        0 <= k < major,
    ensures
        0 <= rounded_share(k, minor, major) <= minor,
        -major < 2 * lead(k, minor, major) <= major,
        ({
            let rises = 2 * lead(k, minor, major) + major <= 2 * minor;
            &&& rounded_share(k + 1, minor, major) == rounded_share(k, minor, major) + if rises {
                1int
            } else {
                0int
            }
            &&& lead(k + 1, minor, major) == lead(k, minor, major) - minor + if rises {
                major
            } else {
                0int
            }
        }),
        rounded_share(k + 1, minor, major) <= minor,
        k + 1 == major ==> rounded_share(k + 1, minor, major) == minor,
{
    let d = 2 * major;
    let km = k * minor;
    let n = 2 * km + major;
    let q = n / d;
    let r = n % d;
    assert(0 <= km <= major * minor) by (nonlinear_arith)
        requires
            0 <= k < major,
            0 <= minor,
            km == k * minor,
    ;
    lemma_fundamental_div_mod(n, d);
    lemma_mod_pos_bound(n, d);
    lemma_div_pos_is_pos(n, d);
    let qm = q * major;
    assert(d * q == 2 * qm) by (nonlinear_arith)
        requires
            d == 2 * major,
            qm == q * major,
    ;
    assert(q <= minor) by (nonlinear_arith)
        requires
            2 * qm <= 2 * km + major,
            km <= major * minor,
            qm == q * major,
            0 < major,
    ;
    let km1 = (k + 1) * minor;
    assert(km1 == km + minor) by (nonlinear_arith)
        requires
            km1 == (k + 1) * minor,
            km == k * minor,
    ;
    assert(km1 <= major * minor) by (nonlinear_arith)
        requires
            km1 == (k + 1) * minor,
            k + 1 <= major,
            0 <= minor,
    ;
    let n1 = 2 * km1 + major;
    if r + 2 * minor < d {
        assert(n1 == q * d + (r + 2 * minor)) by (nonlinear_arith)
            requires
                n1 == n + 2 * minor,
                n == d * q + r,
        ;
        lemma_fundamental_div_mod_converse(n1, d, q, r + 2 * minor);
    } else {
        assert(n1 == (q + 1) * d + (r + 2 * minor - d)) by (nonlinear_arith)
            requires
                n1 == n + 2 * minor,
                n == d * q + r,
        ;
        lemma_fundamental_div_mod_converse(n1, d, q + 1, r + 2 * minor - d);
        assert((q + 1) * major == qm + major) by (nonlinear_arith)
            requires
                qm == q * major,
        ;
    }
    let q1 = rounded_share(k + 1, minor, major);
    assert(q1 <= minor) by (nonlinear_arith)
        requires
            q1 == q || q1 == q + 1,
            q1 == q + 1 ==> r + 2 * minor >= 2 * major,
            2 * (q * major) + r == 2 * km + major,
            km + minor <= major * minor,
            q <= minor,
            0 < major,
            0 <= r,
    ;
    if k + 1 == major {
        assert(n1 == minor * d + major) by (nonlinear_arith)
            requires
                n1 == 2 * km1 + major,
                km1 == (k + 1) * minor,
                k + 1 == major,
                d == 2 * major,
        ;
        lemma_fundamental_div_mod_converse(n1, d, minor, major);
    }
}

/// The rounded share is exact where the fraction is a whole number: at the
/// start, along an axis without extent, and along a diagonal.
pub proof fn lemma_share_exact(k: int, minor: int, major: int)
    requires
        0 < major,
        0 <= k,
    ensures
        rounded_share(0, minor, major) == 0,
        rounded_share(k, 0, major) == 0,
        rounded_share(k, major, major) == k,
{
    assert(2 * (0 * minor) + major == 0 * (2 * major) + major) by (nonlinear_arith);
    lemma_fundamental_div_mod_converse(2 * (0 * minor) + major, 2 * major, 0, major);
    assert(2 * (k * 0) + major == 0 * (2 * major) + major) by (nonlinear_arith);
    lemma_fundamental_div_mod_converse(2 * (k * 0) + major, 2 * major, 0, major);
    assert(2 * (k * major) + major == k * (2 * major) + major) by (nonlinear_arith);
    lemma_fundamental_div_mod_converse(2 * (k * major) + major, 2 * major, k, major);
}

/// The rounded share never falls as `k` grows, and stays between nothing and
/// the whole of `minor`.
pub proof fn lemma_share_bounds(k: int, minor: int, major: int)
    requires
        0 <= minor <= major,
        0 < major,
        0 <= k <= major,
    ensures
        0 <= rounded_share(k, minor, major) <= minor,
        k < major ==> rounded_share(k, minor, major) <= rounded_share(k + 1, minor, major)
            <= rounded_share(k, minor, major) + 1,
        k == major ==> rounded_share(k, minor, major) == minor,
{
    if k < major {
        lemma_share_step(k, minor, major);
    } else {
        lemma_share_step(k - 1, minor, major);
    }
}

/// Whether `k * minor / major` lies exactly halfway between two integers.
pub open spec fn is_tie(k: int, minor: int, major: int) -> bool {
    major > 0 && (2 * (k * minor) + major) % (2 * major) == 0
}

/// The shares at `k` and at `major - k` add up to `minor`, but for a tie,
/// which is rounded up from both ends.
pub proof fn lemma_share_mirror(k: int, minor: int, major: int)
    requires
        0 <= minor <= major,
        0 < major,
        0 <= k <= major,
    ensures
        rounded_share(k, minor, major) + rounded_share(major - k, minor, major) == minor
            + if is_tie(k, minor, major) {
            1int
        } else {
            0int
        },
        is_tie(k, minor, major) ==> 0 < k < major && 0 < minor,
{
    let d = 2 * major;
    let km = k * minor;
    let n = 2 * km + major;
    let q = n / d;
    let r = n % d;
    assert(0 <= km) by (nonlinear_arith)
        requires
            0 <= k,
            0 <= minor,
            km == k * minor,
    ;
    lemma_fundamental_div_mod(n, d);
    lemma_mod_pos_bound(n, d);
    let other = (major - k) * minor;
    let mm = major * minor;
    assert(other == mm - km) by (nonlinear_arith)
        requires
            other == (major - k) * minor,
            mm == major * minor,
            km == k * minor,
    ;
    let n2 = 2 * other + major;
    assert(d * minor == 2 * mm) by (nonlinear_arith)
        requires
            d == 2 * major,
            mm == major * minor,
    ;
    if r == 0 {
        assert(n2 == (minor - q + 1) * d + 0) by (nonlinear_arith)
            requires
                n2 == 2 * mm - 2 * km + major,
                n == 2 * km + major,
                n == d * q,
                d * minor == 2 * mm,
                d == 2 * major,
        ;
        lemma_fundamental_div_mod_converse(n2, d, minor - q + 1, 0);
        if k == 0 || k == major || minor == 0 {
            lemma_share_exact(k, minor, major);
            lemma_share_bounds(k, minor, major);
            lemma_fundamental_div_mod_converse(n, d, rounded_share(k, minor, major), major);
        }
    } else {
        assert(n2 == (minor - q) * d + (d - r)) by (nonlinear_arith)
            requires
                n2 == 2 * mm - 2 * km + major,
                n == 2 * km + major,
                n == d * q + r,
                d * minor == 2 * mm,
                d == 2 * major,
        ;
        lemma_fundamental_div_mod_converse(n2, d, minor - q, d - r);
    }
}

} // verus!
