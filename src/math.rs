use vstd::prelude::*;

verus! {

/// The largest natural number whose square does not exceed `v`.
pub open spec fn floor_sqrt(v: nat) -> nat
    decreases v,
{
    if v == 0 {
        0
    } else {
        let r = floor_sqrt((v - 1) as nat);
        if (r + 1) * (r + 1) <= v {
            r + 1
        } else {
            r
        }
    }
}

/// `r` is the floor of the square root of `v`.
pub open spec fn is_floor_sqrt(v: int, r: int) -> bool {
    0 <= r && r * r <= v < (r + 1) * (r + 1)
}

/// `floor_sqrt` meets its defining bounds.
pub proof fn lemma_floor_sqrt_bounds(v: nat)
    ensures
        is_floor_sqrt(v as int, floor_sqrt(v) as int),
    decreases v,
{
    if v > 0 {
        let p = (v - 1) as nat;
        lemma_floor_sqrt_bounds(p);
        let r = floor_sqrt(p) as int;
        if (r + 1) * (r + 1) <= v {
            assert((r + 1) * (r + 1) <= v < (r + 2) * (r + 2)) by (nonlinear_arith)
                requires
                    r * r <= p < (r + 1) * (r + 1),
                    p == v - 1,
                    (r + 1) * (r + 1) <= v,
                    r >= 0,
            ;
        }
    }
}

/// At most one natural number has the bounds of a floor square root.
pub proof fn lemma_floor_sqrt_unique(v: int, r: int, s: int)
    requires
        is_floor_sqrt(v, r),
        is_floor_sqrt(v, s),
    ensures
        r == s,
{
    if r < s {
        assert((r + 1) * (r + 1) <= s * s) by (nonlinear_arith)
            requires
                0 <= r < s,
        ;
    } else if s < r {
        assert((s + 1) * (s + 1) <= r * r) by (nonlinear_arith)
            requires
                0 <= s < r,
        ;
    }
}

/// `floor_sqrt(v)` is exactly the natural number with the floor-square-root bounds.
pub proof fn lemma_floor_sqrt_char(v: nat, r: int)
    ensures
        is_floor_sqrt(v as int, r) <==> r == floor_sqrt(v),
{
    lemma_floor_sqrt_bounds(v);
    if is_floor_sqrt(v as int, r) {
        lemma_floor_sqrt_unique(v as int, r, floor_sqrt(v) as int);
    }
}

/// The square root of a positive number is positive, and never exceeds the number.
pub proof fn lemma_floor_sqrt_range(v: nat)
    ensures
        floor_sqrt(v) <= v,
        v > 0 ==> floor_sqrt(v) >= 1,
{
    lemma_floor_sqrt_bounds(v);
    let r = floor_sqrt(v) as int;
    if r > v {
        assert(r * r > v) by (nonlinear_arith)
            requires
                r > v,
                v >= 0,
        ;
    }
}

/// Floor of the square root of `value`, by binary search over `[1, value]`.
pub fn binary_search_sqrt(value: u128) -> (r: u64)
    ensures
        r as nat == floor_sqrt(value as nat),
        is_floor_sqrt(value as int, r as int),
{
    proof {
        lemma_floor_sqrt_bounds(value as nat);
        lemma_floor_sqrt_range(value as nat);
    }
    if value < 2 {
        proof {
            lemma_floor_sqrt_char(value as nat, value as int);
        }
        return value as u64;
    }
    let ghost root = floor_sqrt(value as nat) as int;
    let mut left: u128 = 1;
    let mut right: u128 = value;
    let mut ans: u128 = 0;
    while left <= right
        invariant
            1 <= left <= right + 1,
            right <= value,
            ans == left - 1,
            is_floor_sqrt(value as int, root),
            ans <= root <= right,
        decreases right + 1 - left,
    {
        let mid: u128 = left + (right - left) / 2;
        // `mid <= value / mid` is `mid * mid <= value` without the overflow
        if mid <= value / mid {
            proof {
                lemma_square_le_iff_le_quotient(value as int, mid as int);
                lemma_below_root(value as int, root, mid as int);
            }
            ans = mid;
            left = mid + 1;
        } else {
            proof {
                lemma_square_le_iff_le_quotient(value as int, mid as int);
                lemma_above_root(value as int, root, mid as int);
            }
            right = mid - 1;
        }
    }
    proof {
        lemma_root_fits_u64(value as int, root);
    }
    ans as u64
}

/// For positive `m`, `m * m <= v` exactly when `m <= v / m`.
proof fn lemma_square_le_iff_le_quotient(v: int, m: int)
    requires
        v >= 0,
        m >= 1,
    ensures
        m * m <= v <==> m <= v / m,
{
    assert(m * (v / m) <= v && v < m * (v / m) + m) by (nonlinear_arith)
        requires
            v >= 0,
            m >= 1,
    {
        vstd::arithmetic::div_mod::lemma_fundamental_div_mod(v, m);
    }
    if m <= v / m {
        assert(m * m <= m * (v / m)) by (nonlinear_arith)
            requires
                m >= 1,
                m <= v / m,
        ;
    } else {
        assert(m * (v / m) + m <= m * m) by (nonlinear_arith)
            requires
                m >= 1,
                v / m + 1 <= m,
        ;
    }
}

/// A number whose square does not exceed `v` is at most the root of `v`.
proof fn lemma_below_root(v: int, root: int, m: int)
    requires
        is_floor_sqrt(v, root),
        v <= u128::MAX,
        m >= 0,
        m * m <= v,
    ensures
        m <= root,
        m < 0x1_0000_0000_0000_0000,
{
    if m > root {
        assert((root + 1) * (root + 1) <= m * m) by (nonlinear_arith)
            requires
                0 <= root < m,
        ;
    }
    lemma_root_fits_u64(v, root);
}

/// A number whose square exceeds `v` is above the root of `v`.
proof fn lemma_above_root(v: int, root: int, m: int)
    requires
        is_floor_sqrt(v, root),
        m >= 0,
        m * m > v,
    ensures
        root < m,
{
    if root >= m {
        assert(m * m <= root * root) by (nonlinear_arith)
            requires
                0 <= m <= root,
        ;
    }
}

/// The root of a 128-bit value fits in 64 bits.
proof fn lemma_root_fits_u64(v: int, root: int)
    requires
        is_floor_sqrt(v, root),
        v <= u128::MAX,
    ensures
        root <= u64::MAX,
{
    if root > u64::MAX {
        assert(root * root >= 0x1_0000_0000_0000_0000 * 0x1_0000_0000_0000_0000) by (nonlinear_arith)
            requires
                root >= 0x1_0000_0000_0000_0000,
        ;
    }
}

} // verus!
