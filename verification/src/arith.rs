use vstd::arithmetic::div_mod::{
    lemma_fundamental_div_mod, lemma_fundamental_div_mod_converse, lemma_mod_bound,
};
use vstd::prelude::*;

verus! {

/// The index in `[0, size)` that `x` denotes on a circle of `size` places.
pub open spec fn wrap_index(x: int, size: int) -> int {
    x % size
}

/// `x` brought into the range of `i32` by two's-complement wraparound.
pub open spec fn wrap_i32(x: int) -> i32 {
    (((x + 0x8000_0000) % 0x1_0000_0000) - 0x8000_0000) as i32
}

/// The quotient of `x` by `d`, rounded towards zero.
pub open spec fn trunc_div(x: int, d: int) -> int {
    if x >= 0 {
        x / d
    } else {
        -((-x) / d)
    }
}

/// What `trunc_div` leaves over: the remainder with the sign of `x`.
pub open spec fn trunc_rem(x: int, d: int) -> int {
    if x >= 0 {
        x % d
    } else {
        -((-x) % d)
    }
}

/// A wrapped index lies on the circle.
pub proof fn lemma_wrap_index_range(x: int, size: int)
    requires
        size > 0,
    ensures
        0 <= wrap_index(x, size) < size,
{
    lemma_mod_bound(x, size);
}

/// The remainder of a negative number, from that of its opposite.
proof fn lemma_mod_of_negative(x: int, size: int)
    requires
        size > 0,
        x < 0,
    ensures
        x % size == if (-x) % size == 0 {
            0
        } else {
            size - (-x) % size
        },
{
    let q = (-x) / size;
    let m = (-x) % size;
    lemma_fundamental_div_mod(-x, size);
    lemma_mod_bound(-x, size);
    if m == 0 {
        assert(x == (-q) * size + 0) by (nonlinear_arith)
            requires
                -x == size * q + m,
                m == 0,
        ;
        lemma_fundamental_div_mod_converse(x, size, -q, 0);
    } else {
        assert(x == (-q - 1) * size + (size - m)) by (nonlinear_arith)
            requires
                -x == size * q + m,
        ;
        lemma_fundamental_div_mod_converse(x, size, -q - 1, size - m);
    }
}

/// Going `k` places on from `origin` and coming back by `origin` gives `k`,
/// and no other index of the circle does: `i` is the place `k` after `origin`
/// exactly when `i - origin` wraps to `k`.
pub proof fn lemma_wrap_inverse(origin: int, k: int, size: int, i: int)
    requires
        0 <= k < size,
        0 <= i < size,
    ensures
        (wrap_index(i - origin, size) == k) == (i == wrap_index(origin + k, size)),
{
    lemma_fundamental_div_mod(origin + k, size);
    lemma_fundamental_div_mod(i - origin, size);
    if i == wrap_index(origin + k, size) {
        let q = (origin + k) / size;
        assert(i - origin == (-q) * size + k) by (nonlinear_arith)
            requires
                origin + k == size * q + i,
        ;
        lemma_fundamental_div_mod_converse(i - origin, size, -q, k);
    }
    if wrap_index(i - origin, size) == k {
        let q = (i - origin) / size;
        assert(origin + k == (-q) * size + i) by (nonlinear_arith)
            requires
                i - origin == size * q + k,
        ;
        lemma_fundamental_div_mod_converse(origin + k, size, -q, i);
    }
}

/// `x` reduced onto a circle of `size` places.
pub fn reduce(x: i128, size: usize) -> (r: usize)
    requires
        size > 0,
    ensures
        r == wrap_index(x as int, size as int),
        r < size,
{
    let n: i128 = size as i128;
    let rem: i128 = x % n;
    proof {
        lemma_wrap_index_range(x as int, size as int);
        if x < 0 {
            lemma_mod_of_negative(x as int, size as int);
        }
    }
    if rem < 0 {
        (rem + n) as usize
    } else {
        rem as usize
    }
}

/// The wrapped sum of two field values.
pub fn wrapping_sum(x: i32, y: i32) -> (r: i32)
    ensures
        r == wrap_i32(x + y),
{
    x.wrapping_add(y)
}

/// The wrapped difference of two field values.
pub fn wrapping_difference(x: i32, y: i32) -> (r: i32)
    ensures
        r == wrap_i32(x - y),
{
    x.wrapping_sub(y)
}

/// The wrapped product of two field values.
pub fn wrapping_product(x: i32, y: i32) -> (r: i32)
    ensures
        r == wrap_i32(x * y),
{
    x.wrapping_mul(y)
}

/// A quotient rounded towards zero is no larger in magnitude than the
/// dividend, and the remainder is smaller in magnitude than the divisor.
pub proof fn lemma_trunc_bounds(x: int, d: int)
    requires
        d != 0,
    ensures
        x >= 0 ==> -x <= trunc_div(x, d) <= x,
        x <= 0 ==> x <= trunc_div(x, d) <= -x,
        x >= 0 ==> 0 <= trunc_rem(x, d) <= x,
        x <= 0 ==> x <= trunc_rem(x, d) <= 0,
        x == d * trunc_div(x, d) + trunc_rem(x, d),
{
    let ax = if x >= 0 { x } else { -x };
    lemma_fundamental_div_mod(ax, d);
    assert(0 <= ax % d && ax % d <= ax && -ax <= ax / d && ax / d <= ax) by (nonlinear_arith)
        requires
            ax >= 0,
            d != 0,
            ax == d * (ax / d) + (ax % d),
            0 <= ax % d,
            d > 0 ==> ax % d < d,
            d < 0 ==> ax % d < -d,
    ;
    assert(x == d * trunc_div(x, d) + trunc_rem(x, d)) by (nonlinear_arith)
        requires
            ax == d * (ax / d) + (ax % d),
            x >= 0 ==> ax == x && trunc_div(x, d) == ax / d && trunc_rem(x, d) == ax % d,
            x < 0 ==> ax == -x && trunc_div(x, d) == -(ax / d) && trunc_rem(x, d) == -(ax % d),
    ;
}

/// The quotient of two field values, rounded towards zero and wrapped.
pub fn wrapping_quotient(x: i32, d: i32) -> (r: i32)
    requires
        d != 0,
    ensures
        r == wrap_i32(trunc_div(x as int, d as int)),
{
    proof {
        lemma_trunc_bounds(x as int, d as int);
    }
    if d == -1 {
        0i32.wrapping_sub(x)
    } else {
        x / d
    }
}

/// The remainder of two field values, with the sign of the dividend.
pub fn wrapping_remainder(x: i32, d: i32) -> (r: i32)
    requires
        d != 0,
    ensures
        r == wrap_i32(trunc_rem(x as int, d as int)),
{
    proof {
        lemma_trunc_bounds(x as int, d as int);
    }
    if d == -1 {
        0
    } else {
        x % d
    }
}

} // verus!
