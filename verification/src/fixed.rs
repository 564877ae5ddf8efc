//! Fixed-point arithmetic for the simulation.
//!
//! Every physical quantity is an integer count of thousandths: positions in
//! thousandths of a pixel, velocities in thousandths of a pixel per second,
//! durations in milliseconds, health in thousandths of a hit point. Working in
//! integers keeps every comparison exact and every run reproducible.

use vstd::prelude::*;

verus! {

/// Number of fixed-point steps in one whole unit.
pub const SCALE: i32 = 1000;

/// Largest radicand that [`ceil_sqrt`] accepts: 2^126.
pub const SQRT_DOMAIN: u128 = 0x4000_0000_0000_0000_0000_0000_0000_0000;

/// Largest magnitude of a vector component that [`limit_length`] accepts: 2^33.
pub const COMPONENT_LIMIT: i64 = 0x2_0000_0000;

/// `s` is the least natural number whose square reaches `q`.
pub open spec fn is_ceil_sqrt(q: int, s: int) -> bool {
    &&& 0 <= s
    &&& q <= s * s
    &&& (s == 0 || (s - 1) * (s - 1) < q)
}

/// The square root of `q`, rounded up to the next integer.
pub open spec fn spec_ceil_sqrt(q: int) -> int {
    choose|s: int| is_ceil_sqrt(q, s)
}

/// Squaring is monotone on the naturals.
pub proof fn lemma_square_monotone(a: int, b: int)
    requires
        0 <= a <= b,
    ensures
        a * a <= b * b,
{
    assert(a * a <= a * b) by (nonlinear_arith)
        requires
            0 <= a <= b,
    ;
    assert(a * b <= b * b) by (nonlinear_arith)
        requires
            0 <= a <= b,
    ;
}

/// A number has at most one rounded-up square root.
pub proof fn lemma_ceil_sqrt_unique(q: int, s: int, t: int)
    requires
        is_ceil_sqrt(q, s),
        is_ceil_sqrt(q, t),
    ensures
        s == t,
{
    if s < t {
        lemma_square_monotone(s, t - 1);
    } else if t < s {
        lemma_square_monotone(t, s - 1);
    }
}

/// Whatever satisfies [`is_ceil_sqrt`] is the value of [`spec_ceil_sqrt`].
pub proof fn lemma_ceil_sqrt_is(q: int, s: int)
    requires
        is_ceil_sqrt(q, s),
    ensures
        spec_ceil_sqrt(q) == s,
{
    let t = spec_ceil_sqrt(q);
    assert(is_ceil_sqrt(q, t));
    lemma_ceil_sqrt_unique(q, s, t);
}

/// The square root of `q`, rounded up, found by bisection.
pub fn ceil_sqrt(q: u128) -> (s: u64)
    requires
        q <= SQRT_DOMAIN,
    ensures
        s == spec_ceil_sqrt(q as int),
        is_ceil_sqrt(q as int, s as int),
        s <= 0x8000_0000_0000_0000,
{
    let mut lo: u64 = 0;
    let mut hi: u64 = 0x8000_0000_0000_0000;
    assert(0x8000_0000_0000_0000int * 0x8000_0000_0000_0000int == SQRT_DOMAIN as int)
        by (nonlinear_arith);
    while lo < hi
        invariant
            lo <= hi <= 0x8000_0000_0000_0000,
            q <= SQRT_DOMAIN,
            q as int <= hi as int * hi as int,
            lo == 0 || (lo as int - 1) * (lo as int - 1) < q as int,
        decreases hi - lo,
    {
        let mid: u64 = lo + (hi - lo) / 2;
        proof {
            lemma_square_monotone(mid as int, 0x8000_0000_0000_0000int);
        }
        let square: u128 = (mid as u128) * (mid as u128);
        if square >= q {
            hi = mid;
        } else {
            lo = mid + 1;
        }
    }
    proof {
        lemma_ceil_sqrt_is(q as int, lo as int);
    }
    lo
}

/// Integer division that rounds toward zero, for a positive divisor.
pub open spec fn trunc_div(a: int, b: int) -> int {
    if a >= 0 {
        a / b
    } else {
        -((-a) / b)
    }
}

/// The squared Euclidean length of the vector `(x, y)`.
pub open spec fn length_squared(x: int, y: int) -> int {
    x * x + y * y
}

/// The vector `(x, y)`, shortened along its own direction to length `limit`
/// where it is longer, each component rounded toward zero.
pub open spec fn spec_limit_length(x: int, y: int, limit: int) -> (int, int) {
    if length_squared(x, y) <= limit * limit {
        (x, y)
    } else {
        let s = spec_ceil_sqrt(length_squared(x, y));
        (trunc_div(x * limit, s), trunc_div(y * limit, s))
    }
}

/// One component of a vector of rounded-up length `s`, rescaled to length
/// `limit` and rounded toward zero.
fn scale_component(x: i64, limit: i64, s: u64) -> (r: i64)
    requires
        -COMPONENT_LIMIT <= x <= COMPONENT_LIMIT,
        0 <= limit <= 0x8000_0000,
        0 < s <= 0x8000_0000_0000_0000,
        limit <= s,
        x * x <= s * s,
    ensures
        r == trunc_div(x * limit, s as int),
        -limit <= r <= limit,
        x >= 0 ==> 0 <= r <= x,
        x <= 0 ==> x <= r <= 0,
{
    let magnitude: u128 = if x >= 0 {
        x as u128
    } else {
        (-x) as u128
    };
    assert(magnitude as int * limit as int <= 0x2_0000_0000 * 0x8000_0000) by (nonlinear_arith)
        requires
            0 <= magnitude as int <= 0x2_0000_0000,
            0 <= limit as int <= 0x8000_0000,
    ;
    let product: u128 = magnitude * (limit as u128);
    let quotient: u128 = product / (s as u128);
    proof {
        let m = magnitude as int;
        let l = limit as int;
        let d = s as int;
        // |x| <= s, because x^2 <= s^2.
        if m > d {
            lemma_square_monotone(d + 1, m);
            assert((d + 1) * (d + 1) > d * d) by (nonlinear_arith)
                requires
                    d > 0,
            ;
            assert(m * m == x * x) by (nonlinear_arith)
                requires
                    m == x || m == -x,
            ;
        }
        assert(m <= d);
        assert(m * l <= d * l) by (nonlinear_arith)
            requires
                0 <= m <= d,
                0 <= l,
        ;
        vstd::arithmetic::div_mod::lemma_div_is_ordered(m * l, d * l, d);
        vstd::arithmetic::div_mod::lemma_div_multiples_vanish(l, d);
        assert(d * l == l * d) by (nonlinear_arith);
        assert((m * l) / d <= l);
        // The quotient does not exceed |x| either, because limit <= s.
        assert(m * l <= m * d) by (nonlinear_arith)
            requires
                0 <= m,
                0 <= l <= d,
        ;
        vstd::arithmetic::div_mod::lemma_div_is_ordered(m * l, m * d, d);
        vstd::arithmetic::div_mod::lemma_div_multiples_vanish(m, d);
        assert(d * m == m * d) by (nonlinear_arith);
        vstd::arithmetic::div_mod::lemma_div_pos_is_pos(m * l, d);
        if x < 0 {
            assert((-x) * limit == -(x * limit)) by (nonlinear_arith);
        }
    }
    if x >= 0 {
        quotient as i64
    } else {
        -(quotient as i64)
    }
}

/// The vector `(x, y)`, shortened to length `limit` where it is longer.
pub fn limit_length(x: i64, y: i64, limit: i64) -> (r: (i64, i64))
    requires
        -COMPONENT_LIMIT <= x <= COMPONENT_LIMIT,
        -COMPONENT_LIMIT <= y <= COMPONENT_LIMIT,
        0 <= limit <= 0x8000_0000,
    ensures
        (r.0 as int, r.1 as int) == spec_limit_length(x as int, y as int, limit as int),
{
    assert(x * x <= 0x2_0000_0000 * 0x2_0000_0000 && 0 <= x * x) by (nonlinear_arith)
        requires
            -0x2_0000_0000 <= x <= 0x2_0000_0000,
    ;
    assert(y * y <= 0x2_0000_0000 * 0x2_0000_0000 && 0 <= y * y) by (nonlinear_arith)
        requires
            -0x2_0000_0000 <= y <= 0x2_0000_0000,
    ;
    assert(limit * limit <= 0x8000_0000 * 0x8000_0000) by (nonlinear_arith)
        requires
            0 <= limit <= 0x8000_0000,
    ;
    let wide_x: i128 = x as i128;
    let wide_y: i128 = y as i128;
    let wide_limit: i128 = limit as i128;
    let q: i128 = wide_x * wide_x + wide_y * wide_y;
    if q <= wide_limit * wide_limit {
        (x, y)
    } else {
        let s: u64 = ceil_sqrt(q as u128);
        proof {
            if s < limit {
                lemma_square_monotone(s as int, limit as int);
            }
            assert(s as int * s as int >= 0) by (nonlinear_arith);
        }
        (scale_component(x, limit, s), scale_component(y, limit, s))
    }
}

/// Every natural number has a rounded-up square root.
pub proof fn lemma_ceil_sqrt_exists(q: int)
    requires
        0 <= q,
    ensures
        is_ceil_sqrt(q, spec_ceil_sqrt(q)),
    decreases q,
{
    if q == 0 {
        assert(is_ceil_sqrt(0, 0));
    } else {
        lemma_ceil_sqrt_exists(q - 1);
        let t = spec_ceil_sqrt(q - 1);
        if t * t >= q {
            assert(is_ceil_sqrt(q, t));
        } else {
            assert((t + 1) * (t + 1) == t * t + 2 * t + 1) by (nonlinear_arith);
            assert(is_ceil_sqrt(q, t + 1));
        }
    }
}

/// Rounding a quotient toward zero keeps its sign and does not grow it:
/// `|trunc_div(a, b)| * b <= |a|`.
pub proof fn lemma_trunc_div_bounds(a: int, b: int)
    requires
        0 < b,
    ensures
        a >= 0 ==> 0 <= trunc_div(a, b) * b <= a,
        a <= 0 ==> a <= trunc_div(a, b) * b <= 0,
{
    if a >= 0 {
        vstd::arithmetic::div_mod::lemma_fundamental_div_mod(a, b);
        vstd::arithmetic::div_mod::lemma_div_pos_is_pos(a, b);
        assert(b * (a / b) == (a / b) * b) by (nonlinear_arith);
        assert(0 <= (a / b) * b) by (nonlinear_arith)
            requires
                0 <= a / b,
                0 < b,
        ;
    } else {
        vstd::arithmetic::div_mod::lemma_fundamental_div_mod(-a, b);
        vstd::arithmetic::div_mod::lemma_div_pos_is_pos(-a, b);
        assert(b * ((-a) / b) == ((-a) / b) * b) by (nonlinear_arith);
        assert((-((-a) / b)) * b == -(((-a) / b) * b)) by (nonlinear_arith);
        assert(0 <= ((-a) / b) * b) by (nonlinear_arith)
            requires
                0 <= (-a) / b,
                0 < b,
        ;
    }
}

/// If `|c| * s <= |x| * l` with matching signs, then `c^2 * s^2 <= x^2 * l^2`.
proof fn lemma_square_of_scaled(c: int, x: int, l: int, s: int)
    requires
        0 < s,
        0 <= l,
        x >= 0 ==> 0 <= c * s <= x * l,
        x <= 0 ==> x * l <= c * s <= 0,
    ensures
        (c * c) * (s * s) <= (x * x) * (l * l),
{
    let u = c * s;
    let v = x * l;
    if x >= 0 {
        lemma_square_monotone(u, v);
    } else {
        lemma_square_monotone(-u, -v);
        assert((-u) * (-u) == u * u) by (nonlinear_arith);
        assert((-v) * (-v) == v * v) by (nonlinear_arith);
    }
    assert(u * u == (c * c) * (s * s)) by (nonlinear_arith)
        requires
            u == c * s,
    ;
    assert(v * v == (x * x) * (l * l)) by (nonlinear_arith)
        requires
            v == x * l,
    ;
}

/// A vector that went through [`spec_limit_length`] is no longer than the
/// limit, and each of its components lies between zero and the component it
/// came from.
pub proof fn lemma_limit_length_bounded(x: int, y: int, limit: int)
    requires
        0 <= limit,
    ensures
        ({
            let (a, b) = spec_limit_length(x, y, limit);
            &&& length_squared(a, b) <= limit * limit
            &&& (x >= 0 ==> 0 <= a <= x)
            &&& (x <= 0 ==> x <= a <= 0)
            &&& (y >= 0 ==> 0 <= b <= y)
            &&& (y <= 0 ==> y <= b <= 0)
        }),
{
    let q = length_squared(x, y);
    assert(x * x >= 0 && y * y >= 0) by (nonlinear_arith);
    if q > limit * limit {
        lemma_ceil_sqrt_exists(q);
        let s = spec_ceil_sqrt(q);
        let (a, b) = spec_limit_length(x, y, limit);
        assert(limit * limit >= 0) by (nonlinear_arith);
        assert(s > 0) by {
            if s == 0 {
                assert(s * s == 0) by (nonlinear_arith)
                    requires
                        s == 0,
                ;
            }
        }
        if s < limit {
            lemma_square_monotone(s, limit);
        }
        lemma_trunc_div_bounds(x * limit, s);
        lemma_trunc_div_bounds(y * limit, s);
        assert(x >= 0 ==> x * limit >= 0) by (nonlinear_arith)
            requires
                0 <= limit,
        ;
        assert(x <= 0 ==> x * limit <= 0) by (nonlinear_arith)
            requires
                0 <= limit,
        ;
        assert(y >= 0 ==> y * limit >= 0) by (nonlinear_arith)
            requires
                0 <= limit,
        ;
        assert(y <= 0 ==> y * limit <= 0) by (nonlinear_arith)
            requires
                0 <= limit,
        ;
        lemma_square_of_scaled(a, x, limit, s);
        lemma_square_of_scaled(b, y, limit, s);
        let ll = limit * limit;
        let ss = s * s;
        assert((a * a + b * b) * ss <= q * ll) by (nonlinear_arith)
            requires
                (a * a) * ss <= (x * x) * ll,
                (b * b) * ss <= (y * y) * ll,
                q == x * x + y * y,
        ;
        assert(q * ll <= ss * ll) by (nonlinear_arith)
            requires
                q <= ss,
                0 <= ll,
        ;
        assert(a * a + b * b <= ll) by (nonlinear_arith)
            requires
                (a * a + b * b) * ss <= ss * ll,
                0 < ss,
        ;
        // Each component shrinks toward zero, because limit <= s.
        assert(x >= 0 ==> a <= x) by (nonlinear_arith)
            requires
                x >= 0 ==> 0 <= a * s <= x * limit,
                0 <= limit <= s,
                0 < s,
        ;
        assert(x >= 0 ==> 0 <= a) by (nonlinear_arith)
            requires
                x >= 0 ==> 0 <= a * s,
                0 < s,
                a == trunc_div(x * limit, s),
                x >= 0 ==> a == (x * limit) / s,
                x >= 0 ==> 0 <= (x * limit) / s,
        ;
        assert(x <= 0 ==> x <= a) by (nonlinear_arith)
            requires
                x <= 0 ==> x * limit <= a * s <= 0,
                0 <= limit <= s,
                0 < s,
        ;
        assert(y >= 0 ==> b <= y) by (nonlinear_arith)
            requires
                y >= 0 ==> 0 <= b * s <= y * limit,
                0 <= limit <= s,
                0 < s,
        ;
        assert(y <= 0 ==> y <= b) by (nonlinear_arith)
            requires
                y <= 0 ==> y * limit <= b * s <= 0,
                0 <= limit <= s,
                0 < s,
        ;
        assert(x <= 0 ==> a <= 0) by (nonlinear_arith)
            requires
                x <= 0 ==> a * s <= 0,
                0 < s,
        ;
        assert(y >= 0 ==> 0 <= b) by (nonlinear_arith)
            requires
                y >= 0 ==> 0 <= b * s,
                0 < s,
        ;
        assert(y <= 0 ==> b <= 0) by (nonlinear_arith)
            requires
                y <= 0 ==> b * s <= 0,
                0 < s,
        ;
    }
}

/// `s` is the greatest natural number whose square does not exceed `n`.
pub open spec fn is_floor_sqrt(n: int, s: int) -> bool {
    &&& 0 <= s
    &&& s * s <= n
    &&& n < (s + 1) * (s + 1)
}

/// The square root of `n`, rounded down to an integer.
pub open spec fn spec_floor_sqrt(n: int) -> int {
    choose|s: int| is_floor_sqrt(n, s)
}

/// Whatever satisfies [`is_floor_sqrt`] is the value of
/// [`spec_floor_sqrt`].
pub proof fn lemma_floor_sqrt_is(n: int, s: int)
    requires
        is_floor_sqrt(n, s),
    ensures
        spec_floor_sqrt(n) == s,
{
    let t = spec_floor_sqrt(n);
    assert(is_floor_sqrt(n, t));
    if s < t {
        lemma_square_monotone(s + 1, t);
    } else if t < s {
        lemma_square_monotone(t + 1, s);
    }
}

/// The square root of `n`, rounded down.
pub fn floor_sqrt(n: u128) -> (s: u64)
    requires
        n <= SQRT_DOMAIN,
    ensures
        s == spec_floor_sqrt(n as int),
        is_floor_sqrt(n as int, s as int),
{
    let up: u64 = ceil_sqrt(n);
    proof {
        lemma_square_monotone(up as int, 0x8000_0000_0000_0000int);
        assert(0x8000_0000_0000_0000int * 0x8000_0000_0000_0000int == SQRT_DOMAIN as int)
            by (nonlinear_arith);
    }
    let square: u128 = (up as u128) * (up as u128);
    if square == n {
        proof {
            assert((up + 1) * (up + 1) > up * up) by (nonlinear_arith)
                requires
                    up >= 0,
            ;
            lemma_floor_sqrt_is(n as int, up as int);
        }
        up
    } else {
        proof {
            assert(up > 0) by {
                if up == 0 {
                    assert(up * up == 0) by (nonlinear_arith)
                        requires
                            up == 0,
                    ;
                }
            }
            assert((up - 1 + 1) * (up - 1 + 1) == up * up) by (nonlinear_arith);
            assert((up - 1) * (up - 1) >= 0) by (nonlinear_arith);
            lemma_floor_sqrt_is(n as int, up as int - 1);
        }
        up - 1
    }
}

/// The magnitude of `x * length / |(x, y)|`, rounded down: the greatest
/// integer `m` with `m^2 (x^2 + y^2) <= (x length)^2`.
pub open spec fn scaled_magnitude(x: int, y: int, length: int) -> int {
    spec_floor_sqrt(((x * length) * (x * length)) / length_squared(x, y))
}

/// The vector of the given length in the direction of `(x, y)`, each
/// component rounded toward zero.
pub open spec fn spec_with_length(x: int, y: int, length: int) -> (int, int) {
    (
        if x >= 0 {
            scaled_magnitude(x, y, length)
        } else {
            -scaled_magnitude(x, y, length)
        },
        if y >= 0 {
            scaled_magnitude(y, x, length)
        } else {
            -scaled_magnitude(y, x, length)
        },
    )
}

/// The magnitude of one component of a direction, rescaled to the given
/// length and rounded down.
fn scale_magnitude(x: i32, y: i32, length: u32) -> (m: u32)
    requires
        x != 0 || y != 0,
        length <= 0x7FFF_FFFF,
    ensures
        m == scaled_magnitude(x as int, y as int, length as int),
        m <= length,
        m * m * length_squared(x as int, y as int) <= (x * length) * (x * length),
{
    let wide_x: i128 = x as i128;
    let wide_y: i128 = y as i128;
    assert(0 <= x * x <= 0x8000_0000 * 0x8000_0000 && 0 <= y * y <= 0x8000_0000 * 0x8000_0000 && x
        * x + y * y > 0) by (nonlinear_arith)
        requires
            -0x8000_0000 <= x <= 0x8000_0000,
            -0x8000_0000 <= y <= 0x8000_0000,
            x != 0 || y != 0,
    ;
    let q: u128 = (wide_x * wide_x + wide_y * wide_y) as u128;
    let magnitude: u128 = if x >= 0 {
        x as u128
    } else {
        (-wide_x) as u128
    };
    assert(magnitude * length <= 0x8000_0000 * 0x7FFF_FFFF) by (nonlinear_arith)
        requires
            0 <= magnitude <= 0x8000_0000,
            0 <= length <= 0x7FFF_FFFF,
    ;
    let p: u128 = magnitude * (length as u128);
    assert(p * p <= 0x3FFF_FFFF_8000_0000 * 0x3FFF_FFFF_8000_0000) by (nonlinear_arith)
        requires
            0 <= p <= 0x3FFF_FFFF_8000_0000,
    ;
    let n: u128 = (p * p) / q;
    proof {
        let l = length as int;
        let xx = x as int * x as int;
        let ll = l * l;
        vstd::arithmetic::div_mod::lemma_div_pos_is_pos((p * p) as int, q as int);
        vstd::arithmetic::div_mod::lemma_fundamental_div_mod((p * p) as int, q as int);
        assert((p * p) as int == (x * length) * (x * length)) by (nonlinear_arith)
            requires
                p == magnitude * length,
                magnitude == x || magnitude == -x,
        ;
        assert((p * p) as int == xx * ll) by (nonlinear_arith)
            requires
                p == magnitude * length,
                magnitude == x || magnitude == -x,
                xx == x * x,
                ll == l * l,
                l == length,
        ;
        // n <= length^2, because x^2 <= x^2 + y^2.
        assert(xx * ll <= ll * (q as int)) by (nonlinear_arith)
            requires
                0 <= xx <= q,
                0 <= ll,
        ;
        vstd::arithmetic::div_mod::lemma_div_is_ordered(xx * ll, ll * (q as int), q as int);
        vstd::arithmetic::div_mod::lemma_div_multiples_vanish(ll, q as int);
        assert(n <= ll);
        assert(n <= p * p) by {
            vstd::arithmetic::div_mod::lemma_div_is_ordered_by_denominator(
                (p * p) as int,
                1,
                q as int,
            );
        }
    }
    let m: u64 = floor_sqrt(n);
    proof {
        let l = length as int;
        if m > l {
            lemma_square_monotone(l + 1, m as int);
            assert((l + 1) * (l + 1) > l * l) by (nonlinear_arith)
                requires
                    l >= 0,
            ;
        }
        // m^2 q <= n q <= p^2.
        let mm = m as int * m as int;
        assert(mm * (q as int) <= (n as int) * (q as int)) by (nonlinear_arith)
            requires
                mm <= n,
                0 <= q,
        ;
        assert((q as int) * ((p * p) as int / (q as int)) <= p * p) by {
            vstd::arithmetic::div_mod::lemma_fundamental_div_mod((p * p) as int, q as int);
            vstd::arithmetic::div_mod::lemma_mod_pos_bound((p * p) as int, q as int);
        }
        assert((n as int) * (q as int) == (q as int) * (n as int)) by (nonlinear_arith);
    }
    m as u32
}

/// The vector of the given length in the direction of `(x, y)`, each
/// component rounded toward zero, and therefore no longer than `length`.
pub fn with_length(x: i32, y: i32, length: u32) -> (r: (i32, i32))
    requires
        x != 0 || y != 0,
        length <= 0x7FFF_FFFF,
    ensures
        (r.0 as int, r.1 as int) == spec_with_length(x as int, y as int, length as int),
        length_squared(r.0 as int, r.1 as int) <= length * length,
{
    let a: u32 = scale_magnitude(x, y, length);
    let b: u32 = scale_magnitude(y, x, length);
    proof {
        let q = length_squared(x as int, y as int);
        let l = length as int;
        let aa = a as int * a as int;
        let bb = b as int * b as int;
        assert(length_squared(y as int, x as int) == q);
        assert(q > 0) by (nonlinear_arith)
            requires
                q == x * x + y * y,
                x != 0 || y != 0,
        ;
        assert((x * l) * (x * l) + (y * l) * (y * l) == q * (l * l)) by (nonlinear_arith)
            requires
                q == x * x + y * y,
        ;
        assert((aa + bb) * q <= q * (l * l)) by (nonlinear_arith)
            requires
                aa * q <= (x * l) * (x * l),
                bb * q <= (y * l) * (y * l),
                (x * l) * (x * l) + (y * l) * (y * l) == q * (l * l),
        ;
        assert(aa + bb <= l * l) by (nonlinear_arith)
            requires
                (aa + bb) * q <= q * (l * l),
                q > 0,
        ;
    }
    let rx: i32 = if x >= 0 {
        a as i32
    } else {
        -(a as i32)
    };
    let ry: i32 = if y >= 0 {
        b as i32
    } else {
        -(b as i32)
    };
    assert(rx * rx == a * a && ry * ry == b * b) by (nonlinear_arith)
        requires
            rx == a || rx == -a,
            ry == b || ry == -b,
    ;
    (rx, ry)
}

} // verus!
