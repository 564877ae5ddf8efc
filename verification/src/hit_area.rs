//! Melee hit areas: circular sectors around the attacker, given by a reach
//! and by the widest angle between the aim and the line to the target.
//!
//! Angles are compared without trigonometry. For an aim `a` and an offset
//! `d` to the target, write `dot = a . d` and `cross = a x d`; the pair
//! `(dot, cross)` is `|a| |d| (cos t, sin t)` for the angle `t` between the
//! two vectors. So `t` is at most an eighth of a turn (45 degrees) exactly
//! when `dot >= |cross|`, and at most a sixteenth of a turn (22.5 degrees)
//! exactly when the doubled angle is at most an eighth of a turn, that is
//! when `dot >= 0` and `dot^2 - cross^2 >= 2 dot |cross|`.

use crate::fixed::length_squared;
use vstd::prelude::*;

verus! {

/// Damage of a sword hit, in thousandths of a hit point.
pub const SWORD_DAMAGE: u32 = 25_000;

/// Damage of an axe hit, in thousandths of a hit point.
pub const AXE_DAMAGE: u32 = 40_000;

/// Reach of the sword, in thousandths of a pixel.
pub const SWORD_RANGE: i32 = 80_000;

/// Reach of the axe, in thousandths of a pixel.
pub const AXE_RANGE: i32 = 60_000;

/// Full width of the sword's arc, in degrees: an eighth of a turn to either
/// side of the aim.
pub const SWORD_CLEAVE_ANGLE: u32 = 90;

/// Full width of the axe's arc, in degrees: a sixteenth of a turn to either
/// side of the aim.
pub const AXE_FRONTAL_ANGLE: u32 = 45;

/// The dot product of two vectors.
pub open spec fn dot(ax: int, ay: int, bx: int, by: int) -> int {
    ax * bx + ay * by
}

/// The cross product of two vectors in the plane.
pub open spec fn cross(ax: int, ay: int, bx: int, by: int) -> int {
    ax * by - ay * bx
}

/// The absolute value of an integer.
pub open spec fn abs(v: int) -> int {
    if v < 0 {
        -v
    } else {
        v
    }
}

/// Whether the vector `(dx, dy)` is no longer than `range`.
pub open spec fn within_range(dx: int, dy: int, range: int) -> bool {
    length_squared(dx, dy) <= range * range
}

/// Whether the angle between two vectors is defined and at most an eighth
/// of a turn (45 degrees).
pub open spec fn within_eighth_turn(ax: int, ay: int, bx: int, by: int) -> bool {
    &&& (ax != 0 || ay != 0)
    &&& (bx != 0 || by != 0)
    &&& dot(ax, ay, bx, by) >= abs(cross(ax, ay, bx, by))
}

/// Whether the angle between two vectors is defined and at most a sixteenth
/// of a turn (22.5 degrees).
pub open spec fn within_sixteenth_turn(ax: int, ay: int, bx: int, by: int) -> bool {
    let d = dot(ax, ay, bx, by);
    let c = cross(ax, ay, bx, by);
    &&& (ax != 0 || ay != 0)
    &&& (bx != 0 || by != 0)
    &&& d >= 0
    &&& d * d - c * c >= 2 * d * abs(c)
}

/// Whether a target lies in the sword's cleave area: no farther from the
/// attacker than the sword's reach, and no more than 45 degrees off the
/// aim, so that the arc spans 90 degrees. A target at the attacker's own
/// position, or an aim of length zero, gives no angle and no hit.
pub open spec fn spec_in_sword_cleave_area(
    attacker_x: int,
    attacker_y: int,
    target_x: int,
    target_y: int,
    direction_x: int,
    direction_y: int,
) -> bool {
    let dx = target_x - attacker_x;
    let dy = target_y - attacker_y;
    within_range(dx, dy, SWORD_RANGE as int) && within_eighth_turn(direction_x, direction_y, dx, dy)
}

/// Whether a target lies in the axe's frontal area: no farther from the
/// attacker than the axe's reach, and no more than 22.5 degrees off the
/// aim, so that the arc spans 45 degrees. A target at the attacker's own
/// position, or an aim of length zero, gives no angle and no hit.
pub open spec fn spec_in_axe_frontal_area(
    attacker_x: int,
    attacker_y: int,
    target_x: int,
    target_y: int,
    direction_x: int,
    direction_y: int,
) -> bool {
    let dx = target_x - attacker_x;
    let dy = target_y - attacker_y;
    within_range(dx, dy, AXE_RANGE as int) && within_sixteenth_turn(
        direction_x,
        direction_y,
        dx,
        dy,
    )
}

/// A product of two products, regrouped: `(a b)(c d) = (a c)(b d)`.
proof fn lemma_product_of_products(a: int, b: int, c: int, d: int)
    ensures
        (a * b) * (c * d) == (a * c) * (b * d),
{
    vstd::arithmetic::mul::lemma_mul_is_associative(a, b, c * d);
    vstd::arithmetic::mul::lemma_mul_is_associative(b, c, d);
    vstd::arithmetic::mul::lemma_mul_is_commutative(b, c);
    vstd::arithmetic::mul::lemma_mul_is_associative(c, b, d);
    vstd::arithmetic::mul::lemma_mul_is_associative(a, c, b * d);
}

/// The squares of the dot and the cross product add up to the product of
/// the squared lengths.
pub proof fn lemma_dot_cross(ax: int, ay: int, bx: int, by: int)
    ensures
        dot(ax, ay, bx, by) * dot(ax, ay, bx, by) + cross(ax, ay, bx, by) * cross(ax, ay, bx, by)
            == length_squared(ax, ay) * length_squared(bx, by),
{
    let p = ax * bx;
    let q = ay * by;
    let r = ax * by;
    let s = ay * bx;
    assert((p + q) * (p + q) == p * p + 2 * (p * q) + q * q) by (nonlinear_arith);
    assert((r - s) * (r - s) == r * r - 2 * (r * s) + s * s) by (nonlinear_arith);
    lemma_product_of_products(ax, bx, ay, by);
    lemma_product_of_products(ax, by, ay, bx);
    lemma_product_of_products(ax, bx, ax, bx);
    lemma_product_of_products(ay, by, ay, by);
    lemma_product_of_products(ax, by, ax, by);
    lemma_product_of_products(ay, bx, ay, bx);
    let aa = ax * ax;
    let bb = ay * ay;
    let cc = bx * bx;
    let dd = by * by;
    assert((aa + bb) * (cc + dd) == aa * cc + aa * dd + bb * cc + bb * dd) by (nonlinear_arith);
}

/// The angle between two vectors is at most an eighth of a turn exactly
/// when its cosine is at least the square root of one half: the dot product
/// is not negative and twice its square reaches the product of the squared
/// lengths.
pub proof fn lemma_eighth_turn_by_cosine(ax: int, ay: int, bx: int, by: int)
    requires
        ax != 0 || ay != 0,
        bx != 0 || by != 0,
    ensures
        within_eighth_turn(ax, ay, bx, by) <==> (dot(ax, ay, bx, by) >= 0 && 2 * (dot(
            ax,
            ay,
            bx,
            by,
        ) * dot(ax, ay, bx, by)) >= length_squared(ax, ay) * length_squared(bx, by)),
{
    let d = dot(ax, ay, bx, by);
    let c = cross(ax, ay, bx, by);
    lemma_dot_cross(ax, ay, bx, by);
    let m = abs(c);
    assert(m * m == c * c) by (nonlinear_arith)
        requires
            m == c || m == -c,
    ;
    if d >= m {
        crate::fixed::lemma_square_monotone(m, d);
    }
    if d >= 0 && d * d >= m * m && d < m {
        crate::fixed::lemma_square_monotone(d + 1, m);
        assert((d + 1) * (d + 1) > d * d) by (nonlinear_arith)
            requires
                d >= 0,
        ;
    }
}

/// The angle between two vectors is at most a sixteenth of a turn exactly
/// when the cosine of the doubled angle is at least the square root of one
/// half and the angle itself is not obtuse. With `n` for the product of the
/// squared lengths, the cosine of the doubled angle is `(2 dot^2 - n) / n`.
pub proof fn lemma_sixteenth_turn_by_cosine(ax: int, ay: int, bx: int, by: int)
    requires
        ax != 0 || ay != 0,
        bx != 0 || by != 0,
    ensures
        ({
            let d = dot(ax, ay, bx, by);
            let n = length_squared(ax, ay) * length_squared(bx, by);
            within_sixteenth_turn(ax, ay, bx, by) <==> (d >= 0 && 2 * (d * d) - n >= 0 && 2 * ((2
                * (d * d) - n) * (2 * (d * d) - n)) >= n * n)
        }),
{
    let d = dot(ax, ay, bx, by);
    let c = cross(ax, ay, bx, by);
    let m = abs(c);
    let n = length_squared(ax, ay) * length_squared(bx, by);
    lemma_dot_cross(ax, ay, bx, by);
    let p = d * d;
    let q = c * c;
    assert(m * m == q) by (nonlinear_arith)
        requires
            m == c || m == -c,
            q == c * c,
    ;
    let x = p - q;
    let u = 2 * d * m;
    assert(2 * (d * d) - n == x);
    lemma_product_of_products(d, m, d, m);
    assert(u * u == 4 * (p * q)) by (nonlinear_arith)
        requires
            u == 2 * d * m,
            (d * m) * (d * m) == p * q,
    ;
    assert((p + q) * (p + q) == x * x + 4 * (p * q)) by (nonlinear_arith)
        requires
            x == p - q,
    ;
    assert(n * n == x * x + u * u);
    if d >= 0 {
        assert(u >= 0) by (nonlinear_arith)
            requires
                u == 2 * d * m,
                d >= 0,
                m >= 0,
        ;
        if x >= u {
            crate::fixed::lemma_square_monotone(u, x);
        }
        if x >= 0 && x < u {
            crate::fixed::lemma_square_monotone(x + 1, u);
            assert((x + 1) * (x + 1) > x * x) by (nonlinear_arith)
                requires
                    x >= 0,
            ;
        }
    }
}

/// The narrow arc lies inside the wide one: an angle of at most a sixteenth
/// of a turn is at most an eighth of a turn.
pub proof fn lemma_sixteenth_within_eighth(ax: int, ay: int, bx: int, by: int)
    requires
        within_sixteenth_turn(ax, ay, bx, by),
    ensures
        within_eighth_turn(ax, ay, bx, by),
{
    let d = dot(ax, ay, bx, by);
    let m = abs(cross(ax, ay, bx, by));
    let c = cross(ax, ay, bx, by);
    assert(m * m == c * c) by (nonlinear_arith)
        requires
            m == c || m == -c,
    ;
    assert(2 * d * m >= 0) by (nonlinear_arith)
        requires
            d >= 0,
            m >= 0,
    ;
    if d < m {
        crate::fixed::lemma_square_monotone(d + 1, m);
        assert((d + 1) * (d + 1) > d * d) by (nonlinear_arith)
            requires
                d >= 0,
        ;
    }
}

/// The axe trades reach and width for damage: it hits harder than the
/// sword, and whatever lies in its frontal area lies in the sword's cleave
/// area too.
pub proof fn lemma_axe_area_within_sword_area(
    attacker_x: int,
    attacker_y: int,
    target_x: int,
    target_y: int,
    direction_x: int,
    direction_y: int,
)
    ensures
        AXE_DAMAGE > SWORD_DAMAGE,
        AXE_RANGE < SWORD_RANGE,
        AXE_FRONTAL_ANGLE < SWORD_CLEAVE_ANGLE,
        spec_in_axe_frontal_area(
            attacker_x,
            attacker_y,
            target_x,
            target_y,
            direction_x,
            direction_y,
        ) ==> spec_in_sword_cleave_area(
            attacker_x,
            attacker_y,
            target_x,
            target_y,
            direction_x,
            direction_y,
        ),
{
    let dx = target_x - attacker_x;
    let dy = target_y - attacker_y;
    if spec_in_axe_frontal_area(
        attacker_x,
        attacker_y,
        target_x,
        target_y,
        direction_x,
        direction_y,
    ) {
        lemma_sixteenth_within_eighth(direction_x, direction_y, dx, dy);
    }
}

/// Whether the vector `(dx, dy)` is no longer than `range`.
pub fn is_within_range(dx: i64, dy: i64, range: i64) -> (r: bool)
    requires
        0 <= range <= 0x1_0000_0000,
    ensures
        r == within_range(dx as int, dy as int, range as int),
{
    if dx > range || dx < -range || dy > range || dy < -range {
        proof {
            let big = if dx > range || dx < -range {
                dx as int
            } else {
                dy as int
            };
            assert(big * big > range * range) by (nonlinear_arith)
                requires
                    big > range || big < -range,
                    0 <= range,
            ;
            assert(dx * dx >= 0 && dy * dy >= 0) by (nonlinear_arith);
        }
        return false;
    }
    assert(dx * dx <= 0x1_0000_0000 * 0x1_0000_0000 && dy * dy <= 0x1_0000_0000 * 0x1_0000_0000
        && range * range <= 0x1_0000_0000 * 0x1_0000_0000 && dx * dx >= 0 && dy * dy >= 0)
        by (nonlinear_arith)
        requires
            -range <= dx <= range,
            -range <= dy <= range,
            0 <= range <= 0x1_0000_0000,
    ;
    let wide_x: i128 = dx as i128;
    let wide_y: i128 = dy as i128;
    let wide_range: i128 = range as i128;
    wide_x * wide_x + wide_y * wide_y <= wide_range * wide_range
}

/// The dot and the cross product of an aim with a short offset.
fn dot_and_cross(direction_x: i32, direction_y: i32, dx: i64, dy: i64) -> (r: (i64, i64))
    requires
        -0x2_0000 <= dx <= 0x2_0000,
        -0x2_0000 <= dy <= 0x2_0000,
    ensures
        r.0 == dot(direction_x as int, direction_y as int, dx as int, dy as int),
        r.1 == cross(direction_x as int, direction_y as int, dx as int, dy as int),
        -0x2_0000_0000_0000 <= r.0 <= 0x2_0000_0000_0000,
        -0x2_0000_0000_0000 <= r.1 <= 0x2_0000_0000_0000,
{
    let ax: i64 = direction_x as i64;
    let ay: i64 = direction_y as i64;
    assert(-0x1_0000_0000_0000 <= ax * dx <= 0x1_0000_0000_0000 && -0x1_0000_0000_0000 <= ay * dy
        <= 0x1_0000_0000_0000 && -0x1_0000_0000_0000 <= ax * dy <= 0x1_0000_0000_0000
        && -0x1_0000_0000_0000 <= ay * dx <= 0x1_0000_0000_0000) by (nonlinear_arith)
        requires
            -0x8000_0000 <= ax <= 0x8000_0000,
            -0x8000_0000 <= ay <= 0x8000_0000,
            -0x2_0000 <= dx <= 0x2_0000,
            -0x2_0000 <= dy <= 0x2_0000,
    ;
    (ax * dx + ay * dy, ax * dy - ay * dx)
}

/// Whether a target lies in the sword's cleave area.
pub fn is_in_sword_cleave_area(
    attacker_x: i32,
    attacker_y: i32,
    target_x: i32,
    target_y: i32,
    direction_x: i32,
    direction_y: i32,
) -> (r: bool)
    ensures
        r == spec_in_sword_cleave_area(
            attacker_x as int,
            attacker_y as int,
            target_x as int,
            target_y as int,
            direction_x as int,
            direction_y as int,
        ),
{
    let dx: i64 = target_x as i64 - attacker_x as i64;
    let dy: i64 = target_y as i64 - attacker_y as i64;
    if !is_within_range(dx, dy, SWORD_RANGE as i64) {
        return false;
    }
    if (direction_x == 0 && direction_y == 0) || (dx == 0 && dy == 0) {
        return false;
    }
    proof {
        lemma_short_components(dx as int, dy as int, SWORD_RANGE as int);
    }
    let (d, c) = dot_and_cross(direction_x, direction_y, dx, dy);
    let m: i64 = if c < 0 {
        -c
    } else {
        c
    };
    d >= m
}

/// Whether a target lies in the axe's frontal area.
pub fn is_in_axe_frontal_area(
    attacker_x: i32,
    attacker_y: i32,
    target_x: i32,
    target_y: i32,
    direction_x: i32,
    direction_y: i32,
) -> (r: bool)
    ensures
        r == spec_in_axe_frontal_area(
            attacker_x as int,
            attacker_y as int,
            target_x as int,
            target_y as int,
            direction_x as int,
            direction_y as int,
        ),
{
    let dx: i64 = target_x as i64 - attacker_x as i64;
    let dy: i64 = target_y as i64 - attacker_y as i64;
    if !is_within_range(dx, dy, AXE_RANGE as i64) {
        return false;
    }
    if (direction_x == 0 && direction_y == 0) || (dx == 0 && dy == 0) {
        return false;
    }
    proof {
        lemma_short_components(dx as int, dy as int, AXE_RANGE as int);
    }
    let (d, c) = dot_and_cross(direction_x, direction_y, dx, dy);
    if d < 0 {
        return false;
    }
    let m: i64 = if c < 0 {
        -c
    } else {
        c
    };
    assert(d * d <= 0x2_0000_0000_0000 * 0x2_0000_0000_0000 && m * m <= 0x2_0000_0000_0000
        * 0x2_0000_0000_0000 && d * m <= 0x2_0000_0000_0000 * 0x2_0000_0000_0000 && d * d >= 0 && m
        * m >= 0 && d * m >= 0 && m * m == c * c) by (nonlinear_arith)
        requires
            0 <= d <= 0x2_0000_0000_0000,
            0 <= m <= 0x2_0000_0000_0000,
            m == c || m == -c,
    ;
    let wide_d: i128 = d as i128;
    let wide_m: i128 = m as i128;
    let product: i128 = wide_d * wide_m;
    assert(2 * d * m == 2 * (d * m)) by (nonlinear_arith);
    wide_d * wide_d - wide_m * wide_m >= 2 * product
}

/// The components of a vector are no longer than the vector.
pub proof fn lemma_short_components(dx: int, dy: int, range: int)
    requires
        0 <= range,
        within_range(dx, dy, range),
    ensures
        -range <= dx <= range,
        -range <= dy <= range,
{
    assert(dx * dx >= 0 && dy * dy >= 0) by (nonlinear_arith);
    if dx > range || dx < -range {
        assert(dx * dx > range * range) by (nonlinear_arith)
            requires
                dx > range || dx < -range,
                0 <= range,
        ;
    }
    if dy > range || dy < -range {
        assert(dy * dy > range * range) by (nonlinear_arith)
            requires
                dy > range || dy < -range,
                0 <= range,
        ;
    }
}

} // verus!
