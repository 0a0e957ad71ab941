//! Shared geometry of every moving object: fixed-point coordinates,
//! distance, aiming and the hit test.
use vstd::prelude::*;

verus! {

/// One pixel, or one unit of game time, in fixed-point micro-units.
pub const UNIT: i64 = 1_000_000;

/// Length of a unit direction vector, in thousandths.
pub const DIRECTION_ONE: i64 = 1000;

/// Bound on every fixed-point position the simulation keeps (a billion pixels).
pub const WORLD: i64 = 1_000_000_000_000_000;

/// Largest amount of game time one frame may advance (ten thousand units).
pub const MAX_STEP: i64 = 10_000_000_000;

/// Largest speed of any moving object, in pixels per unit of game time.
pub const MAX_SPEED: i64 = 100;

/// Largest pixel coordinate that can be turned into a fixed-point position.
pub const MAX_PIXEL: i64 = 1_000_000_000;

/// Bound on the pixel coordinates of every entity.
pub const MAX_COORD: i64 = 10_000_000_000_000;

/// Largest pixel offset for which a direction can be aimed.
pub const MAX_AIM_OFFSET: i64 = 2_000_000;

/// Division rounding toward zero, as a cast from a real number to an integer does.
pub open spec fn trunc_div(a: int, b: int) -> int
    recommends
        b > 0,
{
    if a >= 0 {
        a / b
    } else {
        -((-a) / b)
    }
}

/// A fixed-point position the simulation can hold.
pub open spec fn in_world(p: int) -> bool {
    -WORLD <= p <= WORLD
}

/// A timer decreased by `dt`, held at the smallest `i64` rather than wrapping.
pub open spec fn timer_after(t: int, dt: int) -> int {
    if t - dt >= i64::MIN {
        t - dt
    } else {
        i64::MIN as int
    }
}

/// The pixel coordinate of a fixed-point position.
pub open spec fn to_pixel(p: int) -> int {
    trunc_div(p, UNIT as int)
}

/// A fixed-point position lies within one pixel of its pixel coordinate
/// scaled back up.
pub proof fn lemma_pixel_range(p: int)
    ensures
        p >= 0 ==> to_pixel(p) * UNIT <= p < to_pixel(p) * UNIT + UNIT,
        p < 0 ==> to_pixel(p) * UNIT - UNIT < p <= to_pixel(p) * UNIT,
        p >= 0 ==> to_pixel(p) >= 0,
        p <= 0 ==> to_pixel(p) <= 0,
{
    let u = UNIT as int;
    if p >= 0 {
        vstd::arithmetic::div_mod::lemma_fundamental_div_mod(p, u);
        vstd::arithmetic::div_mod::lemma_mod_bound(p, u);
        vstd::arithmetic::div_mod::lemma_div_pos_is_pos(p, u);
    } else {
        vstd::arithmetic::div_mod::lemma_fundamental_div_mod(-p, u);
        vstd::arithmetic::div_mod::lemma_mod_bound(-p, u);
        vstd::arithmetic::div_mod::lemma_div_pos_is_pos(-p, u);
    }
}

/// Squared Euclidean distance between two points.
pub open spec fn distance_sq(ax: int, ay: int, bx: int, by: int) -> int {
    (ax - bx) * (ax - bx) + (ay - by) * (ay - by)
}

/// Two circles intersect when the distance between their centres, minus both
/// radii, is negative: `sqrt(d2) < ra + rb`, which for integers is
/// `ra + rb > 0 && d2 < (ra + rb)^2`.
pub open spec fn circles_intersect(ax: int, ay: int, ar: int, bx: int, by: int, br: int) -> bool {
    &&& ar + br > 0
    &&& distance_sq(ax, ay, bx, by) < (ar + br) * (ar + br)
}

/// `r` is the integer square root of `n`, rounded down.
pub open spec fn is_floor_sqrt(n: int, r: int) -> bool {
    0 <= r && r * r <= n && n < (r + 1) * (r + 1)
}

/// The integer square root of `n`, rounded down.
pub open spec fn floor_sqrt(n: int) -> int {
    choose|r: int| is_floor_sqrt(n, r)
}

/// The unit direction, in thousandths, from a point towards another that lies
/// `(dx, dy)` pixels away; straight along the x axis when the two coincide.
pub open spec fn aim_direction(dx: int, dy: int) -> (int, int) {
    let d = floor_sqrt(dx * dx + dy * dy);
    if d == 0 {
        (DIRECTION_ONE as int, 0)
    } else {
        (trunc_div(dx * DIRECTION_ONE, d), trunc_div(dy * DIRECTION_ONE, d))
    }
}

/// Something that moves in the arena, with a pixel position and a collision
/// radius; a radius of zero marks a decorative object.
pub trait Entity {
    spec fn spec_x(&self) -> int;

    spec fn spec_y(&self) -> int;

    spec fn spec_radius(&self) -> int;

    fn x(&self) -> (r: i64)
        ensures
            r == self.spec_x(),
            -MAX_COORD <= r <= MAX_COORD,
    ;

    fn y(&self) -> (r: i64)
        ensures
            r == self.spec_y(),
            -MAX_COORD <= r <= MAX_COORD,
    ;

    fn collider_radius(&self) -> (r: i64)
        ensures
            r == self.spec_radius(),
            0 <= r <= 100,
    ;
}

/// Whether two entities intersect.
pub open spec fn entities_intersect<A: Entity, B: Entity>(a: &A, b: &B) -> bool {
    circles_intersect(a.spec_x(), a.spec_y(), a.spec_radius(), b.spec_x(), b.spec_y(), b.spec_radius())
}

/// Squared distance between two entities.
pub open spec fn entity_distance_sq<A: Entity, B: Entity>(a: &A, b: &B) -> int {
    distance_sq(a.spec_x(), a.spec_y(), b.spec_x(), b.spec_y())
}

/// Division rounding toward zero.
pub fn div_toward_zero(a: i64, b: i64) -> (r: i64)
    requires
        b > 0,
        a > i64::MIN,
    ensures
        r == trunc_div(a as int, b as int),
{
    if a >= 0 {
        a / b
    } else {
        -((-a) / b)
    }
}

/// The pixel coordinate of a fixed-point position.
pub fn pixel_of(p: i64) -> (r: i64)
    ensures
        r == to_pixel(p as int),
        -MAX_COORD <= r <= MAX_COORD,
{
    if p >= 0 {
        p / UNIT
    } else {
        let q = (-(p as i128)) / (UNIT as i128);
        -(q as i64)
    }
}

/// A timer decreased by `dt`, held at the smallest `i64` rather than wrapping.
pub fn count_down(t: i64, dt: i64) -> (r: i64)
    requires
        0 <= dt,
    ensures
        r == timer_after(t as int, dt as int),
{
    if t >= i64::MIN + dt {
        t - dt
    } else {
        i64::MIN
    }
}

/// Squared distance between two points given in pixels.
pub fn distance_squared(ax: i64, ay: i64, bx: i64, by: i64) -> (r: i128)
    requires
        -MAX_COORD <= ax <= MAX_COORD,
        -MAX_COORD <= ay <= MAX_COORD,
        -MAX_COORD <= bx <= MAX_COORD,
        -MAX_COORD <= by <= MAX_COORD,
    ensures
        r == distance_sq(ax as int, ay as int, bx as int, by as int),
        r >= 0,
{
    let dx = ax as i128 - bx as i128;
    let dy = ay as i128 - by as i128;
    assert(0 <= dx * dx <= 400_000_000_000_000_000_000_000_000) by (nonlinear_arith)
        requires
            -20_000_000_000_000 <= dx <= 20_000_000_000_000,
    ;
    assert(0 <= dy * dy <= 400_000_000_000_000_000_000_000_000) by (nonlinear_arith)
        requires
            -20_000_000_000_000 <= dy <= 20_000_000_000_000,
    ;
    dx * dx + dy * dy
}

/// Squared distance between two entities.
pub fn distance<A: Entity, B: Entity>(a: &A, b: &B) -> (r: i128)
    ensures
        r == entity_distance_sq(a, b),
        r >= 0,
{
    distance_squared(a.x(), a.y(), b.x(), b.y())
}

/// Whether two entities intersect: the distance between them minus both
/// collision radii is negative.
pub fn intersects<A: Entity, B: Entity>(a: &A, b: &B) -> (r: bool)
    ensures
        r == entities_intersect(a, b),
{
    let d = distance(a, b);
    let s = a.collider_radius() as i128 + b.collider_radius() as i128;
    assert(s * s <= 40_000) by (nonlinear_arith)
        requires
            0 <= s <= 200,
    ;
    s > 0 && d < s * s
}

/// Hit tests are symmetric, and an entity hits itself exactly when twice its
/// radius is positive.
pub proof fn lemma_intersects_symmetric(ax: int, ay: int, ar: int, bx: int, by: int, br: int)
    ensures
        circles_intersect(ax, ay, ar, bx, by, br) == circles_intersect(bx, by, br, ax, ay, ar),
        circles_intersect(ax, ay, ar, ax, ay, ar) == (2 * ar > 0),
{
    assert(distance_sq(ax, ay, bx, by) == distance_sq(bx, by, ax, ay)) by (nonlinear_arith);
    assert(distance_sq(ax, ay, ax, ay) == 0) by (nonlinear_arith);
    if 2 * ar > 0 {
        assert((ar + ar) * (ar + ar) > 0) by (nonlinear_arith)
            requires
                2 * ar > 0,
        ;
    }
}

/// The hit test on entities is symmetric, and an entity hits itself exactly
/// when twice its radius is positive.
pub proof fn lemma_entities_intersect_symmetric<A: Entity, B: Entity>(a: &A, b: &B)
    ensures
        entities_intersect(a, b) == entities_intersect(b, a),
        entities_intersect(a, a) == (2 * a.spec_radius() > 0),
{
    lemma_intersects_symmetric(a.spec_x(), a.spec_y(), a.spec_radius(), b.spec_x(), b.spec_y(), b.spec_radius());
}

proof fn lemma_floor_sqrt_unique(n: int, r: int)
    requires
        is_floor_sqrt(n, r),
    ensures
        floor_sqrt(n) == r,
{
    let s = floor_sqrt(n);
    assert(is_floor_sqrt(n, s));
    if s < r {
        assert((s + 1) * (s + 1) <= r * r) by (nonlinear_arith)
            requires
                0 <= s < r,
        ;
    } else if r < s {
        assert((r + 1) * (r + 1) <= s * s) by (nonlinear_arith)
            requires
                0 <= r < s,
        ;
    }
}

/// The integer square root of `n`, rounded down.
pub fn isqrt(n: u64) -> (r: u64)
    requires
        n <= 16 * MAX_AIM_OFFSET * MAX_AIM_OFFSET,
    ensures
        is_floor_sqrt(n as int, r as int),
        r as int == floor_sqrt(n as int),
        r <= 4 * MAX_AIM_OFFSET,
{
    let mut lo: u64 = 0;
    let mut hi: u64 = 4 * (MAX_AIM_OFFSET as u64) + 1;
    assert(n < hi * hi) by (nonlinear_arith)
        requires
            n <= 16 * MAX_AIM_OFFSET * MAX_AIM_OFFSET,
            hi == 4 * MAX_AIM_OFFSET + 1,
    ;
    while hi - lo > 1
        invariant
            lo < hi <= 4 * MAX_AIM_OFFSET + 1,
            lo * lo <= n,
            n < hi * hi,
        decreases hi - lo,
    {
        let mid = lo + (hi - lo) / 2;
        assert(mid * mid <= 64_000_016_000_001) by (nonlinear_arith)
            requires
                mid <= 8_000_001,
        ;
        if mid * mid <= n {
            lo = mid;
        } else {
            hi = mid;
        }
    }
    assert(hi == lo + 1);
    proof {
        lemma_floor_sqrt_unique(n as int, lo as int);
    }
    lo
}

/// The unit direction, in thousandths, from one point towards another `(dx,
/// dy)` pixels away.
pub fn aim(dx: i64, dy: i64) -> (r: (i64, i64))
    requires
        -MAX_AIM_OFFSET <= dx <= MAX_AIM_OFFSET,
        -MAX_AIM_OFFSET <= dy <= MAX_AIM_OFFSET,
    ensures
        (r.0 as int, r.1 as int) == aim_direction(dx as int, dy as int),
        -DIRECTION_ONE <= r.0 <= DIRECTION_ONE,
        -DIRECTION_ONE <= r.1 <= DIRECTION_ONE,
{
    assert(0 <= dx * dx <= MAX_AIM_OFFSET * MAX_AIM_OFFSET) by (nonlinear_arith)
        requires
            -MAX_AIM_OFFSET <= dx <= MAX_AIM_OFFSET,
    ;
    assert(0 <= dy * dy <= MAX_AIM_OFFSET * MAX_AIM_OFFSET) by (nonlinear_arith)
        requires
            -MAX_AIM_OFFSET <= dy <= MAX_AIM_OFFSET,
    ;
    let n = (dx * dx + dy * dy) as u64;
    let d = isqrt(n);
    if d == 0 {
        (DIRECTION_ONE, 0)
    } else {
        let di = d as i64;
        proof {
            lemma_component_bound(dx as int, dy as int, d as int);
            lemma_component_bound(dy as int, dx as int, d as int);
        }
        (div_toward_zero(dx * DIRECTION_ONE, di), div_toward_zero(dy * DIRECTION_ONE, di))
    }
}

/// A component of a vector is at most its length, so scaled by the rounded-down
/// length it stays within one unit of direction.
proof fn lemma_component_bound(a: int, b: int, d: int)
    requires
        d > 0,
        is_floor_sqrt(a * a + b * b, d),
        -MAX_AIM_OFFSET <= a <= MAX_AIM_OFFSET,
    ensures
        -DIRECTION_ONE <= trunc_div(a * DIRECTION_ONE, d) <= DIRECTION_ONE,
{
    assert(a * a <= a * a + b * b) by (nonlinear_arith);
    let m = if a >= 0 { a } else { -a };
    assert(m * m == a * a) by (nonlinear_arith)
        requires
            m == a || m == -a,
    ;
    assert(m <= d) by (nonlinear_arith)
        requires
            m >= 0,
            d >= 0,
            m * m < (d + 1) * (d + 1),
    ;
    assert(m * 1000 / d <= 1000) by (nonlinear_arith)
        requires
            0 <= m <= d,
            d > 0,
    ;
    assert(m * 1000 / d >= 0) by (nonlinear_arith)
        requires
            0 <= m,
            d > 0,
    ;
    if a < 0 {
        assert(-(a * 1000) == m * 1000);
    } else {
        assert(a * 1000 == m * 1000);
    }
}

} // verus!
