//! Positions, directions, clamping, normalisation and circle overlap.
use vstd::arithmetic::div_mod::{lemma_fundamental_div_mod, lemma_mod_pos_bound};
use vstd::prelude::*;

verus! {

/// Fixed-point scale of a direction component: `DIRECTION_SCALE` is 1.0.
pub const DIRECTION_SCALE: i64 = 1_000_000;

/// Position units per pixel.
pub const UNITS_PER_PIXEL: i64 = 1_000_000_000;

/// A direction component times a speed in pixels per second times a time in
/// microseconds, divided by this, is a displacement in position units
/// (`DIRECTION_SCALE * 1_000_000 / UNITS_PER_PIXEL`).
pub const DISPLACEMENT_DIVISOR: i64 = 1000;

/// Every stored coordinate lies within `[-COORD_LIMIT, COORD_LIMIT]` (2^62).
pub const COORD_LIMIT: i64 = 4_611_686_018_427_387_904;

/// Largest magnitude of a component accepted by `normalize`.
pub const MAX_DIRECTION_INPUT: i64 = 2048;

/// A point of the arena, in position units.
#[derive(Clone, Copy, Debug, PartialEq, Eq, Structural)]
pub struct Position {
    pub x: i64,
    pub y: i64,
}

/// A direction in millionths: `(DIRECTION_SCALE, 0)` points right.
#[derive(Clone, Copy, Debug, PartialEq, Eq, Structural)]
pub struct Direction {
    pub x: i64,
    pub y: i64,
}

/// Absolute value.
pub open spec fn abs(v: int) -> int {
    if v < 0 { -v } else { v }
}

/// A coordinate within the range every stored position keeps to.
pub open spec fn coord_ok(c: int) -> bool {
    -COORD_LIMIT <= c <= COORD_LIMIT
}

pub open spec fn position_ok(p: Position) -> bool {
    coord_ok(p.x as int) && coord_ok(p.y as int)
}

/// A direction of (fixed-point) length one, up to one unit on each axis.
pub open spec fn is_unit(d: Direction) -> bool {
    let grown_x = abs(d.x as int) + 1;
    let grown_y = abs(d.y as int) + 1;
    &&& d.x * d.x + d.y * d.y < (DIRECTION_SCALE + 1) * (DIRECTION_SCALE + 1)
    &&& DIRECTION_SCALE * DIRECTION_SCALE < grown_x * grown_x + grown_y * grown_y
}

/// A direction whose components do not exceed one in magnitude.
pub open spec fn direction_ok(d: Direction) -> bool {
    -DIRECTION_SCALE <= d.x <= DIRECTION_SCALE && -DIRECTION_SCALE <= d.y <= DIRECTION_SCALE
}

/// Raise `p` to `lo`, then lower it to `hi`.
pub open spec fn clamp_spec(p: int, lo: int, hi: int) -> int {
    let raised = if p < lo {
        lo
    } else {
        p
    };
    if raised > hi {
        hi
    } else {
        raised
    }
}

/// Clamps one coordinate into `[lo, hi]`: raised to `lo`, then lowered to
/// `hi`. On a degenerate range (`lo > hi`) this order makes `hi` win.
pub fn clamp_coord(p: i64, lo: i64, hi: i64) -> (r: i64)
    ensures
        r == clamp_spec(p as int, lo as int, hi as int),
{
    let mut r = p;
    if r < lo {
        r = lo;
    }
    if r > hi {
        r = hi;
    }
    r
}

/// Clamping into a non-empty range lands in the range, and clamping a
/// clamped value again changes nothing.
pub proof fn lemma_clamp_in_range_and_idempotent(p: int, lo: int, hi: int)
    requires
        lo <= hi,
    ensures
        lo <= clamp_spec(p, lo, hi) <= hi,
        clamp_spec(clamp_spec(p, lo, hi), lo, hi) == clamp_spec(p, lo, hi),
{
}


/// `r` is the integer square root of `n`.
pub open spec fn is_floor_sqrt(n: int, r: int) -> bool {
    0 <= r && r * r <= n && n < (r + 1) * (r + 1)
}

pub open spec fn floor_sqrt(n: int) -> int {
    choose|r: int| is_floor_sqrt(n, r)
}

proof fn lemma_floor_sqrt_unique(n: int, r1: int, r2: int)
    requires
        is_floor_sqrt(n, r1),
        is_floor_sqrt(n, r2),
    ensures
        r1 == r2,
{
    if r1 < r2 {
        assert((r1 + 1) * (r1 + 1) <= r2 * r2) by (nonlinear_arith)
            requires
                0 <= r1 + 1 <= r2,
        ;
    }
    if r2 < r1 {
        assert((r2 + 1) * (r2 + 1) <= r1 * r1) by (nonlinear_arith)
            requires
                0 <= r2 + 1 <= r1,
        ;
    }
}

/// Any `r` with `r * r <= n < (r + 1) * (r + 1)` is the integer square root.
pub proof fn lemma_floor_sqrt_is(n: int, r: int)
    requires
        is_floor_sqrt(n, r),
    ensures
        floor_sqrt(n) == r,
{
    lemma_floor_sqrt_unique(n, r, floor_sqrt(n));
}

proof fn lemma_floor_sqrt_exists(n: int) -> (r: int)
    requires
        n >= 0,
    ensures
        is_floor_sqrt(n, r),
    decreases n,
{
    if n == 0 {
        assert(is_floor_sqrt(0, 0)) by (nonlinear_arith);
        0
    } else {
        let p = lemma_floor_sqrt_exists(n - 1);
        if (p + 1) * (p + 1) <= n {
            assert(n < (p + 2) * (p + 2)) by (nonlinear_arith)
                requires
                    n - 1 < (p + 1) * (p + 1),
                    p >= 0,
            ;
            assert(is_floor_sqrt(n, p + 1)) by (nonlinear_arith)
                requires
                    n < (p + 2) * (p + 2),
                    (p + 1) * (p + 1) <= n,
                    p >= 0,
            ;
            p + 1
        } else {
            assert(is_floor_sqrt(n, p)) by (nonlinear_arith)
                requires
                    p * p <= n - 1,
                    n < (p + 1) * (p + 1),
                    p >= 0,
            ;
            p
        }
    }
}

/// Integer square root by bisection.
pub fn isqrt(n: u64) -> (r: u64)
    requires
        n < 0x8000_0000_0000_0000,
    ensures
        is_floor_sqrt(n as int, r as int),
        r == floor_sqrt(n as int),
{
    let mut lo: u64 = 0;
    let mut hi: u64 = 3_037_000_500;
    assert(n < hi * hi);
    while lo + 1 < hi
        invariant
            lo < hi <= 3_037_000_500,
            lo * lo <= n,
            n < hi * hi,
        decreases hi - lo,
    {
        let mid: u64 = lo + (hi - lo) / 2;
        assert(mid * mid <= 3_037_000_500 * 3_037_000_500) by (nonlinear_arith)
            requires
                mid <= 3_037_000_500,
        ;
        if mid * mid <= n {
            lo = mid;
        } else {
            hi = mid;
        }
    }
    proof {
        let c = floor_sqrt(n as int);
        assert(is_floor_sqrt(n as int, lo as int));
        assert(is_floor_sqrt(n as int, c));
        lemma_floor_sqrt_unique(n as int, lo as int, c);
    }
    lo
}

/// One component of a normalised vector: `c * S^2 / len` rounded toward zero.
pub open spec fn scaled_component(c: int, len: int) -> int {
    if c >= 0 {
        c * DIRECTION_SCALE * DIRECTION_SCALE / len
    } else {
        -((-c) * DIRECTION_SCALE * DIRECTION_SCALE / len)
    }
}

/// `S` times the length of `(x, y)`, rounded down.
pub open spec fn scaled_length(x: int, y: int) -> int {
    floor_sqrt((x * x + y * y) * DIRECTION_SCALE * DIRECTION_SCALE)
}

/// The vector `(x, y)` rescaled to length `DIRECTION_SCALE`; zero stays zero.
pub open spec fn normalized(x: int, y: int) -> Direction {
    if x == 0 && y == 0 {
        Direction { x: 0, y: 0 }
    } else {
        let len = scaled_length(x, y);
        Direction { x: scaled_component(x, len) as i64, y: scaled_component(y, len) as i64 }
    }
}

pub open spec fn normalize_input_ok(x: int, y: int) -> bool {
    -MAX_DIRECTION_INPUT <= x <= MAX_DIRECTION_INPUT && -MAX_DIRECTION_INPUT <= y
        <= MAX_DIRECTION_INPUT
}

proof fn lemma_length_at_least_scale(q: int, len: int)
    requires
        q >= 1,
        is_floor_sqrt(q * DIRECTION_SCALE * DIRECTION_SCALE, len),
    ensures
        len >= DIRECTION_SCALE,
{
    assert(q * DIRECTION_SCALE * DIRECTION_SCALE >= DIRECTION_SCALE * DIRECTION_SCALE)
        by (nonlinear_arith)
        requires
            q >= 1,
    ;
    if len + 1 <= DIRECTION_SCALE {
        assert((len + 1) * (len + 1) <= DIRECTION_SCALE * DIRECTION_SCALE) by (nonlinear_arith)
            requires
                0 <= len + 1 <= DIRECTION_SCALE,
        ;
    }
}

/// Rescales `(x, y)` to length `DIRECTION_SCALE`; the zero vector stays zero.
pub fn normalize(x: i64, y: i64) -> (d: Direction)
    requires
        normalize_input_ok(x as int, y as int),
    ensures
        d == normalized(x as int, y as int),
{
    if x == 0 && y == 0 {
        return Direction { x: 0, y: 0 };
    }
    let a: u64 = if x < 0 {
        (-x) as u64
    } else {
        x as u64
    };
    let b: u64 = if y < 0 {
        (-y) as u64
    } else {
        y as u64
    };
    assert(a * a <= 2048 * 2048 && b * b <= 2048 * 2048) by (nonlinear_arith)
        requires
            a <= 2048,
            b <= 2048,
    ;
    let q: u64 = a * a + b * b;
    let n: u64 = q * 1_000_000_000_000;
    assert(a * a + b * b == x * x + y * y) by (nonlinear_arith)
        requires
            a == abs(x as int),
            b == abs(y as int),
    ;
    let len = isqrt(n);
    proof {
        assert(q >= 1) by (nonlinear_arith)
            requires
                q == a * a + b * b,
                a > 0 || b > 0,
        ;
        lemma_length_at_least_scale(q as int, len as int);
    }
    let ax: i64 = (a * 1_000_000_000_000 / len) as i64;
    let ay: i64 = (b * 1_000_000_000_000 / len) as i64;
    assert(ax <= a * 1_000_000_000_000 && ay <= b * 1_000_000_000_000) by (nonlinear_arith)
        requires
            ax == (a * 1_000_000_000_000) as int / len as int,
            ay == (b * 1_000_000_000_000) as int / len as int,
            len >= 1,
    ;
    let rx = if x < 0 {
        -ax
    } else {
        ax
    };
    let ry = if y < 0 {
        -ay
    } else {
        ay
    };
    Direction { x: rx, y: ry }
}


proof fn lemma_quotient_bounds(v: int, len: int)
    requires
        v >= 0,
        len > 0,
    ensures
        0 <= v / len,
        (v / len) * len <= v < (v / len + 1) * len,
{
    lemma_fundamental_div_mod(v, len);
    lemma_mod_pos_bound(v, len);
    let d = v / len;
    assert(0 <= d && d * len <= v < (d + 1) * len) by (nonlinear_arith)
        requires
            v >= 0,
            len > 0,
            v == len * d + v % len,
            0 <= v % len < len,
    ;
}

proof fn lemma_square_le(u: int, v: int)
    requires
        0 <= u <= v,
    ensures
        u * u <= v * v,
{
    assert(u * u <= v * v) by (nonlinear_arith)
        requires
            0 <= u <= v,
    ;
}

proof fn lemma_square_lt(u: int, v: int)
    requires
        0 <= u < v,
    ensures
        u * u < v * v,
{
    assert(u * u < v * v) by (nonlinear_arith)
        requires
            0 <= u < v,
    ;
}

proof fn lemma_abs_square(v: int)
    ensures
        abs(v) * abs(v) == v * v,
        abs(v) >= 0,
{
    if v < 0 {
        assert((-v) * (-v) == v * v) by (nonlinear_arith);
    }
}

proof fn lemma_cancel_lt(x: int, y: int, l: int)
    requires
        l > 0,
        x * l < y * l,
    ensures
        x < y,
{
    assert(x < y) by (nonlinear_arith)
        requires
            l > 0,
            x * l < y * l,
    ;
}

proof fn lemma_product_square(c: int, l: int)
    ensures
        (c * l) * (c * l) == (c * c) * (l * l),
{
    assert((c * l) * (c * l) == (c * c) * (l * l)) by (nonlinear_arith);
}

/// Normalising a non-zero vector gives a unit direction: its squared length
/// is below `(S + 1)^2`, and moving each component one unit away from zero
/// brings the squared length above `S^2`. The zero vector stays zero.
pub proof fn lemma_normalized_is_unit(x: int, y: int)
    requires
        normalize_input_ok(x, y),
    ensures
        (x != 0 || y != 0) ==> is_unit(normalized(x, y)),
        (x == 0 && y == 0) ==> normalized(x, y) == (Direction { x: 0, y: 0 }),
{
    if x != 0 || y != 0 {
        let s: int = 1_000_000;
        let a = abs(x);
        let b = abs(y);
        lemma_abs_square(x);
        lemma_abs_square(y);
        let q = x * x + y * y;
        assert(q >= 1) by (nonlinear_arith)
            requires
                q == a * a + b * b,
                a > 0 || b > 0,
                a >= 0,
                b >= 0,
        ;
        let n = q * s * s;
        assert(n >= 0) by (nonlinear_arith)
            requires
                q >= 1,
                n == q * s * s,
        ;
        let len = scaled_length(x, y);
        let w = lemma_floor_sqrt_exists(n);
        lemma_floor_sqrt_unique(n, w, floor_sqrt(n));
        assert(is_floor_sqrt(n, len));
        lemma_length_at_least_scale(q, len);
        let va = a * s * s;
        let vb = b * s * s;
        assert(va >= 0 && vb >= 0) by (nonlinear_arith)
            requires
                va == a * s * s,
                vb == b * s * s,
                a >= 0,
                b >= 0,
                s == 1_000_000,
        ;
        lemma_quotient_bounds(va, len);
        lemma_quotient_bounds(vb, len);
        let ca = va / len;
        let cb = vb / len;
        let d = normalized(x, y);
        assert(ca <= va && cb <= vb) by (nonlinear_arith)
            requires
                ca * len <= va,
                cb * len <= vb,
                ca >= 0,
                cb >= 0,
                len >= 1,
        ;
        assert(abs(d.x as int) == ca && abs(d.y as int) == cb);
        lemma_abs_square(d.x as int);
        lemma_abs_square(d.y as int);
        assert(va * va + vb * vb == n * (s * s)) by (nonlinear_arith)
            requires
                va == a * s * s,
                vb == b * s * s,
                n == q * s * s,
                q == a * a + b * b,
        ;
        // squared length below (s + 1)^2
        lemma_square_le(ca * len, va);
        lemma_square_le(cb * len, vb);
        lemma_product_square(ca, len);
        lemma_product_square(cb, len);
        assert(n * (s * s) < (len + 1) * (len + 1) * (s * s)) by (nonlinear_arith)
            requires
                n < (len + 1) * (len + 1),
                s > 0,
        ;
        assert((len + 1) * s <= (s + 1) * len) by (nonlinear_arith)
            requires
                s <= len,
        ;
        lemma_square_le((len + 1) * s, (s + 1) * len);
        lemma_product_square(len + 1, s);
        lemma_product_square(s + 1, len);
        assert((ca * ca + cb * cb) * (len * len) < ((s + 1) * (s + 1)) * (len * len)) by (
        nonlinear_arith)
            requires
                (ca * ca) * (len * len) + (cb * cb) * (len * len) <= n * (s * s),
                n * (s * s) < (len + 1) * (len + 1) * (s * s),
                ((len + 1) * (len + 1)) * (s * s) <= ((s + 1) * (s + 1)) * (len * len),
        ;
        lemma_cancel_lt(ca * ca + cb * cb, (s + 1) * (s + 1), len * len);
        // squared length of the components grown by one above s^2
        if a > 0 {
            lemma_square_lt(va, (ca + 1) * len);
        } else {
            lemma_square_le(va, (ca + 1) * len);
        }
        if b > 0 {
            lemma_square_lt(vb, (cb + 1) * len);
        } else {
            lemma_square_le(vb, (cb + 1) * len);
        }
        lemma_product_square(ca + 1, len);
        lemma_product_square(cb + 1, len);
        assert((s * s) * (len * len) <= n * (s * s)) by (nonlinear_arith)
            requires
                len * len <= n,
                s > 0,
        ;
        assert((s * s) * (len * len) < ((ca + 1) * (ca + 1) + (cb + 1) * (cb + 1)) * (len
            * len)) by (nonlinear_arith)
            requires
                (s * s) * (len * len) <= va * va + vb * vb,
                va * va + vb * vb < (ca + 1) * (ca + 1) * (len * len) + (cb + 1) * (cb + 1) * (
                len * len),
        ;
        lemma_cancel_lt(s * s, (ca + 1) * (ca + 1) + (cb + 1) * (cb + 1), len * len);
    }
}


/// Squared Euclidean distance between two points.
pub open spec fn distance_squared(p: Position, q: Position) -> int {
    (p.x - q.x) * (p.x - q.x) + (p.y - q.y) * (p.y - q.y)
}

/// Two circles overlap when the distance between their centres is strictly
/// below the sum of their radii (compared squared, so no root is taken).
pub open spec fn circles_overlap(p: Position, r1: int, q: Position, r2: int) -> bool {
    distance_squared(p, q) < (r1 + r2) * (r1 + r2)
}

/// Circle-overlap test between a circle of radius `r1` at `p` and one of
/// radius `r2` at `q`.
pub fn overlaps(p: Position, r1: i64, q: Position, r2: i64) -> (b: bool)
    requires
        position_ok(p),
        position_ok(q),
        0 <= r1 <= COORD_LIMIT,
        0 <= r2 <= COORD_LIMIT,
    ensures
        b == circles_overlap(p, r1 as int, q, r2 as int),
{
    let dx: i128 = p.x as i128 - q.x as i128;
    let dy: i128 = p.y as i128 - q.y as i128;
    let ax: u128 = if dx < 0 {
        (-dx) as u128
    } else {
        dx as u128
    };
    let ay: u128 = if dy < 0 {
        (-dy) as u128
    } else {
        dy as u128
    };
    let rs: u128 = r1 as u128 + r2 as u128;
    proof {
        lemma_square_le(ax as int, 0x8000_0000_0000_0000);
        lemma_square_le(ay as int, 0x8000_0000_0000_0000);
        lemma_square_le(rs as int, 0x8000_0000_0000_0000);
        assert(ax * ax == dx * dx) by (nonlinear_arith)
            requires
                ax == abs(dx as int),
        ;
        assert(ay * ay == dy * dy) by (nonlinear_arith)
            requires
                ay == abs(dy as int),
        ;
    }
    ax * ax + ay * ay < rs * rs
}

/// For circles with centres `d` apart, overlap holds exactly when `d` is below
/// the sum of the radii; touching circles (`d == r1 + r2`) do not overlap.
pub proof fn lemma_overlap_iff_closer_than_radii(p: Position, r1: int, q: Position, r2: int, d: int)
    requires
        0 <= r1,
        0 <= r2,
        0 <= d,
        d * d == distance_squared(p, q),
    ensures
        circles_overlap(p, r1, q, r2) <==> d < r1 + r2,
        d == r1 + r2 ==> !circles_overlap(p, r1, q, r2),
{
    if d < r1 + r2 {
        lemma_square_lt(d, r1 + r2);
    } else {
        lemma_square_le(r1 + r2, d);
    }
}

/// The distance, in position units, covered along one axis at direction
/// component `dir` and `speed` pixels per second in `dt` microseconds,
/// rounded toward zero.
pub open spec fn displacement(dir: int, speed: int, dt: int) -> int {
    if dir >= 0 {
        dir * speed * dt / (DISPLACEMENT_DIVISOR as int)
    } else {
        -((-dir) * speed * dt / (DISPLACEMENT_DIVISOR as int))
    }
}

/// `c` moved by the displacement for `dir`, `speed` and `dt`.
pub open spec fn advanced(c: int, dir: int, speed: int, dt: int) -> int {
    c + displacement(dir, speed, dt)
}

/// `p` moved along `d` at `speed` pixels per second for `dt` microseconds.
pub open spec fn moved(p: Position, d: Direction, speed: int, dt: int) -> Position {
    Position {
        x: advanced(p.x as int, d.x as int, speed, dt) as i64,
        y: advanced(p.y as int, d.y as int, speed, dt) as i64,
    }
}

fn axis_displacement(dir: i64, speed: u16, dt_micros: u32) -> (r: i64)
    requires
        -DIRECTION_SCALE <= dir <= DIRECTION_SCALE,
    ensures
        r == displacement(dir as int, speed as int, dt_micros as int),
        -0x400_0000_0000_0000 <= r <= 0x400_0000_0000_0000,
        dir == 0 ==> r == 0,
{
    if dir == 0 {
        assert(0 * speed * dt_micros == 0) by (nonlinear_arith);
    }
    let mag: u128 = if dir < 0 {
        (-dir) as u128
    } else {
        dir as u128
    };
    assert(mag * speed <= 1_000_000 * 65535) by (nonlinear_arith)
        requires
            mag <= 1_000_000,
            speed <= 65535,
    ;
    assert(mag * speed * dt_micros <= 1_000_000 * 65535 * 0xffff_ffff) by (nonlinear_arith)
        requires
            mag * speed <= 1_000_000 * 65535,
            dt_micros <= 0xffff_ffff,
    ;
    let q: u128 = mag * (speed as u128) * (dt_micros as u128) / 1000;
    if dir < 0 {
        -(q as i64)
    } else {
        q as i64
    }
}

/// Moves `p` along `d` at `speed` pixels per second for `dt_micros`
/// microseconds. No bounds are applied here.
pub fn advance(p: Position, d: Direction, speed: u16, dt_micros: u32) -> (r: Position)
    requires
        position_ok(p),
        direction_ok(d),
    ensures
        r.x == advanced(p.x as int, d.x as int, speed as int, dt_micros as int),
        r.y == advanced(p.y as int, d.y as int, speed as int, dt_micros as int),
        r == moved(p, d, speed as int, dt_micros as int),
        d.x == 0 && d.y == 0 ==> r == p,
{
    let dx = axis_displacement(d.x, speed, dt_micros);
    let dy = axis_displacement(d.y, speed, dt_micros);
    Position { x: p.x + dx, y: p.y + dy }
}

/// The arena's size in whole pixels, as reported by the presentation surface.
#[derive(Clone, Copy, Debug, PartialEq, Eq, Structural)]
pub struct Arena {
    pub width: u32,
    pub height: u32,
}

/// The window, in position units, that keeps a body of a given half size
/// inside the arena.
#[derive(Clone, Copy, Debug, PartialEq, Eq, Structural)]
pub struct Bounds {
    pub x_min: i64,
    pub x_max: i64,
    pub y_min: i64,
    pub y_max: i64,
}

pub open spec fn bounds_of(arena: Arena, half_px: int) -> Bounds {
    Bounds {
        x_min: (half_px * UNITS_PER_PIXEL) as i64,
        x_max: (arena.width * UNITS_PER_PIXEL - half_px * UNITS_PER_PIXEL) as i64,
        y_min: (half_px * UNITS_PER_PIXEL) as i64,
        y_max: (arena.height * UNITS_PER_PIXEL - half_px * UNITS_PER_PIXEL) as i64,
    }
}

pub open spec fn bounds_ok(b: Bounds) -> bool {
    coord_ok(b.x_min as int) && coord_ok(b.x_max as int) && coord_ok(b.y_min as int) && coord_ok(
        b.y_max as int,
    )
}

/// `[half, width - half] x [half, height - half]`, in position units.
pub fn arena_bounds(arena: Arena, half_px: u16) -> (b: Bounds)
    ensures
        b == bounds_of(arena, half_px as int),
        b.x_min == half_px * UNITS_PER_PIXEL,
        b.x_max == arena.width * UNITS_PER_PIXEL - half_px * UNITS_PER_PIXEL,
        b.y_min == half_px * UNITS_PER_PIXEL,
        b.y_max == arena.height * UNITS_PER_PIXEL - half_px * UNITS_PER_PIXEL,
        bounds_ok(b),
{
    let half = half_px as i64 * UNITS_PER_PIXEL;
    Bounds {
        x_min: half,
        x_max: arena.width as i64 * UNITS_PER_PIXEL - half,
        y_min: half,
        y_max: arena.height as i64 * UNITS_PER_PIXEL - half,
    }
}

pub open spec fn clamped(p: Position, b: Bounds) -> Position {
    Position {
        x: clamp_spec(p.x as int, b.x_min as int, b.x_max as int) as i64,
        y: clamp_spec(p.y as int, b.y_min as int, b.y_max as int) as i64,
    }
}

/// Clamps both coordinates of `p` into the bounds window.
pub fn clamp_position(p: Position, b: Bounds) -> (r: Position)
    ensures
        r == clamped(p, b),
        bounds_ok(b) ==> position_ok(r),
{
    Position { x: clamp_coord(p.x, b.x_min, b.x_max), y: clamp_coord(p.y, b.y_min, b.y_max) }
}

pub open spec fn outside_x(p: Position, b: Bounds) -> bool {
    p.x < b.x_min || p.x > b.x_max
}

pub open spec fn outside_y(p: Position, b: Bounds) -> bool {
    p.y < b.y_min || p.y > b.y_max
}

/// Negates each component of `d` whose axis has `p` outside the window.
pub open spec fn reflected(p: Position, d: Direction, b: Bounds) -> Direction {
    Direction {
        x: if outside_x(p, b) {
            (-d.x) as i64
        } else {
            d.x
        },
        y: if outside_y(p, b) {
            (-d.y) as i64
        } else {
            d.y
        },
    }
}

/// Reflects `d` on each axis where `p` left the window; the flag tells
/// whether any axis was reflected.
pub fn reflect(p: Position, d: Direction, b: Bounds) -> (r: (Direction, bool))
    requires
        direction_ok(d),
    ensures
        r.0 == reflected(p, d, b),
        r.1 == (outside_x(p, b) || outside_y(p, b)),
        direction_ok(r.0),
        is_unit(d) ==> is_unit(r.0),
{
    let mut out = d;
    let mut changed = false;
    if p.x < b.x_min || p.x > b.x_max {
        out.x = -d.x;
        changed = true;
    }
    if p.y < b.y_min || p.y > b.y_max {
        out.y = -d.y;
        changed = true;
    }
    assert((-d.x) * (-d.x) == d.x * d.x && (-d.y) * (-d.y) == d.y * d.y) by (nonlinear_arith);
    (out, changed)
}


/// Reflection keeps a direction of unit length.
pub proof fn lemma_reflected_unit(p: Position, d: Direction, b: Bounds)
    requires
        direction_ok(d),
        is_unit(d),
    ensures
        direction_ok(reflected(p, d, b)),
        is_unit(reflected(p, d, b)),
{
    assert((-d.x) * (-d.x) == d.x * d.x && (-d.y) * (-d.y) == d.y * d.y) by (nonlinear_arith);
}

/// The components of a unit direction do not exceed one in magnitude.
pub proof fn lemma_unit_is_bounded(d: Direction)
    requires
        is_unit(d),
    ensures
        direction_ok(d),
{
    let x = d.x as int;
    let y = d.y as int;
    assert(-1_000_000 <= x <= 1_000_000 && -1_000_000 <= y <= 1_000_000) by (nonlinear_arith)
        requires
            x * x + y * y < 1_000_001 * 1_000_001,
    ;
}

} // verus!
