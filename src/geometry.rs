//! Fixed-point points and vectors, and an exact integer square root.

use vstd::prelude::*;

verus! {

/// Fixed-point units per point of length; also the value of the fraction 1.0.
pub const SCALE: i64 = 10_000;

/// Largest magnitude of a canvas coordinate, in units.
pub const COORD_LIMIT: i64 = 1_073_741_824;

/// A position on the canvas, in fixed-point units.
#[derive(Clone, Copy, Debug, PartialEq, Eq, Structural)]
pub struct Pos {
    pub x: i64,
    pub y: i64,
}

/// A displacement or direction, in fixed-point units.
#[derive(Clone, Copy, Debug, PartialEq, Eq, Structural)]
pub struct Vec2 {
    pub x: i64,
    pub y: i64,
}

pub open spec fn abs(a: int) -> int {
    if a < 0 { -a } else { a }
}

pub open spec fn coord_ok(c: int) -> bool {
    -COORD_LIMIT <= c <= COORD_LIMIT
}

impl Pos {
    /// Both coordinates lie within the canvas limit.
    pub open spec fn valid(self) -> bool {
        coord_ok(self.x as int) && coord_ok(self.y as int)
    }

    pub fn new(x: i64, y: i64) -> (r: Pos)
        ensures
            r.x == x && r.y == y,
    {
        Pos { x, y }
    }
}

impl Vec2 {
    pub fn new(x: i64, y: i64) -> (r: Vec2)
        ensures
            r.x == x && r.y == y,
    {
        Vec2 { x, y }
    }
}

/// An axis-aligned rectangle.
#[derive(Clone, Copy, Debug, PartialEq, Eq, Structural)]
pub struct Rect {
    pub min: Pos,
    pub max: Pos,
}

/// Squared Euclidean distance between two positions.
pub open spec fn dist_sq(a: Pos, b: Pos) -> int {
    (b.x - a.x) * (b.x - a.x) + (b.y - a.y) * (b.y - a.y)
}

/// The largest `r` with `r * r <= n`.
pub open spec fn floor_sqrt(n: nat) -> nat
    decreases n,
{
    if n == 0 {
        0
    } else {
        let r = floor_sqrt((n - 1) as nat);
        if (r + 1) * (r + 1) <= n {
            r + 1
        } else {
            r
        }
    }
}

/// Euclidean distance between two positions, rounded down to a whole unit.
pub open spec fn distance_spec(a: Pos, b: Pos) -> int {
    floor_sqrt(dist_sq(a, b) as nat) as int
}

pub proof fn lemma_floor_sqrt(n: nat)
    ensures
        floor_sqrt(n) * floor_sqrt(n) <= n,
        n < (floor_sqrt(n) + 1) * (floor_sqrt(n) + 1),
    decreases n,
{
    if n == 0 {
        assert(floor_sqrt(n) == 0);
        let f = floor_sqrt(n);
        assert((f + 1) * (f + 1) == 1) by (nonlinear_arith)
            requires f == 0;
    } else {
        lemma_floor_sqrt((n - 1) as nat);
        let r = floor_sqrt((n - 1) as nat);
        assert((r + 1) * (r + 1) < (r + 2) * (r + 2)) by (nonlinear_arith);
        if (r + 1) * (r + 1) <= n {
            assert(floor_sqrt(n) == r + 1);
            assert(n < (r + 2) * (r + 2));
            assert(n < (floor_sqrt(n) + 1) * (floor_sqrt(n) + 1));
        } else {
            assert(floor_sqrt(n) == r);
            assert(n < (floor_sqrt(n) + 1) * (floor_sqrt(n) + 1));
        }
    }
}

/// Only one natural number is the floor square root of `n`.
pub proof fn lemma_floor_sqrt_unique(n: nat, r: nat)
    requires
        r * r <= n,
        n < (r + 1) * (r + 1),
    ensures
        r == floor_sqrt(n),
{
    lemma_floor_sqrt(n);
    let f = floor_sqrt(n);
    if r < f {
        assert((r + 1) * (r + 1) <= f * f) by (nonlinear_arith)
            requires r + 1 <= f;
    } else if f < r {
        assert((f + 1) * (f + 1) <= r * r) by (nonlinear_arith)
            requires f + 1 <= r;
    }
}

/// Integer square root, rounded down.
pub fn isqrt(n: u128) -> (r: u64)
    requires
        n < 0x4000_0000_0000_0000_0000_0000_0000_0000,
    ensures
        r == floor_sqrt(n as nat),
{
    let mut lo: u128 = 0;
    let mut hi: u128 = 0x8000_0000_0000_0000;
    assert(hi * hi == 0x4000_0000_0000_0000_0000_0000_0000_0000) by (nonlinear_arith)
        requires hi == 0x8000_0000_0000_0000u128;
    while hi - lo > 1
        invariant
            lo < hi <= 0x8000_0000_0000_0000,
            lo * lo <= n,
            n < hi * hi,
        decreases hi - lo,
    {
        let mid: u128 = lo + (hi - lo) / 2;
        assert(mid * mid <= 0x4000_0000_0000_0000_0000_0000_0000_0000) by (nonlinear_arith)
            requires mid <= 0x8000_0000_0000_0000u128;
        if mid * mid <= n {
            lo = mid;
        } else {
            hi = mid;
        }
    }
    proof {
        lemma_floor_sqrt_unique(n as nat, lo as nat);
    }
    lo as u64
}

/// Distance between two valid positions, rounded down to a whole unit.
pub fn distance(a: Pos, b: Pos) -> (r: i64)
    requires
        a.valid(),
        b.valid(),
    ensures
        r == distance_spec(a, b),
        0 <= r <= 0x1_0000_0000,
{
    let dx: i128 = b.x as i128 - a.x as i128;
    let dy: i128 = b.y as i128 - a.y as i128;
    assert(0 <= dx * dx <= 0x4000_0000_0000_0000 && 0 <= dy * dy <= 0x4000_0000_0000_0000)
        by (nonlinear_arith)
        requires
            -0x8000_0000 <= dx <= 0x8000_0000,
            -0x8000_0000 <= dy <= 0x8000_0000,
    ;
    let n: i128 = dx * dx + dy * dy;
    let r = isqrt(n as u128);
    proof {
        lemma_floor_sqrt(n as nat);
        let f = floor_sqrt(n as nat);
        assert(f <= 0x1_0000_0000) by (nonlinear_arith)
            requires
                f * f <= n,
                n <= 0x8000_0000_0000_0000,
        ;
    }
    r as i64
}

/// Integer division rounded toward zero, as machine division rounds.
pub open spec fn div_trunc(v: int, d: int) -> int {
    if v >= 0 {
        v / d
    } else {
        -((-v) / d)
    }
}

/// The coordinate the fraction `num / den` of the way from `a` to `b`, rounded toward `a`.
pub open spec fn lerp_coord(a: int, b: int, num: int, den: int) -> int {
    a + div_trunc((b - a) * num, den)
}

/// The position the fraction `num / den` of the way from `a` to `b`.
pub open spec fn lerp_spec(a: Pos, b: Pos, num: int, den: int) -> (int, int) {
    (lerp_coord(a.x as int, b.x as int, num, den), lerp_coord(a.y as int, b.y as int, num, den))
}

/// A rounded interpolation stays between its two end coordinates.
pub proof fn lemma_lerp_coord_between(a: int, b: int, num: int, den: int)
    requires
        0 <= num <= den,
        0 < den,
    ensures
        a <= b ==> a <= lerp_coord(a, b, num, den) <= b,
        b <= a ==> b <= lerp_coord(a, b, num, den) <= a,
{
    let m = abs(b - a);
    let q = (m * num) / den;
    assert(0 <= m * num <= m * den) by (nonlinear_arith)
        requires 0 <= m, 0 <= num <= den;
    assert(0 <= q <= m) by (nonlinear_arith)
        requires 0 <= m * num <= m * den, q == (m * num) / den, 0 < den, 0 <= m;
    if b - a >= 0 {
        assert(lerp_coord(a, b, num, den) == a + q);
    } else {
        assert((b - a) * num == -(m * num)) by (nonlinear_arith)
            requires m == a - b;
        if (b - a) * num >= 0 {
            assert(m * num == 0);
            assert(lerp_coord(a, b, num, den) == a);
        } else {
            assert(lerp_coord(a, b, num, den) == a - q);
        }
    }
}

fn lerp_axis(a: i64, b: i64, num: i64, den: i64) -> (r: i64)
    requires
        coord_ok(a as int),
        coord_ok(b as int),
        0 <= num <= den,
        0 < den,
    ensures
        r == lerp_coord(a as int, b as int, num as int, den as int),
        coord_ok(r as int),
{
    proof {
        lemma_lerp_coord_between(a as int, b as int, num as int, den as int);
    }
    let d: i64 = b - a;
    let m: u128 = if d >= 0 { d as u128 } else { (-d) as u128 };
    assert(m * num <= 0x1_0000_0000 * 0x7fff_ffff_ffff_ffff) by (nonlinear_arith)
        requires m <= 0x1_0000_0000, 0 <= num <= 0x7fff_ffff_ffff_ffff;
    let q: u128 = m * (num as u128) / (den as u128);
    proof {
        assert(0 <= m * num <= m * den) by (nonlinear_arith)
            requires 0 <= m, 0 <= num <= den;
        assert(q <= m) by (nonlinear_arith)
            requires m * num <= m * den, q == (m * num) / (den as int), 0 < den, 0 <= m;
        if d < 0 {
            assert((d as int) * num == -(m * num)) by (nonlinear_arith)
                requires m == -d;
        } else {
            assert((d as int) * num == m * num);
        }
    }
    if d >= 0 {
        a + q as i64
    } else {
        a - q as i64
    }
}

/// The point the fraction `num / den` of the way from `a` to `b`, each
/// coordinate rounded toward `a`.
pub fn lerp(a: Pos, b: Pos, num: i64, den: i64) -> (r: Pos)
    requires
        a.valid(),
        b.valid(),
        0 <= num <= den,
        0 < den,
    ensures
        (r.x as int, r.y as int) == lerp_spec(a, b, num as int, den as int),
        r.valid(),
{
    Pos { x: lerp_axis(a.x, b.x, num, den), y: lerp_axis(a.y, b.y, num, den) }
}

/// A squared length at or below this many square units (0.001 point) has no
/// usable direction.
pub const DEGENERATE_SQ: i64 = 100;

/// The unit direction from `a` to `b`, scaled to `SCALE` and rounded toward
/// zero; the horizontal `(SCALE, 0)` where the two points (nearly) coincide.
pub open spec fn unit_dir(a: Pos, b: Pos) -> (int, int) {
    let n = dist_sq(a, b);
    if n <= DEGENERATE_SQ {
        (SCALE as int, 0)
    } else {
        let len = floor_sqrt((n * SCALE * SCALE) as nat) as int;
        (div_trunc((b.x - a.x) * SCALE * SCALE, len), div_trunc((b.y - a.y) * SCALE * SCALE, len))
    }
}

/// `v / d` rounded toward zero, for a divisor at least `|v| / SCALE`.
fn div_trunc_scaled(v: i128, d: u128) -> (r: i64)
    requires
        0 < d,
        -0x1000_0000_0000_0000 <= v <= 0x1000_0000_0000_0000,
        abs(v as int) <= d * SCALE,
    ensures
        r == div_trunc(v as int, d as int),
        abs(r as int) <= SCALE,
{
    let m: u128 = if v >= 0 { v as u128 } else { (-v) as u128 };
    let q: u128 = m / d;
    assert(q <= SCALE) by (nonlinear_arith)
        requires q == (m as int) / (d as int), m <= d * SCALE, 0 < d;
    if v >= 0 {
        q as i64
    } else {
        -(q as i64)
    }
}

/// The direction from `a` to `b` as a vector of length `SCALE` (up to rounding).
pub fn direction(a: Pos, b: Pos) -> (r: Vec2)
    requires
        a.valid(),
        b.valid(),
    ensures
        (r.x as int, r.y as int) == unit_dir(a, b),
        -SCALE <= r.x <= SCALE,
        -SCALE <= r.y <= SCALE,
{
    let dx: i128 = b.x as i128 - a.x as i128;
    let dy: i128 = b.y as i128 - a.y as i128;
    assert(0 <= dx * dx <= 0x4000_0000_0000_0000 && 0 <= dy * dy <= 0x4000_0000_0000_0000)
        by (nonlinear_arith)
        requires
            -0x8000_0000 <= dx <= 0x8000_0000,
            -0x8000_0000 <= dy <= 0x8000_0000,
    ;
    let n: i128 = dx * dx + dy * dy;
    if n <= DEGENERATE_SQ as i128 {
        return Vec2 { x: SCALE, y: 0 };
    }
    let ss: i128 = 100_000_000;
    assert(n * ss <= 0x8000_0000_0000_0000 * 100_000_000) by (nonlinear_arith)
        requires 0 <= n <= 0x8000_0000_0000_0000, ss == 100_000_000;
    let len = isqrt((n * ss) as u128);
    proof {
        lemma_floor_sqrt((n * ss) as nat);
        let l = len as int;
        // l * l <= n * ss < (l + 1) * (l + 1), with dx * dx <= n and dy * dy <= n
        assert(abs(dx * ss) <= l * SCALE && abs(dy * ss) <= l * SCALE) by (nonlinear_arith)
            requires
                l * l <= n * ss,
                n * ss < (l + 1) * (l + 1),
                n == dx * dx + dy * dy,
                n > 100,
                ss == 100_000_000,
                SCALE == 10_000,
                0 <= l,
        {
            assert(dx * dx * ss < (l + 1) * (l + 1)) by (nonlinear_arith)
                requires n == dx * dx + dy * dy, n * ss < (l + 1) * (l + 1), ss > 0, dy * dy >= 0;
            assert(abs(dx as int) * 10_000 < l + 1) by (nonlinear_arith)
                requires dx * dx * 100_000_000 < (l + 1) * (l + 1), 0 <= l;
            assert(abs(dx * ss) <= l * SCALE) by (nonlinear_arith)
                requires abs(dx as int) * 10_000 <= l, ss == 100_000_000, SCALE == 10_000;
            assert(dy * dy * ss < (l + 1) * (l + 1)) by (nonlinear_arith)
                requires n == dx * dx + dy * dy, n * ss < (l + 1) * (l + 1), ss > 0, dx * dx >= 0;
            assert(abs(dy as int) * 10_000 < l + 1) by (nonlinear_arith)
                requires dy * dy * 100_000_000 < (l + 1) * (l + 1), 0 <= l;
            assert(abs(dy * ss) <= l * SCALE) by (nonlinear_arith)
                requires abs(dy as int) * 10_000 <= l, ss == 100_000_000, SCALE == 10_000;
        }
        assert(l > 0) by (nonlinear_arith)
            requires n * ss < (l + 1) * (l + 1), n > 100, ss == 100_000_000, 0 <= l;
        assert(dx * SCALE * SCALE == dx * ss && dy * SCALE * SCALE == dy * ss);
        assert(n * SCALE * SCALE == n * ss);
    }
    Vec2 { x: div_trunc_scaled(dx * ss, len as u128), y: div_trunc_scaled(dy * ss, len as u128) }
}

/// Unit-length law: away from the degenerate case, the scaled direction has
/// length `SCALE` up to rounding of its last unit: its squared length is below
/// `SCALE * (SCALE + 1)`, and adding one unit to each coordinate's magnitude
/// reaches past `SCALE`.
pub proof fn lemma_unit_dir_length(a: Pos, b: Pos)
    requires
        a.valid(),
        b.valid(),
        dist_sq(a, b) > DEGENERATE_SQ,
    ensures
        ({
            let (ux, uy) = unit_dir(a, b);
            &&& ux * ux + uy * uy < SCALE * SCALE + SCALE
            &&& (abs(ux) + 1) * (abs(ux) + 1) + (abs(uy) + 1) * (abs(uy) + 1) > SCALE * SCALE
        }),
{
    let dx = b.x - a.x;
    let dy = b.y - a.y;
    let n = dist_sq(a, b);
    let ss: int = 100_000_000;
    assert(n * ss >= 0) by (nonlinear_arith)
        requires n > 100, ss > 0;
    lemma_floor_sqrt((n * ss) as nat);
    let l = floor_sqrt((n * ss) as nat) as int;
    assert(n * SCALE * SCALE == n * ss);
    assert(dx * SCALE * SCALE == dx * ss && dy * SCALE * SCALE == dy * ss);
    let (ux, uy) = unit_dir(a, b);
    assert(ux == div_trunc(dx * ss, l) && uy == div_trunc(dy * ss, l));
    // the rounded length is at least ten points' worth of scale
    assert(l >= 10 * SCALE) by (nonlinear_arith)
        requires n * ss < (l + 1) * (l + 1), n >= 101, ss == 100_000_000, SCALE == 10_000, l >= 0;
    // each coordinate: |u| * l <= |d| * ss < (|u| + 1) * l
    lemma_div_trunc_bounds(dx * ss, l);
    lemma_div_trunc_bounds(dy * ss, l);
    assert(abs(dx * ss) == abs(dx) * ss && abs(dy * ss) == abs(dy) * ss) by (nonlinear_arith)
        requires ss > 0;
    let px = abs(ux);
    let py = abs(uy);
    let ax = abs(dx);
    let ay = abs(dy);
    lemma_square_le(px * l, ax * ss);
    lemma_square_le(py * l, ay * ss);
    assert(px * l * (px * l) == px * px * (l * l)) by (nonlinear_arith);
    assert(py * l * (py * l) == py * py * (l * l)) by (nonlinear_arith);
    assert(ax * ss * (ax * ss) == ax * ax * (ss * ss)) by (nonlinear_arith);
    assert(ay * ss * (ay * ss) == ay * ay * (ss * ss)) by (nonlinear_arith);
    assert(ax * ax + ay * ay == n) by (nonlinear_arith)
        requires n == dx * dx + dy * dy, ax == abs(dx), ay == abs(dy);
    assert(ux * ux + uy * uy == px * px + py * py) by (nonlinear_arith)
        requires px == abs(ux), py == abs(uy);
    // upper bound
    let x = px * px + py * py;
    let ll = l * l;
    let s2 = ss * ss;
    assert(x * ll <= n * s2) by (nonlinear_arith)
        requires
            px * px * ll <= ax * ax * s2,
            py * py * ll <= ay * ay * s2,
            ax * ax + ay * ay == n,
            x == px * px + py * py;
    let m = (l + 1) * (l + 1);
    assert(n * s2 < m * ss) by (nonlinear_arith)
        requires n * ss < m, ss > 0, s2 == ss * ss;
    assert(x < SCALE * SCALE + SCALE) by {
        if x >= SCALE * SCALE + SCALE {
            assert(x * ll >= (SCALE * SCALE + SCALE) * ll) by (nonlinear_arith)
                requires x >= SCALE * SCALE + SCALE, ll >= 0;
            assert((SCALE * SCALE + SCALE) * ll >= m * ss) by (nonlinear_arith)
                requires l >= 10 * SCALE, ss == SCALE * SCALE, SCALE == 10_000, ll == l * l, m == (l + 1) * (l + 1);
        }
    }
    // lower bound
    lemma_square_lt(ax * ss, (px + 1) * l);
    lemma_square_lt(ay * ss, (py + 1) * l);
    let y = (px + 1) * (px + 1) + (py + 1) * (py + 1);
    assert((px + 1) * l * ((px + 1) * l) == (px + 1) * (px + 1) * ll) by (nonlinear_arith)
        requires ll == l * l;
    assert((py + 1) * l * ((py + 1) * l) == (py + 1) * (py + 1) * ll) by (nonlinear_arith)
        requires ll == l * l;
    assert(y * ll > n * s2) by (nonlinear_arith)
        requires
            (px + 1) * (px + 1) * ll > ax * ax * s2,
            (py + 1) * (py + 1) * ll > ay * ay * s2,
            ax * ax + ay * ay == n,
            y == (px + 1) * (px + 1) + (py + 1) * (py + 1);
    assert(n * s2 >= ll * ss) by (nonlinear_arith)
        requires ll <= n * ss, ss > 0, s2 == ss * ss;
    assert(ll > 0) by (nonlinear_arith)
        requires ll == l * l, l > 0;
    assert(y > ss) by (nonlinear_arith)
        requires y * ll > ll * ss, ll > 0;
}

proof fn lemma_square_le(a: int, b: int)
    requires
        0 <= a <= b,
    ensures
        a * a <= b * b,
{
    assert(a * a <= b * b) by (nonlinear_arith)
        requires 0 <= a <= b;
}

proof fn lemma_square_lt(a: int, b: int)
    requires
        0 <= a < b,
    ensures
        a * a < b * b,
{
    assert(a * a < b * b) by (nonlinear_arith)
        requires 0 <= a < b;
}

/// Bounds of a quotient rounded toward zero: `|q| * d <= |v| < (|q| + 1) * d`.
proof fn lemma_div_trunc_bounds(v: int, d: int)
    requires
        0 < d,
    ensures
        abs(div_trunc(v, d)) * d <= abs(v) < (abs(div_trunc(v, d)) + 1) * d,
        0 <= abs(div_trunc(v, d)),
{
    let m = abs(v);
    vstd::arithmetic::div_mod::lemma_fundamental_div_mod(m, d);
    vstd::arithmetic::div_mod::lemma_mod_pos_bound(m, d);
    vstd::arithmetic::div_mod::lemma_div_pos_is_pos(m, d);
    assert(abs(div_trunc(v, d)) == m / d);
    assert((m / d) * d <= m < (m / d + 1) * d) by (nonlinear_arith)
        requires m == d * (m / d) + m % d, 0 <= m % d < d;
}

/// The scaled direction stays within `SCALE` in each coordinate.
pub proof fn lemma_unit_dir_range(a: Pos, b: Pos)
    requires
        a.valid(),
        b.valid(),
    ensures
        -SCALE <= unit_dir(a, b).0 <= SCALE,
        -SCALE <= unit_dir(a, b).1 <= SCALE,
{
    let n = dist_sq(a, b);
    if n > DEGENERATE_SQ {
        let ss: int = 100_000_000;
        let dx = b.x - a.x;
        let dy = b.y - a.y;
        assert(n * ss >= 0) by (nonlinear_arith)
            requires n > 100, ss > 0;
        lemma_floor_sqrt((n * ss) as nat);
        let l = floor_sqrt((n * ss) as nat) as int;
        assert(n * SCALE * SCALE == n * ss);
        assert(dx * SCALE * SCALE == dx * ss && dy * SCALE * SCALE == dy * ss);
        assert(l > 0) by (nonlinear_arith)
            requires n * ss < (l + 1) * (l + 1), n > 100, ss == 100_000_000, 0 <= l;
        assert(dx * dx <= n && dy * dy <= n) by (nonlinear_arith)
            requires n == dx * dx + dy * dy;
        lemma_div_trunc_bounds(dx * ss, l);
        lemma_div_trunc_bounds(dy * ss, l);
        assert(abs(dx * ss) == abs(dx) * ss && abs(dy * ss) == abs(dy) * ss) by (nonlinear_arith)
            requires ss > 0;
        let px = abs(div_trunc(dx * ss, l));
        let py = abs(div_trunc(dy * ss, l));
        let ax = abs(dx);
        let ay = abs(dy);
        assert(ax * ax <= n && ay * ay <= n) by (nonlinear_arith)
            requires dx * dx <= n, dy * dy <= n, ax == abs(dx), ay == abs(dy);
        lemma_square_le(px * l, ax * ss);
        lemma_square_le(py * l, ay * ss);
        assert(px <= SCALE) by (nonlinear_arith)
            requires
                px * l * (px * l) <= ax * ss * (ax * ss),
                ax * ax <= n,
                n * ss < (l + 1) * (l + 1),
                l * l <= n * ss,
                ss == SCALE * SCALE,
                SCALE == 10_000,
                l > 0,
                px >= 0,
        {
            if px > SCALE {
                assert(px * l * (px * l) >= (SCALE + 1) * (SCALE + 1) * (l * l)) by (nonlinear_arith)
                    requires px >= SCALE + 1, l > 0;
                assert(ax * ss * (ax * ss) <= n * ss * ss) by (nonlinear_arith)
                    requires ax * ax <= n, ss > 0;
            }
        }
        assert(py <= SCALE) by (nonlinear_arith)
            requires
                py * l * (py * l) <= ay * ss * (ay * ss),
                ay * ay <= n,
                n * ss < (l + 1) * (l + 1),
                l * l <= n * ss,
                ss == SCALE * SCALE,
                SCALE == 10_000,
                l > 0,
                py >= 0,
        {
            if py > SCALE {
                assert(py * l * (py * l) >= (SCALE + 1) * (SCALE + 1) * (l * l)) by (nonlinear_arith)
                    requires py >= SCALE + 1, l > 0;
                assert(ay * ss * (ay * ss) <= n * ss * ss) by (nonlinear_arith)
                    requires ay * ay <= n, ss > 0;
            }
        }
    }
}

} // verus!
