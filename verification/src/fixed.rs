//! Fixed-point scalars and 2D vectors.
//!
//! One world unit is `FP` counts, so a coordinate of `1.5` world units is the
//! integer `3 * FP / 2`. All simulation arithmetic is exact integer
//! arithmetic over this representation; division truncates toward zero.

use vstd::prelude::*;

verus! {

/// Fixed-point counts per world unit.
pub const FP: i64 = 1_000_000;

/// Shortest vector length (in counts) that still has a usable direction;
/// anything shorter is treated as degenerate before a normalization.
pub const MIN_NORM: i64 = 1_000;

/// Largest magnitude a coordinate of any vector handled by the vector math
/// may take; keeps squared lengths inside `i64`.
pub const COORD_LIMIT: i64 = 2_000_000_000;

/// Truncating division (rounds toward zero), as a mathematical function.
/// Both operands of the underlying Euclidean division are kept non-negative,
/// so this matches hardware signed division for a positive divisor.
pub open spec fn tdiv_spec(a: int, b: int) -> int {
    if a >= 0 {
        a / b
    } else {
        -((-a) / b)
    }
}

/// Division truncating toward zero, for a positive divisor.
pub fn tdiv(a: i64, b: i64) -> (r: i64)
    requires
        b >= 1,
        a > i64::MIN,
    ensures
        r == tdiv_spec(a as int, b as int),
{
    if a >= 0 {
        let q: u64 = (a as u64) / (b as u64);
        q as i64
    } else {
        let n: i64 = -a;
        let q: u64 = (n as u64) / (b as u64);
        -(q as i64)
    }
}

/// The quotient scaled back by the divisor never exceeds the dividend in
/// magnitude, and misses it by less than one divisor.
pub proof fn lemma_tdiv_bounds(a: int, b: int)
    requires
        b >= 1,
    ensures
        abs_spec(tdiv_spec(a, b)) * b <= abs_spec(a),
        abs_spec(a) < (abs_spec(tdiv_spec(a, b)) + 1) * b,
        a >= 0 ==> tdiv_spec(a, b) >= 0,
        a <= 0 ==> tdiv_spec(a, b) <= 0,
{
    let m = abs_spec(a);
    let q = m / b;
    vstd::arithmetic::div_mod::lemma_fundamental_div_mod(m, b);
    vstd::arithmetic::div_mod::lemma_div_is_ordered(0, m, b);
    vstd::arithmetic::div_mod::lemma_div_of0(b);
    assert(q * b <= m && m < (q + 1) * b) by (nonlinear_arith)
        requires
            b >= 1,
            m == b * q + m % b,
            0 <= m % b < b,
    ;
    assert(abs_spec(tdiv_spec(a, b)) == q);
}

/// The magnitude of a truncating quotient never exceeds the dividend's.
pub proof fn lemma_tdiv_abs_le(a: int, b: int)
    requires
        b >= 1,
    ensures
        abs_spec(tdiv_spec(a, b)) <= abs_spec(a),
{
    lemma_tdiv_bounds(a, b);
    assert(abs_spec(tdiv_spec(a, b)) * 1 <= abs_spec(tdiv_spec(a, b)) * b) by (nonlinear_arith)
        requires
            b >= 1,
            abs_spec(tdiv_spec(a, b)) >= 0,
    ;
}

/// Absolute value, as a mathematical function.
pub open spec fn abs_spec(a: int) -> int {
    if a >= 0 {
        a
    } else {
        -a
    }
}

/// Clamping to a symmetric interval, as a mathematical function.
pub open spec fn clamp_spec(a: int, limit: int) -> int {
    if a > limit {
        limit
    } else if a < -limit {
        -limit
    } else {
        a
    }
}

/// Clamps `a` into `[-limit, limit]`.
pub fn clamp_abs(a: i64, limit: i64) -> (r: i64)
    requires
        0 <= limit,
    ensures
        r == clamp_spec(a as int, limit as int),
{
    if a > limit {
        limit
    } else if a < -limit {
        -limit
    } else {
        a
    }
}

/// Sum clamped into `[-COORD_LIMIT, COORD_LIMIT]`: the accumulator arithmetic
/// of the direction blender, exact until a sum leaves a range no simulation
/// in practice reaches.
pub open spec fn cadd_spec(a: int, b: int) -> int {
    clamp_spec(a + b, COORD_LIMIT as int)
}

/// Adds and clamps into `[-COORD_LIMIT, COORD_LIMIT]`.
pub fn cadd(a: i64, b: i64) -> (r: i64)
    requires
        -3_000_000_000_000 <= a <= 3_000_000_000_000,
        -3_000_000_000_000 <= b <= 3_000_000_000_000,
    ensures
        r == cadd_spec(a as int, b as int),
{
    clamp_abs(a + b, COORD_LIMIT)
}

/// Integer square root, as a mathematical function: the largest `r` with
/// `r * r <= n`.
pub open spec fn isqrt_spec(n: nat) -> nat
    decreases n,
{
    if n == 0 {
        0
    } else {
        let p = isqrt_spec((n - 1) as nat);
        if (p + 1) * (p + 1) <= n {
            p + 1
        } else {
            p
        }
    }
}

/// `r` is the integer square root of `n`: `n` lies between `r * r` and the
/// next square.
pub open spec fn sq_brackets(r: int, n: int) -> bool {
    r * r <= n < (r + 1) * (r + 1)
}

/// `isqrt_spec` is characterized by bracketing `n` between consecutive
/// squares.
pub proof fn lemma_isqrt_bracket(n: nat)
    ensures
        sq_brackets(isqrt_spec(n) as int, n as int),
    decreases n,
{
    if n == 0 {
        assert(isqrt_spec(0) == 0);
    } else {
        lemma_isqrt_bracket((n - 1) as nat);
        let p = isqrt_spec((n - 1) as nat);
        assert(p * p <= n - 1);
        assert((n - 1) < (p + 1) * (p + 1));
        if (p + 1) * (p + 1) <= n {
            assert(isqrt_spec(n) == p + 1);
            assert(n < (p + 2) * (p + 2)) by (nonlinear_arith)
                requires
                    n <= (p + 1) * (p + 1),
                    p >= 0,
            ;
        } else {
            assert(isqrt_spec(n) == p);
        }
    }
}

/// Any `r` bracketing `n` between `r * r` and `(r + 1) * (r + 1)` is the
/// integer square root.
pub proof fn lemma_isqrt_unique(n: nat, r: nat)
    requires
        r * r <= n,
        n < (r + 1) * (r + 1),
    ensures
        r == isqrt_spec(n),
{
    let s = isqrt_spec(n);
    lemma_isqrt_bracket(n);
    if r < s {
        assert((r + 1) * (r + 1) <= s * s) by (nonlinear_arith)
            requires
                r + 1 <= s,
        ;
    }
    if s < r {
        assert((s + 1) * (s + 1) <= r * r) by (nonlinear_arith)
            requires
                s + 1 <= r,
        ;
    }
}

/// Integer square root of a non-negative `i64` value, by bisection.
pub fn isqrt(n: i64) -> (r: i64)
    requires
        n >= 0,
    ensures
        r == isqrt_spec(n as nat),
        r * r <= n < (r + 1) * (r + 1),
        0 <= r <= 3_037_000_499,
{
    let mut lo: i64 = 0;
    let mut hi: i64 = 3_037_000_500;
    assert(3_037_000_500i64 * 3_037_000_500i64 > i64::MAX);
    while hi - lo > 1
        invariant
            0 <= lo < hi <= 3_037_000_500,
            lo * lo <= n,
            hi * hi > n,
            n <= i64::MAX,
        decreases hi - lo,
    {
        let mid: i64 = lo + tdiv(hi - lo, 2);
        assert(lo < mid < hi);
        assert(mid * mid < i64::MAX) by (nonlinear_arith)
            requires
                0 <= mid,
                mid < 3_037_000_500,
                3_037_000_500i64 * 3_037_000_500i64 > i64::MAX,
        ;
        if mid * mid <= n {
            lo = mid;
        } else {
            hi = mid;
        }
    }
    proof {
        lemma_isqrt_unique(n as nat, lo as nat);
    }
    lo
}

/// Allowed magnitude of ant, mark, food and home coordinates: 1000 world
/// units, comfortably beyond the map while keeping every squared distance
/// inside `i64`.
pub const POS_LIMIT: i64 = 1_000_000_000;

/// Slack allowed around `FP * FP` in the squared length of a normalized
/// vector (about one part in 250 of the squared length).
pub const UNIT_SLACK: i64 = 4_000_000_000;

/// A 2D vector in fixed-point counts.
#[derive(Clone, Copy, Debug, PartialEq, Eq, Structural)]
pub struct Vec2Fx {
    pub x: i64,
    pub y: i64,
}

/// Both coordinates lie within `limit` in magnitude.
pub open spec fn in_range(v: Vec2Fx, limit: int) -> bool {
    -limit <= v.x <= limit && -limit <= v.y <= limit
}

/// Squared length, as a mathematical function.
pub open spec fn len_sq_spec(v: Vec2Fx) -> int {
    v.x * v.x + v.y * v.y
}

/// The squared length of a vector is within `UNIT_SLACK` of one squared
/// world unit: the vector has magnitude 1 up to a small relative error.
pub open spec fn is_unit(v: Vec2Fx) -> bool {
    FP * FP - UNIT_SLACK <= len_sq_spec(v) <= FP * FP + UNIT_SLACK
}

impl Vec2Fx {
    /// Component negation.
    pub open spec fn neg_spec(self) -> Vec2Fx {
        Vec2Fx { x: (-self.x) as i64, y: (-self.y) as i64 }
    }

    /// Negates both components.
    pub fn neg(self) -> (r: Vec2Fx)
        requires
            self.x > i64::MIN,
            self.y > i64::MIN,
        ensures
            r == self.neg_spec(),
    {
        Vec2Fx { x: -self.x, y: -self.y }
    }

    /// Exact component-wise difference.
    pub open spec fn sub_spec(self, o: Vec2Fx) -> Vec2Fx {
        Vec2Fx { x: (self.x - o.x) as i64, y: (self.y - o.y) as i64 }
    }

    /// Component-wise difference of two coordinate-bounded vectors.
    pub fn sub(self, o: Vec2Fx) -> (r: Vec2Fx)
        requires
            in_range(self, POS_LIMIT as int),
            in_range(o, POS_LIMIT as int),
        ensures
            r == self.sub_spec(o),
            in_range(r, 2 * POS_LIMIT as int),
    {
        Vec2Fx { x: self.x - o.x, y: self.y - o.y }
    }

    /// Component-wise sum, clamped into `[-COORD_LIMIT, COORD_LIMIT]`.
    pub open spec fn cadd_vec_spec(self, o: Vec2Fx) -> Vec2Fx {
        Vec2Fx {
            x: cadd_spec(self.x as int, o.x as int) as i64,
            y: cadd_spec(self.y as int, o.y as int) as i64,
        }
    }

    /// Component-wise clamped sum.
    pub fn cadd_vec(self, o: Vec2Fx) -> (r: Vec2Fx)
        requires
            in_range(self, 3_000_000_000_000),
            in_range(o, 3_000_000_000_000),
        ensures
            r == self.cadd_vec_spec(o),
            in_range(r, COORD_LIMIT as int),
    {
        Vec2Fx { x: cadd(self.x, o.x), y: cadd(self.y, o.y) }
    }

    /// Each component scaled by `num / den`, truncating toward zero.
    pub open spec fn scale_spec(self, num: int, den: int) -> Vec2Fx {
        Vec2Fx {
            x: tdiv_spec(self.x * num, den) as i64,
            y: tdiv_spec(self.y * num, den) as i64,
        }
    }

    /// Scales both components by the fraction `num / den`.
    pub fn scale(self, num: i64, den: i64) -> (r: Vec2Fx)
        requires
            den >= 1,
            0 <= num,
            in_range(self, COORD_LIMIT as int),
            COORD_LIMIT * num <= i64::MAX,
        ensures
            r == self.scale_spec(num as int, den as int),
            in_range(r, (COORD_LIMIT * num / den as int) + 1),
    {
        proof {
            lemma_scale_component(self.x as int, num as int, den as int);
            lemma_scale_component(self.y as int, num as int, den as int);
        }
        Vec2Fx { x: tdiv(self.x * num, den), y: tdiv(self.y * num, den) }
    }
}

/// A scaled component keeps the magnitude bound scaled by the same fraction.
proof fn lemma_scale_component(a: int, num: int, den: int)
    requires
        den >= 1,
        0 <= num,
        -COORD_LIMIT <= a <= COORD_LIMIT,
        COORD_LIMIT * num <= i64::MAX,
    ensures
        -(COORD_LIMIT * num) <= a * num <= COORD_LIMIT * num,
        abs_spec(tdiv_spec(a * num, den)) <= COORD_LIMIT * num / den + 1,
{
    assert(-(COORD_LIMIT * num) <= a * num <= COORD_LIMIT * num) by (nonlinear_arith)
        requires
            -COORD_LIMIT <= a <= COORD_LIMIT,
            0 <= num,
    ;
    lemma_tdiv_bounds(a * num, den);
    let q = abs_spec(tdiv_spec(a * num, den));
    assert(abs_spec(a * num) <= COORD_LIMIT * num);
    assert(q * den <= COORD_LIMIT * num);
    vstd::arithmetic::div_mod::lemma_div_is_ordered(q * den, COORD_LIMIT * num, den);
    vstd::arithmetic::div_mod::lemma_div_multiples_vanish(q, den);
    assert(q * den == den * q) by (nonlinear_arith);
    assert(q <= COORD_LIMIT * num / den);
}

/// Squared length of a coordinate-bounded vector.
pub fn len_sq(v: Vec2Fx) -> (r: i64)
    requires
        in_range(v, COORD_LIMIT as int),
    ensures
        r == len_sq_spec(v),
        0 <= r <= 8_000_000_000_000_000_000,
{
    proof {
        assert(v.x * v.x <= COORD_LIMIT * COORD_LIMIT && v.y * v.y <= COORD_LIMIT
            * COORD_LIMIT && v.x * v.x >= 0 && v.y * v.y >= 0) by (nonlinear_arith)
            requires
                -COORD_LIMIT <= v.x <= COORD_LIMIT,
                -COORD_LIMIT <= v.y <= COORD_LIMIT,
        ;
    }
    v.x * v.x + v.y * v.y
}

/// The truncated scaling of each component by `FP / length`, as a
/// mathematical function: the unit vector pointing along `v`.
pub open spec fn normalize_spec(v: Vec2Fx) -> Vec2Fx {
    let l = isqrt_spec(len_sq_spec(v) as nat) as int;
    Vec2Fx { x: tdiv_spec(v.x * FP, l) as i64, y: tdiv_spec(v.y * FP, l) as i64 }
}

/// A component of a vector is bounded by the integer square root of the
/// squared length.
proof fn lemma_component_le_sqrt(x: int, s: int, l: int)
    requires
        x * x <= s,
        l >= 0,
        s < (l + 1) * (l + 1),
    ensures
        abs_spec(x) <= l,
{
    if abs_spec(x) > l {
        assert((l + 1) * (l + 1) <= x * x) by (nonlinear_arith)
            requires
                abs_spec(x) >= l + 1 >= 0,
        ;
    }
}

/// Bounds for one normalized component: scaled back by the length it sits
/// within one length-unit of the exact product.
proof fn lemma_norm_component(b: int, l: int, a: int)
    requires
        0 <= b,
        1 <= l,
        a == abs_spec(tdiv_spec(if b >= 0 { b } else { -b } * FP, l)) || a == abs_spec(
            tdiv_spec(-b * FP, l),
        ) || a == abs_spec(tdiv_spec(b * FP, l)),
        a * l <= b * FP,
        b * FP < (a + 1) * l,
    ensures
        a * a * l * l <= b * b * FP * FP,
        b * b * FP * FP - 2 * b * FP * l <= a * a * l * l,
{
    assert(a * a * l * l <= b * b * FP * FP && b * b * FP * FP - 2 * b * FP * l <= a * a * l
        * l) by (nonlinear_arith)
        requires
            0 <= b,
            1 <= l,
            0 <= a,
            a * l <= b * FP,
            b * FP < (a + 1) * l,
            FP == 1_000_000,
    ;
}

/// Normalizing a vector of length at least `MIN_NORM` yields a unit vector
/// with components within one world unit.
pub proof fn lemma_normalize_unit(v: Vec2Fx)
    requires
        in_range(v, COORD_LIMIT as int),
        len_sq_spec(v) >= MIN_NORM * MIN_NORM,
    ensures
        is_unit(normalize_spec(v)),
        in_range(normalize_spec(v), FP as int),
{
    let s = len_sq_spec(v);
    assert(s <= 8_000_000_000_000_000_000) by (nonlinear_arith)
        requires
            -COORD_LIMIT <= v.x <= COORD_LIMIT,
            -COORD_LIMIT <= v.y <= COORD_LIMIT,
            s == v.x * v.x + v.y * v.y,
    ;
    lemma_isqrt_bracket(s as nat);
    let l = isqrt_spec(s as nat) as int;
    assert(l * l <= s < (l + 1) * (l + 1));
    assert(l >= MIN_NORM) by (nonlinear_arith)
        requires
            s >= MIN_NORM * MIN_NORM,
            s < (l + 1) * (l + 1),
            l >= 0,
            MIN_NORM == 1_000,
    ;
    assert(v.x * v.x <= s && v.y * v.y <= s) by (nonlinear_arith)
        requires
            s == v.x * v.x + v.y * v.y,
    ;
    lemma_component_le_sqrt(v.x as int, s, l);
    lemma_component_le_sqrt(v.y as int, s, l);
    let bx = abs_spec(v.x as int);
    let by = abs_spec(v.y as int);
    lemma_tdiv_bounds(v.x * FP, l);
    lemma_tdiv_bounds(v.y * FP, l);
    let ax = abs_spec(tdiv_spec(v.x * FP, l));
    let ay = abs_spec(tdiv_spec(v.y * FP, l));
    assert(abs_spec(v.x * FP) == bx * FP && abs_spec(v.y * FP) == by * FP) by (nonlinear_arith)
        requires
            bx == abs_spec(v.x as int),
            by == abs_spec(v.y as int),
            FP == 1_000_000,
    ;
    lemma_norm_component(bx, l, ax);
    lemma_norm_component(by, l, ay);
    // unit upper bound
    let nsq = ax * ax + ay * ay;
    assert(nsq * (l * l) == ax * ax * l * l + ay * ay * l * l) by (nonlinear_arith)
        requires
            nsq == ax * ax + ay * ay,
    ;
    assert(bx * bx == v.x * v.x && by * by == v.y * v.y) by (nonlinear_arith)
        requires
            bx == abs_spec(v.x as int),
            by == abs_spec(v.y as int),
    ;
    assert(s * (FP * FP) == bx * bx * FP * FP + by * by * FP * FP) by (nonlinear_arith)
        requires
            s == v.x * v.x + v.y * v.y,
            bx * bx == v.x * v.x,
            by * by == v.y * v.y,
    ;
    assert(nsq * (l * l) <= s * (FP * FP));
    assert(nsq <= FP * FP + UNIT_SLACK) by (nonlinear_arith)
        requires
            nsq * (l * l) <= s * (FP * FP),
            s < (l + 1) * (l + 1),
            l >= 1000,
            nsq >= 0,
            FP == 1_000_000,
            UNIT_SLACK == 4_000_000_000,
    ;
    // unit lower bound
    assert(2 * FP * l * (bx + by) == 2 * bx * FP * l + 2 * by * FP * l) by (nonlinear_arith);
    assert(s * (FP * FP) - 2 * FP * l * (bx + by) <= nsq * (l * l));
    assert(FP * FP - UNIT_SLACK <= nsq) by (nonlinear_arith)
        requires
            s * (FP * FP) - 2 * FP * l * (bx + by) <= nsq * (l * l),
            l * l <= s,
            0 <= bx <= l,
            0 <= by <= l,
            l >= 1000,
            FP == 1_000_000,
            UNIT_SLACK == 4_000_000_000,
    ;
    // component bound
    assert(ax <= FP && ay <= FP) by (nonlinear_arith)
        requires
            ax * l <= bx * FP,
            ay * l <= by * FP,
            0 <= bx <= l,
            0 <= by <= l,
            l >= 1,
            0 <= ax,
            0 <= ay,
            FP == 1_000_000,
    ;
    assert(len_sq_spec(normalize_spec(v)) == nsq) by (nonlinear_arith)
        requires
            ax == abs_spec(tdiv_spec(v.x * FP, l)),
            ay == abs_spec(tdiv_spec(v.y * FP, l)),
            nsq == ax * ax + ay * ay,
            -FP <= tdiv_spec(v.x * FP, l) <= FP,
            -FP <= tdiv_spec(v.y * FP, l) <= FP,
            normalize_spec(v).x == tdiv_spec(v.x * FP, l) as i64,
            normalize_spec(v).y == tdiv_spec(v.y * FP, l) as i64,
            FP == 1_000_000,
    ;
}

/// A unit-range vector scaled by the signed weight `num / FP`, as a
/// mathematical function.
pub open spec fn weight_spec(v: Vec2Fx, num: int) -> Vec2Fx {
    Vec2Fx {
        x: tdiv_spec(v.x * num, FP as int) as i64,
        y: tdiv_spec(v.y * num, FP as int) as i64,
    }
}

/// Scales a unit-range vector by the signed weight `num / FP`; the result's
/// coordinates stay within the weight's magnitude.
pub fn weight(v: Vec2Fx, num: i64) -> (r: Vec2Fx)
    requires
        in_range(v, FP as int),
        -2_000_000_000_000 <= num <= 2_000_000_000_000,
    ensures
        r == weight_spec(v, num as int),
        in_range(r, abs_spec(num as int) + 1),
{
    proof {
        assert(-2_000_000_000_000_000_000 <= v.x * num <= 2_000_000_000_000_000_000
            && -2_000_000_000_000_000_000 <= v.y * num <= 2_000_000_000_000_000_000
            && abs_spec(v.x * num) <= abs_spec(num as int) * FP && abs_spec(v.y * num)
            <= abs_spec(num as int) * FP) by (nonlinear_arith)
            requires
                -FP <= v.x <= FP,
                -FP <= v.y <= FP,
                -2_000_000_000_000 <= num <= 2_000_000_000_000,
                FP == 1_000_000,
        ;
        lemma_tdiv_bounds(v.x * num, FP as int);
        lemma_tdiv_bounds(v.y * num, FP as int);
        let qx = abs_spec(tdiv_spec(v.x * num, FP as int));
        let qy = abs_spec(tdiv_spec(v.y * num, FP as int));
        assert(qx <= abs_spec(num as int) && qy <= abs_spec(num as int)) by (nonlinear_arith)
            requires
                qx * FP <= abs_spec(v.x * num),
                qy * FP <= abs_spec(v.y * num),
                abs_spec(v.x * num) <= abs_spec(num as int) * FP,
                abs_spec(v.y * num) <= abs_spec(num as int) * FP,
                qx >= 0,
                qy >= 0,
                FP == 1_000_000,
        ;
    }
    Vec2Fx { x: tdiv(v.x * num, FP), y: tdiv(v.y * num, FP) }
}

/// Scales `v` to a unit vector (length `FP` counts, up to truncation).
pub fn normalize(v: Vec2Fx) -> (r: Vec2Fx)
    requires
        in_range(v, COORD_LIMIT as int),
        len_sq_spec(v) >= MIN_NORM * MIN_NORM,
    ensures
        r == normalize_spec(v),
        is_unit(r),
        in_range(r, FP as int),
{
    proof {
        lemma_normalize_unit(v);
    }
    let s: i64 = len_sq(v);
    let l: i64 = isqrt(s);
    proof {
        lemma_isqrt_bracket(s as nat);
        assert(l >= MIN_NORM) by (nonlinear_arith)
            requires
                s >= MIN_NORM * MIN_NORM,
                s < (l + 1) * (l + 1),
                l >= 0,
                MIN_NORM == 1_000,
        ;
        assert(v.x * FP >= -9_000_000_000_000_000_000 && v.x * FP
            <= 9_000_000_000_000_000_000 && v.y * FP >= -9_000_000_000_000_000_000 && v.y * FP
            <= 9_000_000_000_000_000_000) by (nonlinear_arith)
            requires
                -COORD_LIMIT <= v.x <= COORD_LIMIT,
                -COORD_LIMIT <= v.y <= COORD_LIMIT,
                FP == 1_000_000,
                COORD_LIMIT == 2_000_000_000,
        ;
    }
    let nx: i64 = tdiv(v.x * FP, l);
    let ny: i64 = tdiv(v.y * FP, l);
    Vec2Fx { x: nx, y: ny }
}

} // verus!
