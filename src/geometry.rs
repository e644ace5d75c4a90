//! Integer plane geometry: vectors, floor square roots, rescaling to a
//! given length and axis-aligned box overlap.
use vstd::prelude::*;

verus! {

/// Largest coordinate magnitude of a position on the field.
pub const POS_LIMIT: i64 = 0x2000_0000;

/// Largest component magnitude of a vector whose length is measured.
pub const VEC_LIMIT: i64 = 0x8000_0000;

/// A point or offset in world units.
#[derive(Clone, Copy, Debug, PartialEq, Eq, Structural)]
pub struct Vec2 {
    pub x: i64,
    pub y: i64,
}

pub open spec fn abs(a: int) -> int {
    if a < 0 { -a } else { a }
}

/// A position that lies on the field.
pub open spec fn pos_ok(p: Vec2) -> bool {
    abs(p.x as int) <= POS_LIMIT && abs(p.y as int) <= POS_LIMIT
}

/// A vector whose squared length fits the measuring code.
pub open spec fn vec_ok(v: Vec2) -> bool {
    abs(v.x as int) <= VEC_LIMIT && abs(v.y as int) <= VEC_LIMIT
}

pub open spec fn len_sq(v: Vec2) -> int {
    v.x * v.x + v.y * v.y
}

pub open spec fn dist_sq(a: Vec2, b: Vec2) -> int {
    (a.x - b.x) * (a.x - b.x) + (a.y - b.y) * (a.y - b.y)
}

pub open spec fn is_floor_sqrt(n: int, r: int) -> bool {
    0 <= r && r * r <= n && n < (r + 1) * (r + 1)
}

/// The largest `r` with `r * r <= n`.
pub open spec fn floor_sqrt(n: int) -> int {
    choose|r: int| is_floor_sqrt(n, r)
}

/// Integer division rounding toward zero, as a float-to-integer cast does.
pub open spec fn div_trunc(a: int, b: int) -> int {
    if a >= 0 { a / b } else { -((-a) / b) }
}

/// `v` rescaled to length `len` (rounded toward zero per component), or
/// zero for the zero vector.
pub open spec fn scaled_x(v: Vec2, len: int) -> int {
    if v.x == 0 && v.y == 0 { 0 } else { div_trunc(v.x * len, floor_sqrt(len_sq(v))) }
}

pub open spec fn scaled_y(v: Vec2, len: int) -> int {
    if v.x == 0 && v.y == 0 { 0 } else { div_trunc(v.y * len, floor_sqrt(len_sq(v))) }
}

/// Whether two axis-aligned boxes of the given full side lengths, centred
/// on `a` and `b`, overlap with positive area.
pub open spec fn boxes_overlap(a: Vec2, a_size: int, b: Vec2, b_size: int) -> bool {
    &&& 2 * (a.x - b.x) < a_size + b_size
    &&& 2 * (b.x - a.x) < a_size + b_size
    &&& 2 * (a.y - b.y) < a_size + b_size
    &&& 2 * (b.y - a.y) < a_size + b_size
}

proof fn lemma_floor_sqrt_unique(n: int, r: int, s: int)
    requires
        is_floor_sqrt(n, r),
        is_floor_sqrt(n, s),
    ensures
        r == s,
{
    if r < s {
        assert((r + 1) * (r + 1) <= s * s) by (nonlinear_arith)
            requires 0 <= r, r + 1 <= s;
    } else if s < r {
        assert((s + 1) * (s + 1) <= r * r) by (nonlinear_arith)
            requires 0 <= s, s + 1 <= r;
    }
}

proof fn lemma_floor_sqrt_of(n: int, r: int)
    requires
        is_floor_sqrt(n, r),
    ensures
        floor_sqrt(n) == r,
{
    assert(is_floor_sqrt(n, floor_sqrt(n)));
    lemma_floor_sqrt_unique(n, r, floor_sqrt(n));
}

/// The floor square root of `n`.
pub fn isqrt(n: u64) -> (r: u64)
    ensures
        is_floor_sqrt(n as int, r as int),
        r == floor_sqrt(n as int),
        r <= 0xffff_ffff,
{
    let mut lo: u64 = 0;
    let mut hi: u64 = 0x1_0000_0000;
    assert(n < hi * hi) by (nonlinear_arith)
        requires n <= 0xffff_ffff_ffff_ffffu64, hi == 0x1_0000_0000u64;
    while hi - lo > 1
        invariant
            lo < hi <= 0x1_0000_0000,
            lo * lo <= n,
            n < hi * hi,
        decreases hi - lo,
    {
        let mid: u64 = lo + (hi - lo) / 2;
        assert(mid * mid < 0x1_0000_0000_0000_0000) by (nonlinear_arith)
            requires mid < 0x1_0000_0000u64;
        let sq: u128 = mid as u128 * mid as u128;
        if sq <= n as u128 {
            lo = mid;
        } else {
            hi = mid;
        }
    }
    proof {
        lemma_floor_sqrt_of(n as int, lo as int);
    }
    lo
}

/// Squared length of a vector.
pub fn length_squared(v: Vec2) -> (r: u64)
    requires
        vec_ok(v),
    ensures
        r == len_sq(v),
{
    let x = v.x as i128;
    let y = v.y as i128;
    assert(x * x <= 0x4000_0000_0000_0000) by (nonlinear_arith)
        requires -0x8000_0000 <= x <= 0x8000_0000;
    assert(y * y <= 0x4000_0000_0000_0000) by (nonlinear_arith)
        requires -0x8000_0000 <= y <= 0x8000_0000;
    assert(0 <= x * x && 0 <= y * y) by (nonlinear_arith);
    (x * x + y * y) as u64
}

/// `a - b`.
pub fn difference(a: Vec2, b: Vec2) -> (r: Vec2)
    requires
        pos_ok(a) || vec_ok(a),
        pos_ok(b),
    ensures
        r.x == a.x - b.x,
        r.y == a.y - b.y,
{
    Vec2 { x: a.x - b.x, y: a.y - b.y }
}

/// `a / b` rounded toward zero.
pub fn div_toward_zero(a: i128, b: i128) -> (r: i128)
    requires
        b > 0,
        abs(a as int) <= 0x1_0000_0000_0000_0000_0000_0000,
    ensures
        r == div_trunc(a as int, b as int),
{
    if a >= 0 {
        a / b
    } else {
        assert(-a > 0);
        -((-a) / b)
    }
}

proof fn lemma_component_le_root(c: int, n: int, m: int)
    requires
        c * c <= n,
        is_floor_sqrt(n, m),
    ensures
        abs(c) <= m,
{
    if abs(c) > m {
        assert((m + 1) * (m + 1) <= abs(c) * abs(c)) by (nonlinear_arith)
            requires 0 <= m, m + 1 <= abs(c);
        assert(abs(c) * abs(c) == c * c) by (nonlinear_arith);
    }
}

pub proof fn lemma_div_trunc_bound(a: int, b: int, bound: int)
    requires
        b > 0,
        abs(a) <= bound * b,
        bound >= 0,
    ensures
        abs(div_trunc(a, b)) <= bound,
{
    let p = abs(a);
    assert(p / b <= bound) by (nonlinear_arith)
        requires p <= bound * b, b > 0, p >= 0;
    assert(p / b >= 0) by (nonlinear_arith)
        requires b > 0, p >= 0;
}

/// `v` rescaled to length `len`: each component is `v * len / |v|`, with
/// `|v|` the floor square root of the squared length, rounded toward zero.
/// The zero vector stays zero.
pub fn scale_to(v: Vec2, len: i64) -> (r: Vec2)
    requires
        vec_ok(v),
        0 <= len <= 0x1_0000,
    ensures
        r.x == scaled_x(v, len as int),
        r.y == scaled_y(v, len as int),
        abs(r.x as int) <= len,
        abs(r.y as int) <= len,
{
    if v.x == 0 && v.y == 0 {
        return Vec2 { x: 0, y: 0 };
    }
    let n = length_squared(v);
    let m = isqrt(n);
    proof {
        let x = v.x as int;
        let y = v.y as int;
        assert(x * x >= 0 && y * y >= 0) by (nonlinear_arith);
        assert(x * x >= 1 || y * y >= 1) by (nonlinear_arith)
            requires x != 0 || y != 0;
        assert(m > 0) by (nonlinear_arith)
            requires is_floor_sqrt(n as int, m as int), n as int >= 1;
        lemma_component_le_root(x, n as int, m as int);
        lemma_component_le_root(y, n as int, m as int);
        assert(abs(x * len) <= len * m) by (nonlinear_arith)
            requires abs(x) <= m, len >= 0;
        assert(abs(y * len) <= len * m) by (nonlinear_arith)
            requires abs(y) <= m, len >= 0;
        lemma_div_trunc_bound(x * len, m as int, len as int);
        lemma_div_trunc_bound(y * len, m as int, len as int);
    }
    assert(abs(v.x * len) <= 0x1_0000_0000_0000 && abs(v.y * len) <= 0x1_0000_0000_0000) by (nonlinear_arith)
        requires vec_ok(v), 0 <= len <= 0x1_0000;
    let rx = div_toward_zero(v.x as i128 * len as i128, m as i128);
    let ry = div_toward_zero(v.y as i128 * len as i128, m as i128);
    Vec2 { x: rx as i64, y: ry as i64 }
}

/// Whether two axis-aligned boxes of full side lengths `a_size` and
/// `b_size`, centred on `a` and `b`, overlap.
pub fn collide(a: Vec2, a_size: i64, b: Vec2, b_size: i64) -> (r: bool)
    requires
        pos_ok(a),
        pos_ok(b),
        0 <= a_size <= POS_LIMIT,
        0 <= b_size <= POS_LIMIT,
    ensures
        r == boxes_overlap(a, a_size as int, b, b_size as int),
{
    let s = a_size + b_size;
    2 * (a.x - b.x) < s && 2 * (b.x - a.x) < s && 2 * (a.y - b.y) < s && 2 * (b.y - a.y) < s
}

} // verus!
