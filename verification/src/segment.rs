//! Directed line segments and their exact intersection.
//!
//! Intersection uses the standard cross-product parametric formula.  Two
//! segments `p + t r` and `q + u s` (with `t`, `u` in `[0, 1]`) cross where
//! `t = cross(q - p, s) / d` and `u = cross(q - p, r) / d`, `d = cross(r, s)`.
//! A zero denominator (parallel or collinear segments) counts as no
//! intersection.  Everything is computed on integers, so the test is exact;
//! the crossing point itself is returned as an exact rational.

use vstd::prelude::*;
use vstd::arithmetic::mul::{
    lemma_mul_is_associative, lemma_mul_is_commutative, lemma_mul_is_distributive_add_other_way,
    lemma_mul_is_distributive_sub, lemma_mul_is_distributive_sub_other_way,
    lemma_mul_unary_negation,
};
use vstd::arithmetic::div_mod::lemma_div_nonincreasing;
use crate::vec2::{iabs, Vec2};
use crate::{COORD_LIMIT, ENTITY_LIMIT};

verus! {

/// The floored square root: the unique `r` with `r^2 <= n < (r+1)^2`.
pub open spec fn sqrt_floor(n: nat) -> nat
    decreases n,
{
    if n == 0 {
        0
    } else {
        let r = sqrt_floor((n - 1) as nat);
        if (r + 1) * (r + 1) <= n {
            r + 1
        } else {
            r
        }
    }
}

pub(crate) proof fn lemma_sqrt_floor_bounds(n: nat)
    ensures
        sqrt_floor(n) * sqrt_floor(n) <= n < (sqrt_floor(n) + 1) * (sqrt_floor(n) + 1),
    decreases n,
{
    if n == 0 {
        assert(sqrt_floor(0) == 0);
        assert(sqrt_floor(n) * sqrt_floor(n) == 0);
        assert((sqrt_floor(n) + 1) * (sqrt_floor(n) + 1) == 1) by (nonlinear_arith)
            requires
                sqrt_floor(n) == 0,
        ;
    } else {
        lemma_sqrt_floor_bounds((n - 1) as nat);
        let r = sqrt_floor((n - 1) as nat);
        assert(sqrt_floor(n) == if (r + 1) * (r + 1) <= n {
            r + 1
        } else {
            r
        });
        if (r + 1) * (r + 1) <= n {
            assert(n - 1 < (r + 1) * (r + 1));
            assert(n == (r + 1) * (r + 1));
            assert(sqrt_floor(n) == r + 1);
            assert(sqrt_floor(n) * sqrt_floor(n) == (r + 1) * (r + 1));
            assert(((r + 1) + 1) * ((r + 1) + 1) > (r + 1) * (r + 1)) by (nonlinear_arith);
            assert((sqrt_floor(n) + 1) * (sqrt_floor(n) + 1) == ((r + 1) + 1) * ((r + 1) + 1));
        } else {
            assert(sqrt_floor(n) == r);
            assert(r * r <= n - 1);
            assert(n < (r + 1) * (r + 1));
        }
    }
}

pub(crate) proof fn lemma_sqrt_floor_unique(n: nat, r: nat)
    requires
        r * r <= n < (r + 1) * (r + 1),
    ensures
        r == sqrt_floor(n),
{
    lemma_sqrt_floor_bounds(n);
    let s = sqrt_floor(n);
    if r < s {
        assert((r + 1) * (r + 1) <= s * s) by (nonlinear_arith)
            requires
                r + 1 <= s,
        ;
    }
    if s < r {
        assert((s + 1) * (s + 1) <= r * r) by (nonlinear_arith)
            requires
                s + 1 <= r,
        ;
    }
}

/// The floored square root of `n`, by binary search.
pub fn isqrt(n: u64) -> (r: u64)
    ensures
        r == sqrt_floor(n as nat),
{
    let mut lo: u64 = 0;
    let mut hi: u64 = 0x1_0000_0000;
    assert((hi as int) * (hi as int) > n as int) by (nonlinear_arith)
        requires
            hi == 0x1_0000_0000,
            n <= u64::MAX,
    ;
    while lo + 1 < hi
        invariant
            0 <= lo < hi <= 0x1_0000_0000,
            (lo as int) * (lo as int) <= n as int,
            (hi as int) * (hi as int) > n as int,
        decreases hi - lo,
    {
        let mid: u64 = lo + (hi - lo) / 2;
        assert((mid as int) * (mid as int) < 0x1_0000_0000_0000_0000) by (nonlinear_arith)
            requires
                mid < 0x1_0000_0000,
        ;
        if mid * mid <= n {
            lo = mid;
        } else {
            hi = mid;
        }
    }
    proof {
        lemma_sqrt_floor_unique(n as nat, lo as nat);
    }
    lo
}

/// One directed segment: a boundary edge of a body, or a wall edge.
#[derive(Clone, Copy, PartialEq, Eq, Structural, Debug)]
pub struct Segment {
    pub start: Vec2,
    pub end: Vec2,
}

/// An exact rational contact point `(x_num / den, y_num / den)`, with
/// `den > 0`.  The slot values of a collision result are of this type.
#[derive(Clone, Copy, PartialEq, Eq, Structural, Debug)]
pub struct Contact {
    pub x_num: i128,
    pub y_num: i128,
    pub den: i128,
}

/// 2D cross product of the vectors `(ax, ay)` and `(bx, by)`.
pub open spec fn cross(ax: int, ay: int, bx: int, by: int) -> int {
    ax * by - ay * bx
}

/// All four coordinates within the magnitude the exact arithmetic accepts.
pub open spec fn seg_in_range(s: Segment) -> bool {
    &&& -COORD_LIMIT <= s.start.x <= COORD_LIMIT
    &&& -COORD_LIMIT <= s.start.y <= COORD_LIMIT
    &&& -COORD_LIMIT <= s.end.x <= COORD_LIMIT
    &&& -COORD_LIMIT <= s.end.y <= COORD_LIMIT
}

/// Denominator of the parametric solution: `cross(r, s)` for directions
/// `r` of `a` and `s` of `b`.  Zero means parallel or collinear.
pub open spec fn seg_denom(a: Segment, b: Segment) -> int {
    cross(
        a.end.x - a.start.x,
        a.end.y - a.start.y,
        b.end.x - b.start.x,
        b.end.y - b.start.y,
    )
}

/// Numerator of `t`, the parameter along `a`.
pub open spec fn seg_t_num(a: Segment, b: Segment) -> int {
    cross(
        b.start.x - a.start.x,
        b.start.y - a.start.y,
        b.end.x - b.start.x,
        b.end.y - b.start.y,
    )
}

/// Numerator of `u`, the parameter along `b`.
pub open spec fn seg_u_num(a: Segment, b: Segment) -> int {
    cross(
        b.start.x - a.start.x,
        b.start.y - a.start.y,
        a.end.x - a.start.x,
        a.end.y - a.start.y,
    )
}

/// `num / den` lies in `[0, 1]`, stated without division.
pub open spec fn param_in_unit(num: int, den: int) -> bool {
    if den > 0 {
        0 <= num <= den
    } else {
        den <= num <= 0
    }
}

/// The exact geometric test: the segments have a unique crossing point.
pub open spec fn segments_intersect(a: Segment, b: Segment) -> bool {
    &&& seg_denom(a, b) != 0
    &&& param_in_unit(seg_t_num(a, b), seg_denom(a, b))
    &&& param_in_unit(seg_u_num(a, b), seg_denom(a, b))
}

/// Denominator of the returned contact point: `|d|`, so it is positive.
pub open spec fn contact_den(a: Segment, b: Segment) -> int {
    let d = seg_denom(a, b);
    if d > 0 {
        d
    } else {
        -d
    }
}

/// Numerator of the contact point's x coordinate, sign-normalised so the
/// denominator is `contact_den`.
pub open spec fn contact_x_num(a: Segment, b: Segment) -> int {
    let d = seg_denom(a, b);
    let n = a.start.x * d + seg_t_num(a, b) * (a.end.x - a.start.x);
    if d > 0 {
        n
    } else {
        -n
    }
}

/// Numerator of the contact point's y coordinate.
pub open spec fn contact_y_num(a: Segment, b: Segment) -> int {
    let d = seg_denom(a, b);
    let n = a.start.y * d + seg_t_num(a, b) * (a.end.y - a.start.y);
    if d > 0 {
        n
    } else {
        -n
    }
}

/// The contact that `check_collision_segment` reports for crossing segments.
pub open spec fn spec_contact(a: Segment, b: Segment) -> Contact {
    Contact {
        x_num: contact_x_num(a, b) as i128,
        y_num: contact_y_num(a, b) as i128,
        den: contact_den(a, b) as i128,
    }
}

/// `|x * y| <= bx * by` whenever `|x| <= bx` and `|y| <= by`.
proof fn lemma_mul_bound(x: int, y: int, bx: int, by: int)
    by (nonlinear_arith)
    requires
        -bx <= x <= bx,
        -by <= y <= by,
        0 <= bx,
        0 <= by,
    ensures
        -(bx * by) <= x * y <= bx * by,
{
}

impl Segment {
    /// The unique point where this segment crosses `other`, or `None` when
    /// the segments are parallel, collinear, or the parametric intersection
    /// parameters fall outside `[0, 1]` on either segment.  Pure; the exact
    /// integer test never reports a noisy point for near-parallel segments.
    pub fn check_collision_segment(&self, other: &Segment) -> (r: Option<Contact>)
        requires
            seg_in_range(*self),
            seg_in_range(*other),
        ensures
            r is Some <==> segments_intersect(*self, *other),
            r matches Some(c) ==> c == spec_contact(*self, *other),
    {
        let px: i128 = self.start.x as i128;
        let py: i128 = self.start.y as i128;
        let rx: i128 = self.end.x as i128 - px;
        let ry: i128 = self.end.y as i128 - py;
        let qx: i128 = other.start.x as i128;
        let qy: i128 = other.start.y as i128;
        let sx: i128 = other.end.x as i128 - qx;
        let sy: i128 = other.end.y as i128 - qy;
        let wx: i128 = qx - px;
        let wy: i128 = qy - py;

        proof {
            lemma_mul_bound(rx as int, sy as int, 0x2_0000_0000, 0x2_0000_0000);
            lemma_mul_bound(ry as int, sx as int, 0x2_0000_0000, 0x2_0000_0000);
            lemma_mul_bound(wx as int, sy as int, 0x2_0000_0000, 0x2_0000_0000);
            lemma_mul_bound(wy as int, sx as int, 0x2_0000_0000, 0x2_0000_0000);
            lemma_mul_bound(wx as int, ry as int, 0x2_0000_0000, 0x2_0000_0000);
            lemma_mul_bound(wy as int, rx as int, 0x2_0000_0000, 0x2_0000_0000);
        }
        let d: i128 = rx * sy - ry * sx;
        let t_num: i128 = wx * sy - wy * sx;
        let u_num: i128 = wx * ry - wy * rx;

        assert(d as int == seg_denom(*self, *other));
        assert(t_num as int == seg_t_num(*self, *other));
        assert(u_num as int == seg_u_num(*self, *other));

        if d == 0 {
            return None;
        }
        let t_ok: bool = if d > 0 {
            0 <= t_num && t_num <= d
        } else {
            d <= t_num && t_num <= 0
        };
        let u_ok: bool = if d > 0 {
            0 <= u_num && u_num <= d
        } else {
            d <= u_num && u_num <= 0
        };
        if !(t_ok && u_ok) {
            return None;
        }

        proof {
            lemma_mul_bound(px as int, d as int, 0x8000_0000, 0x8_0000_0000_0000_0000);
            lemma_mul_bound(py as int, d as int, 0x8000_0000, 0x8_0000_0000_0000_0000);
            lemma_mul_bound(t_num as int, rx as int, 0x8_0000_0000_0000_0000, 0x2_0000_0000);
            lemma_mul_bound(t_num as int, ry as int, 0x8_0000_0000_0000_0000, 0x2_0000_0000);
        }
        let xn: i128 = px * d + t_num * rx;
        let yn: i128 = py * d + t_num * ry;

        if d > 0 {
            Some(Contact { x_num: xn, y_num: yn, den: d })
        } else {
            Some(Contact { x_num: -xn, y_num: -yn, den: -d })
        }
    }
}

/// Both parameterisations of a crossing name the same point of the plane:
/// with `w = q - p`, `t = cross(w, s)`, `u = cross(w, r)` and
/// `d = cross(r, s)`, clearing `p + (t/d) r == q + (u/d) s` of its
/// denominator leaves `t rx == wx d + u sx` in the x coordinate.
proof fn lemma_cleared_point_identity(wx: int, wy: int, rx: int, ry: int, sx: int, sy: int)
    ensures
        (wx * sy - wy * sx) * rx == wx * (rx * sy - ry * sx) + (wx * ry - wy * rx) * sx,
{
    lemma_mul_is_distributive_sub_other_way(rx, wx * sy, wy * sx);
    lemma_mul_is_distributive_sub(wx, rx * sy, ry * sx);
    lemma_mul_is_distributive_sub_other_way(sx, wx * ry, wy * rx);
    lemma_mul_is_associative(wx, sy, rx);
    lemma_mul_is_commutative(sy, rx);
    lemma_mul_is_associative(wx, rx, sy);
    lemma_mul_is_associative(wy, sx, rx);
    lemma_mul_is_commutative(sx, rx);
    lemma_mul_is_associative(wy, rx, sx);
    lemma_mul_is_associative(wx, ry, sx);
}

/// Halving with the magnitude floored (truncation toward zero).
pub open spec fn half_toward_zero(v: int) -> int {
    if v >= 0 {
        v / 2
    } else {
        -((-v) / 2)
    }
}

/// The floored length of a segment.
pub open spec fn seg_len(s: Segment) -> int {
    let dx = s.end.x - s.start.x;
    let dy = s.end.y - s.start.y;
    sqrt_floor((dx * dx + dy * dy) as nat) as int
}

/// Coordinates on which the normal derivation is defined: within the
/// entity bound, and of nonzero length (the normal of a zero-length
/// segment is undefined; such segments are rejected where they are
/// built).
pub open spec fn normal_ok(s: Segment) -> bool {
    &&& -ENTITY_LIMIT <= s.start.x <= ENTITY_LIMIT
    &&& -ENTITY_LIMIT <= s.start.y <= ENTITY_LIMIT
    &&& -ENTITY_LIMIT <= s.end.x <= ENTITY_LIMIT
    &&& -ENTITY_LIMIT <= s.end.y <= ENTITY_LIMIT
    &&& s.start != s.end
}

/// x component of the normal offset of the given length: the direction
/// vector rotated a quarter turn, scaled by `length / |segment|`, each
/// component's magnitude floored.
pub open spec fn normal_radius_x(s: Segment, length: int) -> int {
    let dy = s.end.y - s.start.y;
    let mag = (length * iabs(dy)) / seg_len(s);
    if dy > 0 {
        -mag
    } else {
        mag
    }
}

/// y component of the normal offset of the given length.
pub open spec fn normal_radius_y(s: Segment, length: int) -> int {
    let dx = s.end.x - s.start.x;
    let mag = (length * iabs(dx)) / seg_len(s);
    if dx < 0 {
        -mag
    } else {
        mag
    }
}

/// The normal as a segment: anchored at the floored midpoint of the
/// segment, pointing against the offset radius.
pub open spec fn spec_normal_with_length(s: Segment, length: int) -> Segment {
    let mx = s.start.x + half_toward_zero(s.end.x - s.start.x);
    let my = s.start.y + half_toward_zero(s.end.y - s.start.y);
    Segment {
        start: Vec2 { x: mx as i64, y: my as i64 },
        end: Vec2 {
            x: (mx - normal_radius_x(s, length)) as i64,
            y: (my - normal_radius_y(s, length)) as i64,
        },
    }
}

/// A segment of nonzero length has positive floored length.
pub(crate) proof fn lemma_seg_len_pos(s: Segment)
    requires
        normal_ok(s),
    ensures
        1 <= seg_len(s) <= 0x1_0000_0000,
{
    let dx = s.end.x - s.start.x;
    let dy = s.end.y - s.start.y;
    let n = (dx * dx + dy * dy) as nat;
    assert(dx * dx >= 0) by (nonlinear_arith);
    assert(dy * dy >= 0) by (nonlinear_arith);
    assert(dx != 0 || dy != 0);
    assert(dx != 0 ==> dx * dx >= 1) by (nonlinear_arith);
    assert(dy != 0 ==> dy * dy >= 1) by (nonlinear_arith);
    assert(n >= 1);
    assert(dx * dx <= 0x4000_0000_0000_0000) by (nonlinear_arith)
        requires
            -0x8000_0000 <= dx <= 0x8000_0000,
    ;
    assert(dy * dy <= 0x4000_0000_0000_0000) by (nonlinear_arith)
        requires
            -0x8000_0000 <= dy <= 0x8000_0000,
    ;
    lemma_sqrt_floor_bounds(n);
    let r = sqrt_floor(n);
    if r == 0 {
        assert((r + 1) * (r + 1) == 1) by (nonlinear_arith)
            requires
                r == 0nat,
        ;
        assert(n < 1);
    }
    if r > 0x1_0000_0000 {
        assert(r * r > 0x1_0000_0000_0000_0000) by (nonlinear_arith)
            requires
                r > 0x1_0000_0000,
        ;
    }
}

impl Segment {
    /// The normal scaled to unit length; with integer coordinates and
    /// floored scaling, each offset component carries only the direction
    /// that survives the flooring.
    pub fn normal_unit(&self) -> (n: Segment)
        requires
            normal_ok(*self),
        ensures
            n == spec_normal_with_length(*self, 1),
    {
        self.normal_with_length(1)
    }

    fn normal_with_length(&self, length: i64) -> (n: Segment)
        requires
            normal_ok(*self),
            0 <= length <= ENTITY_LIMIT,
        ensures
            n == spec_normal_with_length(*self, length as int),
    {
        proof {
            lemma_seg_len_pos(*self);
        }
        let dx: i64 = self.end.x - self.start.x;
        let dy: i64 = self.end.y - self.start.y;
        proof {
            assert(0 <= dx as int * dx as int <= 0x4000_0000_0000_0000) by (nonlinear_arith)
                requires
                    -0x8000_0000 <= dx as int <= 0x8000_0000,
            ;
            assert(0 <= dy as int * dy as int <= 0x4000_0000_0000_0000) by (nonlinear_arith)
                requires
                    -0x8000_0000 <= dy as int <= 0x8000_0000,
            ;
        }
        let nsq: u64 = ((dx as i128 * dx as i128) + (dy as i128 * dy as i128)) as u64;
        let l: u64 = isqrt(nsq);
        proof {
            assert(l == seg_len(*self));
        }
        let ady: u64 = if dy < 0 {
            (-dy) as u64
        } else {
            dy as u64
        };
        let adx: u64 = if dx < 0 {
            (-dx) as u64
        } else {
            dx as u64
        };
        proof {
            assert(length as int * ady as int <= 0x4000_0000_0000_0000) by (nonlinear_arith)
                requires
                    0 <= length as int <= 0x4000_0000,
                    0 <= ady as int <= 0x1_0000_0000,
            ;
            assert(length as int * adx as int <= 0x4000_0000_0000_0000) by (nonlinear_arith)
                requires
                    0 <= length as int <= 0x4000_0000,
                    0 <= adx as int <= 0x1_0000_0000,
            ;
        }
        let mag_x: u64 = ((length as u64) * ady) / l;
        let mag_y: u64 = ((length as u64) * adx) / l;
        proof {
            lemma_div_nonincreasing((length as u64 * ady) as int, l as int);
            lemma_div_nonincreasing((length as u64 * adx) as int, l as int);
        }
        let rx: i64 = if dy > 0 {
            -(mag_x as i64)
        } else {
            mag_x as i64
        };
        let ry: i64 = if dx < 0 {
            -(mag_y as i64)
        } else {
            mag_y as i64
        };
        let hx: i64 = if dx >= 0 {
            (adx / 2) as i64
        } else {
            -((adx / 2) as i64)
        };
        let hy: i64 = if dy >= 0 {
            (ady / 2) as i64
        } else {
            -((ady / 2) as i64)
        };
        let mx: i64 = self.start.x + hx;
        let my: i64 = self.start.y + hy;
        proof {
            assert(rx as int == normal_radius_x(*self, length as int));
            assert(ry as int == normal_radius_y(*self, length as int));
            assert(hx as int == half_toward_zero(dx as int));
            assert(hy as int == half_toward_zero(dy as int));
        }
        Segment { start: Vec2 { x: mx, y: my }, end: Vec2 { x: mx - rx, y: my - ry } }
    }
}

/// The geometric test is symmetric: swapping the two segments neither
/// changes whether they intersect nor, when they do, the exact contact
/// point that is reported.
pub proof fn lemma_intersect_symmetric(a: Segment, b: Segment)
    ensures
        segments_intersect(a, b) == segments_intersect(b, a),
        segments_intersect(a, b) ==> spec_contact(a, b) == spec_contact(b, a),
{
    let px = a.start.x as int;
    let py = a.start.y as int;
    let rx = a.end.x - a.start.x;
    let ry = a.end.y - a.start.y;
    let qx = b.start.x as int;
    let qy = b.start.y as int;
    let sx = b.end.x - b.start.x;
    let sy = b.end.y - b.start.y;
    let wx = qx - px;
    let wy = qy - py;
    let d = seg_denom(a, b);
    let t = seg_t_num(a, b);
    let u = seg_u_num(a, b);

    lemma_mul_is_commutative(sx, ry);
    lemma_mul_is_commutative(sy, rx);
    assert(seg_denom(b, a) == -d);

    lemma_mul_unary_negation(wx, ry);
    lemma_mul_unary_negation(wy, rx);
    assert(seg_t_num(b, a) == (-wx) * ry - (-wy) * rx);
    assert(seg_t_num(b, a) == -u);

    lemma_mul_unary_negation(wx, sy);
    lemma_mul_unary_negation(wy, sx);
    assert(seg_u_num(b, a) == (-wx) * sy - (-wy) * sx);
    assert(seg_u_num(b, a) == -t);

    assert(segments_intersect(b, a) == segments_intersect(a, b));

    if segments_intersect(a, b) {
        let n_x = px * d + t * rx;
        let m_x = qx * d + u * sx;
        lemma_cleared_point_identity(wx, wy, rx, ry, sx, sy);
        assert(t * rx == wx * d + u * sx);
        lemma_mul_is_distributive_add_other_way(d, px, wx);
        assert(qx * d == (px + wx) * d);
        assert(n_x == m_x);

        let n_y = py * d + t * ry;
        let m_y = qy * d + u * sy;
        lemma_cleared_point_identity(wy, wx, ry, rx, sy, sx);
        assert((wy * sx - wx * sy) * ry == wy * (ry * sx - rx * sy) + (wy * rx - wx * ry) * sy);
        assert((-t) * ry == wy * (-d) + (-u) * sy);
        lemma_mul_unary_negation(t, ry);
        lemma_mul_unary_negation(wy, d);
        lemma_mul_unary_negation(u, sy);
        assert(t * ry == wy * d + u * sy);
        lemma_mul_is_distributive_add_other_way(d, py, wy);
        assert(qy * d == (py + wy) * d);
        assert(n_y == m_y);

        lemma_mul_unary_negation(qx, d);
        lemma_mul_unary_negation(u, sx);
        assert(b.start.x * seg_denom(b, a) + seg_t_num(b, a) * (b.end.x - b.start.x) == qx * (-d)
            + (-u) * sx);
        assert(b.start.x * seg_denom(b, a) + seg_t_num(b, a) * (b.end.x - b.start.x) == -m_x);
        lemma_mul_unary_negation(qy, d);
        assert(b.start.y * seg_denom(b, a) + seg_t_num(b, a) * (b.end.y - b.start.y) == qy * (-d)
            + (-u) * sy);
        assert(b.start.y * seg_denom(b, a) + seg_t_num(b, a) * (b.end.y - b.start.y) == -m_y);

        assert(contact_x_num(b, a) == contact_x_num(a, b));
        assert(contact_y_num(b, a) == contact_y_num(a, b));
        assert(contact_den(b, a) == contact_den(a, b));
    }
}

} // verus!
