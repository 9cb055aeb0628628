use vstd::prelude::*;

verus! {

/// Fixed-point units in one pixel.
pub const PIXEL: i64 = 10_000;

/// A 2D vector in fixed-point units.
#[derive(Clone, Copy, Debug, PartialEq, Eq, Structural)]
pub struct Vec2 {
    pub x: i64,
    pub y: i64,
}

/// Signed penetration depth of two boxes along each axis (positive: the
/// boxes intersect along that axis).
#[derive(Clone, Copy, Debug, PartialEq, Eq, Structural)]
pub struct Overlap {
    pub x: i128,
    pub y: i128,
}

impl Vec2 {
    pub fn new(x: i64, y: i64) -> (r: Vec2)
        ensures
            r.x == x,
            r.y == y,
    {
        Vec2 { x, y }
    }

    pub fn zero() -> (r: Vec2)
        ensures
            r.x == 0,
            r.y == 0,
    {
        Vec2 { x: 0, y: 0 }
    }
}

/// `v` clamped to the range of `i64`.
pub open spec fn clamp_i64(v: int) -> int {
    if v < i64::MIN {
        i64::MIN as int
    } else if v > i64::MAX {
        i64::MAX as int
    } else {
        v
    }
}

/// Division rounding toward zero, by a positive divisor.
pub open spec fn div_toward_zero(a: int, d: int) -> int
    recommends
        d > 0,
{
    if a >= 0 {
        a / d
    } else {
        -((-a) / d)
    }
}

pub open spec fn abs(v: int) -> int {
    if v < 0 {
        -v
    } else {
        v
    }
}

/// -1, 0 or 1 after the sign of `v`.
pub open spec fn signum(v: int) -> int {
    if v < 0 {
        -1
    } else if v > 0 {
        1
    } else {
        0
    }
}

/// Overlap along one axis of two intervals given by centre and half-extent.
pub open spec fn axis_overlap(pa: int, ha: int, pb: int, hb: int) -> int {
    ha + hb - abs(pa - pb)
}

/// Overlap of two axis-aligned boxes given by centre and half-size.
pub open spec fn box_overlap(pa: Vec2, ha: Vec2, pb: Vec2, hb: Vec2) -> Overlap {
    Overlap {
        x: axis_overlap(pa.x as int, ha.x as int, pb.x as int, hb.x as int) as i128,
        y: axis_overlap(pa.y as int, ha.y as int, pb.y as int, hb.y as int) as i128,
    }
}

pub open spec fn intersects(o: Overlap) -> bool {
    o.x > 0 && o.y > 0
}

/// The sum of two `i64`, saturating at the bounds of the type.
pub fn saturating_add(a: i64, b: i64) -> (r: i64)
    ensures
        r == clamp_i64(a + b),
{
    clamp_to_i64(a as i128 + b as i128)
}

/// A wide integer clamped to the range of `i64`.
pub fn clamp_to_i64(v: i128) -> (r: i64)
    ensures
        r == clamp_i64(v as int),
{
    if v < i64::MIN as i128 {
        i64::MIN
    } else if v > i64::MAX as i128 {
        i64::MAX
    } else {
        v as i64
    }
}

/// `a / d` rounded toward zero.
pub fn div_trunc(a: i128, d: i128) -> (r: i128)
    requires
        d > 0,
        a > i128::MIN,
    ensures
        r == div_toward_zero(a as int, d as int),
{
    if a >= 0 {
        a / d
    } else {
        let n: i128 = -a;
        let q: i128 = n / d;
        proof {
            assert(0 <= q <= n) by (nonlinear_arith)
                requires
                    n > 0,
                    d > 0,
                    q == n / d,
            ;
        }
        -q
    }
}

/// Half of a size, rounded toward zero.
pub fn half_of(size: Vec2) -> (r: Vec2)
    ensures
        r.x == div_toward_zero(size.x as int, 2),
        r.y == div_toward_zero(size.y as int, 2),
{
    Vec2 {
        x: div_trunc(size.x as i128, 2) as i64,
        y: div_trunc(size.y as i128, 2) as i64,
    }
}

/// Overlap of the box at `pa` with half-size `ha` and the box at `pb` with
/// half-size `hb`: the sum of the half-extents less the distance of the
/// centres, on each axis.
pub fn get_overlap(pa: Vec2, ha: Vec2, pb: Vec2, hb: Vec2) -> (r: Overlap)
    ensures
        r == box_overlap(pa, ha, pb, hb),
{
    let dx: i128 = pa.x as i128 - pb.x as i128;
    let dy: i128 = pa.y as i128 - pb.y as i128;
    let adx: i128 = if dx < 0 { -dx } else { dx };
    let ady: i128 = if dy < 0 { -dy } else { dy };
    Overlap { x: ha.x as i128 + hb.x as i128 - adx, y: ha.y as i128 + hb.y as i128 - ady }
}

/// Overlap is symmetric: the overlap of A with B equals the overlap of B
/// with A on each axis.
pub proof fn lemma_overlap_symmetric(pa: Vec2, ha: Vec2, pb: Vec2, hb: Vec2)
    ensures
        box_overlap(pa, ha, pb, hb) == box_overlap(pb, hb, pa, ha),
{
}

} // verus!
