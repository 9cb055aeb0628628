use vstd::prelude::*;

use crate::geometry::{Overlap, Vec2, box_overlap, get_overlap, intersects};

verus! {

/// A solid box: centre and half-size.
#[derive(Clone, Copy, Debug, PartialEq, Eq, Structural)]
pub struct Solid {
    pub position: Vec2,
    pub half_size: Vec2,
}

/// Correction of the player's position on each axis; zero on an axis means
/// no correction there.
#[derive(Clone, Copy, Debug, PartialEq, Eq, Structural)]
pub struct Adjustment {
    pub x: i128,
    pub y: i128,
}

/// 1 when the solid's centre lies before the player's on the axis, else -1:
/// the direction that pushes the player away from the solid.
pub open spec fn push_sign(solid: int, player: int) -> int {
    if solid < player {
        1
    } else {
        -1
    }
}

/// The adjustment after one solid was considered. When the player's box
/// meets the solid, the axis corrected is y if the boxes already overlapped
/// on x at the previous position, else x if they overlapped on y, else the
/// axis of the smaller current overlap (x on a tie); the correction is the
/// current overlap on that axis, away from the solid. It overwrites that
/// axis of `adj` and leaves the other.
pub open spec fn after_solid(adj: Adjustment, pos: Vec2, prev: Vec2, half: Vec2, s: Solid) -> Adjustment {
    let o = box_overlap(s.position, s.half_size, pos, half);
    let po = box_overlap(s.position, s.half_size, prev, half);
    let ax = (o.x * push_sign(s.position.x as int, pos.x as int)) as i128;
    let ay = (o.y * push_sign(s.position.y as int, pos.y as int)) as i128;
    if !intersects(o) {
        adj
    } else if po.x > 0 {
        Adjustment { y: ay, ..adj }
    } else if po.y > 0 {
        Adjustment { x: ax, ..adj }
    } else if o.x > o.y {
        Adjustment { y: ay, ..adj }
    } else {
        Adjustment { x: ax, ..adj }
    }
}

/// The adjustment after the solids were considered in order, starting from
/// none: on each axis the last solid that corrects it wins.
pub open spec fn adjustment_for(solids: Seq<Solid>, pos: Vec2, prev: Vec2, half: Vec2) -> Adjustment
    decreases solids.len(),
{
    if solids.len() == 0 {
        Adjustment { x: 0, y: 0 }
    } else {
        after_solid(adjustment_for(solids.drop_last(), pos, prev, half), pos, prev, half, solids.last())
    }
}

proof fn lemma_overlap_bounds(pa: Vec2, ha: Vec2, pb: Vec2, hb: Vec2)
    ensures
        -0x4_0000_0000_0000_0000 <= box_overlap(pa, ha, pb, hb).x <= 0x4_0000_0000_0000_0000,
        -0x4_0000_0000_0000_0000 <= box_overlap(pa, ha, pb, hb).y <= 0x4_0000_0000_0000_0000,
{
}

/// Each axis of an adjustment is at most the sum of two half-extents.
pub proof fn lemma_adjustment_bounds(solids: Seq<Solid>, pos: Vec2, prev: Vec2, half: Vec2)
    ensures
        -0x4_0000_0000_0000_0000 <= adjustment_for(solids, pos, prev, half).x <= 0x4_0000_0000_0000_0000,
        -0x4_0000_0000_0000_0000 <= adjustment_for(solids, pos, prev, half).y <= 0x4_0000_0000_0000_0000,
    decreases solids.len(),
{
    if solids.len() > 0 {
        lemma_adjustment_bounds(solids.drop_last(), pos, prev, half);
        let s = solids.last();
        lemma_overlap_bounds(s.position, s.half_size, pos, half);
    }
}

/// Considers one solid: see `after_solid`.
pub fn resolve_solid(adj: Adjustment, pos: Vec2, prev: Vec2, half: Vec2, s: Solid) -> (r: Adjustment)
    ensures
        r == after_solid(adj, pos, prev, half, s),
{
    let o: Overlap = get_overlap(s.position, s.half_size, pos, half);
    if !(o.x > 0 && o.y > 0) {
        return adj;
    }
    let po: Overlap = get_overlap(s.position, s.half_size, prev, half);
    proof {
        lemma_overlap_bounds(s.position, s.half_size, pos, half);
    }
    let ax: i128 = if s.position.x < pos.x { o.x } else { -o.x };
    let ay: i128 = if s.position.y < pos.y { o.y } else { -o.y };
    if po.x > 0 {
        Adjustment { y: ay, ..adj }
    } else if po.y > 0 {
        Adjustment { x: ax, ..adj }
    } else if o.x > o.y {
        Adjustment { y: ay, ..adj }
    } else {
        Adjustment { x: ax, ..adj }
    }
}

/// The correction of a player box at `pos` (at `prev` one frame earlier)
/// with half-size `half` against the solids, taken in order.
pub fn compute_adjustment(pos: Vec2, prev: Vec2, half: Vec2, solids: &Vec<Solid>) -> (r: Adjustment)
    ensures
        r == adjustment_for(solids@, pos, prev, half),
{
    let mut adj = Adjustment { x: 0, y: 0 };
    let mut i: usize = 0;
    while i < solids.len()
        invariant
            i <= solids@.len(),
            adj == adjustment_for(solids@.take(i as int), pos, prev, half),
        decreases solids.len() - i,
    {
        proof {
            assert(solids@.take(i as int + 1).drop_last() =~= solids@.take(i as int));
        }
        adj = resolve_solid(adj, pos, prev, half, solids[i]);
        i = i + 1;
    }
    proof {
        assert(solids@.take(solids@.len() as int) =~= solids@);
    }
    adj
}

} // verus!
