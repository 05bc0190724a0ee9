//! Axis-aligned box overlap and scalar clamping.
//!
//! Two boxes, each given by a centre and positive half-extents,
//! overlap exactly when the centre distance on each axis is less than
//! the sum of the half-extents on that axis.

use vstd::prelude::*;
use crate::components::Entity;
use crate::constants::COORD_LIMIT;

verus! {

/// Magnitude of a mathematical integer.
pub open spec fn abs_int(v: int) -> int {
    if v < 0 { -v } else { v }
}

/// The AABB overlap predicate: on both axes, the centres are closer
/// than the half-extents together reach.
pub open spec fn overlaps(
    ax: int, ay: int, ahx: int, ahy: int,
    bx: int, by: int, bhx: int, bhy: int,
) -> bool {
    &&& abs_int(ax - bx) < ahx + bhx
    &&& abs_int(ay - by) < ahy + bhy
}

/// Overlap is symmetric in the two boxes.
pub proof fn lemma_overlap_symmetric(
    ax: int, ay: int, ahx: int, ahy: int,
    bx: int, by: int, bhx: int, bhy: int,
)
    ensures
        overlaps(ax, ay, ahx, ahy, bx, by, bhx, bhy)
            == overlaps(bx, by, bhx, bhy, ax, ay, ahx, ahy),
{
}

/// Decides the AABB overlap test on sub-unit coordinates.
pub fn overlap(
    ax: i64, ay: i64, ahx: i64, ahy: i64,
    bx: i64, by: i64, bhx: i64, bhy: i64,
) -> (r: bool)
    requires
        -COORD_LIMIT <= ax <= COORD_LIMIT,
        -COORD_LIMIT <= ay <= COORD_LIMIT,
        -COORD_LIMIT <= bx <= COORD_LIMIT,
        -COORD_LIMIT <= by <= COORD_LIMIT,
        0 <= ahx <= COORD_LIMIT,
        0 <= ahy <= COORD_LIMIT,
        0 <= bhx <= COORD_LIMIT,
        0 <= bhy <= COORD_LIMIT,
    ensures
        r == overlaps(ax as int, ay as int, ahx as int, ahy as int,
                      bx as int, by as int, bhx as int, bhy as int),
{
    let dx: i64 = if ax >= bx { ax - bx } else { bx - ax };
    let dy: i64 = if ay >= by { ay - by } else { by - ay };
    dx < ahx + bhx && dy < ahy + bhy
}

/// Clamps `v` into `[lo, hi]`.
pub fn clamp_i64(v: i64, lo: i64, hi: i64) -> (r: i64)
    requires
        lo <= hi,
    ensures
        r == clamped(v as int, lo as int, hi as int),
{
    if v < lo {
        lo
    } else if v > hi {
        hi
    } else {
        v
    }
}

/// The value of `v` clamped into `[lo, hi]`.
pub open spec fn clamped(v: int, lo: int, hi: int) -> int {
    if v < lo { lo } else if v > hi { hi } else { v }
}

/// Whether the collision boxes of two entities overlap.
pub open spec fn ent_overlap(a: Entity, b: Entity) -> bool {
    overlaps(
        a.x as int, a.y as int, a.half_x as int, a.half_y as int,
        b.x as int, b.y as int, b.half_x as int, b.half_y as int,
    )
}

/// Decides the overlap test on two well-formed entities.
pub fn entities_overlap(a: &Entity, b: &Entity) -> (r: bool)
    requires
        a.wf(),
        b.wf(),
    ensures
        r == ent_overlap(*a, *b),
{
    overlap(a.x, a.y, a.half_x, a.half_y, b.x, b.y, b.half_x, b.half_y)
}

} // verus!
