//! Oriented-rectangle overlap by the separating axis theorem, with a plain
//! axis-aligned test as a fast path when both rotations are below the
//! small-angle threshold.
//!
//! Candidate axes are the perpendiculars of the eight rectangle edges,
//! taken unnormalized: whether two projection intervals overlap does not
//! change when the axis is scaled, so dividing by the axis length would
//! only cost precision. Near-zero-length edges are skipped, as an axis of
//! a degenerate edge carries no direction.

use vstd::prelude::*;
use vstd::math::{min, max};
use crate::fx::{FX_SMALL_ANGLE, lemma_mul_abs_bound};
use crate::geom::{Pt, PtV, pt_bounded, rect_center, rotate_pt_spec, rotate_point,
    lemma_rotate_bound, lemma_rotation_periodic, COORD_LIMIT};
use crate::trig::{norm_angle, normalize_angle, lemma_norm_angle_periodic};

verus! {

/// A rectangle as handed to the oriented test: position, size, rotation.
pub ghost struct RectV {
    pub pos: PtV,
    pub size: PtV,
    pub angle: int,
}

/// Rotation whose normalized angle is below the fast-path threshold
/// (about three degrees).
pub open spec fn small_angle(a: int) -> bool {
    -3277 < norm_angle(a) < 3277
}

/// Strict axis-aligned overlap: the rectangles share interior on both
/// axes; touching edges do not count.
pub open spec fn aabb_overlap(pos1: PtV, size1: PtV, pos2: PtV, size2: PtV) -> bool {
    &&& pos1.x < pos2.x + size2.x
    &&& pos1.x + size1.x > pos2.x
    &&& pos1.y < pos2.y + size2.y
    &&& pos1.y + size1.y > pos2.y
}

/// Rectangle bounds accepted by the oriented test.
pub open spec fn rect_wf(r: RectV) -> bool {
    &&& pt_bounded(r.pos, COORD_LIMIT as int)
    &&& 0 <= r.size.x <= COORD_LIMIT as int
    &&& 0 <= r.size.y <= COORD_LIMIT as int
}

/// World-space corner `i` (0..4, counter-clockwise from the top-left) of a
/// rectangle, rotated about the rectangle's center. Opaque: the overlap
/// test relates corners by name, not by re-deriving the rotation.
#[verifier::opaque]
pub open spec fn sat_corner(r: RectV, i: int) -> PtV {
    let c = rect_center(r.pos, r.size);
    let hw = r.size.x / 2;
    let hh = r.size.y / 2;
    let base = if i == 0 {
        PtV { x: c.x - hw, y: c.y - hh }
    } else if i == 1 {
        PtV { x: c.x + hw, y: c.y - hh }
    } else if i == 2 {
        PtV { x: c.x + hw, y: c.y + hh }
    } else {
        PtV { x: c.x - hw, y: c.y + hh }
    };
    rotate_pt_spec(base, c, r.angle)
}

/// Outward perpendicular of edge `i` of a rectangle (unnormalized).
pub open spec fn sat_axis(r: RectV, i: int) -> PtV {
    let a = sat_corner(r, i);
    let b = sat_corner(r, if i == 3 { 0 } else { i + 1 });
    PtV { x: -(b.y - a.y), y: b.x - a.x }
}

/// Candidate axis `i` of the pair: the first rectangle's four edge
/// perpendiculars, then the second's.
pub open spec fn sat_axis_at(r1: RectV, r2: RectV, i: int) -> PtV {
    if i < 4 {
        sat_axis(r1, i)
    } else {
        sat_axis(r2, i - 4)
    }
}

/// An axis is tested only when its edge is not degenerate: squared length
/// above the near-zero threshold (0.0001 world units, squared, in
/// fixed-point units).
pub open spec fn axis_kept(ax: PtV) -> bool {
    ax.x * ax.x + ax.y * ax.y > 42
}

/// Projection of a point onto an axis (scaled by the axis length).
pub open spec fn proj(p: PtV, ax: PtV) -> int {
    p.x * ax.x + p.y * ax.y
}

/// Least projection of a rectangle's corners onto an axis.
pub open spec fn rect_pmin(r: RectV, ax: PtV) -> int {
    min(
        min(min(proj(sat_corner(r, 0), ax), proj(sat_corner(r, 1), ax)), proj(sat_corner(r, 2), ax)),
        proj(sat_corner(r, 3), ax),
    )
}

/// Greatest projection of a rectangle's corners onto an axis.
pub open spec fn rect_pmax(r: RectV, ax: PtV) -> int {
    max(
        max(max(proj(sat_corner(r, 0), ax), proj(sat_corner(r, 1), ax)), proj(sat_corner(r, 2), ax)),
        proj(sat_corner(r, 3), ax),
    )
}

/// The two rectangles' projection intervals onto `ax` do not overlap.
pub open spec fn sat_gap(r1: RectV, r2: RectV, ax: PtV) -> bool {
    rect_pmin(r1, ax) > rect_pmax(r2, ax) || rect_pmin(r2, ax) > rect_pmax(r1, ax)
}

/// Some kept candidate axis separates the rectangles.
pub open spec fn sat_separated(r1: RectV, r2: RectV) -> bool {
    exists|i: int|
        0 <= i < 8 && axis_kept(#[trigger] sat_axis_at(r1, r2, i)) && sat_gap(
            r1,
            r2,
            sat_axis_at(r1, r2, i),
        )
}

/// The oriented-rectangle overlap result: the axis-aligned strict test when
/// both rotations are small, otherwise overlap exactly when no kept
/// candidate axis separates the rectangles.
pub open spec fn sat_spec(r1: RectV, r2: RectV) -> bool {
    if small_angle(r1.angle) && small_angle(r2.angle) {
        aabb_overlap(r1.pos, r1.size, r2.pos, r2.size)
    } else {
        !sat_separated(r1, r2)
    }
}

/// The four world-space corners of a rectangle.
fn sat_corners(pos: Pt, size: Pt, angle: i64) -> (cs: [Pt; 4])
    requires
        pt_bounded(pos@, COORD_LIMIT as int),
        0 <= size@.x <= COORD_LIMIT as int,
        0 <= size@.y <= COORD_LIMIT as int,
    ensures
        forall|i: int|
            0 <= i < 4 ==> cs@[i]@ == sat_corner(
                RectV { pos: pos@, size: size@, angle: angle as int },
                i,
            ),
        forall|i: int| 0 <= i < 4 ==> pt_bounded(#[trigger] cs@[i]@, 0x1000000000000),
{
    proof {
        reveal(sat_corner);
    }
    let half_w = ((size.x as u64) / 2) as i64;
    let half_h = ((size.y as u64) / 2) as i64;
    let c = Pt { x: pos.x + half_w, y: pos.y + half_h };
    let b0 = Pt { x: c.x - half_w, y: c.y - half_h };
    let b1 = Pt { x: c.x + half_w, y: c.y - half_h };
    let b2 = Pt { x: c.x + half_w, y: c.y + half_h };
    let b3 = Pt { x: c.x - half_w, y: c.y + half_h };
    proof {
        let m = 0x200000000000int;
        lemma_rotate_bound(b0@, c@, angle as int, m);
        lemma_rotate_bound(b1@, c@, angle as int, m);
        lemma_rotate_bound(b2@, c@, angle as int, m);
        lemma_rotate_bound(b3@, c@, angle as int, m);
    }
    let p0 = rotate_point(b0, c, angle);
    let p1 = rotate_point(b1, c, angle);
    let p2 = rotate_point(b2, c, angle);
    let p3 = rotate_point(b3, c, angle);
    [p0, p1, p2, p3]
}

/// Projection of one corner onto an axis, exact in 128-bit arithmetic.
fn proj_pt(p: Pt, ax_x: i64, ax_y: i64) -> (r: i128)
    requires
        pt_bounded(p@, 0x1000000000000),
        -0x2000000000000 <= ax_x as int <= 0x2000000000000,
        -0x2000000000000 <= ax_y as int <= 0x2000000000000,
    ensures
        r as int == proj(p@, PtV { x: ax_x as int, y: ax_y as int }),
{
    proof {
        lemma_mul_abs_bound(p@.x, ax_x as int, 0x1000000000000, 0x2000000000000);
        lemma_mul_abs_bound(p@.y, ax_y as int, 0x1000000000000, 0x2000000000000);
    }
    (p.x as i128) * (ax_x as i128) + (p.y as i128) * (ax_y as i128)
}

/// Least and greatest projection of four corners onto an axis.
fn project_minmax(cs: &[Pt; 4], ax_x: i64, ax_y: i64) -> (r: (i128, i128))
    requires
        forall|i: int| 0 <= i < 4 ==> pt_bounded(#[trigger] cs@[i]@, 0x1000000000000),
        -0x2000000000000 <= ax_x as int <= 0x2000000000000,
        -0x2000000000000 <= ax_y as int <= 0x2000000000000,
    ensures
        ({
            let ax = PtV { x: ax_x as int, y: ax_y as int };
            &&& r.0 as int == min(
                min(min(proj(cs@[0]@, ax), proj(cs@[1]@, ax)), proj(cs@[2]@, ax)),
                proj(cs@[3]@, ax),
            )
            &&& r.1 as int == max(
                max(max(proj(cs@[0]@, ax), proj(cs@[1]@, ax)), proj(cs@[2]@, ax)),
                proj(cs@[3]@, ax),
            )
        }),
{
    let p0 = proj_pt(cs[0], ax_x, ax_y);
    let p1 = proj_pt(cs[1], ax_x, ax_y);
    let p2 = proj_pt(cs[2], ax_x, ax_y);
    let p3 = proj_pt(cs[3], ax_x, ax_y);
    let mut mn = p0;
    let mut mx = p0;
    if p1 < mn { mn = p1; }
    if p1 > mx { mx = p1; }
    if p2 < mn { mn = p2; }
    if p2 > mx { mx = p2; }
    if p3 < mn { mn = p3; }
    if p3 > mx { mx = p3; }
    (mn, mx)
}

/// Overlap test for two rotated solid rectangles. Falls back to the strict
/// axis-aligned test when both rotations are below the small-angle
/// threshold; otherwise runs the separating axis theorem over the eight
/// edge perpendiculars and reports overlap exactly when no kept axis shows
/// a projection gap.
#[verifier::rlimit(30)]
#[verifier::loop_isolation(false)]
pub fn check_rotated_rectangle_collision(
    pos1: Pt,
    size1: Pt,
    angle1: i64,
    pos2: Pt,
    size2: Pt,
    angle2: i64,
) -> (r: bool)
    requires
        rect_wf(RectV { pos: pos1@, size: size1@, angle: angle1 as int }),
        rect_wf(RectV { pos: pos2@, size: size2@, angle: angle2 as int }),
    ensures
        r == sat_spec(
            RectV { pos: pos1@, size: size1@, angle: angle1 as int },
            RectV { pos: pos2@, size: size2@, angle: angle2 as int },
        ),
{
    let ghost r1 = RectV { pos: pos1@, size: size1@, angle: angle1 as int };
    let ghost r2 = RectV { pos: pos2@, size: size2@, angle: angle2 as int };
    let n1 = normalize_angle(angle1);
    let n2 = normalize_angle(angle2);
    if n1 > -FX_SMALL_ANGLE && n1 < FX_SMALL_ANGLE && n2 > -FX_SMALL_ANGLE && n2
        < FX_SMALL_ANGLE {
        return pos1.x < pos2.x + size2.x && pos1.x + size1.x > pos2.x && pos1.y < pos2.y + size2.y
            && pos1.y + size1.y > pos2.y;
    }
    let corners1 = sat_corners(pos1, size1, angle1);
    let corners2 = sat_corners(pos2, size2, angle2);
    let mut i: usize = 0;
    while i < 8
        invariant
            forall|j: int|
                0 <= j < i ==> !(axis_kept(#[trigger] sat_axis_at(r1, r2, j)) && sat_gap(
                    r1,
                    r2,
                    sat_axis_at(r1, r2, j),
                )),
            !(small_angle(r1.angle) && small_angle(r2.angle)),
            forall|k: int| 0 <= k < 4 ==> corners1@[k]@ == sat_corner(r1, k),
            forall|k: int| 0 <= k < 4 ==> corners2@[k]@ == sat_corner(r2, k),
            forall|k: int| 0 <= k < 4 ==> pt_bounded(#[trigger] corners1@[k]@, 0x1000000000000),
            forall|k: int| 0 <= k < 4 ==> pt_bounded(#[trigger] corners2@[k]@, 0x1000000000000),
            i <= 8,
        decreases 8 - i,
    {
        let a: Pt;
        let b: Pt;
        if i < 4 {
            a = corners1[i];
            b = corners1[(i + 1) % 4];
            proof {
                let gi = i as int;
                assert(a@ == sat_corner(r1, gi));
                assert(pt_bounded(corners1@[gi]@, 0x1000000000000));
                assert(b@ == sat_corner(r1, if gi == 3 { 0int } else { gi + 1 }));
                assert(pt_bounded(corners1@[if gi == 3 { 0int } else { gi + 1 }]@,
                    0x1000000000000));
            }
        } else {
            a = corners2[i - 4];
            b = corners2[(i - 4 + 1) % 4];
            proof {
                let gi = i as int - 4;
                assert(a@ == sat_corner(r2, gi));
                assert(pt_bounded(corners2@[gi]@, 0x1000000000000));
                assert(b@ == sat_corner(r2, if gi == 3 { 0int } else { gi + 1 }));
                assert(pt_bounded(corners2@[if gi == 3 { 0int } else { gi + 1 }]@,
                    0x1000000000000));
            }
        }
        let perp_x = -(b.y - a.y);
        let perp_y = b.x - a.x;
        proof {
            assert(PtV { x: perp_x as int, y: perp_y as int } == sat_axis_at(r1, r2, i as int));
            lemma_mul_abs_bound(perp_x as int, perp_x as int, 0x2000000000000, 0x2000000000000);
            lemma_mul_abs_bound(perp_y as int, perp_y as int, 0x2000000000000, 0x2000000000000);
        }
        let len_sq: i128 = (perp_x as i128) * (perp_x as i128) + (perp_y as i128) * (perp_y
            as i128);
        if len_sq > 42 {
            let (min1, max1) = project_minmax(&corners1, perp_x, perp_y);
            let (min2, max2) = project_minmax(&corners2, perp_x, perp_y);
            if min1 > max2 || min2 > max1 {
                proof {
                    let ax = sat_axis_at(r1, r2, i as int);
                    assert(axis_kept(ax) && sat_gap(r1, r2, ax));
                    assert(sat_separated(r1, r2));
                }
                return false;
            }
        }
        i = i + 1;
    }
    proof {
        assert(!sat_separated(r1, r2));
    }
    true
}

/// The oriented-rectangle test does not depend on the order of its two
/// rectangles: the candidate axes of the pair are the same set, a
/// projection gap reads the same from either side, and the axis-aligned
/// fast path is a symmetric conjunction.
pub proof fn lemma_sat_symmetric(r1: RectV, r2: RectV)
    ensures
        sat_spec(r1, r2) == sat_spec(r2, r1),
{
    if !(small_angle(r1.angle) && small_angle(r2.angle)) {
        if sat_separated(r1, r2) {
            let i = choose|i: int|
                0 <= i < 8 && axis_kept(#[trigger] sat_axis_at(r1, r2, i)) && sat_gap(
                    r1,
                    r2,
                    sat_axis_at(r1, r2, i),
                );
            let j = if i < 4 { i + 4 } else { i - 4 };
            assert(sat_axis_at(r2, r1, j) == sat_axis_at(r1, r2, i));
            assert(sat_separated(r2, r1));
        }
        if sat_separated(r2, r1) {
            let i = choose|i: int|
                0 <= i < 8 && axis_kept(#[trigger] sat_axis_at(r2, r1, i)) && sat_gap(
                    r2,
                    r1,
                    sat_axis_at(r2, r1, i),
                );
            let j = if i < 4 { i + 4 } else { i - 4 };
            assert(sat_axis_at(r1, r2, j) == sat_axis_at(r2, r1, i));
            assert(sat_separated(r1, r2));
        }
    }
}

/// When both rotations are below the small-angle threshold, the oriented
/// test is exactly the strict axis-aligned overlap test.
pub proof fn lemma_sat_small_angle(r1: RectV, r2: RectV)
    requires
        small_angle(r1.angle),
        small_angle(r2.angle),
    ensures
        sat_spec(r1, r2) == aabb_overlap(r1.pos, r1.size, r2.pos, r2.size),
{
}

/// Shifting one rectangle's rotation by a full turn changes nothing about
/// the oriented test: the normalized angle, and with it every corner and
/// candidate axis, stays the same.
pub proof fn lemma_sat_full_turn(r1: RectV, r2: RectV)
    ensures
        sat_spec(RectV { pos: r1.pos, size: r1.size, angle: r1.angle + 411775 }, r2) == sat_spec(
            r1,
            r2,
        ),
{
    let r1t = RectV { pos: r1.pos, size: r1.size, angle: r1.angle + 411775 };
    lemma_norm_angle_periodic(r1.angle);
    assert forall|i: int| 0 <= i < 4 implies #[trigger] sat_corner(r1t, i) == sat_corner(
        r1,
        i,
    ) by {
        reveal(sat_corner);
        let c = rect_center(r1.pos, r1.size);
        let hw = r1.size.x / 2;
        let hh = r1.size.y / 2;
        lemma_rotation_periodic(PtV { x: c.x - hw, y: c.y - hh }, c, r1.angle);
        lemma_rotation_periodic(PtV { x: c.x + hw, y: c.y - hh }, c, r1.angle);
        lemma_rotation_periodic(PtV { x: c.x + hw, y: c.y + hh }, c, r1.angle);
        lemma_rotation_periodic(PtV { x: c.x - hw, y: c.y + hh }, c, r1.angle);
    }
    if sat_separated(r1t, r2) {
        let i = choose|i: int|
            0 <= i < 8 && axis_kept(#[trigger] sat_axis_at(r1t, r2, i)) && sat_gap(
                r1t,
                r2,
                sat_axis_at(r1t, r2, i),
            );
        assert(sat_axis_at(r1t, r2, i) == sat_axis_at(r1, r2, i));
        assert(sat_gap(r1, r2, sat_axis_at(r1, r2, i)));
        assert(sat_separated(r1, r2));
    }
    if sat_separated(r1, r2) {
        let i = choose|i: int|
            0 <= i < 8 && axis_kept(#[trigger] sat_axis_at(r1, r2, i)) && sat_gap(
                r1,
                r2,
                sat_axis_at(r1, r2, i),
            );
        assert(sat_axis_at(r1t, r2, i) == sat_axis_at(r1, r2, i));
        assert(sat_gap(r1t, r2, sat_axis_at(r1t, r2, i)));
        assert(sat_separated(r1t, r2));
    }
}

} // verus!
