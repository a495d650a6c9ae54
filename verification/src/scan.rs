//! Masked overlap scanners. Every scanner walks the integer sample grid of
//! the rectangle where the two entities' (rotated) bounding boxes overlap,
//! stepping by `skip_pixels` world units on both axes, and reports whether
//! any sampled world point hits opaque material of both entities. The
//! per-point test adapts to the pair: mask bits are read directly for
//! axis-aligned entities, or after rotating the sample point back into an
//! entity's local frame when that entity is rotated.

use vstd::prelude::*;
use vstd::arithmetic::div_mod::{lemma_div_is_ordered, lemma_fundamental_div_mod,
    lemma_mod_add_multiples_vanish};
use vstd::pervasive::unreached;
use crate::geom::{Pt, PtV, pt_bounded, rect_center, rotate_pt_spec, rotate_point, tex_coord,
    calc_tex_coord, in_rect, is_point_in_bounds, mask_bit, is_mask_bit_set, COORD_LIMIT};
use crate::entity::{Entity, EntV, ent_wf, with_angle};
use crate::trig::{norm_angle, normalize_angle, lemma_norm_angle_periodic};

verus! {

/// Largest magnitude accepted for an overlap-region coordinate.
pub const OVERLAP_POS_LIMIT: i64 = 0x2000000000000;

/// Largest accepted overlap-region extent.
pub const OVERLAP_EXT_LIMIT: i64 = 0x4000000000000;

/// Number of whole world units covered by a fixed-point extent: the sample
/// grid of an overlap region spans this many points per axis.
pub open spec fn units(w: int) -> int {
    w / 65536
}

/// Center of an entity's rectangle.
pub open spec fn ent_center(e: EntV) -> PtV {
    rect_center(e.pos, e.size)
}

/// Mask texel index of a point in an entity's texture grid.
pub open spec fn mask_index(e: EntV, px: int, py: int) -> int {
    let tx = tex_coord(px, e.pos.x, e.size.x, e.tex_w);
    let ty = tex_coord(py, e.pos.y, e.size.y, e.tex_h);
    ty * e.tex_w + tx
}

/// The entity's opacity bit under a point given in the entity's own
/// (unrotated) frame.
pub open spec fn opaque_at(e: EntV, px: int, py: int) -> bool {
    mask_bit(e.mask->Some_0, mask_index(e, px, py))
}

/// Both entities masked, neither rotated: both opacity bits set under the
/// world point.
pub open spec fn both_masked_hit(e1: EntV, e2: EntV, wx: int, wy: int) -> bool {
    opaque_at(e1, wx, wy) && opaque_at(e2, wx, wy)
}

/// Exactly one entity masked, neither rotated: the masked entity is opaque
/// under the world point, which also lies in the solid entity's rectangle.
pub open spec fn one_masked_hit(m: EntV, o: EntV, wx: int, wy: int) -> bool {
    opaque_at(m, wx, wy) && in_rect(PtV { x: wx, y: wy }, o.pos, o.size)
}

/// Rotation present, exactly one entity masked: the world point is carried
/// into each entity's local frame by the inverse rotation; the masked
/// entity must contain the local point (its rotated bounding box
/// over-approximates the footprint) and be opaque there, and the solid
/// entity must contain its own local point.
pub open spec fn rot_one_masked_hit(m: EntV, o: EntV, wx: int, wy: int) -> bool {
    let lm = rotate_pt_spec(PtV { x: wx, y: wy }, ent_center(m), -m.angle);
    let lo = rotate_pt_spec(PtV { x: wx, y: wy }, ent_center(o), -o.angle);
    in_rect(lm, m.pos, m.size) && opaque_at(m, lm.x, lm.y) && in_rect(lo, o.pos, o.size)
}

/// Rotation present, both entities masked: both local points must lie in
/// their rectangles and both opacity bits must be set there.
pub open spec fn rot_both_masked_hit(e1: EntV, e2: EntV, wx: int, wy: int) -> bool {
    let l1 = rotate_pt_spec(PtV { x: wx, y: wy }, ent_center(e1), -e1.angle);
    let l2 = rotate_pt_spec(PtV { x: wx, y: wy }, ent_center(e2), -e2.angle);
    in_rect(l1, e1.pos, e1.size) && in_rect(l2, e2.pos, e2.size) && opaque_at(e1, l1.x, l1.y)
        && opaque_at(e2, l2.x, l2.y)
}

/// Whether one sampled world point is a collision for the pair: the
/// per-point test of whichever scanner variant the pair's rotation state
/// and mask availability select. Rotation state is judged on the
/// normalized angle, so a whole number of full turns counts as unrotated.
/// A pair with no masks never reaches a scanner (the oriented-rectangle
/// test decides it), so it hits nowhere.
pub open spec fn pixel_hit(e1: EntV, e2: EntV, wx: int, wy: int) -> bool {
    if norm_angle(e1.angle) != 0 || norm_angle(e2.angle) != 0 {
        if e1.mask is Some && e2.mask is None {
            rot_one_masked_hit(e1, e2, wx, wy)
        } else if e1.mask is None && e2.mask is Some {
            rot_one_masked_hit(e2, e1, wx, wy)
        } else if e1.mask is Some && e2.mask is Some {
            rot_both_masked_hit(e1, e2, wx, wy)
        } else {
            false
        }
    } else {
        if e1.mask is Some && e2.mask is None {
            one_masked_hit(e1, e2, wx, wy)
        } else if e1.mask is None && e2.mask is Some {
            one_masked_hit(e2, e1, wx, wy)
        } else if e1.mask is Some && e2.mask is Some {
            both_masked_hit(e1, e2, wx, wy)
        } else {
            false
        }
    }
}

/// Collision at sample `(x, y)` of the grid anchored at `(ox, oy)`: the
/// world point one world unit per step away from the overlap origin.
pub open spec fn pixel_hit_at(e1: EntV, e2: EntV, ox: int, oy: int, x: int, y: int) -> bool {
    pixel_hit(e1, e2, ox + 65536 * x, oy + 65536 * y)
}

/// Some sampled point of row `y` collides (columns `0 <= x < w` stepping
/// by `skip`).
pub open spec fn row_hit(e1: EntV, e2: EntV, ox: int, oy: int, w: int, skip: int, y: int) -> bool {
    exists|x: int|
        0 <= x < w && x % skip == 0 && #[trigger] pixel_hit_at(e1, e2, ox, oy, x, y)
}

/// Some sampled point of the whole overlap region collides (rows
/// `0 <= y < h` stepping by `skip`).
pub open spec fn scan_hit(e1: EntV, e2: EntV, ox: int, oy: int, w: int, h: int, skip: int) -> bool {
    exists|y: int|
        0 <= y < h && y % skip == 0 && #[trigger] row_hit(e1, e2, ox, oy, w, skip, y)
}

/// Two distinct multiples of `k` lie at least `k` apart.
pub proof fn lemma_next_multiple(y: int, yy: int, k: int)
    requires
        0 < k,
        0 <= y < yy,
        y % k == 0,
        yy % k == 0,
    ensures
        y + k <= yy,
{
    let a = y / k;
    let b = yy / k;
    lemma_fundamental_div_mod(y, k);
    lemma_fundamental_div_mod(yy, k);
    assert(a < b) by (nonlinear_arith)
        requires
            k > 0,
            k * a < k * b,
    ;
    assert(k * a + k <= k * b) by (nonlinear_arith)
        requires
            k > 0,
            a + 1 <= b,
    ;
}

/// A multiple of one world unit below two units is zero or one unit.
pub proof fn lemma_unit_multiple(n: int)
    requires
        n % 65536 == 0,
        0 <= n < 131072,
    ensures
        n == 0 || n == 65536,
{
    lemma_fundamental_div_mod(n, 65536);
    lemma_div_is_ordered(0, n, 65536);
    lemma_div_is_ordered(n, 131071, 65536);
}

/// An entity whose 2x2-texel mask is opaque only at the top-left texel,
/// mapped onto a 2x2-unit rectangle, is opaque under an integer-aligned
/// point of its rectangle exactly at the rectangle's own corner.
pub proof fn lemma_single_texel_opacity(e: EntV, wx: int, wy: int)
    requires
        e.size.x == 131072,
        e.size.y == 131072,
        e.tex_w == 2,
        e.tex_h == 2,
        e.mask is Some,
        e.mask->Some_0 == seq![0x80u8],
        (wx - e.pos.x) % 65536 == 0,
        (wy - e.pos.y) % 65536 == 0,
        0 <= wx - e.pos.x < 131072,
        0 <= wy - e.pos.y < 131072,
    ensures
        opaque_at(e, wx, wy) == (wx == e.pos.x && wy == e.pos.y),
{
    lemma_unit_multiple(wx - e.pos.x);
    lemma_unit_multiple(wy - e.pos.y);
    crate::geom::lemma_tex_coord_two_texels(wx, e.pos.x);
    crate::geom::lemma_tex_coord_two_texels(wy, e.pos.y);
    assert((0x80u8 >> 7) & 1 == 1u8) by (bit_vector);
    assert((0x80u8 >> 6) & 1 == 0u8) by (bit_vector);
    assert((0x80u8 >> 5) & 1 == 0u8) by (bit_vector);
    assert((0x80u8 >> 4) & 1 == 0u8) by (bit_vector);
}

/// Center of an entity's rectangle, in executable form.
fn center_of(e: &Entity) -> (c: Pt)
    requires
        ent_wf(e@),
    ensures
        c@ == ent_center(e@),
        pt_bounded(c@, 2 * (COORD_LIMIT as int)),
{
    Pt {
        x: e.pos.x + ((e.size.x as u64) / 2) as i64,
        y: e.pos.y + ((e.size.y as u64) / 2) as i64,
    }
}

/// The packed mask of an entity known to carry one.
fn mask_of(e: &Entity) -> (m: &Vec<u8>)
    requires
        e@.mask is Some,
    ensures
        m@ == e@.mask->Some_0,
{
    match &e.mask {
        Some(m) => m,
        None => unreached(),
    }
}

/// Reads the entity's opacity bit under a point in the entity's own frame;
/// a point mapping beyond the mask reads as transparent.
fn opacity_at(e: &Entity, p: Pt) -> (r: bool)
    requires
        ent_wf(e@),
        e@.mask is Some,
        pt_bounded(p@, 8 * (crate::geom::PT_LIMIT as int)),
    ensures
        r == opaque_at(e@, p@.x, p@.y),
{
    let (tx, ty) = calc_tex_coord(p, e.pos, e.size, e.tex_w, e.tex_h);
    proof {
        vstd::arithmetic::mul::lemma_mul_upper_bound(ty as int, 0x100000, e.tex_w as int,
            0x100000int);
        vstd::arithmetic::mul::lemma_mul_nonnegative(ty as int, e.tex_w as int);
    }
    let idx: u64 = (ty as u64) * (e.tex_w as u64) + (tx as u64);
    match is_mask_bit_set(mask_of(e), idx) {
        Some(b) => b,
        None => false,
    }
}

/// Per-point collision test for one sampled world point, selecting the
/// variant the pair's rotation state and mask availability call for.
fn pixel_test(e1: &Entity, e2: &Entity, wx: i64, wy: i64) -> (r: bool)
    requires
        ent_wf(e1@),
        ent_wf(e2@),
        -0x8000000000000 <= wx as int <= 0x8000000000000,
        -0x8000000000000 <= wy as int <= 0x8000000000000,
    ensures
        r == pixel_hit(e1@, e2@, wx as int, wy as int),
{
    let wp = Pt { x: wx, y: wy };
    let rotated = normalize_angle(e1.angle) != 0 || normalize_angle(e2.angle) != 0;
    let m1 = e1.mask.is_some();
    let m2 = e2.mask.is_some();
    if rotated {
        if m1 && !m2 {
            rot_one_masked_point(e1, e2, wp)
        } else if !m1 && m2 {
            rot_one_masked_point(e2, e1, wp)
        } else if m1 && m2 {
            rot_both_masked_point(e1, e2, wp)
        } else {
            false
        }
    } else {
        if m1 && !m2 {
            one_masked_point(e1, e2, wp)
        } else if !m1 && m2 {
            one_masked_point(e2, e1, wp)
        } else if m1 && m2 {
            opacity_at(e1, wp) && opacity_at(e2, wp)
        } else {
            false
        }
    }
}

/// Unrotated, one mask: opacity of the masked entity under the world point,
/// and containment in the solid entity's rectangle.
fn one_masked_point(m: &Entity, o: &Entity, wp: Pt) -> (r: bool)
    requires
        ent_wf(m@),
        ent_wf(o@),
        m@.mask is Some,
        pt_bounded(wp@, 0x8000000000000),
    ensures
        r == one_masked_hit(m@, o@, wp@.x, wp@.y),
{
    let is_opaque = opacity_at(m, wp);
    let in_other_bounds = is_point_in_bounds(wp, o.pos, o.size);
    is_opaque && in_other_bounds
}

/// Rotated, one mask: the world point is carried into each entity's local
/// frame; the masked entity must contain the local point before its mask is
/// sampled, and the solid entity must contain its own local point.
fn rot_one_masked_point(m: &Entity, o: &Entity, wp: Pt) -> (r: bool)
    requires
        ent_wf(m@),
        ent_wf(o@),
        m@.mask is Some,
        pt_bounded(wp@, 0x8000000000000),
    ensures
        r == rot_one_masked_hit(m@, o@, wp@.x, wp@.y),
{
    let local_masked = rotate_point(wp, center_of(m), -m.angle);
    if !is_point_in_bounds(local_masked, m.pos, m.size) {
        return false;
    }
    let is_opaque = opacity_at(m, local_masked);
    if !is_opaque {
        return false;
    }
    let local_other = rotate_point(wp, center_of(o), -o.angle);
    is_opaque && is_point_in_bounds(local_other, o.pos, o.size)
}

/// Rotated, both masked: both local points must lie in their rectangles
/// and both mask bits must be set there.
fn rot_both_masked_point(e1: &Entity, e2: &Entity, wp: Pt) -> (r: bool)
    requires
        ent_wf(e1@),
        ent_wf(e2@),
        e1@.mask is Some,
        e2@.mask is Some,
        pt_bounded(wp@, 0x8000000000000),
    ensures
        r == rot_both_masked_hit(e1@, e2@, wp@.x, wp@.y),
{
    let local1 = rotate_point(wp, center_of(e1), -e1.angle);
    let local2 = rotate_point(wp, center_of(e2), -e2.angle);
    if !is_point_in_bounds(local1, e1.pos, e1.size) || !is_point_in_bounds(local2, e2.pos, e2.size)
    {
        return false;
    }
    opacity_at(e1, local1) && opacity_at(e2, local2)
}

/// Scans one row of the sample grid: columns `0, skip, 2*skip, ...` below
/// the overlap width, reporting whether any sampled point collides.
#[verifier::loop_isolation(false)]
pub fn scan_row(
    e1: &Entity,
    e2: &Entity,
    overlap_x: i64,
    overlap_y: i64,
    overlap_w: i64,
    skip_pixels: usize,
    y: u64,
) -> (r: bool)
    requires
        ent_wf(e1@),
        ent_wf(e2@),
        skip_pixels >= 1,
        -(OVERLAP_POS_LIMIT as int) <= overlap_x as int <= OVERLAP_POS_LIMIT as int,
        -(OVERLAP_POS_LIMIT as int) <= overlap_y as int <= OVERLAP_POS_LIMIT as int,
        0 < overlap_w as int <= OVERLAP_EXT_LIMIT as int,
        0 <= y as int <= 0x400000000,
    ensures
        r == row_hit(
            e1@,
            e2@,
            overlap_x as int,
            overlap_y as int,
            units(overlap_w as int),
            skip_pixels as int,
            y as int,
        ),
{
    let w_units: u64 = (overlap_w as u64) / 65536;
    proof {
        lemma_div_is_ordered(overlap_w as int, OVERLAP_EXT_LIMIT as int, 65536);
    }
    let wy: i64 = overlap_y + (y as i64) * 65536;
    let skip: u64 = skip_pixels as u64;
    let ghost w = units(overlap_w as int);
    let ghost gskip = skip_pixels as int;
    let mut x: u64 = 0;
    while x < w_units
        invariant
            x as int % gskip == 0,
            0 <= x,
            forall|xx: int|
                0 <= xx < x && xx % gskip == 0 ==> !pixel_hit_at(
                    e1@,
                    e2@,
                    overlap_x as int,
                    overlap_y as int,
                    xx,
                    y as int,
                ),
        decreases w_units - x,
    {
        let wx: i64 = overlap_x + (x as i64) * 65536;
        if pixel_test(e1, e2, wx, wy) {
            proof {
                assert(pixel_hit_at(e1@, e2@, overlap_x as int, overlap_y as int, x as int,
                    y as int));
            }
            return true;
        }
        if w_units - x <= skip {
            proof {
                assert forall|xx: int|
                    0 <= xx < w && xx % gskip == 0 implies !pixel_hit_at(
                    e1@,
                    e2@,
                    overlap_x as int,
                    overlap_y as int,
                    xx,
                    y as int,
                ) by {
                    if xx > x as int {
                        lemma_next_multiple(x as int, xx, gskip);
                    }
                }
            }
            return false;
        }
        proof {
            assert forall|xx: int|
                0 <= xx < x + skip && xx % gskip == 0 implies !pixel_hit_at(
                e1@,
                e2@,
                overlap_x as int,
                overlap_y as int,
                xx,
                y as int,
            ) by {
                if xx > x as int {
                    lemma_next_multiple(x as int, xx, gskip);
                }
            }
            lemma_mod_add_multiples_vanish(x as int, gskip);
        }
        x = x + skip;
    }
    false
}

/// Sequential scan of the whole overlap region: rows `0, skip, 2*skip, ...`
/// below the overlap height, each row scanned in turn; reports whether any
/// sampled point collides. This is the nested-loop execution backend.
#[verifier::loop_isolation(false)]
pub fn scan_overlap_region(
    e1: &Entity,
    e2: &Entity,
    overlap_x: i64,
    overlap_y: i64,
    overlap_w: i64,
    overlap_h: i64,
    skip_pixels: usize,
) -> (r: bool)
    requires
        ent_wf(e1@),
        ent_wf(e2@),
        skip_pixels >= 1,
        -(OVERLAP_POS_LIMIT as int) <= overlap_x as int <= OVERLAP_POS_LIMIT as int,
        -(OVERLAP_POS_LIMIT as int) <= overlap_y as int <= OVERLAP_POS_LIMIT as int,
        0 < overlap_w as int <= OVERLAP_EXT_LIMIT as int,
        0 < overlap_h as int <= OVERLAP_EXT_LIMIT as int,
    ensures
        r == scan_hit(
            e1@,
            e2@,
            overlap_x as int,
            overlap_y as int,
            units(overlap_w as int),
            units(overlap_h as int),
            skip_pixels as int,
        ),
{
    let h_units: u64 = (overlap_h as u64) / 65536;
    proof {
        lemma_div_is_ordered(overlap_h as int, OVERLAP_EXT_LIMIT as int, 65536);
    }
    let skip: u64 = skip_pixels as u64;
    let ghost h = units(overlap_h as int);
    let ghost gskip = skip_pixels as int;
    let mut y: u64 = 0;
    while y < h_units
        invariant
            y as int % gskip == 0,
            0 <= y,
            forall|yy: int|
                0 <= yy < y && yy % gskip == 0 ==> !row_hit(
                    e1@,
                    e2@,
                    overlap_x as int,
                    overlap_y as int,
                    units(overlap_w as int),
                    gskip,
                    yy,
                ),
        decreases h_units - y,
    {
        if scan_row(e1, e2, overlap_x, overlap_y, overlap_w, skip_pixels, y) {
            return true;
        }
        if h_units - y <= skip {
            proof {
                assert forall|yy: int|
                    0 <= yy < h && yy % gskip == 0 implies !row_hit(
                    e1@,
                    e2@,
                    overlap_x as int,
                    overlap_y as int,
                    units(overlap_w as int),
                    gskip,
                    yy,
                ) by {
                    if yy > y as int {
                        lemma_next_multiple(y as int, yy, gskip);
                    }
                }
            }
            return false;
        }
        proof {
            assert forall|yy: int|
                0 <= yy < y + skip && yy % gskip == 0 implies !row_hit(
                e1@,
                e2@,
                overlap_x as int,
                overlap_y as int,
                units(overlap_w as int),
                gskip,
                yy,
            ) by {
                if yy > y as int {
                    lemma_next_multiple(y as int, yy, gskip);
                }
            }
            lemma_mod_add_multiples_vanish(y as int, gskip);
        }
        y = y + skip;
    }
    false
}

/// Collision scan when exactly one axis-aligned entity carries a mask:
/// a sampled point collides when the masked entity is opaque under it and
/// it lies inside the solid entity's rectangle.
pub fn check_one_masked_collision(
    masked: &Entity,
    other: &Entity,
    overlap_x: i64,
    overlap_y: i64,
    overlap_w: i64,
    overlap_h: i64,
    skip_pixels: usize,
) -> (r: bool)
    requires
        ent_wf(masked@),
        ent_wf(other@),
        masked@.mask is Some,
        other@.mask is None,
        norm_angle(masked@.angle) == 0,
        norm_angle(other@.angle) == 0,
        skip_pixels >= 1,
        -(OVERLAP_POS_LIMIT as int) <= overlap_x as int <= OVERLAP_POS_LIMIT as int,
        -(OVERLAP_POS_LIMIT as int) <= overlap_y as int <= OVERLAP_POS_LIMIT as int,
        0 < overlap_w as int <= OVERLAP_EXT_LIMIT as int,
        0 < overlap_h as int <= OVERLAP_EXT_LIMIT as int,
    ensures
        r == scan_hit(
            masked@,
            other@,
            overlap_x as int,
            overlap_y as int,
            units(overlap_w as int),
            units(overlap_h as int),
            skip_pixels as int,
        ),
{
    scan_overlap_region(masked, other, overlap_x, overlap_y, overlap_w, overlap_h, skip_pixels)
}

/// Collision scan when exactly one of the entities carries a mask and at
/// least one is rotated (a whole number of full turns counts as no
/// rotation): each sampled world point is carried into the entities' local
/// frames by the inverse rotations, and the masked entity must contain its
/// local point before its mask is sampled.
pub fn check_one_rotated_masked_collision(
    masked: &Entity,
    other: &Entity,
    overlap_x: i64,
    overlap_y: i64,
    overlap_w: i64,
    overlap_h: i64,
    skip_pixels: usize,
) -> (r: bool)
    requires
        ent_wf(masked@),
        ent_wf(other@),
        masked@.mask is Some,
        other@.mask is None,
        norm_angle(masked@.angle) != 0 || norm_angle(other@.angle) != 0,
        skip_pixels >= 1,
        -(OVERLAP_POS_LIMIT as int) <= overlap_x as int <= OVERLAP_POS_LIMIT as int,
        -(OVERLAP_POS_LIMIT as int) <= overlap_y as int <= OVERLAP_POS_LIMIT as int,
        0 < overlap_w as int <= OVERLAP_EXT_LIMIT as int,
        0 < overlap_h as int <= OVERLAP_EXT_LIMIT as int,
    ensures
        r == scan_hit(
            masked@,
            other@,
            overlap_x as int,
            overlap_y as int,
            units(overlap_w as int),
            units(overlap_h as int),
            skip_pixels as int,
        ),
{
    scan_overlap_region(masked, other, overlap_x, overlap_y, overlap_w, overlap_h, skip_pixels)
}

/// The per-point test does not depend on the order of the two entities:
/// every variant reads the same bits and rectangles either way around.
pub proof fn lemma_pixel_hit_symmetric(e1: EntV, e2: EntV, wx: int, wy: int)
    ensures
        pixel_hit(e1, e2, wx, wy) == pixel_hit(e2, e1, wx, wy),
{
}

/// A whole scan does not depend on the order of the two entities.
pub proof fn lemma_scan_hit_symmetric(
    e1: EntV,
    e2: EntV,
    ox: int,
    oy: int,
    w: int,
    h: int,
    skip: int,
)
    ensures
        scan_hit(e1, e2, ox, oy, w, h, skip) == scan_hit(e2, e1, ox, oy, w, h, skip),
{
    if scan_hit(e1, e2, ox, oy, w, h, skip) {
        let y = choose|y: int|
            0 <= y < h && y % skip == 0 && #[trigger] row_hit(e1, e2, ox, oy, w, skip, y);
        let x = choose|x: int|
            0 <= x < w && x % skip == 0 && #[trigger] pixel_hit_at(e1, e2, ox, oy, x, y);
        lemma_pixel_hit_symmetric(e1, e2, ox + 65536 * x, oy + 65536 * y);
        assert(pixel_hit_at(e2, e1, ox, oy, x, y));
        assert(row_hit(e2, e1, ox, oy, w, skip, y));
    }
    if scan_hit(e2, e1, ox, oy, w, h, skip) {
        let y = choose|y: int|
            0 <= y < h && y % skip == 0 && #[trigger] row_hit(e2, e1, ox, oy, w, skip, y);
        let x = choose|x: int|
            0 <= x < w && x % skip == 0 && #[trigger] pixel_hit_at(e2, e1, ox, oy, x, y);
        lemma_pixel_hit_symmetric(e2, e1, ox + 65536 * x, oy + 65536 * y);
        assert(pixel_hit_at(e1, e2, ox, oy, x, y));
        assert(row_hit(e1, e2, ox, oy, w, skip, y));
    }
}

/// Shifting an entity's angle by a full turn changes no per-point test:
/// the rotation-state dispatch and the inverse rotation both look only at
/// the normalized angle.
pub proof fn lemma_pixel_hit_full_turn(e1: EntV, e2: EntV, wx: int, wy: int)
    ensures
        pixel_hit(with_angle(e1, e1.angle + 411775), e2, wx, wy) == pixel_hit(e1, e2, wx, wy),
{
    lemma_norm_angle_periodic(e1.angle);
    crate::geom::lemma_rotation_periodic(PtV { x: wx, y: wy }, ent_center(e1), -e1.angle);
}

/// Shifting an entity's angle by a full turn changes no scan.
pub proof fn lemma_scan_hit_full_turn(
    e1: EntV,
    e2: EntV,
    ox: int,
    oy: int,
    w: int,
    h: int,
    skip: int,
)
    ensures
        scan_hit(with_angle(e1, e1.angle + 411775), e2, ox, oy, w, h, skip) == scan_hit(
            e1,
            e2,
            ox,
            oy,
            w,
            h,
            skip,
        ),
{
    let e1t = with_angle(e1, e1.angle + 411775);
    if scan_hit(e1t, e2, ox, oy, w, h, skip) {
        let y = choose|y: int|
            0 <= y < h && y % skip == 0 && #[trigger] row_hit(e1t, e2, ox, oy, w, skip, y);
        let x = choose|x: int|
            0 <= x < w && x % skip == 0 && #[trigger] pixel_hit_at(e1t, e2, ox, oy, x, y);
        lemma_pixel_hit_full_turn(e1, e2, ox + 65536 * x, oy + 65536 * y);
        assert(pixel_hit_at(e1, e2, ox, oy, x, y));
        assert(row_hit(e1, e2, ox, oy, w, skip, y));
    }
    if scan_hit(e1, e2, ox, oy, w, h, skip) {
        let y = choose|y: int|
            0 <= y < h && y % skip == 0 && #[trigger] row_hit(e1, e2, ox, oy, w, skip, y);
        let x = choose|x: int|
            0 <= x < w && x % skip == 0 && #[trigger] pixel_hit_at(e1, e2, ox, oy, x, y);
        lemma_pixel_hit_full_turn(e1, e2, ox + 65536 * x, oy + 65536 * y);
        assert(pixel_hit_at(e1t, e2, ox, oy, x, y));
        assert(row_hit(e1t, e2, ox, oy, w, skip, y));
    }
}

/// Sparse sampling never over-detects, and the exhaustive stride detects
/// everything a sparser stride does: a scan that hits at stride `skip`
/// exhibits a sampled point that also exists in the stride-one grid.
pub proof fn lemma_exhaustive_stride(
    e1: EntV,
    e2: EntV,
    ox: int,
    oy: int,
    w: int,
    h: int,
    skip: int,
)
    requires
        skip >= 1,
        scan_hit(e1, e2, ox, oy, w, h, skip),
    ensures
        scan_hit(e1, e2, ox, oy, w, h, 1),
{
    let y = choose|y: int| 0 <= y < h && y % skip == 0 && #[trigger] row_hit(e1, e2, ox, oy, w, skip, y);
    let x = choose|x: int| 0 <= x < w && x % skip == 0 && #[trigger] pixel_hit_at(e1, e2, ox, oy, x, y);
    assert(x % 1 == 0);
    assert(y % 1 == 0);
    assert(row_hit(e1, e2, ox, oy, w, 1, y));
    assert(scan_hit(e1, e2, ox, oy, w, h, 1));
}

} // verus!
