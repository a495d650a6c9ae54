//! The dispatcher: computes the rotated bounding boxes, rejects pairs with
//! no box overlap, and otherwise selects the oriented-rectangle test or the
//! scanner variant the pair's rotation state and mask availability call
//! for.

use vstd::prelude::*;
use vstd::math::{min, max};
use crate::geom::{bbox_spec, calculate_rotated_bounding_box, lemma_bbox_full_turn, min_fx,
    max_fx};
use crate::entity::{Entity, EntV, ent_wf, with_angle, Collidable};
use crate::sat::{RectV, sat_spec, aabb_overlap, check_rotated_rectangle_collision};
use crate::scan::{units, scan_hit, row_hit, pixel_hit_at, scan_overlap_region,
    check_one_masked_collision, check_one_rotated_masked_collision, lemma_exhaustive_stride,
    lemma_single_texel_opacity, OVERLAP_POS_LIMIT, OVERLAP_EXT_LIMIT};
use crate::trig::{norm_angle, normalize_angle};
use vstd::arithmetic::div_mod::{lemma_add_mod_noop, lemma_sub_mod_noop, lemma_mod_multiples_basic,
    lemma_fundamental_div_mod, lemma_div_is_ordered, lemma_div_by_self};

verus! {

/// An entity's rectangle as the oriented-rectangle test sees it.
pub open spec fn ent_rect(e: EntV) -> RectV {
    RectV { pos: e.pos, size: e.size, angle: e.angle }
}

/// The rectangular overlap of the two entities' rotated bounding boxes:
/// origin at the larger of the two minima, extent up to the smaller of the
/// two maxima, per axis. A non-positive extent means no box overlap.
pub open spec fn overlap_region(e1: EntV, e2: EntV) -> (int, int, int, int) {
    let b1 = bbox_spec(e1.pos, e1.size, e1.angle);
    let b2 = bbox_spec(e2.pos, e2.size, e2.angle);
    let ox = max(b1.0.x, b2.0.x);
    let oy = max(b1.0.y, b2.0.y);
    let ow = min(b1.0.x + b1.1.x, b2.0.x + b2.1.x) - ox;
    let oh = min(b1.0.y + b1.1.y, b2.0.y + b2.1.y) - oy;
    (ox, oy, ow, oh)
}

/// Result of the rotation-aware family over an overlap region: the scan of
/// the variant the masks select, or the oriented-rectangle test when
/// neither entity carries a mask.
pub open spec fn rotated_pixel_spec(
    e1: EntV,
    e2: EntV,
    ox: int,
    oy: int,
    ow: int,
    oh: int,
    skip: int,
) -> bool {
    if e1.mask is Some && e2.mask is None {
        scan_hit(e1, e2, ox, oy, units(ow), units(oh), skip)
    } else if e1.mask is None && e2.mask is Some {
        scan_hit(e2, e1, ox, oy, units(ow), units(oh), skip)
    } else if e1.mask is None && e2.mask is None {
        sat_spec(ent_rect(e1), ent_rect(e2))
    } else {
        scan_hit(e1, e2, ox, oy, units(ow), units(oh), skip)
    }
}

/// What `check_collision` returns: false without further work when the
/// rotated bounding boxes do not overlap; the box overlap itself for two
/// unrotated solid rectangles; the oriented-rectangle test for rotated
/// solid rectangles; and otherwise the pixel scan of the variant the
/// rotation state and mask availability select. Rotation state is judged
/// on the normalized angle, so a whole number of full turns behaves
/// exactly like no rotation.
pub open spec fn check_collision_spec(e1: EntV, e2: EntV, skip: int) -> bool {
    let (ox, oy, ow, oh) = overlap_region(e1, e2);
    if ow <= 0 || oh <= 0 {
        false
    } else if e1.mask is None && e2.mask is None {
        if norm_angle(e1.angle) != 0 || norm_angle(e2.angle) != 0 {
            sat_spec(ent_rect(e1), ent_rect(e2))
        } else {
            true
        }
    } else if norm_angle(e1.angle) != 0 || norm_angle(e2.angle) != 0 {
        rotated_pixel_spec(e1, e2, ox, oy, ow, oh, skip)
    } else if e1.mask is Some && e2.mask is None {
        scan_hit(e1, e2, ox, oy, units(ow), units(oh), skip)
    } else if e1.mask is None && e2.mask is Some {
        scan_hit(e2, e1, ox, oy, units(ow), units(oh), skip)
    } else {
        scan_hit(e1, e2, ox, oy, units(ow), units(oh), skip)
    }
}

/// Pixel-aware collision for pairs where at least one entity is rotated
/// (judged on the normalized angle): selects the rotation-aware scanner by
/// mask availability, or the oriented-rectangle test when neither entity
/// carries a mask.
pub fn check_rotated_pixel_collision(
    obj1: &Entity,
    obj2: &Entity,
    overlap_x: i64,
    overlap_y: i64,
    overlap_w: i64,
    overlap_h: i64,
    skip_pixels: usize,
) -> (r: bool)
    requires
        ent_wf(obj1@),
        ent_wf(obj2@),
        norm_angle(obj1@.angle) != 0 || norm_angle(obj2@.angle) != 0,
        skip_pixels >= 1,
        -(OVERLAP_POS_LIMIT as int) <= overlap_x as int <= OVERLAP_POS_LIMIT as int,
        -(OVERLAP_POS_LIMIT as int) <= overlap_y as int <= OVERLAP_POS_LIMIT as int,
        0 < overlap_w as int <= OVERLAP_EXT_LIMIT as int,
        0 < overlap_h as int <= OVERLAP_EXT_LIMIT as int,
    ensures
        r == rotated_pixel_spec(
            obj1@,
            obj2@,
            overlap_x as int,
            overlap_y as int,
            overlap_w as int,
            overlap_h as int,
            skip_pixels as int,
        ),
{
    let m1 = obj1.mask.is_some();
    let m2 = obj2.mask.is_some();
    if m1 && !m2 {
        return check_one_rotated_masked_collision(
            obj1,
            obj2,
            overlap_x,
            overlap_y,
            overlap_w,
            overlap_h,
            skip_pixels,
        );
    }
    if !m1 && m2 {
        return check_one_rotated_masked_collision(
            obj2,
            obj1,
            overlap_x,
            overlap_y,
            overlap_w,
            overlap_h,
            skip_pixels,
        );
    }
    if !m1 && !m2 {
        return check_rotated_rectangle_collision(
            obj1.pos,
            obj1.size,
            obj1.angle,
            obj2.pos,
            obj2.size,
            obj2.angle,
        );
    }
    scan_overlap_region(obj1, obj2, overlap_x, overlap_y, overlap_w, overlap_h, skip_pixels)
}

/// Collision test between two concrete entities: bounding-box rejection
/// first, then the cheapest conclusive test for the pair.
pub fn check_collision_entities(obj1: &Entity, obj2: &Entity, skip_pixels: usize) -> (r: bool)
    requires
        ent_wf(obj1@),
        ent_wf(obj2@),
        skip_pixels >= 1,
    ensures
        r == check_collision_spec(obj1@, obj2@, skip_pixels as int),
{
    let (rot_pos1, rot_size1) = calculate_rotated_bounding_box(obj1.pos, obj1.size, obj1.angle);
    let (rot_pos2, rot_size2) = calculate_rotated_bounding_box(obj2.pos, obj2.size, obj2.angle);
    let overlap_x = max_fx(rot_pos1.x, rot_pos2.x);
    let overlap_y = max_fx(rot_pos1.y, rot_pos2.y);
    let overlap_w = min_fx(rot_pos1.x + rot_size1.x, rot_pos2.x + rot_size2.x) - overlap_x;
    let overlap_h = min_fx(rot_pos1.y + rot_size1.y, rot_pos2.y + rot_size2.y) - overlap_y;
    if overlap_w <= 0 || overlap_h <= 0 {
        return false;
    }
    let n1 = normalize_angle(obj1.angle);
    let n2 = normalize_angle(obj2.angle);
    let m1 = obj1.mask.is_some();
    let m2 = obj2.mask.is_some();
    if !m1 && !m2 {
        if n1 != 0 || n2 != 0 {
            return check_rotated_rectangle_collision(
                obj1.pos,
                obj1.size,
                obj1.angle,
                obj2.pos,
                obj2.size,
                obj2.angle,
            );
        }
        return true;
    }
    if n1 != 0 || n2 != 0 {
        return check_rotated_pixel_collision(
            obj1,
            obj2,
            overlap_x,
            overlap_y,
            overlap_w,
            overlap_h,
            skip_pixels,
        );
    }
    if m1 && !m2 {
        return check_one_masked_collision(
            obj1,
            obj2,
            overlap_x,
            overlap_y,
            overlap_w,
            overlap_h,
            skip_pixels,
        );
    }
    if !m1 && m2 {
        return check_one_masked_collision(
            obj2,
            obj1,
            overlap_x,
            overlap_y,
            overlap_w,
            overlap_h,
            skip_pixels,
        );
    }
    scan_overlap_region(obj1, obj2, overlap_x, overlap_y, overlap_w, overlap_h, skip_pixels)
}

/// Copies a mask option, preserving its contents.
pub(crate) fn clone_mask(m: &Option<Vec<u8>>) -> (r: Option<Vec<u8>>)
    ensures
        r is Some <==> (*m) is Some,
        r is Some ==> r->Some_0@ == (*m)->Some_0@,
{
    match m {
        Some(v) => {
            let c = v.clone();
            proof {
                assert(c@ =~= v@);
            }
            Some(c)
        },
        None => None,
    }
}

/// Collision test between any two entities offering the `Collidable`
/// capability set. Reads the five accessors once, then dispatches exactly
/// as `check_collision_entities` does; `skip_pixels` is the caller-chosen
/// sampling stride, one for an exhaustive scan.
pub fn check_collision<T: Collidable, U: Collidable>(obj1: &T, obj2: &U, skip_pixels: usize) -> (r:
    bool)
    requires
        ent_wf(obj1.model()),
        ent_wf(obj2.model()),
        skip_pixels >= 1,
    ensures
        r == check_collision_spec(obj1.model(), obj2.model(), skip_pixels as int),
{
    let ts1 = obj1.texture_size();
    let ts2 = obj2.texture_size();
    let e1 = Entity {
        pos: obj1.pos(),
        size: obj1.size(),
        tex_w: ts1.0,
        tex_h: ts1.1,
        angle: obj1.get_angle(),
        mask: clone_mask(obj1.get_mask()),
    };
    let e2 = Entity {
        pos: obj2.pos(),
        size: obj2.size(),
        tex_w: ts2.0,
        tex_h: ts2.1,
        angle: obj2.get_angle(),
        mask: clone_mask(obj2.get_mask()),
    };
    proof {
        assert(e1@ =~= obj1.model());
        assert(e2@ =~= obj2.model());
    }
    check_collision_entities(&e1, &e2, skip_pixels)
}

/// Disjoint fast path: whenever the rotated bounding boxes do not overlap,
/// the result is false, whatever the masks would say.
pub proof fn lemma_disjoint_fast_path(e1: EntV, e2: EntV, skip: int)
    requires
        ({
            let (ox, oy, ow, oh) = overlap_region(e1, e2);
            ow <= 0 || oh <= 0
        }),
    ensures
        !check_collision_spec(e1, e2, skip),
{
}

/// Unrotated solid rectangles: for axis-aligned entities with no mask, the
/// result is exactly the strict axis-aligned overlap test.
pub proof fn lemma_unrotated_solid(e1: EntV, e2: EntV, skip: int)
    requires
        ent_wf(e1),
        ent_wf(e2),
        e1.mask is None,
        e2.mask is None,
        e1.angle == 0,
        e2.angle == 0,
    ensures
        check_collision_spec(e1, e2, skip) == aabb_overlap(e1.pos, e1.size, e2.pos, e2.size),
{
    crate::trig::lemma_trig_of_zero();
}

/// Sparse strides only ever under-detect: a collision reported at any
/// stride is also reported by the exhaustive stride-one scan, and the
/// solid-rectangle paths do not depend on the stride at all.
pub proof fn lemma_stride_monotone(e1: EntV, e2: EntV, skip: int)
    requires
        skip >= 1,
        check_collision_spec(e1, e2, skip),
    ensures
        check_collision_spec(e1, e2, 1),
{
    let (ox, oy, ow, oh) = overlap_region(e1, e2);
    if !(ow <= 0 || oh <= 0) && !(e1.mask is None && e2.mask is None) {
        if e1.mask is Some && e2.mask is None {
            lemma_exhaustive_stride(e1, e2, ox, oy, units(ow), units(oh), skip);
        } else if e1.mask is None && e2.mask is Some {
            lemma_exhaustive_stride(e2, e1, ox, oy, units(ow), units(oh), skip);
        } else {
            lemma_exhaustive_stride(e1, e2, ox, oy, units(ow), units(oh), skip);
        }
    }
}

/// The whole collision test does not depend on the order of its two
/// entities: the overlap region, the oriented-rectangle test and every
/// scanner variant read the pair symmetrically.
pub proof fn lemma_check_collision_symmetric(e1: EntV, e2: EntV, skip: int)
    ensures
        check_collision_spec(e1, e2, skip) == check_collision_spec(e2, e1, skip),
{
    crate::sat::lemma_sat_symmetric(ent_rect(e1), ent_rect(e2));
    let (ox, oy, ow, oh) = overlap_region(e1, e2);
    assert(overlap_region(e2, e1) == overlap_region(e1, e2));
    crate::scan::lemma_scan_hit_symmetric(e1, e2, ox, oy, units(ow), units(oh), skip);
}

/// Full-turn periodicity at the level of the whole collision test: adding
/// one full turn to an entity's angle changes nothing about the result,
/// for any pair. The dispatch, the bounding boxes, the oriented test and
/// the per-point scans all judge rotation on the normalized angle.
pub proof fn lemma_full_turn_shift(e1: EntV, e2: EntV, skip: int)
    ensures
        check_collision_spec(with_angle(e1, e1.angle + 411775), e2, skip) == check_collision_spec(
            e1,
            e2,
            skip,
        ),
{
    let e1t = with_angle(e1, e1.angle + 411775);
    crate::trig::lemma_norm_angle_periodic(e1.angle);
    lemma_bbox_full_turn(e1.pos, e1.size, e1.angle);
    let (ox, oy, ow, oh) = overlap_region(e1, e2);
    assert(overlap_region(e1t, e2) == overlap_region(e1, e2));
    crate::sat::lemma_sat_full_turn(ent_rect(e1), ent_rect(e2));
    assert(ent_rect(e1t) == RectV { pos: e1.pos, size: e1.size, angle: e1.angle + 411775 });
    crate::scan::lemma_scan_hit_full_turn(e1, e2, ox, oy, units(ow), units(oh), skip);
    crate::scan::lemma_scan_hit_symmetric(e2, e1t, ox, oy, units(ow), units(oh), skip);
    crate::scan::lemma_scan_hit_symmetric(e2, e1, ox, oy, units(ow), units(oh), skip);
}

/// A sample of the overlap grid of a 2x2-unit rectangle at an
/// integer-aligned position is itself integer-aligned within the rectangle.
proof fn lemma_sample_aligned(posm: int, ox: int, ow: int, x: int)
    requires
        posm % 65536 == 0,
        ox % 65536 == 0,
        ox >= posm,
        ox + ow <= posm + 131072,
        0 <= x < units(ow),
    ensures
        ((ox + 65536 * x) - posm) % 65536 == 0,
        0 <= (ox + 65536 * x) - posm < 131072,
{
    let d = ox - posm;
    lemma_sub_mod_noop(ox, posm, 65536);
    lemma_mod_multiples_basic(x, 65536);
    lemma_add_mod_noop(d, 65536 * x, 65536);
    lemma_fundamental_div_mod(ow, 65536);
    assert(65536 * x <= 65536 * (units(ow) - 1)) by (nonlinear_arith)
        requires
            x <= units(ow) - 1,
    ;
}

/// Mask correctness for axis-aligned single-texel masks: two 2x2-texel
/// entities on 2x2-unit rectangles at integer positions, each opaque only
/// at its top-left texel, collide under the exhaustive stride exactly when
/// the opaque texels' unit world footprints intersect — which, at integer
/// positions, is exactly when the two entities coincide.
pub proof fn lemma_single_texel_masks_meet(e1: EntV, e2: EntV)
    requires
        ent_wf(e1),
        ent_wf(e2),
        e1.size.x == 131072,
        e1.size.y == 131072,
        e2.size.x == 131072,
        e2.size.y == 131072,
        e1.tex_w == 2,
        e1.tex_h == 2,
        e2.tex_w == 2,
        e2.tex_h == 2,
        e1.mask is Some,
        e1.mask->Some_0 == seq![0x80u8],
        e2.mask is Some,
        e2.mask->Some_0 == seq![0x80u8],
        e1.angle == 0,
        e2.angle == 0,
        e1.pos.x % 65536 == 0,
        e1.pos.y % 65536 == 0,
        e2.pos.x % 65536 == 0,
        e2.pos.y % 65536 == 0,
    ensures
        check_collision_spec(e1, e2, 1) == (e1.pos == e2.pos),
{
    crate::trig::lemma_trig_of_zero();
    let (ox, oy, ow, oh) = overlap_region(e1, e2);
    if e1.pos == e2.pos {
        assert(ow == 131072 && oh == 131072);
        lemma_div_by_self(65536int);
        assert(units(131072) == 2) by {
            vstd::arithmetic::div_mod::lemma_div_multiples_vanish(2, 65536);
            assert(131072int == 65536int * 2);
        }
        lemma_single_texel_opacity(e1, e1.pos.x, e1.pos.y);
        lemma_single_texel_opacity(e2, e2.pos.x, e2.pos.y);
        assert(pixel_hit_at(e1, e2, ox, oy, 0, 0));
        assert(row_hit(e1, e2, ox, oy, units(ow), 1, 0));
        assert(scan_hit(e1, e2, ox, oy, units(ow), units(oh), 1));
    } else {
        if check_collision_spec(e1, e2, 1) {
            assert(scan_hit(e1, e2, ox, oy, units(ow), units(oh), 1));
            let y = choose|y: int|
                0 <= y < units(oh) && y % 1 == 0 && #[trigger] row_hit(
                    e1,
                    e2,
                    ox,
                    oy,
                    units(ow),
                    1,
                    y,
                );
            let x = choose|x: int|
                0 <= x < units(ow) && x % 1 == 0 && #[trigger] pixel_hit_at(e1, e2, ox, oy, x, y);
            let wpx = ox + 65536 * x;
            let wpy = oy + 65536 * y;
            lemma_sample_aligned(e1.pos.x, ox, ow, x);
            lemma_sample_aligned(e1.pos.y, oy, oh, y);
            lemma_sample_aligned(e2.pos.x, ox, ow, x);
            lemma_sample_aligned(e2.pos.y, oy, oh, y);
            lemma_single_texel_opacity(e1, wpx, wpy);
            lemma_single_texel_opacity(e2, wpx, wpy);
            assert(wpx == e1.pos.x && wpy == e1.pos.y);
            assert(wpx == e2.pos.x && wpy == e2.pos.y);
            assert(e1.pos =~= e2.pos);
            assert(false);
        }
    }
}

/// One-masked containment for a single-texel mask: the masked entity's
/// opaque texel covers the unit square at the entity's integer corner.
/// When that footprint lies fully inside the solid entity's rectangle the
/// exhaustive scan reports a collision; when it is disjoint from the
/// rectangle, no collision.
pub proof fn lemma_one_masked_containment(m: EntV, o: EntV)
    requires
        ent_wf(m),
        ent_wf(o),
        m.size.x == 131072,
        m.size.y == 131072,
        m.tex_w == 2,
        m.tex_h == 2,
        m.mask is Some,
        m.mask->Some_0 == seq![0x80u8],
        o.mask is None,
        m.angle == 0,
        o.angle == 0,
        m.pos.x % 65536 == 0,
        m.pos.y % 65536 == 0,
        o.pos.x % 65536 == 0,
        o.pos.y % 65536 == 0,
    ensures
        (o.pos.x <= m.pos.x && m.pos.x + 65536 <= o.pos.x + o.size.x && o.pos.y <= m.pos.y
            && m.pos.y + 65536 <= o.pos.y + o.size.y) ==> check_collision_spec(m, o, 1),
        (m.pos.x + 65536 <= o.pos.x || o.pos.x + o.size.x <= m.pos.x || m.pos.y + 65536 <= o.pos.y
            || o.pos.y + o.size.y <= m.pos.y) ==> !check_collision_spec(m, o, 1),
{
    crate::trig::lemma_trig_of_zero();
    let (ox, oy, ow, oh) = overlap_region(m, o);
    if o.pos.x <= m.pos.x && m.pos.x + 65536 <= o.pos.x + o.size.x && o.pos.y <= m.pos.y
        && m.pos.y + 65536 <= o.pos.y + o.size.y {
        assert(ox == m.pos.x && oy == m.pos.y);
        assert(ow >= 65536 && oh >= 65536);
        lemma_div_is_ordered(65536, ow, 65536);
        lemma_div_is_ordered(65536, oh, 65536);
        lemma_div_by_self(65536int);
        assert(units(ow) >= 1 && units(oh) >= 1);
        lemma_single_texel_opacity(m, m.pos.x, m.pos.y);
        assert(pixel_hit_at(m, o, ox, oy, 0, 0));
        assert(row_hit(m, o, ox, oy, units(ow), 1, 0));
        assert(scan_hit(m, o, ox, oy, units(ow), units(oh), 1));
    }
    if m.pos.x + 65536 <= o.pos.x || o.pos.x + o.size.x <= m.pos.x || m.pos.y + 65536 <= o.pos.y
        || o.pos.y + o.size.y <= m.pos.y {
        if check_collision_spec(m, o, 1) {
            assert(scan_hit(m, o, ox, oy, units(ow), units(oh), 1));
            let y = choose|y: int|
                0 <= y < units(oh) && y % 1 == 0 && #[trigger] row_hit(m, o, ox, oy, units(ow), 1, y);
            let x = choose|x: int|
                0 <= x < units(ow) && x % 1 == 0 && #[trigger] pixel_hit_at(m, o, ox, oy, x, y);
            let wpx = ox + 65536 * x;
            let wpy = oy + 65536 * y;
            lemma_sample_aligned(m.pos.x, ox, ow, x);
            lemma_sample_aligned(m.pos.y, oy, oh, y);
            lemma_single_texel_opacity(m, wpx, wpy);
            assert(wpx == m.pos.x && wpy == m.pos.y);
            assert(false);
        }
    }
}

/// Rotating an entity by one full turn gives exactly the result of not
/// rotating it at all, against any second entity and stride: the engine
/// normalizes rotation before use, and a full turn normalizes to zero.
pub proof fn lemma_full_turn_equals_unrotated(e1: EntV, e2: EntV, skip: int)
    ensures
        check_collision_spec(with_angle(e1, 411775), e2, skip) == check_collision_spec(
            with_angle(e1, 0),
            e2,
            skip,
        ),
{
    lemma_full_turn_shift(with_angle(e1, 0), e2, skip);
    assert(with_angle(with_angle(e1, 0), 0int + 411775) =~= with_angle(e1, 411775));
}

} // verus!
