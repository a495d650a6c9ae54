//! Data-parallel execution backend: the row loop of a pixel scan fans out
//! over a thread pool and stops at the first row that reports a collision.
//! The per-row work is the verified sequential `scan_row`, so this backend
//! promises exactly what the nested-loop backend proves, and the two may
//! only differ in wall-clock cost and in which colliding sample is found
//! first.

use vstd::prelude::*;
use rayon::iter::{IntoParallelIterator, IndexedParallelIterator, ParallelIterator};
use crate::entity::{Entity, EntV, ent_wf, Collidable};
use crate::geom::calculate_rotated_bounding_box;
use crate::scan::{units, scan_hit, scan_row, OVERLAP_POS_LIMIT, OVERLAP_EXT_LIMIT};
use crate::sat::check_rotated_rectangle_collision;
use crate::collision::{check_collision_spec, rotated_pixel_spec, clone_mask};
use crate::geom::{min_fx, max_fx};

verus! {

/// Relies on rayon's `IndexedParallelIterator::step_by` and
/// `ParallelIterator::any`: over the rows `0, skip, 2*skip, ...` below
/// `h_units`, `any` returns true exactly when the predicate holds of some
/// visited row, stopping early once a match is found. The predicate is the
/// verified `scan_row`, whose contract pins its result to `row_hit`.
#[verifier::external_body]
fn par_any_row(
    e1: &Entity,
    e2: &Entity,
    overlap_x: i64,
    overlap_y: i64,
    overlap_w: i64,
    h_units: u64,
    skip_pixels: usize,
) -> (r: bool)
    requires
        ent_wf(e1@),
        ent_wf(e2@),
        skip_pixels >= 1,
        -(OVERLAP_POS_LIMIT as int) <= overlap_x as int <= OVERLAP_POS_LIMIT as int,
        -(OVERLAP_POS_LIMIT as int) <= overlap_y as int <= OVERLAP_POS_LIMIT as int,
        0 < overlap_w as int <= OVERLAP_EXT_LIMIT as int,
        0 <= h_units as int <= 0x400000000,
        h_units as int <= usize::MAX as int,
    ensures
        r == scan_hit(
            e1@,
            e2@,
            overlap_x as int,
            overlap_y as int,
            units(overlap_w as int),
            h_units as int,
            skip_pixels as int,
        ),
{
    (0..h_units as usize).into_par_iter().step_by(skip_pixels).any(
        |y| scan_row(e1, e2, overlap_x, overlap_y, overlap_w, skip_pixels, y as u64),
    )
}

/// Parallel scan of the whole overlap region: same result as the
/// sequential `scan_overlap_region`, computed by fanning the rows out over
/// a thread pool. On a platform whose word is too narrow to index the rows
/// it falls back to the sequential backend, which meets the same contract.
pub fn par_scan_overlap_region(
    e1: &Entity,
    e2: &Entity,
    overlap_x: i64,
    overlap_y: i64,
    overlap_w: i64,
    overlap_h: i64,
    skip_pixels: usize,
) -> (r: bool)
    requires
        ent_wf(e1@),
        ent_wf(e2@),
        skip_pixels >= 1,
        -(OVERLAP_POS_LIMIT as int) <= overlap_x as int <= OVERLAP_POS_LIMIT as int,
        -(OVERLAP_POS_LIMIT as int) <= overlap_y as int <= OVERLAP_POS_LIMIT as int,
        0 < overlap_w as int <= OVERLAP_EXT_LIMIT as int,
        0 < overlap_h as int <= OVERLAP_EXT_LIMIT as int,
    ensures
        r == scan_hit(
            e1@,
            e2@,
            overlap_x as int,
            overlap_y as int,
            units(overlap_w as int),
            units(overlap_h as int),
            skip_pixels as int,
        ),
{
    let h_units: u64 = (overlap_h as u64) / 65536;
    proof {
        vstd::arithmetic::div_mod::lemma_div_is_ordered(
            overlap_h as int,
            OVERLAP_EXT_LIMIT as int,
            65536,
        );
    }
    if h_units <= usize::MAX as u64 {
        par_any_row(e1, e2, overlap_x, overlap_y, overlap_w, h_units, skip_pixels)
    } else {
        crate::scan::scan_overlap_region(
            e1,
            e2,
            overlap_x,
            overlap_y,
            overlap_w,
            overlap_h,
            skip_pixels,
        )
    }
}

/// Collision test between two entities with the pixel scans running on the
/// data-parallel backend. Behaviorally equivalent to
/// `check_collision_entities`: both meet the same contract, differing only
/// in execution strategy.
pub fn check_collision_entities_parallel(
    obj1: &Entity,
    obj2: &Entity,
    skip_pixels: usize,
) -> (r: bool)
    requires
        ent_wf(obj1@),
        ent_wf(obj2@),
        skip_pixels >= 1,
    ensures
        r == check_collision_spec(obj1@, obj2@, skip_pixels as int),
{
    let (rot_pos1, rot_size1) = calculate_rotated_bounding_box(obj1.pos, obj1.size, obj1.angle);
    let (rot_pos2, rot_size2) = calculate_rotated_bounding_box(obj2.pos, obj2.size, obj2.angle);
    let overlap_x = max_fx(rot_pos1.x, rot_pos2.x);
    let overlap_y = max_fx(rot_pos1.y, rot_pos2.y);
    let overlap_w = min_fx(rot_pos1.x + rot_size1.x, rot_pos2.x + rot_size2.x) - overlap_x;
    let overlap_h = min_fx(rot_pos1.y + rot_size1.y, rot_pos2.y + rot_size2.y) - overlap_y;
    if overlap_w <= 0 || overlap_h <= 0 {
        return false;
    }
    let n1 = crate::trig::normalize_angle(obj1.angle);
    let n2 = crate::trig::normalize_angle(obj2.angle);
    let m1 = obj1.mask.is_some();
    let m2 = obj2.mask.is_some();
    if !m1 && !m2 {
        if n1 != 0 || n2 != 0 {
            return check_rotated_rectangle_collision(
                obj1.pos,
                obj1.size,
                obj1.angle,
                obj2.pos,
                obj2.size,
                obj2.angle,
            );
        }
        return true;
    }
    let r: bool;
    if m1 && !m2 {
        r = par_scan_overlap_region(
            obj1,
            obj2,
            overlap_x,
            overlap_y,
            overlap_w,
            overlap_h,
            skip_pixels,
        );
    } else if !m1 && m2 {
        r = par_scan_overlap_region(
            obj2,
            obj1,
            overlap_x,
            overlap_y,
            overlap_w,
            overlap_h,
            skip_pixels,
        );
    } else {
        r = par_scan_overlap_region(
            obj1,
            obj2,
            overlap_x,
            overlap_y,
            overlap_w,
            overlap_h,
            skip_pixels,
        );
    }
    proof {
        if crate::trig::norm_angle(obj1@.angle) != 0 || crate::trig::norm_angle(obj2@.angle)
            != 0 {
            assert(r == rotated_pixel_spec(
                obj1@,
                obj2@,
                overlap_x as int,
                overlap_y as int,
                overlap_w as int,
                overlap_h as int,
                skip_pixels as int,
            ));
        }
    }
    r
}

/// Collision test over the `Collidable` capability set, running on the
/// data-parallel backend; same contract as `check_collision`.
pub fn check_collision_parallel<T: Collidable, U: Collidable>(
    obj1: &T,
    obj2: &U,
    skip_pixels: usize,
) -> (r: bool)
    requires
        ent_wf(obj1.model()),
        ent_wf(obj2.model()),
        skip_pixels >= 1,
    ensures
        r == check_collision_spec(obj1.model(), obj2.model(), skip_pixels as int),
{
    let ts1 = obj1.texture_size();
    let ts2 = obj2.texture_size();
    let e1 = Entity {
        pos: obj1.pos(),
        size: obj1.size(),
        tex_w: ts1.0,
        tex_h: ts1.1,
        angle: obj1.get_angle(),
        mask: clone_mask(obj1.get_mask()),
    };
    let e2 = Entity {
        pos: obj2.pos(),
        size: obj2.size(),
        tex_w: ts2.0,
        tex_h: ts2.1,
        angle: obj2.get_angle(),
        mask: clone_mask(obj2.get_mask()),
    };
    proof {
        assert(e1@ =~= obj1.model());
        assert(e2@ =~= obj2.model());
    }
    check_collision_entities_parallel(&e1, &e2, skip_pixels)
}

} // verus!
