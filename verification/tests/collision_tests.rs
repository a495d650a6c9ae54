use pixel_collision::collision::check_collision;
use pixel_collision::entity::Entity;
use pixel_collision::geom::{
    calc_tex_coord, calculate_rotated_bounding_box, is_mask_bit_set, rotate_point, Pt,
};
use pixel_collision::par::check_collision_parallel;
use pixel_collision::sat::check_rotated_rectangle_collision;
use pixel_collision::trig::normalize_angle;

const FX: i64 = 65536;
const FX_PI: i64 = 205887;
const FX_HALF_PI: i64 = 102944;
const FX_TWO_PI: i64 = 411775;

fn solid(x: i64, y: i64, w: i64, h: i64, angle: i64) -> Entity {
    Entity {
        pos: Pt { x: x * FX, y: y * FX },
        size: Pt { x: w * FX, y: h * FX },
        tex_w: w as u32,
        tex_h: h as u32,
        angle,
        mask: None,
    }
}

fn masked(x: i64, y: i64, w: i64, h: i64, angle: i64, tw: u32, th: u32, mask: Vec<u8>) -> Entity {
    Entity {
        pos: Pt { x: x * FX, y: y * FX },
        size: Pt { x: w * FX, y: h * FX },
        tex_w: tw,
        tex_h: th,
        angle,
        mask: Some(mask),
    }
}

#[test]
fn mask_bits_are_msb_first() {
    let mask = vec![0b1000_0000u8, 0b0000_0001u8];
    assert_eq!(is_mask_bit_set(&mask, 0), Some(true));
    assert_eq!(is_mask_bit_set(&mask, 1), Some(false));
    assert_eq!(is_mask_bit_set(&mask, 7), Some(false));
    assert_eq!(is_mask_bit_set(&mask, 15), Some(true));
    assert_eq!(is_mask_bit_set(&mask, 16), None);
}

#[test]
fn rotate_point_quarter_turn() {
    let r = rotate_point(Pt { x: FX, y: 0 }, Pt { x: 0, y: 0 }, FX_HALF_PI);
    assert_eq!(r.x, 0);
    assert_eq!(r.y, 65526);
}

#[test]
fn rotate_point_half_turn() {
    let r = rotate_point(Pt { x: FX, y: 0 }, Pt { x: 0, y: 0 }, FX_PI);
    assert_eq!(r.x, -FX);
    assert_eq!(r.y, 0);
}

#[test]
fn rotate_point_full_turn_is_identity() {
    let p = Pt { x: 7 * FX + 123, y: -3 * FX + 45 };
    let c = Pt { x: 2 * FX, y: 2 * FX };
    let r0 = rotate_point(p, c, 0);
    let r2pi = rotate_point(p, c, FX_TWO_PI);
    let rneg = rotate_point(p, c, -FX_TWO_PI);
    assert_eq!((r0.x, r0.y), (p.x, p.y));
    assert_eq!((r2pi.x, r2pi.y), (p.x, p.y));
    assert_eq!((rneg.x, rneg.y), (p.x, p.y));
}

#[test]
fn normalize_angle_is_periodic() {
    assert_eq!(normalize_angle(FX_TWO_PI), 0);
    assert_eq!(normalize_angle(-FX_TWO_PI), 0);
    assert_eq!(normalize_angle(FX_HALF_PI + FX_TWO_PI), FX_HALF_PI);
    assert_eq!(normalize_angle(0), 0);
}

#[test]
fn bounding_box_unrotated_is_unchanged() {
    let (pos, size) = calculate_rotated_bounding_box(
        Pt { x: 3 * FX, y: 4 * FX },
        Pt { x: 5 * FX, y: 6 * FX },
        0,
    );
    assert_eq!((pos.x, pos.y), (3 * FX, 4 * FX));
    assert_eq!((size.x, size.y), (5 * FX, 6 * FX));
}

#[test]
fn bounding_box_rotated_grows_with_margin() {
    let (pos, size) = calculate_rotated_bounding_box(
        Pt { x: 0, y: 0 },
        Pt { x: 10 * FX, y: 10 * FX },
        51472, // about 45 degrees
    );
    assert!(pos.x < 0 && pos.y < 0);
    assert!(size.x > 10 * FX && size.y > 10 * FX);
}

#[test]
fn unrotated_solid_rectangles_overlap() {
    let a = solid(0, 0, 10, 10, 0);
    let b = solid(5, 5, 10, 10, 0);
    assert!(check_collision(&a, &b, 1));
}

#[test]
fn unrotated_solid_rectangles_touching_edges_do_not_collide() {
    let a = solid(0, 0, 10, 10, 0);
    let b = solid(10, 0, 10, 10, 0);
    assert!(!check_collision(&a, &b, 1));
}

#[test]
fn sat_result_is_symmetric() {
    let overlapping = (
        solid(0, 0, 10, 10, 51472),
        solid(6, 0, 10, 10, FX_HALF_PI),
    );
    let ab = check_rotated_rectangle_collision(
        overlapping.0.pos, overlapping.0.size, overlapping.0.angle,
        overlapping.1.pos, overlapping.1.size, overlapping.1.angle,
    );
    let ba = check_rotated_rectangle_collision(
        overlapping.1.pos, overlapping.1.size, overlapping.1.angle,
        overlapping.0.pos, overlapping.0.size, overlapping.0.angle,
    );
    assert!(ab && ba);

    let apart = (solid(0, 0, 10, 10, 51472), solid(30, 0, 10, 10, 51472));
    let ab2 = check_rotated_rectangle_collision(
        apart.0.pos, apart.0.size, apart.0.angle,
        apart.1.pos, apart.1.size, apart.1.angle,
    );
    let ba2 = check_rotated_rectangle_collision(
        apart.1.pos, apart.1.size, apart.1.angle,
        apart.0.pos, apart.0.size, apart.0.angle,
    );
    assert!(!ab2 && !ba2);
}

#[test]
fn sat_small_angles_match_aabb() {
    // 0.03 rad on both sides: the oriented test takes the axis-aligned path.
    let sat_true = check_rotated_rectangle_collision(
        Pt { x: 0, y: 0 }, Pt { x: 10 * FX, y: 10 * FX }, 1966,
        Pt { x: 9 * FX, y: 9 * FX }, Pt { x: 10 * FX, y: 10 * FX }, -1966,
    );
    assert!(sat_true);
    let sat_false = check_rotated_rectangle_collision(
        Pt { x: 0, y: 0 }, Pt { x: 10 * FX, y: 10 * FX }, 1966,
        Pt { x: 11 * FX, y: 0 }, Pt { x: 10 * FX, y: 10 * FX }, -1966,
    );
    assert!(!sat_false);
}

#[test]
fn disjoint_boxes_reject_before_masks() {
    // Fully opaque masks that would report a hit at any sampled point:
    // the bounding-box rejection must win first.
    let a = masked(0, 0, 4, 4, 0, 4, 4, vec![0xFF, 0xFF]);
    let b = masked(100, 100, 4, 4, 0, 4, 4, vec![0xFF, 0xFF]);
    assert!(!check_collision(&a, &b, 1));
}

#[test]
fn axis_aligned_masks_collide_only_where_opaque_texels_meet() {
    // 2x2-texel entities on 2x2 world rectangles, opaque only at the
    // top-left texel.
    let a = masked(0, 0, 2, 2, 0, 2, 2, vec![0x80]);
    let b_same = masked(0, 0, 2, 2, 0, 2, 2, vec![0x80]);
    assert!(check_collision(&a, &b_same, 1));

    let b_shift_x = masked(1, 0, 2, 2, 0, 2, 2, vec![0x80]);
    assert!(!check_collision(&a, &b_shift_x, 1));

    let b_shift_xy = masked(1, 1, 2, 2, 0, 2, 2, vec![0x80]);
    assert!(!check_collision(&a, &b_shift_xy, 1));
}

#[test]
fn one_masked_containment() {
    // The masked entity's single opaque texel covers the world square
    // [0,1) x [0,1).
    let m = masked(0, 0, 2, 2, 0, 2, 2, vec![0x80]);
    let containing = solid(-1, -1, 3, 3, 0);
    assert!(check_collision(&m, &containing, 1));
    let outside = solid(1, 1, 3, 3, 0);
    assert!(!check_collision(&m, &outside, 1));
}

#[test]
fn full_turn_gives_same_result_as_no_rotation() {
    let fixed = solid(2, 2, 4, 4, 0);
    let m0 = masked(0, 0, 4, 4, 0, 4, 4, vec![0xFF, 0xFF]);
    let m2pi = masked(0, 0, 4, 4, FX_TWO_PI, 4, 4, vec![0xFF, 0xFF]);
    let r0 = check_collision(&m0, &fixed, 1);
    let r2pi = check_collision(&m2pi, &fixed, 1);
    assert_eq!(r0, r2pi);
    assert!(r0);

    let far = solid(20, 20, 4, 4, 0);
    let r0f = check_collision(&m0, &far, 1);
    let r2pif = check_collision(&m2pi, &far, 1);
    assert_eq!(r0f, r2pif);
    assert!(!r0f);
}

#[test]
fn full_turn_behaves_exactly_like_zero_rotation() {
    // The dispatcher judges rotation on the normalized angle, so one full
    // turn takes the same margin-free, ungated path as no rotation: the
    // sample grid does not shift and the results agree everywhere.
    let b = solid(-3, -3, 9, 9, 0);
    let a0 = masked(0, 0, 2, 2, 0, 2, 2, vec![0x40]);
    let a2pi = masked(0, 0, 2, 2, FX_TWO_PI, 2, 2, vec![0x40]);
    assert!(check_collision(&a0, &b, 1));
    assert!(check_collision(&a2pi, &b, 1));

    // Solid pairs too, including exactly touching edges.
    let s0 = solid(0, 0, 10, 10, 0);
    let s2pi = solid(0, 0, 10, 10, FX_TWO_PI);
    assert_eq!(check_collision(&s2pi, &solid(5, 5, 10, 10, 0), 1), true);
    assert_eq!(check_collision(&s2pi, &solid(10, 0, 10, 10, 0), 1), false);
    assert_eq!(
        check_collision(&s0, &solid(10, 0, 10, 10, 0), 1),
        check_collision(&s2pi, &solid(10, 0, 10, 10, 0), 1),
    );

    // The bounding box of a full turn is the unrotated box, margin-free.
    let (pos, size) = calculate_rotated_bounding_box(
        Pt { x: 3 * FX, y: 4 * FX },
        Pt { x: 5 * FX, y: 6 * FX },
        FX_TWO_PI,
    );
    assert_eq!((pos.x, pos.y), (3 * FX, 4 * FX));
    assert_eq!((size.x, size.y), (5 * FX, 6 * FX));
}

#[test]
fn full_turn_shift_of_rotated_entity_changes_nothing() {
    let near = solid(12, 12, 4, 4, 0);
    let far = solid(30, 30, 4, 4, 0);
    let m = masked(10, 10, 6, 6, 51472, 6, 6, vec![0xFF; 5]);
    let m_shifted = masked(10, 10, 6, 6, 51472 + FX_TWO_PI, 6, 6, vec![0xFF; 5]);
    assert_eq!(check_collision(&m, &near, 1), check_collision(&m_shifted, &near, 1));
    assert_eq!(check_collision(&m, &far, 1), check_collision(&m_shifted, &far, 1));
    assert!(check_collision(&m_shifted, &near, 1));
    assert!(!check_collision(&m_shifted, &far, 1));
}

#[test]
fn sparse_stride_underdetects_never_overdetects() {
    // One opaque texel at (4, 4) of an 8x8 grid: stride 1 and 2 sample it,
    // stride 3 steps over it.
    let mut mask = vec![0u8; 8];
    mask[4] = 0x08;
    let a = masked(0, 0, 8, 8, 0, 8, 8, mask);
    let b = solid(0, 0, 8, 8, 0);
    assert!(check_collision(&a, &b, 1));
    assert!(check_collision(&a, &b, 2));
    assert!(!check_collision(&a, &b, 3));
}

#[test]
fn rotated_one_masked_collision() {
    let m = masked(10, 10, 6, 6, 51472, 6, 6, vec![0xFF; 5]);
    let near = solid(12, 12, 4, 4, 0);
    assert!(check_collision(&m, &near, 1));
    let far = solid(30, 30, 4, 4, 0);
    assert!(!check_collision(&m, &far, 1));
}

#[test]
fn rotated_both_masked_collision() {
    let m1 = masked(10, 10, 6, 6, 51472, 6, 6, vec![0xFF; 5]);
    let m2 = masked(12, 12, 6, 6, -51472, 6, 6, vec![0xFF; 5]);
    assert!(check_collision(&m1, &m2, 1));
}

#[test]
fn mask_shorter_than_texture_reads_transparent_past_its_end() {
    // A 4x4 texture with only the first 8 mask bits present: rows two and
    // three read as transparent rather than erroring.
    let short = masked(0, 0, 4, 4, 0, 4, 4, vec![0xF0]);
    let over_tail = solid(0, 3, 1, 1, 0);
    assert!(!check_collision(&short, &over_tail, 1));
    let over_head = solid(0, 0, 1, 1, 0);
    assert!(check_collision(&short, &over_head, 1));
}

#[test]
fn small_angle_threshold_boundary() {
    // Touching rectangles: just below the threshold the strict axis-aligned
    // test sees no overlap; at the threshold the general path runs and the
    // shared edge counts as contact.
    let below = check_rotated_rectangle_collision(
        Pt { x: 0, y: 0 }, Pt { x: 10 * FX, y: 10 * FX }, 3276,
        Pt { x: 10 * FX, y: 0 }, Pt { x: 10 * FX, y: 10 * FX }, 0,
    );
    assert!(!below);
    let at = check_rotated_rectangle_collision(
        Pt { x: 0, y: 0 }, Pt { x: 10 * FX, y: 10 * FX }, 3277,
        Pt { x: 10 * FX, y: 0 }, Pt { x: 10 * FX, y: 10 * FX }, 0,
    );
    assert!(at);
}

#[test]
fn stride_larger_than_region_samples_only_origin() {
    let a = masked(0, 0, 2, 2, 0, 2, 2, vec![0x80]);
    let b = solid(-1, -1, 3, 3, 0);
    // The opaque texel sits under the overlap origin, so even an enormous
    // stride finds it at the first and only sample.
    assert!(check_collision(&a, &b, usize::MAX));
    // Opaque texel away from the origin: a huge stride samples nothing else.
    let mut mask = vec![0u8; 8];
    mask[4] = 0x08;
    let c = masked(0, 0, 8, 8, 0, 8, 8, mask);
    let d = solid(0, 0, 8, 8, 0);
    assert!(!check_collision(&c, &d, usize::MAX));
}

#[test]
fn tex_coord_clamps_degenerate_size_and_far_edge() {
    // A rectangle far narrower than a world unit: the mapping divides by the
    // clamped minimum size and still lands inside the texture grid.
    let tiny = Pt { x: 10, y: 10 };
    let r = calc_tex_coord(Pt { x: 60, y: 60 }, Pt { x: 0, y: 0 }, tiny, 4, 4);
    assert_eq!(r, (3, 3));
    // A point exactly on the far edge clamps to the last texel instead of
    // falling off the grid.
    let r2 = calc_tex_coord(
        Pt { x: 2 * FX, y: 2 * FX },
        Pt { x: 0, y: 0 },
        Pt { x: 2 * FX, y: 2 * FX },
        2,
        2,
    );
    assert_eq!(r2, (1, 1));
}

#[test]
fn parallel_backend_matches_sequential() {
    let cases: Vec<(Entity, Entity)> = vec![
        (masked(0, 0, 2, 2, 0, 2, 2, vec![0x80]), masked(0, 0, 2, 2, 0, 2, 2, vec![0x80])),
        (masked(0, 0, 2, 2, 0, 2, 2, vec![0x80]), masked(1, 1, 2, 2, 0, 2, 2, vec![0x80])),
        (masked(0, 0, 2, 2, 0, 2, 2, vec![0x80]), solid(-1, -1, 3, 3, 0)),
        (masked(10, 10, 6, 6, 51472, 6, 6, vec![0xFF; 5]), solid(12, 12, 4, 4, 0)),
        (masked(10, 10, 6, 6, 51472, 6, 6, vec![0xFF; 5]), solid(30, 30, 4, 4, 0)),
        (solid(0, 0, 10, 10, 0), solid(5, 5, 10, 10, 0)),
        (
            masked(10, 10, 6, 6, 51472, 6, 6, vec![0xFF; 5]),
            masked(12, 12, 6, 6, -51472, 6, 6, vec![0xFF; 5]),
        ),
    ];
    for (a, b) in &cases {
        for skip in [1usize, 2, 3] {
            assert_eq!(
                check_collision(a, b, skip),
                check_collision_parallel(a, b, skip),
            );
        }
    }
}

#[test]
fn collision_result_is_symmetric() {
    let cases: Vec<(Entity, Entity)> = vec![
        (solid(0, 0, 10, 10, 0), solid(5, 5, 10, 10, 0)),
        (solid(0, 0, 10, 10, 51472), solid(6, 0, 10, 10, FX_HALF_PI)),
        (masked(0, 0, 2, 2, 0, 2, 2, vec![0x80]), solid(-1, -1, 3, 3, 0)),
        (masked(0, 0, 2, 2, 0, 2, 2, vec![0x80]), masked(1, 1, 2, 2, 0, 2, 2, vec![0x80])),
        (
            masked(10, 10, 6, 6, 51472, 6, 6, vec![0xFF; 5]),
            masked(12, 12, 6, 6, -51472, 6, 6, vec![0xFF; 5]),
        ),
        (masked(10, 10, 6, 6, 51472, 6, 6, vec![0xFF; 5]), solid(30, 30, 4, 4, 0)),
    ];
    for (a, b) in &cases {
        for skip in [1usize, 2] {
            assert_eq!(check_collision(a, b, skip), check_collision(b, a, skip));
        }
    }
}

#[test]
fn parallel_backend_finds_single_opaque_texel() {
    // Would fail if the thread-pool search skipped rows or reported a fixed
    // answer: exactly one sampled point collides.
    let mut mask = vec![0u8; 8];
    mask[4] = 0x08;
    let a = masked(0, 0, 8, 8, 0, 8, 8, mask);
    let b = solid(0, 0, 8, 8, 0);
    assert!(check_collision_parallel(&a, &b, 1));
    assert!(!check_collision_parallel(&a, &b, 3));
}
