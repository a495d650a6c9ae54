//! Leaf geometry utilities: fixed-point points, rotation of a point about
//! a center, the axis-aligned bounding box of a rotated rectangle, mapping
//! of a world point into texture space, half-open rectangle containment,
//! and opacity-bit lookup in a packed mask.

use vstd::prelude::*;
use vstd::math::{min, max};
use crate::fx::{fmul, fx_mul, lemma_fmul_unit_bound, FX_MIN_SIZE, FX_MAX_NORM, FX_BB_MARGIN};
use crate::trig::{norm_angle, sin_norm, cos_norm, normalize_angle, sin_fx, cos_fx,
    lemma_trig_bounds};

verus! {

/// Largest magnitude of an entity coordinate (position or size component)
/// the engine accepts, in fixed-point units: 2^28 world units.
pub const COORD_LIMIT: i64 = 0x100000000000;

/// Largest magnitude of a point fed to the point-level geometry helpers;
/// derived points (rotated corners, overlap samples) stay well under it.
pub const PT_LIMIT: i64 = 0x10000000000000;

/// Largest texture dimension accepted, in texels.
pub const TEX_LIMIT: u32 = 0x100000;

/// A point or width/height pair in fixed-point world coordinates.
#[derive(Clone, Copy, Debug)]
pub struct Pt {
    pub x: i64,
    pub y: i64,
}

/// Mathematical model of a point: unbounded integer coordinates.
#[verifier::ext_equal]
pub ghost struct PtV {
    pub x: int,
    pub y: int,
}

impl View for Pt {
    type V = PtV;

    open spec fn view(&self) -> PtV {
        PtV { x: self.x as int, y: self.y as int }
    }
}

/// Both coordinates within `m` in magnitude.
pub open spec fn pt_bounded(p: PtV, m: int) -> bool {
    -m <= p.x <= m && -m <= p.y <= m
}

/// Center of an axis-aligned rectangle, with the half sizes truncated
/// downward as the hardware division would do.
pub open spec fn rect_center(pos: PtV, size: PtV) -> PtV {
    PtV { x: pos.x + size.x / 2, y: pos.y + size.y / 2 }
}

/// Rotation of `p` about `c` by `angle` (counter-clockwise for positive
/// angles). A zero angle is an exact identity; otherwise the angle is
/// normalized and the standard 2D rotation is applied in fixed point.
pub open spec fn rotate_pt_spec(p: PtV, c: PtV, angle: int) -> PtV {
    if angle == 0 {
        p
    } else {
        let n = norm_angle(angle);
        let cosv = cos_norm(n);
        let sinv = sin_norm(n);
        let tx = p.x - c.x;
        let ty = p.y - c.y;
        PtV {
            x: fmul(tx, cosv) - fmul(ty, sinv) + c.x,
            y: fmul(tx, sinv) + fmul(ty, cosv) + c.y,
        }
    }
}

/// A rotated point stays within five times the bound of its inputs.
pub proof fn lemma_rotate_bound(p: PtV, c: PtV, angle: int, m: int)
    requires
        0 <= m,
        pt_bounded(p, m),
        pt_bounded(c, m),
    ensures
        pt_bounded(rotate_pt_spec(p, c, angle), 5 * m),
{
    if angle != 0 {
        let n = norm_angle(angle);
        lemma_trig_bounds(n);
        lemma_fmul_unit_bound(p.x - c.x, cos_norm(n), 2 * m);
        lemma_fmul_unit_bound(p.y - c.y, sin_norm(n), 2 * m);
        lemma_fmul_unit_bound(p.x - c.x, sin_norm(n), 2 * m);
        lemma_fmul_unit_bound(p.y - c.y, cos_norm(n), 2 * m);
    }
}

/// Rotating by zero or by one full turn (in either direction) moves no
/// point: normalization maps a full turn to the zero angle, whose sine is
/// zero and cosine exactly one unit, and multiplying by one unit is exact.
pub proof fn lemma_full_turn_rotation(p: PtV, c: PtV)
    ensures
        rotate_pt_spec(p, c, 411775) == p,
        rotate_pt_spec(p, c, -411775) == p,
        rotate_pt_spec(p, c, 0) == p,
{
    crate::trig::lemma_norm_full_turn();
    crate::trig::lemma_trig_of_zero();
    crate::fx::lemma_fmul_one(p.x - c.x);
    crate::fx::lemma_fmul_one(p.y - c.y);
    crate::fx::lemma_fmul_zero(p.x - c.x);
    crate::fx::lemma_fmul_zero(p.y - c.y);
    assert(rotate_pt_spec(p, c, 411775) =~= p);
    assert(rotate_pt_spec(p, c, -411775) =~= p);
}

/// Rotation is periodic in a full turn: rotating by `a + 2*Pi` or
/// `a - 2*Pi` moves every point exactly where rotating by `a` does. When
/// one of the two angles is the zero fast path, the other normalizes to
/// zero, whose rotation is the exact identity.
pub proof fn lemma_rotation_periodic(p: PtV, c: PtV, a: int)
    ensures
        rotate_pt_spec(p, c, a + 411775) == rotate_pt_spec(p, c, a),
        rotate_pt_spec(p, c, a - 411775) == rotate_pt_spec(p, c, a),
{
    crate::trig::lemma_norm_angle_periodic(a);
    crate::trig::lemma_trig_of_zero();
    crate::fx::lemma_fmul_one(p.x - c.x);
    crate::fx::lemma_fmul_one(p.y - c.y);
    crate::fx::lemma_fmul_zero(p.x - c.x);
    crate::fx::lemma_fmul_zero(p.y - c.y);
    lemma_full_turn_rotation(p, c);
    if a != 0 && a + 411775 != 0 {
        assert(rotate_pt_spec(p, c, a + 411775) =~= rotate_pt_spec(p, c, a));
    }
    if a != 0 && a - 411775 != 0 {
        assert(rotate_pt_spec(p, c, a - 411775) =~= rotate_pt_spec(p, c, a));
    }
}

/// Rotates a point around a center point; positive angles turn
/// counter-clockwise, and a zero angle returns the point unchanged.
pub fn rotate_point(point: Pt, center: Pt, angle: i64) -> (r: Pt)
    requires
        pt_bounded(point@, PT_LIMIT as int),
        pt_bounded(center@, PT_LIMIT as int),
    ensures
        r@ == rotate_pt_spec(point@, center@, angle as int),
        pt_bounded(r@, 5 * (PT_LIMIT as int)),
{
    proof {
        lemma_rotate_bound(point@, center@, angle as int, PT_LIMIT as int);
    }
    if angle == 0 {
        return point;
    }
    let n = normalize_angle(angle);
    let cos_angle = cos_fx(n);
    let sin_angle = sin_fx(n);
    let tx = point.x - center.x;
    let ty = point.y - center.y;
    proof {
        lemma_fmul_unit_bound(tx as int, cos_angle as int, 2 * (PT_LIMIT as int));
        lemma_fmul_unit_bound(ty as int, sin_angle as int, 2 * (PT_LIMIT as int));
        lemma_fmul_unit_bound(tx as int, sin_angle as int, 2 * (PT_LIMIT as int));
        lemma_fmul_unit_bound(ty as int, cos_angle as int, 2 * (PT_LIMIT as int));
    }
    let rotated_x = fx_mul(tx, cos_angle) - fx_mul(ty, sin_angle);
    let rotated_y = fx_mul(tx, sin_angle) + fx_mul(ty, cos_angle);
    Pt { x: rotated_x + center.x, y: rotated_y + center.y }
}

/// Smaller of two fixed-point values.
pub fn min_fx(a: i64, b: i64) -> (r: i64)
    ensures
        r as int == min(a as int, b as int),
{
    if a < b { a } else { b }
}

/// Larger of two fixed-point values.
pub fn max_fx(a: i64, b: i64) -> (r: i64)
    ensures
        r as int == max(a as int, b as int),
{
    if a > b { a } else { b }
}

/// Axis-aligned bounding box of a rectangle rotated about its center:
/// position and size of the box around the four rotated corners, inflated
/// by the 2% safety margin. A rotation that normalizes to the zero angle
/// (zero itself, or any whole number of full turns) returns the inputs
/// unchanged.
pub open spec fn bbox_spec(pos: PtV, size: PtV, angle: int) -> (PtV, PtV) {
    if norm_angle(angle) == 0 {
        (pos, size)
    } else {
        let c = rect_center(pos, size);
        let tl = rotate_pt_spec(pos, c, angle);
        let tr = rotate_pt_spec(PtV { x: pos.x + size.x, y: pos.y }, c, angle);
        let bl = rotate_pt_spec(PtV { x: pos.x, y: pos.y + size.y }, c, angle);
        let br = rotate_pt_spec(PtV { x: pos.x + size.x, y: pos.y + size.y }, c, angle);
        let min_x = min(min(min(tl.x, tr.x), bl.x), br.x);
        let min_y = min(min(min(tl.y, tr.y), bl.y), br.y);
        let max_x = max(max(max(tl.x, tr.x), bl.x), br.x);
        let max_y = max(max(max(tl.y, tr.y), bl.y), br.y);
        let margin_x = fmul(size.x, 1311);
        let margin_y = fmul(size.y, 1311);
        (
            PtV { x: min_x - margin_x, y: min_y - margin_y },
            PtV { x: max_x - min_x + 2 * margin_x, y: max_y - min_y + 2 * margin_y },
        )
    }
}

/// The bounding box of a rotated rectangle does not change when the
/// rotation shifts by a full turn.
pub proof fn lemma_bbox_full_turn(pos: PtV, size: PtV, a: int)
    ensures
        bbox_spec(pos, size, a + 411775) == bbox_spec(pos, size, a),
{
    crate::trig::lemma_norm_angle_periodic(a);
    let c = rect_center(pos, size);
    lemma_rotation_periodic(pos, c, a);
    lemma_rotation_periodic(PtV { x: pos.x + size.x, y: pos.y }, c, a);
    lemma_rotation_periodic(PtV { x: pos.x, y: pos.y + size.y }, c, a);
    lemma_rotation_periodic(PtV { x: pos.x + size.x, y: pos.y + size.y }, c, a);
}

/// Computes the axis-aligned box that covers the rectangle after rotation
/// about its center, with a small margin against rounding at the edges.
pub fn calculate_rotated_bounding_box(pos: Pt, size: Pt, angle: i64) -> (r: (Pt, Pt))
    requires
        pt_bounded(pos@, COORD_LIMIT as int),
        0 <= size@.x <= COORD_LIMIT as int,
        0 <= size@.y <= COORD_LIMIT as int,
    ensures
        (r.0@, r.1@) == bbox_spec(pos@, size@, angle as int),
        pt_bounded(r.0@, 16 * (COORD_LIMIT as int)),
        pt_bounded(r.1@, 32 * (COORD_LIMIT as int)),
{
    if normalize_angle(angle) == 0 {
        return (pos, size);
    }
    let center = Pt {
        x: pos.x + ((size.x as u64) / 2) as i64,
        y: pos.y + ((size.y as u64) / 2) as i64,
    };
    proof {
        assert(center@ == rect_center(pos@, size@));
        lemma_rotate_bound(pos@, center@, angle as int, 2 * (COORD_LIMIT as int));
        lemma_rotate_bound(
            PtV { x: pos@.x + size@.x, y: pos@.y },
            center@,
            angle as int,
            2 * (COORD_LIMIT as int),
        );
        lemma_rotate_bound(
            PtV { x: pos@.x, y: pos@.y + size@.y },
            center@,
            angle as int,
            2 * (COORD_LIMIT as int),
        );
        lemma_rotate_bound(
            PtV { x: pos@.x + size@.x, y: pos@.y + size@.y },
            center@,
            angle as int,
            2 * (COORD_LIMIT as int),
        );
    }
    let top_left = pos;
    let top_right = Pt { x: pos.x + size.x, y: pos.y };
    let bottom_left = Pt { x: pos.x, y: pos.y + size.y };
    let bottom_right = Pt { x: pos.x + size.x, y: pos.y + size.y };
    let rotated_tl = rotate_point(top_left, center, angle);
    let rotated_tr = rotate_point(top_right, center, angle);
    let rotated_bl = rotate_point(bottom_left, center, angle);
    let rotated_br = rotate_point(bottom_right, center, angle);
    let min_x = min_fx(min_fx(min_fx(rotated_tl.x, rotated_tr.x), rotated_bl.x), rotated_br.x);
    let min_y = min_fx(min_fx(min_fx(rotated_tl.y, rotated_tr.y), rotated_bl.y), rotated_br.y);
    let max_x = max_fx(max_fx(max_fx(rotated_tl.x, rotated_tr.x), rotated_bl.x), rotated_br.x);
    let max_y = max_fx(max_fx(max_fx(rotated_tl.y, rotated_tr.y), rotated_bl.y), rotated_br.y);
    proof {
        lemma_fmul_unit_bound(size@.x, 1311, COORD_LIMIT as int);
        lemma_fmul_unit_bound(size@.y, 1311, COORD_LIMIT as int);
    }
    let margin_x = fx_mul(size.x, FX_BB_MARGIN);
    let margin_y = fx_mul(size.y, FX_BB_MARGIN);
    (
        Pt { x: min_x - margin_x, y: min_y - margin_y },
        Pt { x: max_x - min_x + 2 * margin_x, y: max_y - min_y + 2 * margin_y },
    )
}

/// Texture coordinate of a world value along one axis: the offset from the
/// rectangle's edge, normalized against the (clamped) size into
/// `[0, FX_MAX_NORM]` and scaled to the texture dimension.
pub open spec fn tex_coord(v: int, pos: int, size: int, tex: int) -> int {
    let safe = if size < 66 { 66 } else { size };
    let num = v - pos;
    let norm = if num <= 0 {
        0
    } else {
        let q = (num * 65536) / safe;
        if q > 65470 { 65470 } else { q }
    };
    (norm * tex) / 65536
}

/// One axis of `calc_tex_coord`.
fn tex_axis(v: i64, pos: i64, size: i64, tex: u32) -> (t: usize)
    requires
        -(PT_LIMIT as int) * 8 <= v as int <= (PT_LIMIT as int) * 8,
        -(COORD_LIMIT as int) <= pos as int <= COORD_LIMIT as int,
        0 <= size,
        tex <= TEX_LIMIT,
    ensures
        t == tex_coord(v as int, pos as int, size as int, tex as int),
        t <= TEX_LIMIT,
{
    let safe: i64 = if size < FX_MIN_SIZE { FX_MIN_SIZE } else { size };
    let num: i64 = v - pos;
    let norm: u64 = if num <= 0 {
        0
    } else {
        let q: u128 = ((num as u128) * 65536) / (safe as u128);
        if q > FX_MAX_NORM as u128 {
            FX_MAX_NORM as u64
        } else {
            proof {
                vstd::arithmetic::div_mod::lemma_div_is_ordered(
                    0,
                    (num as int) * 65536,
                    safe as int,
                );
                vstd::arithmetic::mul::lemma_mul_inequality(1, num as int, 65536);
            }
            q as u64
        }
    };
    proof {
        vstd::arithmetic::mul::lemma_mul_upper_bound(norm as int, 65536, tex as int, 0x100000int);
        vstd::arithmetic::div_mod::lemma_div_is_ordered(
            (norm as int) * (tex as int),
            65536int * 0x100000,
            65536,
        );
        vstd::arithmetic::div_mod::lemma_div_multiples_vanish(0x100000, 65536);
        assert(65536 * 0x100000 == 0x100000 * 65536) by (nonlinear_arith);
        vstd::arithmetic::div_mod::lemma_div_is_ordered(0, (norm as int) * (tex as int), 65536);
        vstd::arithmetic::mul::lemma_mul_nonnegative(norm as int, tex as int);
    }
    let t: u64 = ((norm as u64) * (tex as u64)) / 65536;
    t as usize
}

/// Maps a world point into integer texel coordinates of the rectangle
/// `(pos, size)` backed by a `tex_w` by `tex_h` texture, clamping degenerate
/// sizes and edge points so the result always lands inside the texture grid.
pub fn calc_tex_coord(point: Pt, pos: Pt, size: Pt, tex_w: u32, tex_h: u32) -> (r: (usize, usize))
    requires
        pt_bounded(point@, 8 * (PT_LIMIT as int)),
        pt_bounded(pos@, COORD_LIMIT as int),
        0 <= size@.x,
        0 <= size@.y,
        tex_w <= TEX_LIMIT,
        tex_h <= TEX_LIMIT,
    ensures
        r.0 == tex_coord(point@.x, pos@.x, size@.x, tex_w as int),
        r.1 == tex_coord(point@.y, pos@.y, size@.y, tex_h as int),
        r.0 <= TEX_LIMIT,
        r.1 <= TEX_LIMIT,
{
    (tex_axis(point.x, pos.x, size.x, tex_w), tex_axis(point.y, pos.y, size.y, tex_h))
}

/// On a two-texel axis spanning two world units, an integer-aligned value
/// maps to texel zero at the rectangle's edge and texel one a unit later.
pub proof fn lemma_tex_coord_two_texels(v: int, pos: int)
    requires
        v == pos || v == pos + 65536,
    ensures
        tex_coord(v, pos, 131072, 2) == (if v == pos { 0int } else { 1int }),
{
    if v == pos {
        vstd::arithmetic::div_mod::lemma_div_of0(65536int);
    } else {
        vstd::arithmetic::div_mod::lemma_div_multiples_vanish(32768, 131072);
        assert(65536int * 65536 == 131072int * 32768);
        vstd::arithmetic::div_mod::lemma_div_by_self(65536int);
        assert(32768int * 2 == 65536);
    }
}

/// Half-open containment of a point in an axis-aligned rectangle:
/// `pos <= p < pos + size` on both axes.
pub open spec fn in_rect(p: PtV, pos: PtV, size: PtV) -> bool {
    &&& pos.x <= p.x < pos.x + size.x
    &&& pos.y <= p.y < pos.y + size.y
}

/// Tests whether a point lies within a rectangle's bounds (half-open on
/// the far edges).
pub fn is_point_in_bounds(point: Pt, pos: Pt, size: Pt) -> (r: bool)
    requires
        pt_bounded(pos@, COORD_LIMIT as int),
        0 <= size@.x <= COORD_LIMIT as int,
        0 <= size@.y <= COORD_LIMIT as int,
    ensures
        r == in_rect(point@, pos@, size@),
{
    point.x >= pos.x && point.x < pos.x + size.x && point.y >= pos.y && point.y < pos.y + size.y
}

/// Meaning of one texel of a packed opacity mask: bit `idx` of the mask,
/// row-major from the top-left texel, most-significant bit first within
/// each byte. An index beyond the mask is not opaque.
pub open spec fn mask_bit(mask: Seq<u8>, idx: int) -> bool {
    if idx < 0 || idx / 8 >= mask.len() {
        false
    } else {
        (mask[idx / 8] >> (7 - idx % 8)) & 1 == 1
    }
}

/// Extracts opacity bit `idx` from a packed mask; `None` when the index
/// lies beyond the mask, which callers treat as "not opaque".
pub fn is_mask_bit_set(mask: &Vec<u8>, idx: u64) -> (r: Option<bool>)
    ensures
        r == (if idx / 8 < mask@.len() {
            Some(mask_bit(mask@, idx as int))
        } else {
            None::<bool>
        }),
{
    if idx / 8 >= mask.len() as u64 {
        None
    } else {
        let mask_byte = mask[(idx / 8) as usize];
        let mask_bit = (mask_byte >> (7 - (idx % 8)) as u8) & 1;
        Some(mask_bit == 1)
    }
}

} // verus!
