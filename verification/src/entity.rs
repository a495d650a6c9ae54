//! The collidable entity: position, size, texture dimensions, rotation and
//! an optional packed opacity mask, together with the capability trait the
//! engine requires from host entity types.

use vstd::prelude::*;
use crate::geom::{Pt, PtV, pt_bounded, COORD_LIMIT, TEX_LIMIT};

verus! {

/// Mathematical model of an entity: plain integer geometry plus the mask
/// contents as a byte sequence.
#[verifier::ext_equal]
pub ghost struct EntV {
    pub pos: PtV,
    pub size: PtV,
    pub tex_w: int,
    pub tex_h: int,
    pub angle: int,
    pub mask: Option<Seq<u8>>,
}

/// A concrete collidable entity, in fixed-point world coordinates.
///
/// `mask` is one bit per texel, row-major from the top-left, most
/// significant bit first within each byte, 1 meaning opaque; `None` means
/// the entity is a solid rectangle. A mask shorter than
/// `tex_w * tex_h` bits makes the uncovered tail read as transparent.
pub struct Entity {
    /// Top-left corner in world units.
    pub pos: Pt,
    /// Width and height in world units (positive).
    pub size: Pt,
    /// Native texture width in texels.
    pub tex_w: u32,
    /// Native texture height in texels.
    pub tex_h: u32,
    /// Rotation in fixed-point radians, counter-clockwise positive.
    pub angle: i64,
    /// Packed per-texel opacity bits, if the entity is not solid.
    pub mask: Option<Vec<u8>>,
}

impl View for Entity {
    type V = EntV;

    open spec fn view(&self) -> EntV {
        EntV {
            pos: self.pos@,
            size: self.size@,
            tex_w: self.tex_w as int,
            tex_h: self.tex_h as int,
            angle: self.angle as int,
            mask: match self.mask {
                Some(m) => Some(m@),
                None => None,
            },
        }
    }
}

/// The same entity with another rotation.
pub open spec fn with_angle(e: EntV, a: int) -> EntV {
    EntV { angle: a, ..e }
}

/// Well-formed entity: coordinates and sizes within the engine's fixed
/// range, positive sizes, texture dimensions within the texel limit, and a
/// rotation magnitude small enough to negate without overflow.
pub open spec fn ent_wf(e: EntV) -> bool {
    &&& pt_bounded(e.pos, COORD_LIMIT as int)
    &&& 0 < e.size.x <= COORD_LIMIT as int
    &&& 0 < e.size.y <= COORD_LIMIT as int
    &&& 0 <= e.tex_w <= TEX_LIMIT as int
    &&& 0 <= e.tex_h <= TEX_LIMIT as int
    &&& -0x4000000000000000 <= e.angle <= 0x4000000000000000
}

/// Capability contract the engine requires from host entities: five
/// read-only accessors, each returning exactly the corresponding component
/// of the entity's model.
pub trait Collidable: Sized {
    /// The entity's geometry and mask as one mathematical value.
    spec fn model(&self) -> EntV;

    /// Top-left corner in world units.
    fn pos(&self) -> (r: Pt)
        ensures
            r@ == self.model().pos,
    ;

    /// Width and height in world units.
    fn size(&self) -> (r: Pt)
        ensures
            r@ == self.model().size,
    ;

    /// Native texture dimensions in texels (width, height).
    fn texture_size(&self) -> (r: (u32, u32))
        ensures
            r.0 as int == self.model().tex_w,
            r.1 as int == self.model().tex_h,
    ;

    /// The packed opacity mask, or `None` for a solid rectangle.
    fn get_mask(&self) -> (r: &Option<Vec<u8>>)
        ensures
            (*r) is Some <==> self.model().mask is Some,
            (*r) is Some ==> (*r)->Some_0@ == self.model().mask->Some_0,
    ;

    /// Rotation in fixed-point radians.
    fn get_angle(&self) -> (r: i64)
        ensures
            r as int == self.model().angle,
    ;
}

impl Collidable for Entity {
    open spec fn model(&self) -> EntV {
        self@
    }

    fn pos(&self) -> (r: Pt) {
        self.pos
    }

    fn size(&self) -> (r: Pt) {
        self.size
    }

    fn texture_size(&self) -> (r: (u32, u32)) {
        (self.tex_w, self.tex_h)
    }

    fn get_mask(&self) -> (r: &Option<Vec<u8>>) {
        &self.mask
    }

    fn get_angle(&self) -> (r: i64) {
        self.angle
    }
}

} // verus!
