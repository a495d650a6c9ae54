//! Tiered 2D overlap testing for sprite-like entities: axis-aligned
//! bounding-box rejection, oriented-rectangle overlap by the separating
//! axis theorem, and per-pixel opacity-mask scanning, all over a
//! fixed-point coordinate model.
//!
//! - [`fx`]: fixed-point scalars and the tuning constants.
//! - [`trig`]: angle normalization and fixed-point sine/cosine.
//! - [`geom`]: points, rotation, bounding boxes, texture mapping, masks.
//! - [`entity`]: the collidable entity and its capability trait.
//! - [`sat`]: the oriented-rectangle (separating axis) test.
//! - [`scan`]: the masked overlap scanners over the sample grid.
//! - [`collision`]: the dispatcher, `check_collision`.
//! - [`par`]: the data-parallel execution backend for the scanners.

pub mod collision;
pub mod entity;
pub mod fx;
pub mod geom;
pub mod par;
pub mod sat;
pub mod scan;
pub mod trig;
