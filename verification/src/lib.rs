//! A 2D tile scene: a hierarchy of placed entities whose world matrices
//! follow their ancestors, a sprite animation clock, the resolution of
//! input flags into movement, and the flattening of entities into instance
//! records.
//!
//! Vectors and matrices are those of `nalgebra_glm`. Their components are
//! never read here: they are produced and combined by that crate, and the
//! contracts speak of the results through named functions.

pub mod linear;
pub mod hierarchy;
pub mod transform;
pub mod scene;
pub mod instances;
pub mod input;
pub mod animation;
pub mod control;
pub mod camera;
pub mod tiles;
pub mod viewport;
pub mod frame;
pub mod vertex;
pub mod stage;
