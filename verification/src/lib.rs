//! A verified core for a meadow-and-bee field game: an entity store with typed
//! component access, a barrier-ordered scheduler of per-tick routines, a
//! broad-phase spatial index over the flower field, and an exact fixed-point
//! narrow-phase collision test for the bee's rotated hitbox.

pub mod backstage;
pub mod bee;
pub mod camera;
pub mod collision;
pub mod fx;
pub mod index;
pub mod meadow;
pub mod prelude;
pub mod rng;
pub mod settings;
pub mod store;
pub mod vec2;
