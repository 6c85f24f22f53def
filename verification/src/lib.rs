//! Geometry core for a cursor-following ribbon tail.
//!
//! A [`history::HistoryBuffer`] records the most recent sample points of a
//! tracked position together with their velocities, at a rate limited by a
//! [`history::RateLimiter`].  The mesh builder in [`mesh`] turns the buffer
//! into a triangulated ribbon: vertex positions, per-vertex cross-section
//! weights, and a triangle index list.  All coordinates are integers; unit
//! normals are held in fixed point with [`mesh::UNIT`] as one, so every step
//! of the geometry is exact and free of undefined values.

pub mod history;
pub mod isqrt;
pub mod mesh;
pub mod vec2;

pub use history::update_history;
pub use history::HistoryBuffer;
pub use history::RateLimiter;
pub use history::TailNode;
pub use mesh::build_ribbon_mesh;
pub use mesh::get_normal;
pub use mesh::make_player_mesh;
pub use mesh::make_tail_indices;
pub use mesh::RibbonMesh;
pub use vec2::Vec2I;
