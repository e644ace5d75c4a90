//! Combat core of a hex-grid tower-defense game: tower placement and
//! economy, target acquisition, projectile ballistics and explosions,
//! modelled over integers (world units, microseconds) and verified.
pub mod board;
pub mod explosion;
pub mod geometry;
pub mod laws;
pub mod lifecycle;
pub mod projectile;
pub mod timer;
pub mod tower;
