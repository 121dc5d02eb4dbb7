//! Verified core of a 2D frog game in which the frog swings by its tongue,
//! with the plane controls and terrain mesh of its 3D scene.
pub mod input;
pub mod physics;
pub mod player;
pub mod terrain;
