//! Scene-composition core of a first-person 3D level renderer.
//!
//! The crate owns the set of loaded level resources, decides what is visible
//! and how it is fogged, determines draw order, and emits the per-viewport
//! draw-command stream that a graphics backend executes.  GPU objects,
//! swapchains and window handles belong to that backend and are not modeled
//! here; the library hands it plain values and command lists.
//!
//! All scalar quantities that the domain expresses as real numbers
//! (colors, opacities, distances, field-of-view angles) are carried as
//! fixed-point integers with a denominator of 65536, so that every rule about
//! them is stated and proved exactly.

pub mod error;
pub mod fixed;
pub mod color;
pub mod order;
pub mod keymap;
pub mod string32;
pub mod vertex;
pub mod parameters;
pub mod bitmap;
pub mod pipeline;
pub mod shader;
pub mod geometry;
pub mod sky;
pub mod viewport;
pub mod font;
pub mod bsp;
pub mod draw;
pub mod renderer;
