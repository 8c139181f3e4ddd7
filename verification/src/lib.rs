//! A verified core for a single-threaded voxel engine.
//!
//! The heart of the crate is [`component`]: a typed component registry in
//! which independently constructed subsystems register themselves once and
//! then reach each other through cheap, cloneable handles.  Around it stand
//! the small data types those subsystems trade in: block coordinates,
//! blocks and their texture atlas, texture handles, key states, callback
//! proxies, debug statistics and decoded images.

pub mod assets;
pub mod block;
pub mod buf;
pub mod callback;
pub mod component;
pub mod coords;
pub mod debug;
pub mod graphics;
pub mod image_data;
pub mod keyboard;
pub mod laws;
pub mod render;
pub mod resource;
pub mod textures;
