//! Core of a small rendering engine: layout registry, GPU resource
//! bindings, asset registry, scene component store, shadow-casting
//! light manager and the multi-pass frame recorder.
//!
//! GPU resources are modelled as plain values: driver handles are
//! integers handed out by a [`device::Device`], buffer contents are
//! byte vectors, and a frame is a recorded sequence of passes and
//! draw commands.  The host application realizes these handles on a
//! real device and replays recorded frames.

pub mod device;
pub mod document;
pub mod gpu;
pub mod layout;
pub mod material;
pub mod model;
pub mod components;
pub mod world;
pub mod camera;
pub mod light_manager;
pub mod renderer;
pub mod registry;
