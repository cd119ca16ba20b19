//! Rendering-support library: resource-binding reflection, shader-source
//! preprocessing, and visibility culling, with machine-checked contracts.
//!
//! The GPU device and queue are collaborators that live outside this crate:
//! the library computes byte layouts, binding plans, rewritten shader text
//! and culling decisions, and a thin host layer performs the device calls.

pub mod binding;
pub mod culling;
pub mod model;
pub mod resource_loader;
pub mod shader;
pub mod texture;
