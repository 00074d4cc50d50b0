//! Verified core of a small ray tracer: the parts of scene assembly, mesh
//! import and frame handling that work on plain values.

pub mod args;
pub mod background;
pub mod decimal;
pub mod frame;
pub mod materials;
pub mod mesh;
pub mod wavefront;
