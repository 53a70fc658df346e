//! Core of a software star renderer: a framebuffer with depth-tested pixel
//! writes, validation of a triangle index stream, the index topology of a
//! procedurally generated sphere, and a fixed-point procedural noise stack —
//! lattice gradient noise, a cheap two-tap blend, and fractal turbulence.
//!
//! Everything here is integer logic with proved contracts. The surrounding
//! application supplies the floating-point geometry and shading math and talks
//! to this core through plain values: pixel coordinates, colors, depth values
//! encoded as order-preserving integer codes, and Q16.16 fixed-point noise
//! coordinates.

pub mod framebuffer;
pub mod mesh;
pub mod noise;
pub mod raster;
pub mod shaders;
