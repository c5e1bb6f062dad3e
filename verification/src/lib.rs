//! Core of an interactive 3D scene viewer, written for verification.
//!
//! Coordinates, angles and colors are fixed-point values ([`fixed::Scalar`])
//! with six decimal places, so every operation has an exact integer
//! semantics that contracts can state. The crate provides the linear
//! algebra ([`vec3`], [`mat3`], [`mat4`]), the orbit camera ([`camera`]),
//! the mesh accumulation buffer ([`graphics`]), the vertex layout
//! description ([`objects`]) and a small expression evaluator
//! ([`expr`]); the GPU and windowing plumbing lives outside this
//! crate and consumes the buffers and transforms built here.

pub mod fixed;
pub mod trig;
pub mod vec3;
pub mod mat3;
pub mod mat4;
pub mod color;
pub mod camera;
pub mod graphics;
pub mod objects;
pub mod expr;
