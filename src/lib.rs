//! Wavefront OBJ parsing and face resolution into a flat, GPU-ready vertex stream.
//!
//! Coordinates are carried as the decimal literals that the file wrote; turning them
//! into machine floats is left to the rendering layer.
pub mod geometry;
pub mod mesh;
pub mod objparse;
pub mod parser;
pub mod text;
