//! A line-oriented translator that turns a pair of OpenGL-style shader
//! programs (vertex and fragment stage) into one Metal-style shader source,
//! given metadata that lists the uniform block layout and the bound texture
//! names.

pub mod laws;
pub mod mapper;
pub mod rewrite;
pub mod scan;
pub mod structs;
pub mod text;
pub mod types;
