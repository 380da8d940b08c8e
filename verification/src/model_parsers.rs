//! Lexing helpers for the mesh model format reader.

pub mod wavefront_obj;
