//! Shader uniform binding: its error taxonomy.

use vstd::prelude::*;

verus! {

/// What can go wrong while applying a shader uniform.
#[derive(Debug)]
pub enum Error {
    /// No uniform location of the carried name exists in the program.
    UniformNotFound { name: String },
}

} // verus!
