//! Model loading: its error taxonomy and the OBJ-backed loader.

use vstd::prelude::*;

verus! {

/// What can go wrong while loading a model file.
#[derive(Debug)]
pub enum Error {
    /// The named resource could not be read.
    ResourceLoad { name: String },
    /// A line of the model file could not be interpreted.
    InvalidObjLine { line: String },
}

/// Loader of models held in the Wavefront OBJ format.
pub struct ObjLoader {}

} // verus!
