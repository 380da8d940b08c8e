//! Viewport handling: its error taxonomy.

use vstd::prelude::*;

verus! {

/// What can go wrong while updating the viewport's shader state.
#[derive(Debug)]
pub enum Error {
    /// A uniform of the viewport could not be applied.
    ResourceLoad { inner: crate::render_gl::uniform::Error },
}

} // verus!
