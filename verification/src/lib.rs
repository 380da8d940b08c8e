//! A discrete simulator for the two-dimensional scalar wave equation on a
//! bounded square lattice, together with the small lexing helpers of the
//! mesh-format reader that accompanies it.
//!
//! Heights and velocities are held as fixed-point numbers: an `i64` value `v`
//! stands for the real number `v / SCALE`.  All arithmetic of the integrator
//! is exact integer arithmetic, saturated at the `i64` range.

use vstd::prelude::*;

pub mod model_parsers;
pub mod render_gl;
pub mod wave_estimator;

verus! {

/// Error of the driving application: a component that was expected to be
/// present (named by the carried string) was still unset.
#[derive(Debug)]
pub enum Error {
    NoneObject(String),
}

} // verus!
