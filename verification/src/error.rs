use vstd::prelude::*;

use crate::numtext::{append_usize, spec_decimal};

verus! {

/// Why a generator rejected its input.
#[derive(Clone, Copy, PartialEq, Eq, Structural, Debug)]
pub enum MeshingError {
    /// The generator was called with no points at all.
    EmptyInput,
    /// The generator needs at least three points; the payload is the count
    /// that was actually supplied.
    InsufficientPoints(usize),
}

impl MeshingError {
    /// A human-readable description of the error.
    pub fn message(&self) -> (r: String)
        ensures
            *self == MeshingError::EmptyInput ==> r@ == "input points vector is empty"@,
            *self matches MeshingError::InsufficientPoints(n) ==> r@
                == "insufficient points for triangulation: need at least 3, got "@ + spec_decimal(
                n as nat,
            ),
    {
        match self {
            MeshingError::EmptyInput => {
                let mut out = String::new();
                out.append("input points vector is empty");
                out
            },
            MeshingError::InsufficientPoints(n) => {
                let mut out = String::new();
                out.append("insufficient points for triangulation: need at least 3, got ");
                append_usize(&mut out, *n);
                proof {
                    assert(out@ =~= "insufficient points for triangulation: need at least 3, got "@
                        + spec_decimal(*n as nat));
                }
                out
            },
        }
    }
}

} // verus!
