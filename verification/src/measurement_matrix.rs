use vstd::prelude::*;

verus! {

/// The random ensemble a measurement matrix is drawn from. A Bernoulli
/// ensemble holds entries that are independently plus or minus one over the
/// square root of the column count, with equal probability. The drawing
/// itself needs a randomness source and is done by an external generator;
/// the recovery engine depends only on receiving a matrix of the right
/// shape.
#[derive(Clone, Copy, Debug, PartialEq, Eq, Structural)]
pub enum MeasurementMatrix {
    Bernoulli,
}

} // verus!
