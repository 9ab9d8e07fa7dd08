use vstd::prelude::*;

verus! {

/// The basis under which a signal is assumed sparse: no transform at all,
/// or the one-dimensional discrete cosine or Fourier transform, each in its
/// forward or inverse direction. The identity needs no data; the others are
/// realized as dense matrices by an external transform provider and handed
/// to the model builder.
#[derive(Clone, Copy, Debug, PartialEq, Eq, Structural)]
pub enum Transformation {
    Identity,
    Dct1dInverse,
    Dct1d,
    Fourier1dInverse,
    Fourier1d,
}

impl Transformation {
    /// Whether this transform is the identity and needs no materialized
    /// matrix.
    pub fn is_identity(&self) -> (r: bool)
        ensures
            r == (*self == Transformation::Identity),
    {
        match self {
            Transformation::Identity => true,
            _ => false,
        }
    }
}

} // verus!
