use vstd::prelude::*;

use crate::precision::Precision;

verus! {

/// The real parts of a signal over `P`, sample by sample.
pub fn vec_real_parts<P: Precision>(v: &Vec<P>) -> (r: Vec<<P as Precision>::Real>)
    ensures
        r@ == v@.map_values(|x: P| x.spec_real_part()),
{
    let mut out: Vec<P::Real> = Vec::new();
    let mut i: usize = 0;
    while i < v.len()
        invariant
            i <= v@.len(),
            out@ =~= v@.map_values(|x: P| x.spec_real_part()).take(i as int),
        decreases v@.len() - i,
    {
        out.push(v[i].real_part());
        i = i + 1;
    }
    proof {
        assert(out@ =~= v@.map_values(|x: P| x.spec_real_part()));
    }
    out
}

/// The imaginary parts of a signal over `P`, sample by sample.
pub fn vec_imag_parts<P: Precision>(v: &Vec<P>) -> (r: Vec<<P as Precision>::Real>)
    ensures
        r@ == v@.map_values(|x: P| x.spec_imag_part()),
{
    let mut out: Vec<P::Real> = Vec::new();
    let mut i: usize = 0;
    while i < v.len()
        invariant
            i <= v@.len(),
            out@ =~= v@.map_values(|x: P| x.spec_imag_part()).take(i as int),
        decreases v@.len() - i,
    {
        out.push(v[i].imag_part());
        i = i + 1;
    }
    proof {
        assert(out@ =~= v@.map_values(|x: P| x.spec_imag_part()));
    }
    out
}

/// Splitting a value into its real and imaginary parts. For a signal over a
/// complex field the parts are taken sample by sample; the contracts live on
/// `vec_real_parts` and `vec_imag_parts`, which the implementation calls.
pub trait ComplexFields {
    type RealField;

    fn real_part(&self) -> Self::RealField;

    fn imag_part(&self) -> Self::RealField;
}

impl<P: Precision> ComplexFields for Vec<P> {
    type RealField = Vec<<P as Precision>::Real>;

    fn real_part(&self) -> Vec<<P as Precision>::Real> {
        vec_real_parts(self)
    }

    fn imag_part(&self) -> Vec<<P as Precision>::Real> {
        vec_imag_parts(self)
    }
}

} // verus!
