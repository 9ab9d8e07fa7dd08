use vstd::prelude::*;

verus! {

/// The numeric capabilities a sample type must offer to the recovery engine:
/// field arithmetic, a magnitude used to rank candidate columns, and a
/// conversion to and from the real reference field (measurements are always
/// real-valued, even when the sensing matrix is complex).
///
/// The engine is verified once, for every implementation of this trait: each
/// `ensures` below ties an executable operation to its abstract counterpart
/// (`spec_add`, `spec_mul`, ...), and every contract downstream is stated over
/// those abstract operations. Implementations are supplied by the caller, one
/// per concrete field (a real double-precision sample and a complex
/// double-precision sample are the two intended ones).
pub trait Precision: Sized + Copy {
    /// The real reference field of this sample type; for a real sample type
    /// it is the type itself. Users instantiate it with a `Reals`
    /// implementation; generic code states that with a `where` clause.
    type Real: Sized + Copy;

    /// The additive identity.
    spec fn spec_zero() -> Self;

    /// The multiplicative identity.
    spec fn spec_one() -> Self;

    spec fn spec_add(self, rhs: Self) -> Self;

    spec fn spec_sub(self, rhs: Self) -> Self;

    spec fn spec_mul(self, rhs: Self) -> Self;

    spec fn spec_div(self, rhs: Self) -> Self;

    /// The conjugate; the identity on a real field.
    spec fn spec_conj(self) -> Self;

    /// The magnitude used to rank candidate columns: the absolute value on a
    /// real field, a modulus-based magnitude on a complex one (never a
    /// lexicographic comparison of the parts).
    spec fn spec_mag(self) -> Self::Real;

    /// The squared modulus, summed by the residual norm.
    spec fn spec_mag_sq(self) -> Self::Real;

    /// The real part; the identity on a real field.
    spec fn spec_real_part(self) -> Self::Real;

    /// The imaginary part; zero on a real field.
    spec fn spec_imag_part(self) -> Self::Real;

    /// The embedding of the real reference field into this field.
    spec fn spec_from_real(r: Self::Real) -> Self;

    fn zero() -> (r: Self)
        ensures
            r == Self::spec_zero(),
    ;

    fn one() -> (r: Self)
        ensures
            r == Self::spec_one(),
    ;

    fn add(self, rhs: Self) -> (r: Self)
        ensures
            r == self.spec_add(rhs),
    ;

    fn sub(self, rhs: Self) -> (r: Self)
        ensures
            r == self.spec_sub(rhs),
    ;

    fn mul(self, rhs: Self) -> (r: Self)
        ensures
            r == self.spec_mul(rhs),
    ;

    /// Division. An implementation must not panic, whatever the divisor:
    /// a floating-point field yields its own non-finite values instead.
    fn div(self, rhs: Self) -> (r: Self)
        ensures
            r == self.spec_div(rhs),
    ;

    fn conj(self) -> (r: Self)
        ensures
            r == self.spec_conj(),
    ;

    fn mag(self) -> (r: Self::Real)
        ensures
            r == self.spec_mag(),
    ;

    fn mag_sq(self) -> (r: Self::Real)
        ensures
            r == self.spec_mag_sq(),
    ;

    fn real_part(self) -> (r: Self::Real)
        ensures
            r == self.spec_real_part(),
    ;

    fn imag_part(self) -> (r: Self::Real)
        ensures
            r == self.spec_imag_part(),
    ;

    fn from_real(r: Self::Real) -> (s: Self)
        ensures
            s == Self::spec_from_real(r),
    ;
}

/// The real reference field: a `Precision` that is its own real field, with
/// the order used for ranking magnitudes and stopping on a residual
/// tolerance, a square root for the residual norm, and an embedding of the
/// small integers (iteration counts, vector lengths).
pub trait Reals: Precision<Real = Self> {
    spec fn spec_lt(self, rhs: Self) -> bool;

    spec fn spec_sqrt(self) -> Self;

    spec fn spec_from_int(n: u64) -> Self;

    fn lt(self, rhs: Self) -> (r: bool)
        ensures
            r == self.spec_lt(rhs),
    ;

    fn sqrt(self) -> (r: Self)
        ensures
            r == self.spec_sqrt(),
    ;

    fn from_int(n: u64) -> (r: Self)
        ensures
            r == Self::spec_from_int(n),
    ;
}

} // verus!
