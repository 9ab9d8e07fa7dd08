use vstd::prelude::*;

pub mod algorithm;
pub mod complex;
pub mod measurement_matrix;
pub mod matrix;
pub mod precision;
pub mod signal_utils;
pub mod transform_matrix;

use algorithm::solve_spec;
use algorithm::Algorithm;
use complex::vec_real_parts;
use matrix::apply_complex_spec;
use matrix::apply_real_spec;
use matrix::is_composition;
use matrix::mat_like;
use matrix::take_prefix;
use matrix::Matrix;
use matrix::MatrixError;
use precision::Precision;
use precision::Reals;

pub use transform_matrix::Transformation;

verus! {

/// Collects the recovery configuration before the matrices are known: the
/// algorithm with its parameters, the transform kind (whose matrix an
/// external provider realizes), and optionally an explicit pre-composed
/// sensing matrix to use in place of the composition.
pub struct ModelBuilder<P: Precision> {
    pub algorithm: Algorithm<<P as Precision>::Real>,
    pub transform: Transformation,
    pub sensing: Option<Matrix<P>>,
}

impl<P: Precision> Default for ModelBuilder<P> where <P as Precision>::Real: Reals {
    /// No transform, no explicit sensing matrix, and the default algorithm.
    fn default() -> (r: ModelBuilder<P>)
        ensures
            r.transform == Transformation::Identity,
            r.sensing is None,
            r.algorithm matches Algorithm::OrthogonalMatchingPursuit(s) && s.max_iter == 1000
                && s.tolerance == <P as Precision>::Real::spec_from_int(1).spec_div(
                <P as Precision>::Real::spec_from_int(10),
            ),
    {
        ModelBuilder {
            algorithm: Default::default(),
            transform: Transformation::Identity,
            sensing: None,
        }
    }
}

impl<P: Precision> ModelBuilder<P> where <P as Precision>::Real: Reals {
    pub fn new() -> (r: ModelBuilder<P>)
        ensures
            r.transform == Transformation::Identity,
            r.sensing is None,
            r.algorithm matches Algorithm::OrthogonalMatchingPursuit(s) && s.max_iter == 1000
                && s.tolerance == <P as Precision>::Real::spec_from_int(1).spec_div(
                <P as Precision>::Real::spec_from_int(10),
            ),
    {
        Default::default()
    }

    /// Chooses the transform under which signals are assumed sparse.
    pub fn with_transformation(self, transform: Transformation) -> (r: ModelBuilder<P>)
        ensures
            r.transform == transform,
            r.algorithm == self.algorithm,
            r.sensing == self.sensing,
    {
        ModelBuilder { transform, ..self }
    }

    /// Supplies an explicit pre-composed sensing matrix, used by `build` in
    /// place of the composition of measurement and transform matrix.
    pub fn with_sensing_matrix(self, sensing: Matrix<P>) -> (r: ModelBuilder<P>)
        ensures
            r.sensing == Some(sensing),
            r.algorithm == self.algorithm,
            r.transform == self.transform,
    {
        ModelBuilder { sensing: Some(sensing), ..self }
    }

    /// Chooses the recovery algorithm and its parameters.
    pub fn with_algorithm(self, algorithm: Algorithm<<P as Precision>::Real>) -> (r: ModelBuilder<
        P,
    >)
        ensures
            r.algorithm == algorithm,
            r.transform == self.transform,
            r.sensing == self.sensing,
    {
        ModelBuilder { algorithm, ..self }
    }

    /// Assembles the model from the measurement matrix and the transform
    /// matrix, composing them once into the sensing matrix — the only place
    /// the matrix multiplication cost is paid. The transform must be
    /// square; the composition must be defined and its inner dimensions
    /// must agree; an explicit sensing matrix must have the composed shape.
    pub fn build(self, measurement: Matrix<P>, transform: Matrix<P>) -> (r: Result<
        Model<P>,
        MatrixError,
    >)
        requires
            measurement.wf(),
            transform.wf(),
            self.sensing matches Some(s) ==> s.wf(),
        ensures
            r is Ok ==> ({
                let model = r->Ok_0;
                &&& model.wf()
                &&& model.algorithm == self.algorithm
                &&& mat_like(model.measurement_matrix, measurement)
                &&& mat_like(model.transform, transform)
                &&& (self.sensing is None ==> is_composition(
                    model.sensing_matrix,
                    measurement,
                    transform,
                ))
                &&& (self.sensing matches Some(s) ==> model.sensing_matrix == s)
            }),
            transform.dim().nrows != transform.dim().ncols ==> r == Err::<Model<P>, MatrixError>(
                MatrixError::DimensionMismatch,
            ),
            transform.dim().nrows == transform.dim().ncols && self.sensing is None ==> ({
                &&& !matrix::compose_defined(measurement, transform) ==> r == Err::<
                    Model<P>,
                    MatrixError,
                >(MatrixError::UnsupportedCombination)
                &&& matrix::compose_defined(measurement, transform) && measurement.dim().ncols
                    != transform.dim().nrows ==> r == Err::<Model<P>, MatrixError>(
                    MatrixError::DimensionMismatch,
                )
                &&& matrix::compose_defined(measurement, transform) && measurement.dim().ncols
                    == transform.dim().nrows ==> r is Ok
            }),
            self.sensing is Some && transform.dim().nrows == transform.dim().ncols
                ==> ({
                let s = self.sensing->Some_0;
                let ok = s.dim().nrows == measurement.dim().nrows && s.dim().ncols
                    == transform.dim().ncols && measurement.dim().ncols == transform.dim().nrows;
                &&& ok ==> r is Ok
                &&& !ok ==> r == Err::<Model<P>, MatrixError>(MatrixError::DimensionMismatch)
            }),
    {
        let td = transform.dimension();
        if td.nrows != td.ncols {
            return Err(MatrixError::DimensionMismatch);
        }
        let md = measurement.dimension();
        let mc = measurement.clone();
        let tc = transform.clone();
        match self.sensing {
            Option::Some(s) => {
                let sd = s.dimension();
                if sd.nrows != md.nrows || sd.ncols != td.ncols || md.ncols != td.nrows {
                    Err(MatrixError::DimensionMismatch)
                } else {
                    Ok(
                        Model {
                            algorithm: self.algorithm,
                            measurement_matrix: mc,
                            transform: tc,
                            sensing_matrix: s,
                        },
                    )
                }
            },
            Option::None => {
                match measurement.compose(transform) {
                    Ok(s) => Ok(
                        Model {
                            algorithm: self.algorithm,
                            measurement_matrix: mc,
                            transform: tc,
                            sensing_matrix: s,
                        },
                    ),
                    Err(e) => Err(e),
                }
            },
        }
    }
}

/// A configured sensing pipeline: the measurement matrix (applied by
/// `compress`), the transform matrix (mapping recovered coefficients back
/// into signal space), the sensing matrix they compose into (solved
/// against by `decompress`), and the recovery algorithm. Immutable once
/// built; each call owns its own solver state.
pub struct Model<P: Precision> {
    pub algorithm: Algorithm<<P as Precision>::Real>,
    pub measurement_matrix: Matrix<P>,
    pub transform: Matrix<P>,
    pub sensing_matrix: Matrix<P>,
}

impl<P: Precision> Model<P> {
    /// The matrices are well-formed and their shapes agree: the measurement
    /// matrix maps length-`size_original` signals to `size_compressed`
    /// measurements, the transform is square on the original length, and
    /// the sensing matrix has the composed shape.
    pub open spec fn wf(self) -> bool {
        &&& self.measurement_matrix.wf()
        &&& self.transform.wf()
        &&& self.sensing_matrix.wf()
        &&& self.transform.dim().nrows == self.transform.dim().ncols
        &&& self.measurement_matrix.dim().ncols == self.transform.dim().nrows
        &&& self.sensing_matrix.dim().nrows == self.measurement_matrix.dim().nrows
        &&& self.sensing_matrix.dim().ncols == self.transform.dim().ncols
    }

    /// The number of measurements a compressed signal holds.
    pub open spec fn size_compressed(self) -> int {
        self.measurement_matrix.dim().nrows as int
    }

    /// The number of samples an original signal holds.
    pub open spec fn size_original(self) -> int {
        self.measurement_matrix.dim().ncols as int
    }
}

impl<P: Precision> Model<P> where <P as Precision>::Real: Reals {
    pub fn builder() -> (r: ModelBuilder<P>)
        ensures
            r.transform == Transformation::Identity,
            r.sensing is None,
            r.algorithm matches Algorithm::OrthogonalMatchingPursuit(s) && s.max_iter == 1000
                && s.tolerance == <P as Precision>::Real::spec_from_int(1).spec_div(
                <P as Precision>::Real::spec_from_int(10),
            ),
    {
        Default::default()
    }

    /// Applies the measurement matrix to the first `size_original` samples
    /// of the signal. The transform plays no part: measurement happens in
    /// the original domain. The result always holds exactly
    /// `size_compressed` measurements.
    pub fn compress(&self, original: &Vec<<P as Precision>::Real>) -> (r: Vec<
        <P as Precision>::Real,
    >)
        requires
            self.wf(),
            original@.len() >= self.size_original(),
        ensures
            r@.len() == self.size_compressed(),
            r@ == apply_real_spec(self.measurement_matrix, original@),
    {
        self.measurement_matrix.mul_real_signal(original.as_slice())
    }

    /// What `decompress` returns: with an identity sensing matrix the
    /// measurements pass through; otherwise the configured solver recovers
    /// the sparse coefficients against the sensing matrix and the transform
    /// matrix maps them back into signal space (taking real parts when the
    /// pipeline is complex).
    pub open spec fn decompress_spec(self, compressed: Seq<<P as Precision>::Real>) -> Seq<
        <P as Precision>::Real,
    > {
        match self.sensing_matrix {
            Matrix::Identity(_) => compressed.take(self.size_compressed()),
            Matrix::Real(sm) => apply_real_spec(
                self.transform,
                solve_spec::<<P as Precision>::Real>(self.algorithm, compressed, sm),
            ),
            Matrix::Complex(sm) => apply_complex_spec(
                self.transform,
                solve_spec::<P>(self.algorithm, compressed, sm),
            ).map_values(|x: P| x.spec_real_part()),
        }
    }

    /// Recovers a signal of exactly `size_original` samples from the first
    /// `size_compressed` measurements, as `decompress_spec` describes.
    /// With the identity transform the recovered coefficients pass through
    /// unchanged.
    pub fn decompress(&self, compressed: &Vec<<P as Precision>::Real>) -> (r: Vec<
        <P as Precision>::Real,
    >)
        requires
            self.wf(),
            compressed@.len() >= self.size_compressed(),
        ensures
            r@.len() == self.size_original(),
            r@ == self.decompress_spec(compressed@),
    {
        match &self.sensing_matrix {
            Matrix::Identity(d) => take_prefix(compressed.as_slice(), d.nrows),
            Matrix::Real(sm) => {
                let sparse = self.algorithm.solve(compressed, sm);
                self.transform.mul_real_signal(sparse.as_slice())
            },
            Matrix::Complex(sm) => {
                let sparse = self.algorithm.solve(compressed, sm);
                let mapped = self.transform.mul_complex_signal(sparse.as_slice());
                vec_real_parts(&mapped)
            },
        }
    }
}

} // verus!
