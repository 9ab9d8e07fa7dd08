use rand::distributions::Bernoulli;
use rand::distributions::Distribution;
use rand::distributions::Uniform;
use rand::rngs::StdRng;
use rand::Rng;
use rand::SeedableRng;
use rustdct::DctPlanner;

use sense_motive::algorithm::Algorithm;
use sense_motive::algorithm::MatchingPursuitSolver;
use sense_motive::algorithm::OrthogonalMatchingPursuitSolver;
use sense_motive::complex::ComplexFields;
use sense_motive::matrix::ChunkedMultiplication;
use sense_motive::matrix::DenseMatrix;
use sense_motive::matrix::Dimension;
use sense_motive::matrix::Matrix;
use sense_motive::matrix::MatrixError;
use sense_motive::precision::Precision;
use sense_motive::precision::Reals;
use sense_motive::signal_utils::diff;
use sense_motive::signal_utils::error_l2;
use sense_motive::signal_utils::error_l2_norm;
use sense_motive::Model;
use sense_motive::ModelBuilder;
use sense_motive::Transformation;

/// Real double-precision samples.
#[derive(Clone, Copy, Debug, PartialEq)]
struct R64(f64);

/// Complex double-precision samples.
#[derive(Clone, Copy, Debug, PartialEq)]
struct C64 {
    re: f64,
    im: f64,
}

impl Precision for R64 {
    type Real = R64;

    fn spec_zero() -> R64 {
        R64(0.0)
    }

    fn spec_one() -> R64 {
        R64(1.0)
    }

    fn spec_add(self, rhs: R64) -> R64 {
        self.add(rhs)
    }

    fn spec_sub(self, rhs: R64) -> R64 {
        self.sub(rhs)
    }

    fn spec_mul(self, rhs: R64) -> R64 {
        self.mul(rhs)
    }

    fn spec_div(self, rhs: R64) -> R64 {
        self.div(rhs)
    }

    fn spec_conj(self) -> R64 {
        self
    }

    fn spec_mag(self) -> R64 {
        self.mag()
    }

    fn spec_mag_sq(self) -> R64 {
        self.mag_sq()
    }

    fn spec_real_part(self) -> R64 {
        self
    }

    fn spec_imag_part(self) -> R64 {
        R64(0.0)
    }

    fn spec_from_real(r: R64) -> R64 {
        r
    }

    fn zero() -> R64 {
        R64(0.0)
    }

    fn one() -> R64 {
        R64(1.0)
    }

    fn add(self, rhs: R64) -> R64 {
        R64(self.0 + rhs.0)
    }

    fn sub(self, rhs: R64) -> R64 {
        R64(self.0 - rhs.0)
    }

    fn mul(self, rhs: R64) -> R64 {
        R64(self.0 * rhs.0)
    }

    fn div(self, rhs: R64) -> R64 {
        R64(self.0 / rhs.0)
    }

    fn conj(self) -> R64 {
        self
    }

    fn mag(self) -> R64 {
        R64(self.0.abs())
    }

    fn mag_sq(self) -> R64 {
        R64(self.0 * self.0)
    }

    fn real_part(self) -> R64 {
        self
    }

    fn imag_part(self) -> R64 {
        R64(0.0)
    }

    fn from_real(r: R64) -> R64 {
        r
    }
}

impl Reals for R64 {
    fn spec_lt(self, rhs: R64) -> bool {
        self.0 < rhs.0
    }

    fn spec_sqrt(self) -> R64 {
        R64(self.0.sqrt())
    }

    fn spec_from_int(n: u64) -> R64 {
        R64(n as f64)
    }

    fn lt(self, rhs: R64) -> bool {
        self.0 < rhs.0
    }

    fn sqrt(self) -> R64 {
        R64(self.0.sqrt())
    }

    fn from_int(n: u64) -> R64 {
        R64(n as f64)
    }
}

impl Precision for C64 {
    type Real = R64;

    fn spec_zero() -> C64 {
        C64 { re: 0.0, im: 0.0 }
    }

    fn spec_one() -> C64 {
        C64 { re: 1.0, im: 0.0 }
    }

    fn spec_add(self, rhs: C64) -> C64 {
        self.add(rhs)
    }

    fn spec_sub(self, rhs: C64) -> C64 {
        self.sub(rhs)
    }

    fn spec_mul(self, rhs: C64) -> C64 {
        self.mul(rhs)
    }

    fn spec_div(self, rhs: C64) -> C64 {
        self.div(rhs)
    }

    fn spec_conj(self) -> C64 {
        self.conj()
    }

    fn spec_mag(self) -> R64 {
        self.mag()
    }

    fn spec_mag_sq(self) -> R64 {
        self.mag_sq()
    }

    fn spec_real_part(self) -> R64 {
        R64(self.re)
    }

    fn spec_imag_part(self) -> R64 {
        R64(self.im)
    }

    fn spec_from_real(r: R64) -> C64 {
        C64 { re: r.0, im: 0.0 }
    }

    fn zero() -> C64 {
        C64 { re: 0.0, im: 0.0 }
    }

    fn one() -> C64 {
        C64 { re: 1.0, im: 0.0 }
    }

    fn add(self, rhs: C64) -> C64 {
        C64 { re: self.re + rhs.re, im: self.im + rhs.im }
    }

    fn sub(self, rhs: C64) -> C64 {
        C64 { re: self.re - rhs.re, im: self.im - rhs.im }
    }

    fn mul(self, rhs: C64) -> C64 {
        C64 {
            re: self.re * rhs.re - self.im * rhs.im,
            im: self.re * rhs.im + self.im * rhs.re,
        }
    }

    fn div(self, rhs: C64) -> C64 {
        let d = rhs.re * rhs.re + rhs.im * rhs.im;
        C64 {
            re: (self.re * rhs.re + self.im * rhs.im) / d,
            im: (self.im * rhs.re - self.re * rhs.im) / d,
        }
    }

    fn conj(self) -> C64 {
        C64 { re: self.re, im: -self.im }
    }

    fn mag(self) -> R64 {
        R64(self.re.abs() + self.im.abs())
    }

    fn mag_sq(self) -> R64 {
        R64(self.re * self.re + self.im * self.im)
    }

    fn real_part(self) -> R64 {
        R64(self.re)
    }

    fn imag_part(self) -> R64 {
        R64(self.im)
    }

    fn from_real(r: R64) -> C64 {
        C64 { re: r.0, im: 0.0 }
    }
}

fn rv(values: &[f64]) -> Vec<R64> {
    values.iter().map(|x| R64(*x)).collect()
}

fn fv(values: &[R64]) -> Vec<f64> {
    values.iter().map(|x| x.0).collect()
}

/// A real dense matrix from row-major entries.
fn real_matrix(nrows: usize, ncols: usize, rows: &[f64]) -> DenseMatrix<R64> {
    assert_eq!(rows.len(), nrows * ncols);
    let mut data = Vec::new();
    for j in 0..ncols {
        for i in 0..nrows {
            data.push(R64(rows[i * ncols + j]));
        }
    }
    DenseMatrix::new(nrows, ncols, data)
}

fn assert_all_close(a: &[R64], b: &[f64], eps: f64) {
    assert_eq!(a.len(), b.len());
    for i in 0..a.len() {
        assert!((a[i].0 - b[i]).abs() <= eps, "sample {} differs: {} vs {}", i, a[i].0, b[i]);
    }
}

const ONE_HALF: f64 = 1.0 / 2.0;
const ONE_THIRD: f64 = 1.0 / 3.0;

fn best_column_matrix() -> DenseMatrix<R64> {
    real_matrix(
        3,
        4,
        &[
            1.0, 0.0, 0.0, ONE_THIRD.sqrt(),
            0.0, ONE_HALF.sqrt(), 0.0, ONE_THIRD.sqrt(),
            0.0, ONE_HALF.sqrt(), 1.0, ONE_THIRD.sqrt(),
        ],
    )
}

fn abort_matrix() -> DenseMatrix<R64> {
    real_matrix(
        3,
        4,
        &[
            0.0, 0.0, 0.0, 0.0,
            0.0, 0.0, 0.0, 0.0,
            1.0, 0.0, 0.0, 0.0,
        ],
    )
}

#[test]
fn matching_pursuit_selects_best_matching_column() {
    let sensing_matrix = best_column_matrix();
    let expected = rv(&[0.0, 1.0, 0.0, 0.0]);
    let compressed = sensing_matrix.mul_chunked(expected.as_slice());

    let algorithm = MatchingPursuitSolver::with_parameters(1, R64(0.1));
    let decompressed = algorithm.solve(&compressed, &sensing_matrix);

    assert_all_close(&decompressed, &[0.0, 1.0, 0.0, 0.0], 1e-9);
}

#[test]
fn matching_pursuit_should_abort_when_residual_energy_is_below_tolerance() {
    let sensing_matrix = abort_matrix();
    let compressed = rv(&[1.0, 1.0, 1.0]);
    let expected_tolerance = 2.0_f64.sqrt();
    let algorithm = MatchingPursuitSolver::with_parameters(10, R64(expected_tolerance + 0.1));

    let decompressed = algorithm.solve(&compressed, &sensing_matrix);

    assert_eq!(decompressed, rv(&[1.0, 0.0, 0.0, 0.0]));

    let reproduced = sensing_matrix.mul_chunked(decompressed.as_slice());
    let residual = diff(&compressed, &reproduced);
    let norm = error_l2(&residual, &rv(&[0.0, 0.0, 0.0])).0.sqrt();
    assert!((norm - expected_tolerance).abs() <= 1e-12);
}

#[test]
fn orthogonal_matching_pursuit_selects_best_matching_column() {
    let sensing_matrix = best_column_matrix();
    let expected = rv(&[0.0, 1.0, 0.0, 0.0]);
    let compressed = sensing_matrix.mul_chunked(expected.as_slice());

    let algorithm = OrthogonalMatchingPursuitSolver::with_parameters(1, R64(0.1));
    let decompressed = algorithm.solve(&compressed, &sensing_matrix);

    assert_all_close(&decompressed, &[0.0, 1.0, 0.0, 0.0], 1e-9);
}

#[test]
fn orthogonal_matching_pursuit_should_abort_when_residual_energy_is_below_tolerance() {
    let sensing_matrix = abort_matrix();
    let compressed = rv(&[1.0, 1.0, 1.0]);
    let expected_tolerance = 2.0_f64.sqrt();
    let algorithm =
        OrthogonalMatchingPursuitSolver::with_parameters(10, R64(expected_tolerance + 0.1));

    let decompressed = algorithm.solve(&compressed, &sensing_matrix);

    assert_eq!(decompressed, rv(&[1.0, 0.0, 0.0, 0.0]));

    let reproduced = sensing_matrix.mul_chunked(decompressed.as_slice());
    let residual = diff(&compressed, &reproduced);
    let norm = error_l2(&residual, &rv(&[0.0, 0.0, 0.0])).0.sqrt();
    assert!((norm - expected_tolerance).abs() <= 1e-12);
}

const N: usize = 128;
const M: usize = 64;
const K: usize = 4;
const TOL_ERR: f64 = 0.1;

/// An M-by-N matrix with entries independently plus or minus
/// `1 / sqrt(N)`, with equal probability.
fn bernoulli_matrix(seed: u64, nrows: usize, ncols: usize) -> DenseMatrix<R64> {
    let rng = StdRng::seed_from_u64(seed);
    let norm = 1.0 / (ncols as f64).sqrt();
    let mut dist = Bernoulli::new(0.5)
        .unwrap()
        .sample_iter(rng)
        .map(|v| if v { norm } else { -norm });
    let mut data = Vec::new();
    for _ in 0..nrows * ncols {
        data.push(R64(dist.next().unwrap()));
    }
    DenseMatrix::new(nrows, ncols, data)
}

fn generate_sparse_signal(seed: u64, len: usize, sparsity: usize) -> Vec<R64> {
    let mut rng = StdRng::seed_from_u64(seed);
    let mut signal = vec![R64(0.0); len];
    for _ in 0..sparsity {
        let i = rng.sample(Uniform::new(0, len));
        let a = rng.sample(Uniform::new(0.0, 1.0));
        signal[i] = R64(a);
    }
    signal
}

fn generate_cos_signal(seed: u64, len: usize, sparsity: usize) -> Vec<R64> {
    let mut rng = StdRng::seed_from_u64(seed);
    let mut params = Vec::new();
    for _ in 0..sparsity {
        let f = rng.sample(Uniform::new(0.0, 10.0));
        let a = rng.sample(Uniform::new(0.0, 1.0));
        params.push((f, a));
    }
    (0..len)
        .map(|i| i as f64 / len as f64)
        .map(|i| {
            R64(params
                .iter()
                .map(|(f, a)| a * (i * 2.0 * std::f64::consts::PI * f).cos())
                .sum())
        })
        .collect()
}

/// The N-by-N inverse discrete cosine transform matrix, column by column.
fn dct1d_inverse_matrix(dimension: usize) -> DenseMatrix<R64> {
    let mut planner = DctPlanner::<f64>::new();
    let dct = planner.plan_dct3(dimension);
    let mut scratch = vec![0.0; dct.get_scratch_len()];
    let scale = 1.0 / f64::sqrt(dimension as f64 / 2.0);

    let mut data = Vec::new();
    for j in 0..dimension {
        let mut col = vec![0.0; dimension];
        col[j] = 1.0;
        dct.process_dct3_with_scratch(&mut col, &mut scratch);
        for x in col {
            data.push(R64(x * scale));
        }
    }
    DenseMatrix::new(dimension, dimension, data)
}

#[test]
fn reconstruct_with_bernoulli() {
    let measurement = Matrix::<R64>::Real(bernoulli_matrix(7, M, N));
    let transform = Matrix::<R64>::Identity(Dimension { nrows: N, ncols: N });
    let model = ModelBuilder::new()
        .with_transformation(Transformation::Identity)
        .build(measurement, transform)
        .unwrap();

    let original = generate_sparse_signal(11, N, K);

    let compressed = model.compress(&original);
    let decompressed = model.decompress(&compressed);

    println!("difference {:?}", fv(&diff(&original, &decompressed)));
    assert!(error_l2(&original, &decompressed).0.abs() <= TOL_ERR);
}

#[test]
fn reconstruct_with_bernoulli_and_dct() {
    let measurement = Matrix::<R64>::Real(bernoulli_matrix(7, M, N));
    let transform = Matrix::<R64>::Real(dct1d_inverse_matrix(N));
    let model = ModelBuilder::new()
        .with_transformation(Transformation::Dct1dInverse)
        .build(measurement, transform)
        .unwrap();

    let original = generate_cos_signal(13, N, K);

    let compressed = model.compress(&original);
    let decompressed = model.decompress(&compressed);

    println!("difference {:?}", fv(&diff(&original, &decompressed)));
    assert!(error_l2_norm(&original, &decompressed).0.abs() <= TOL_ERR);
}

#[test]
fn reconstruct_with_bernoulli_matching_pursuit() {
    let measurement = Matrix::<R64>::Real(bernoulli_matrix(7, M, N));
    let transform = Matrix::<R64>::Identity(Dimension { nrows: N, ncols: N });
    let model = ModelBuilder::new()
        .with_algorithm(Algorithm::MatchingPursuit(MatchingPursuitSolver::with_parameters(
            1000,
            R64(0.1),
        )))
        .build(measurement, transform)
        .unwrap();

    let original = generate_sparse_signal(11, N, K);

    let compressed = model.compress(&original);
    let decompressed = model.decompress(&compressed);

    assert!(error_l2(&original, &decompressed).0.abs() <= TOL_ERR);
}

#[test]
fn compress_and_decompress_keep_the_configured_lengths() {
    let measurement = Matrix::<R64>::Real(bernoulli_matrix(3, 3, 5));
    let transform = Matrix::<R64>::Identity(Dimension { nrows: 5, ncols: 5 });
    let model = ModelBuilder::new().build(measurement, transform).unwrap();

    let original = rv(&[1.0, 2.0, 3.0, 4.0, 5.0]);
    let compressed = model.compress(&original);
    assert_eq!(compressed.len(), 3);
    let decompressed = model.decompress(&compressed);
    assert_eq!(decompressed.len(), 5);

    let mp_model: Model<R64> = ModelBuilder::new()
        .with_algorithm(Algorithm::MatchingPursuit(MatchingPursuitSolver::with_parameters(
            7,
            R64(0.5),
        )))
        .build(
            Matrix::Real(bernoulli_matrix(3, 3, 5)),
            Matrix::Identity(Dimension { nrows: 5, ncols: 5 }),
        )
        .unwrap();
    assert_eq!(mp_model.compress(&original).len(), 3);
    assert_eq!(mp_model.decompress(&compressed).len(), 5);
}

#[test]
fn identity_transform_shortcut_is_transparent() {
    let dense = best_column_matrix();
    let measurement = Matrix::<R64>::Real(dense.clone());
    let transform = Matrix::<R64>::Identity(Dimension { nrows: 4, ncols: 4 });
    let algorithm = Algorithm::MatchingPursuit(MatchingPursuitSolver::with_parameters(2, R64(0.1)));
    let model = ModelBuilder::new()
        .with_algorithm(algorithm)
        .build(measurement, transform)
        .unwrap();

    let compressed = rv(&[0.5, -0.25, 1.0]);
    let via_model = model.decompress(&compressed);
    let directly = algorithm.solve(&compressed, &dense);
    assert_eq!(via_model, directly);
}

#[test]
fn compose_follows_the_dimension_law() {
    let a = real_matrix(2, 3, &[1.0, 0.0, 2.0, 0.0, 1.0, -1.0]);
    let b = real_matrix(3, 4, &[
        1.0, 0.0, 0.0, 1.0,
        0.0, 1.0, 0.0, 1.0,
        0.0, 0.0, 1.0, 1.0,
    ]);
    let composed = Matrix::<R64>::Real(a).compose(Matrix::Real(b)).unwrap();
    match composed {
        Matrix::Real(c) => {
            assert_eq!(c.nrows, 2);
            assert_eq!(c.ncols, 4);
            // row 0 of a times column 3 of b: 1 + 0 + 2
            assert_eq!(c.get(0, 3), R64(3.0));
            assert_eq!(c.get(1, 3), R64(0.0));
            assert_eq!(c.get(0, 0), R64(1.0));
            assert_eq!(c.get(1, 2), R64(-1.0));
        }
        _ => panic!("dense composition expected"),
    }
}

#[test]
fn compose_with_identity_returns_the_operand_unchanged() {
    let a = best_column_matrix();
    let left = Matrix::<R64>::Identity(Dimension { nrows: 3, ncols: 3 })
        .compose(Matrix::Real(a.clone()))
        .unwrap();
    match left {
        Matrix::Real(m) => assert_eq!(m.data, a.data),
        _ => panic!("pass-through expected"),
    }
    let right = Matrix::<R64>::Real(a.clone())
        .compose(Matrix::Identity(Dimension { nrows: 4, ncols: 4 }))
        .unwrap();
    match right {
        Matrix::Real(m) => assert_eq!(m.data, a.data),
        _ => panic!("pass-through expected"),
    }
    let both = Matrix::<R64>::Identity(Dimension { nrows: 2, ncols: 5 })
        .compose(Matrix::Identity(Dimension { nrows: 5, ncols: 7 }))
        .unwrap();
    match both {
        Matrix::Identity(d) => assert_eq!(d, Dimension { nrows: 2, ncols: 7 }),
        _ => panic!("identity expected"),
    }
}

#[test]
fn compose_rejects_mismatched_and_unsupported_combinations() {
    let a = real_matrix(2, 3, &[0.0; 6]);
    let b = real_matrix(4, 2, &[0.0; 8]);
    let mismatch = Matrix::<R64>::Real(a.clone()).compose(Matrix::Real(b));
    match mismatch {
        Err(e) => assert_eq!(e, MatrixError::DimensionMismatch),
        Ok(_) => panic!("mismatched shapes must be rejected"),
    }

    let c = DenseMatrix::new(3, 3, vec![C64 { re: 0.0, im: 0.0 }; 9]);
    let ar = real_matrix(2, 3, &[0.0; 6]);
    let unsupported = Matrix::<C64>::Real(
        DenseMatrix::new(2, 3, ar.data.clone()),
    )
    .compose(Matrix::Complex(c));
    match unsupported {
        Err(e) => assert_eq!(e, MatrixError::UnsupportedCombination),
        Ok(_) => panic!("a real with a complex operand must be rejected"),
    }
}

#[test]
fn build_rejects_a_transform_that_is_not_square() {
    let measurement = Matrix::<R64>::Real(real_matrix(2, 3, &[0.0; 6]));
    let transform = Matrix::<R64>::Real(real_matrix(3, 4, &[0.0; 12]));
    let r = ModelBuilder::new().build(measurement, transform);
    match r {
        Err(e) => assert_eq!(e, MatrixError::DimensionMismatch),
        Ok(_) => panic!("a rectangular transform must be rejected"),
    }
}

#[test]
fn build_uses_an_explicit_sensing_matrix() {
    let measurement = Matrix::<R64>::Real(abort_matrix());
    let transform = Matrix::<R64>::Identity(Dimension { nrows: 4, ncols: 4 });
    let sensing = Matrix::<R64>::Real(best_column_matrix());
    let model = ModelBuilder::new()
        .with_sensing_matrix(sensing)
        .build(measurement, transform)
        .unwrap();
    match &model.sensing_matrix {
        Matrix::Real(m) => assert_eq!(m.data, best_column_matrix().data),
        _ => panic!("explicit sensing matrix expected"),
    }
}

#[test]
fn solver_runs_over_a_complex_sensing_matrix() {
    // the complex identity: measurements land on the two unit columns
    let sensing = DenseMatrix::new(
        2,
        2,
        vec![
            C64 { re: 1.0, im: 0.0 },
            C64 { re: 0.0, im: 0.0 },
            C64 { re: 0.0, im: 0.0 },
            C64 { re: 1.0, im: 0.0 },
        ],
    );
    let y = rv(&[1.0, 2.0]);
    let algorithm = MatchingPursuitSolver::with_parameters(2, R64(1e-9));
    let sparse = algorithm.solve(&y, &sensing);
    assert_eq!(sparse[0], C64 { re: 1.0, im: 0.0 });
    assert_eq!(sparse[1], C64 { re: 2.0, im: 0.0 });

    let parts: Vec<R64> = sparse.real_part();
    assert_eq!(parts, rv(&[1.0, 2.0]));
    let imags: Vec<R64> = sparse.imag_part();
    assert_eq!(imags, rv(&[0.0, 0.0]));
}

#[test]
fn error_measures_have_their_exact_values() {
    let a = rv(&[1.0, 2.0]);
    let b = rv(&[0.0, 0.0]);
    assert_eq!(error_l2(&a, &b), R64(5.0));
    assert_eq!(error_l2_norm(&a, &b), R64(2.5));
    assert_eq!(diff(&a, &b), rv(&[1.0, 2.0]));
    assert_eq!(diff(&a, &rv(&[3.0])), rv(&[-2.0]));
}

#[test]
fn transformation_kinds_report_identity() {
    assert!(Transformation::Identity.is_identity());
    assert!(!Transformation::Dct1d.is_identity());
    assert!(!Transformation::Dct1dInverse.is_identity());
    assert!(!Transformation::Fourier1d.is_identity());
    assert!(!Transformation::Fourier1dInverse.is_identity());
}

#[test]
fn zero_iterations_return_the_all_zero_estimate() {
    let sensing_matrix = best_column_matrix();
    let compressed = rv(&[1.0, 1.0, 1.0]);
    let mp = MatchingPursuitSolver::with_parameters(0, R64(0.1));
    assert_eq!(mp.solve(&compressed, &sensing_matrix), rv(&[0.0, 0.0, 0.0, 0.0]));
    let omp = OrthogonalMatchingPursuitSolver::with_parameters(0, R64(0.1));
    assert_eq!(omp.solve(&compressed, &sensing_matrix), rv(&[0.0, 0.0, 0.0, 0.0]));
}
