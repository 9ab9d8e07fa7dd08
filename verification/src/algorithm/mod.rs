use vstd::prelude::*;

use crate::matrix::sdot;
use crate::matrix::take_prefix;
use crate::matrix::DenseMatrix;
use crate::precision::Precision;
use crate::precision::Reals;
use matching_pursuit::mp_run;
use orthogonal_matching_pursuit::omp_run;

pub mod least_squares;
pub mod matching_pursuit;
pub mod orthogonal_matching_pursuit;

pub use matching_pursuit::MatchingPursuitSolver;
pub use orthogonal_matching_pursuit::OrthogonalMatchingPursuitSolver;

verus! {

/// The inner products of a residual of length `a.nrows` against every column
/// of `a`: the transpose of `a` applied to the residual.
pub open spec fn col_products<P: Precision>(a: DenseMatrix<P>, r: Seq<P>) -> Seq<P> {
    Seq::new(a.ncols as nat, |j: int| sdot(a.col(j), r.take(a.nrows as int)))
}

/// The transpose of `a` applied to the first `a.nrows` samples of `residual`.
pub fn tr_products<P: Precision>(a: &DenseMatrix<P>, residual: &Vec<P>) -> (r: Vec<P>)
    requires
        a.wf(),
        residual@.len() >= a.nrows,
    ensures
        r@ == col_products(*a, residual@),
{
    let mut out: Vec<P> = Vec::new();
    let mut j: usize = 0;
    while j < a.ncols
        invariant
            a.wf(),
            residual@.len() >= a.nrows,
            j <= a.ncols,
            out@ =~= col_products(*a, residual@).take(j as int),
        decreases a.ncols - j,
    {
        let mut acc: P = P::zero();
        let mut i: usize = 0;
        while i < a.nrows
            invariant
                a.wf(),
                residual@.len() >= a.nrows,
                j < a.ncols,
                i <= a.nrows,
                acc == sdot(
                    a.col(j as int).take(i as int),
                    residual@.take(a.nrows as int).take(i as int),
                ),
            decreases a.nrows - i,
        {
            let term = a.get(i, j).mul(residual[i]);
            proof {
                let colj = a.col(j as int);
                let res = residual@.take(a.nrows as int);
                assert(colj.take(i as int + 1) =~= colj.take(i as int).push(colj[i as int]));
                assert(res.take(i as int + 1) =~= res.take(i as int).push(res[i as int]));
                crate::matrix::lemma_sdot_push(
                    colj.take(i as int),
                    res.take(i as int),
                    colj[i as int],
                    res[i as int],
                );
            }
            acc = acc.add(term);
            i = i + 1;
        }
        proof {
            let colj = a.col(j as int);
            let res = residual@.take(a.nrows as int);
            assert(colj.take(a.nrows as int) =~= colj);
            assert(res.take(a.nrows as int) =~= res);
            assert(col_products(*a, residual@).take(j as int + 1)
                =~= col_products(*a, residual@).take(j as int).push(
                    col_products(*a, residual@)[j as int],
                ));
        }
        out.push(acc);
        j = j + 1;
    }
    proof {
        assert(out@ =~= col_products(*a, residual@));
    }
    out
}

/// The first index among `0 .. n` that is not listed in `used` and whose
/// product has maximal magnitude; later indices win only strictly, so exact
/// ties keep the smallest index. `-1` when every index is used or `n <= 0`.
pub open spec fn argmax_ex<P: Precision>(p: Seq<P>, used: Seq<usize>, n: int) -> int where
    <P as Precision>::Real: Reals,

    decreases n,
{
    if n <= 0 {
        -1
    } else {
        let prev = argmax_ex(p, used, n - 1);
        if used.contains((n - 1) as usize) {
            prev
        } else if prev < 0 {
            n - 1
        } else if p[prev].spec_mag().spec_lt(p[n - 1].spec_mag()) {
            n - 1
        } else {
            prev
        }
    }
}

pub proof fn lemma_argmax_ex_range<P: Precision>(p: Seq<P>, used: Seq<usize>, n: int) where
    <P as Precision>::Real: Reals,

    requires
        0 <= n,
    ensures
        -1 <= argmax_ex(p, used, n) < n,
        argmax_ex(p, used, n) >= 0 ==> !used.contains(argmax_ex(p, used, n) as usize),
    decreases n,
{
    if n <= 0 {
    } else {
        lemma_argmax_ex_range(p, used, n - 1);
    }
}

/// Whether `j` occurs in `used`.
pub fn contains_idx(used: &Vec<usize>, j: usize) -> (r: bool)
    ensures
        r == used@.contains(j),
{
    let mut i: usize = 0;
    while i < used.len()
        invariant
            i <= used@.len(),
            forall|k: int| 0 <= k < i ==> used@[k] != j,
        decreases used@.len() - i,
    {
        if used[i] == j {
            return true;
        }
        i = i + 1;
    }
    proof {
        assert(!used@.contains(j));
    }
    false
}

/// The first unused index with a product of maximal magnitude, or `None`
/// when every index is used.
pub fn argmax_excluding<P: Precision>(p: &Vec<P>, used: &Vec<usize>) -> (r: Option<usize>) where
    <P as Precision>::Real: Reals,

    ensures
        match r {
            Some(k) => k < p@.len() && k as int == argmax_ex(p@, used@, p@.len() as int),
            None => argmax_ex(p@, used@, p@.len() as int) < 0,
        },
{
    let mut best: Option<usize> = None;
    let mut best_mag: Option<P::Real> = None;
    let mut j: usize = 0;
    while j < p.len()
        invariant
            j <= p@.len(),
            match best {
                Some(k) => k < j && k as int == argmax_ex(p@, used@, j as int) && (match best_mag {
                    Some(m) => m == p@[k as int].spec_mag(),
                    None => false,
                }),
                None => argmax_ex(p@, used@, j as int) < 0 && best_mag is None,
            },
        decreases p@.len() - j,
    {
        if !contains_idx(used, j) {
            let mj = p[j].mag();
            let better = match best_mag {
                Some(bm) => bm.lt(mj),
                None => true,
            };
            if better {
                best = Some(j);
                best_mag = Some(mj);
            }
        }
        j = j + 1;
    }
    best
}

/// The squared Euclidean norm of a residual: the sum of the squared moduli
/// of its first `n` samples, accumulated from the left starting at zero.
pub open spec fn mag_sq_sum<P: Precision>(v: Seq<P>, n: int) -> <P as Precision>::Real where
    <P as Precision>::Real: Reals,

    decreases n,
{
    if n <= 0 {
        <P as Precision>::Real::spec_zero()
    } else {
        mag_sq_sum(v, n - 1).spec_add(v[n - 1].spec_mag_sq())
    }
}

/// The Euclidean norm of a residual: the square root of the summed squared
/// moduli of its samples.
pub open spec fn mag_norm<P: Precision>(v: Seq<P>) -> <P as Precision>::Real where
    <P as Precision>::Real: Reals,
{
    mag_sq_sum(v, v.len() as int).spec_sqrt()
}

/// The Euclidean norm of a residual.
pub fn norm<P: Precision>(v: &Vec<P>) -> (r: <P as Precision>::Real) where
    <P as Precision>::Real: Reals,

    ensures
        r == mag_norm(v@),
{
    let mut acc: P::Real = <P as Precision>::Real::zero();
    let mut i: usize = 0;
    while i < v.len()
        invariant
            i <= v@.len(),
            acc == mag_sq_sum(v@, i as int),
        decreases v@.len() - i,
    {
        acc = acc.add(v[i].mag_sq());
        i = i + 1;
    }
    acc.sqrt()
}

/// A sequence of `n` zero samples.
pub open spec fn zeros_seq<P: Precision>(n: int) -> Seq<P> {
    Seq::new(n as nat, |i: int| P::spec_zero())
}

/// A sparse estimate of length `n` with every entry zero.
pub fn zero_vec<P: Precision>(n: usize) -> (r: Vec<P>)
    ensures
        r@ == zeros_seq::<P>(n as int),
{
    let mut out: Vec<P> = Vec::new();
    let mut i: usize = 0;
    while i < n
        invariant
            i <= n,
            out@ =~= zeros_seq::<P>(n as int).take(i as int),
        decreases n - i,
    {
        out.push(P::zero());
        i = i + 1;
    }
    proof {
        assert(out@ =~= zeros_seq::<P>(n as int));
    }
    out
}

/// The embedding of a real measurement buffer into the sample field, sample
/// by sample, over the first `n` samples.
pub fn from_real_prefix<P: Precision>(y: &Vec<<P as Precision>::Real>, n: usize) -> (r: Vec<P>)
    requires
        y@.len() >= n,
    ensures
        r@ == y@.take(n as int).map_values(|x: <P as Precision>::Real| P::spec_from_real(x)),
{
    let mut out: Vec<P> = Vec::new();
    let mut i: usize = 0;
    while i < n
        invariant
            y@.len() >= n,
            i <= n,
            out@ =~= y@.take(n as int).map_values(
                |x: <P as Precision>::Real| P::spec_from_real(x),
            ).take(i as int),
        decreases n - i,
    {
        out.push(P::from_real(y[i]));
        i = i + 1;
    }
    proof {
        assert(out@ =~= y@.take(n as int).map_values(
            |x: <P as Precision>::Real| P::spec_from_real(x),
        ));
    }
    out
}

/// The configured recovery algorithm, with its parameters.
#[derive(Clone, Copy, Debug)]
pub enum Algorithm<R> {
    MatchingPursuit(MatchingPursuitSolver<R>),
    OrthogonalMatchingPursuit(OrthogonalMatchingPursuitSolver<R>),
}

/// The sparse coefficient vector that the configured algorithm recovers
/// from the measurements `y` against the columns of `m`: a run of the
/// matching-pursuit or orthogonal-matching-pursuit recursion, starting from
/// the all-zero estimate and the first `m.nrows` measurements embedded into
/// the sample field.
pub open spec fn solve_spec<P: Precision>(
    alg: Algorithm<<P as Precision>::Real>,
    y: Seq<<P as Precision>::Real>,
    m: DenseMatrix<P>,
) -> Seq<P> where <P as Precision>::Real: Reals {
    let y0 = y.take(m.nrows as int).map_values(
        |x: <P as Precision>::Real| P::spec_from_real(x),
    );
    match alg {
        Algorithm::MatchingPursuit(mp) => mp_run(
            m,
            zeros_seq::<P>(m.ncols as int),
            y0,
            mp.tolerance,
            mp.max_iter as nat,
        ),
        Algorithm::OrthogonalMatchingPursuit(omp) => omp_run(
            m,
            y0,
            Seq::<usize>::empty(),
            zeros_seq::<P>(m.ncols as int),
            y0,
            omp.tolerance,
            if omp.max_iter <= m.ncols {
                omp.max_iter as nat
            } else {
                m.ncols as nat
            },
        ),
    }
}

impl<R: Reals> Algorithm<R> {
    /// Recovers the sparse coefficient vector from the measurements
    /// `compressed` against the columns of `matrix`, reading the first
    /// `matrix.nrows` measurements and dispatching to the configured
    /// solver.
    pub fn solve<P>(&self, compressed: &Vec<R>, matrix: &DenseMatrix<P>) -> (r: Vec<P>) where
        P: Precision<Real = R>,

        requires
            matrix.wf(),
            compressed@.len() >= matrix.nrows,
        ensures
            r@.len() == matrix.ncols,
            r@ == solve_spec(*self, compressed@, *matrix),
    {
        let chunk = take_prefix(compressed.as_slice(), matrix.nrows);
        proof {
            assert(chunk@.map_values(|x: R| P::spec_from_real(x)) =~= compressed@.take(
                matrix.nrows as int,
            ).map_values(|x: R| P::spec_from_real(x)));
        }
        match self {
            Algorithm::MatchingPursuit(mp) => mp.solve(&chunk, matrix),
            Algorithm::OrthogonalMatchingPursuit(omp) => omp.solve(&chunk, matrix),
        }
    }
}

impl<R: Reals> Default for Algorithm<R> {
    /// Orthogonal matching pursuit with at most a thousand iterations and a
    /// residual tolerance of one tenth.
    fn default() -> (r: Algorithm<R>)
        ensures
            r matches Algorithm::OrthogonalMatchingPursuit(s) && s.max_iter == 1000
                && s.tolerance == R::spec_from_int(1).spec_div(R::spec_from_int(10)),
    {
        let tol = R::from_int(1).div(R::from_int(10));
        Algorithm::OrthogonalMatchingPursuit(
            OrthogonalMatchingPursuitSolver::with_parameters(1000, tol),
        )
    }
}

} // verus!
