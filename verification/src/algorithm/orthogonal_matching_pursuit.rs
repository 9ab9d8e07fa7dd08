use vstd::prelude::*;

use crate::algorithm::argmax_ex;
use crate::algorithm::argmax_excluding;
use crate::algorithm::col_products;
use crate::algorithm::from_real_prefix;
use crate::algorithm::least_squares::least_squares;
use crate::algorithm::least_squares::lsq;
use crate::algorithm::lemma_argmax_ex_range;
use crate::algorithm::mag_norm;
use crate::algorithm::norm;
use crate::algorithm::tr_products;
use crate::algorithm::zero_vec;
use crate::algorithm::zeros_seq;
use crate::matrix::mat_vec;
use crate::matrix::ChunkedMultiplication;
use crate::matrix::take_prefix;
use crate::matrix::DenseMatrix;
use crate::precision::Precision;
use crate::precision::Reals;

verus! {

/// Whether the index `i` occurs in the support set.
pub open spec fn in_support(support: Seq<usize>, i: int) -> bool {
    exists|t: int| 0 <= t < support.len() && support[t] == i
}

/// The sparse vector holding coefficient `t` at position `support[t]` of
/// `base`, written in support order.
pub open spec fn scatter<P: Precision>(coeffs: Seq<P>, support: Seq<usize>, base: Seq<P>) -> Seq<
    P,
>
    decreases support.len(),
{
    if support.len() == 0 {
        base
    } else {
        scatter(coeffs.drop_last(), support.drop_last(), base).update(
            support.last() as int,
            coeffs.last(),
        )
    }
}

pub proof fn lemma_scatter_len<P: Precision>(coeffs: Seq<P>, support: Seq<usize>, base: Seq<P>)
    requires
        forall|t: int| 0 <= t < support.len() ==> support[t] < base.len(),
    ensures
        scatter(coeffs, support, base).len() == base.len(),
    decreases support.len(),
{
    if support.len() == 0 {
    } else {
        lemma_scatter_len(coeffs.drop_last(), support.drop_last(), base);
    }
}

/// A position outside the support keeps its base value.
pub proof fn lemma_scatter_untouched<P: Precision>(
    coeffs: Seq<P>,
    support: Seq<usize>,
    base: Seq<P>,
    i: int,
)
    requires
        forall|t: int| 0 <= t < support.len() ==> support[t] < base.len(),
        0 <= i < base.len(),
        !in_support(support, i),
    ensures
        scatter(coeffs, support, base)[i] == base[i],
    decreases support.len(),
{
    if support.len() == 0 {
    } else {
        assert(!in_support(support.drop_last(), i));
        assert(support.last() != i) by {
            assert(support[support.len() - 1] == support.last());
        }
        lemma_scatter_len(coeffs.drop_last(), support.drop_last(), base);
        lemma_scatter_untouched(coeffs.drop_last(), support.drop_last(), base, i);
    }
}

/// One run of orthogonal matching pursuit with `fuel` iterations left.
/// Each iteration selects, among the columns not yet in the support set,
/// the one of maximal product magnitude (first index on exact ties), adds
/// it to the support, refits all coefficients on the support by least
/// squares against the measurements `y0`, recomputes the residual from the
/// refit estimate, and stops early as soon as the residual norm falls below
/// `tol`.
pub open spec fn omp_run<P: Precision>(
    a: DenseMatrix<P>,
    y0: Seq<P>,
    support: Seq<usize>,
    s: Seq<P>,
    r: Seq<P>,
    tol: <P as Precision>::Real,
    fuel: nat,
) -> Seq<P> where <P as Precision>::Real: Reals
    decreases fuel,
{
    if fuel == 0 {
        s
    } else {
        let p = col_products(a, r);
        let k = argmax_ex(p, support, p.len() as int);
        if k < 0 {
            s
        } else {
            let support2 = support.push(k as usize);
            let coeffs = lsq(a, support2, y0);
            let s2 = scatter(coeffs, support2, zeros_seq::<P>(a.ncols as int));
            let r2 = Seq::new(a.nrows as nat, |i: int| y0[i].spec_sub(mat_vec(a, s2)[i]));
            if mag_norm(r2).spec_lt(tol) {
                s2
            } else {
                omp_run(a, y0, support2, s2, r2, tol, (fuel - 1) as nat)
            }
        }
    }
}

/// The set of column indices that one run of orthogonal matching pursuit
/// adds to the support set.
pub open spec fn omp_touched<P: Precision>(
    a: DenseMatrix<P>,
    y0: Seq<P>,
    support: Seq<usize>,
    s: Seq<P>,
    r: Seq<P>,
    tol: <P as Precision>::Real,
    fuel: nat,
) -> Set<int> where <P as Precision>::Real: Reals
    decreases fuel,
{
    if fuel == 0 {
        Set::empty()
    } else {
        let p = col_products(a, r);
        let k = argmax_ex(p, support, p.len() as int);
        if k < 0 {
            Set::empty()
        } else {
            let support2 = support.push(k as usize);
            let coeffs = lsq(a, support2, y0);
            let s2 = scatter(coeffs, support2, zeros_seq::<P>(a.ncols as int));
            let r2 = Seq::new(a.nrows as nat, |i: int| y0[i].spec_sub(mat_vec(a, s2)[i]));
            if mag_norm(r2).spec_lt(tol) {
                Set::empty().insert(k)
            } else {
                omp_touched(a, y0, support2, s2, r2, tol, (fuel - 1) as nat).insert(k)
            }
        }
    }
}

/// A run of orthogonal matching pursuit returns an estimate of length
/// `a.ncols`.
pub proof fn lemma_omp_run_len<P: Precision>(
    a: DenseMatrix<P>,
    y0: Seq<P>,
    support: Seq<usize>,
    s: Seq<P>,
    r: Seq<P>,
    tol: <P as Precision>::Real,
    fuel: nat,
) where <P as Precision>::Real: Reals
    requires
        s.len() == a.ncols,
        forall|t: int| 0 <= t < support.len() ==> support[t] < a.ncols,
    ensures
        omp_run(a, y0, support, s, r, tol, fuel).len() == a.ncols,
    decreases fuel,
{
    if fuel == 0 {
    } else {
        let p = col_products(a, r);
        let k = argmax_ex(p, support, p.len() as int);
        lemma_argmax_ex_range(p, support, p.len() as int);
        if k >= 0 {
            let support2 = support.push(k as usize);
            let coeffs = lsq(a, support2, y0);
            let s2 = scatter(coeffs, support2, zeros_seq::<P>(a.ncols as int));
            lemma_scatter_len(coeffs, support2, zeros_seq::<P>(a.ncols as int));
            let r2 = Seq::new(a.nrows as nat, |i: int| y0[i].spec_sub(mat_vec(a, s2)[i]));
            if !mag_norm(r2).spec_lt(tol) {
                lemma_omp_run_len(a, y0, support2, s2, r2, tol, (fuel - 1) as nat);
            }
        }
    }
}

/// Entries at indices that a run of orthogonal matching pursuit never adds
/// to the support remain exactly zero, provided they start at zero and
/// outside the incoming support.
pub proof fn lemma_omp_unselected_zero<P: Precision>(
    a: DenseMatrix<P>,
    y0: Seq<P>,
    support: Seq<usize>,
    s: Seq<P>,
    r: Seq<P>,
    tol: <P as Precision>::Real,
    fuel: nat,
) where <P as Precision>::Real: Reals
    requires
        s.len() == a.ncols,
        forall|t: int| 0 <= t < support.len() ==> support[t] < a.ncols,
        forall|i: int|
            0 <= i < a.ncols && !in_support(support, i) ==> s[i] == P::spec_zero(),
    ensures
        forall|i: int|
            0 <= i < a.ncols && !in_support(support, i) && !omp_touched(
                a,
                y0,
                support,
                s,
                r,
                tol,
                fuel,
            ).contains(i) ==> omp_run(a, y0, support, s, r, tol, fuel)[i] == P::spec_zero(),
    decreases fuel,
{
    if fuel == 0 {
    } else {
        let p = col_products(a, r);
        let k = argmax_ex(p, support, p.len() as int);
        lemma_argmax_ex_range(p, support, p.len() as int);
        if k >= 0 {
            let support2 = support.push(k as usize);
            let coeffs = lsq(a, support2, y0);
            let base = zeros_seq::<P>(a.ncols as int);
            let s2 = scatter(coeffs, support2, base);
            lemma_scatter_len(coeffs, support2, base);
            let r2 = Seq::new(a.nrows as nat, |i: int| y0[i].spec_sub(mat_vec(a, s2)[i]));
            assert forall|i: int|
                0 <= i < a.ncols && !in_support(support2, i) implies s2[i] == P::spec_zero() by {
                lemma_scatter_untouched(coeffs, support2, base, i);
            }
            assert forall|i: int|
                0 <= i < a.ncols && !in_support(support, i) && i != k implies !in_support(
                support2,
                i,
            ) by {
                assert forall|t: int| 0 <= t < support2.len() implies support2[t] != i by {
                    if t < support.len() {
                        assert(!in_support(support, i));
                        assert(support2[t] == support[t]);
                    } else {
                        assert(support2[t] == k as usize);
                    }
                }
            }
            if mag_norm(r2).spec_lt(tol) {
            } else {
                lemma_omp_unselected_zero(a, y0, support2, s2, r2, tol, (fuel - 1) as nat);
            }
        }
    }
}

/// The residual of the estimate `x`: the measurements minus `a` applied to
/// `x`.
fn compute_residual<P: Precision>(y: &Vec<P>, a: &DenseMatrix<P>, x: &Vec<P>) -> (r: Vec<P>)
    requires
        a.wf(),
        y@.len() == a.nrows,
        x@.len() == a.ncols,
    ensures
        r@ == Seq::new(a.nrows as nat, |i: int| y@[i].spec_sub(mat_vec(*a, x@)[i])),
{
    let prod = a.mul_chunked(x.as_slice());
    let mut out: Vec<P> = Vec::new();
    let mut i: usize = 0;
    while i < a.nrows
        invariant
            a.wf(),
            y@.len() == a.nrows,
            prod@ == mat_vec(*a, x@),
            i <= a.nrows,
            out@ =~= Seq::new(a.nrows as nat, |t: int| y@[t].spec_sub(mat_vec(*a, x@)[t])).take(
                i as int,
            ),
        decreases a.nrows - i,
    {
        out.push(y[i].sub(prod[i]));
        i = i + 1;
    }
    proof {
        assert(out@ =~= Seq::new(a.nrows as nat, |t: int| y@[t].spec_sub(mat_vec(*a, x@)[t])));
    }
    out
}

/// Scatters the refit coefficients onto an all-zero estimate of length `n`.
fn scatter_exec<P: Precision>(coeffs: &Vec<P>, support: &Vec<usize>, n: usize) -> (r: Vec<P>)
    requires
        coeffs@.len() == support@.len(),
        forall|t: int| 0 <= t < support@.len() ==> support@[t] < n,
    ensures
        r@ == scatter(coeffs@, support@, zeros_seq::<P>(n as int)),
        r@.len() == n,
{
    let mut out: Vec<P> = zero_vec(n);
    let mut t: usize = 0;
    while t < support.len()
        invariant
            coeffs@.len() == support@.len(),
            forall|q: int| 0 <= q < support@.len() ==> support@[q] < n,
            t <= support@.len(),
            out@.len() == n,
            out@ == scatter(
                coeffs@.take(t as int),
                support@.take(t as int),
                zeros_seq::<P>(n as int),
            ),
        decreases support@.len() - t,
    {
        proof {
            let c2 = coeffs@.take(t as int + 1);
            let s2 = support@.take(t as int + 1);
            assert(c2.drop_last() =~= coeffs@.take(t as int));
            assert(s2.drop_last() =~= support@.take(t as int));
            assert(s2.last() == support@[t as int]);
            assert(c2.last() == coeffs@[t as int]);
        }
        out.set(support[t], coeffs[t]);
        t = t + 1;
    }
    proof {
        assert(coeffs@.take(support@.len() as int) =~= coeffs@);
        assert(support@.take(support@.len() as int) =~= support@);
    }
    out
}

/// The greedy solver with a per-iteration least-squares refit over the
/// growing support set.
#[derive(Clone, Copy, Debug)]
pub struct OrthogonalMatchingPursuitSolver<R> {
    pub max_iter: usize,
    pub tolerance: R,
}

impl<R: Reals> OrthogonalMatchingPursuitSolver<R> {
    pub fn with_parameters(max_iter: usize, tolerance: R) -> (r: OrthogonalMatchingPursuitSolver<
        R,
    >)
        ensures
            r.max_iter == max_iter,
            r.tolerance == tolerance,
    {
        OrthogonalMatchingPursuitSolver { max_iter, tolerance }
    }

    /// Runs orthogonal matching pursuit on the real measurements `y`
    /// against the columns of `sensing_matrix`, for at most
    /// `min(max_iter, ncols)` iterations, stopping early once the residual
    /// norm falls below `tolerance`. The result is exactly the run
    /// described by `omp_run`, starting from the empty support set, the
    /// all-zero estimate, and the residual `y` embedded into the sample
    /// field.
    pub fn solve<P>(&self, y: &Vec<R>, sensing_matrix: &DenseMatrix<P>) -> (r: Vec<P>) where
        P: Precision<Real = R>,

        requires
            sensing_matrix.wf(),
            y@.len() == sensing_matrix.nrows,
        ensures
            r@.len() == sensing_matrix.ncols,
            r@ == omp_run(
                *sensing_matrix,
                y@.map_values(|x: R| P::spec_from_real(x)),
                Seq::<usize>::empty(),
                zeros_seq::<P>(sensing_matrix.ncols as int),
                y@.map_values(|x: R| P::spec_from_real(x)),
                self.tolerance,
                if self.max_iter <= sensing_matrix.ncols {
                    self.max_iter as nat
                } else {
                    sensing_matrix.ncols as nat
                },
            ),
    {
        let a = sensing_matrix;
        let mut sparse: Vec<P> = zero_vec(a.ncols);
        let y0vec: Vec<P> = from_real_prefix(y, y.len());
        let mut residual: Vec<P> = take_prefix(y0vec.as_slice(), y0vec.len());
        let mut support: Vec<usize> = Vec::new();
        proof {
            assert(y@.take(y@.len() as int) =~= y@);
            assert(y0vec@.take(y0vec@.len() as int) =~= y0vec@);
        }
        let cap = if self.max_iter <= a.ncols {
            self.max_iter
        } else {
            a.ncols
        };
        let ghost s0 = sparse@;
        let ghost r0 = residual@;
        let ghost y0 = y0vec@;
        let ghost tol = self.tolerance;
        let ghost full_fuel = cap as nat;
        let mut it: usize = 0;
        let mut done: bool = false;
        while it < cap && !done
            invariant
                a.wf(),
                it <= cap,
                y0vec@ == y0,
                y0.len() == a.nrows,
                residual@.len() == a.nrows,
                sparse@.len() == a.ncols,
                forall|t: int| 0 <= t < support@.len() ==> support@[t] < a.ncols,
                tol == self.tolerance,
                full_fuel == cap as nat,
                done ==> sparse@ == omp_run(*a, y0, Seq::<usize>::empty(), s0, r0, tol, full_fuel),
                !done ==> omp_run(*a, y0, Seq::<usize>::empty(), s0, r0, tol, full_fuel)
                    == omp_run(*a, y0, support@, sparse@, residual@, tol, (cap - it) as nat),
            decreases cap - it,
        {
            let ghost suppre = support@;
            let ghost spre = sparse@;
            let ghost rpre = residual@;
            let ghost fuel = (cap - it) as nat;
            let p = tr_products(a, &residual);
            let kopt = argmax_excluding(&p, &support);
            match kopt {
                Option::None => {
                    done = true;
                    proof {
                        assert(omp_run(*a, y0, suppre, spre, rpre, tol, fuel) == spre);
                    }
                },
                Option::Some(k) => {
                    proof {
                        lemma_argmax_ex_range(p@, suppre, p@.len() as int);
                    }
                    support.push(k);
                    let coeffs = least_squares(a, &support, &y0vec);
                    sparse = scatter_exec(&coeffs, &support, a.ncols);
                    residual = compute_residual(&y0vec, a, &sparse);
                    let nrm = norm(&residual);
                    if nrm.lt(self.tolerance) {
                        done = true;
                    }
                    proof {
                        let ps = col_products(*a, rpre);
                        let ks = argmax_ex(ps, suppre, ps.len() as int);
                        assert(ks == k);
                        assert(support@ == suppre.push(k));
                        assert(coeffs@ == lsq(*a, support@, y0));
                        assert(sparse@ == scatter(coeffs@, support@, zeros_seq::<P>(
                            a.ncols as int,
                        )));
                        assert(residual@ =~= Seq::new(
                            a.nrows as nat,
                            |i: int| y0[i].spec_sub(mat_vec(*a, sparse@)[i]),
                        ));
                        if mag_norm(residual@).spec_lt(tol) {
                            assert(omp_run(*a, y0, suppre, spre, rpre, tol, fuel) == sparse@);
                        } else {
                            assert(omp_run(*a, y0, suppre, spre, rpre, tol, fuel) == omp_run(
                                *a,
                                y0,
                                support@,
                                sparse@,
                                residual@,
                                tol,
                                (fuel - 1) as nat,
                            ));
                        }
                    }
                },
            }
            it = it + 1;
        }
        proof {
            if !done {
                assert(omp_run(*a, y0, support@, sparse@, residual@, tol, 0) == sparse@);
            }
        }
        sparse
    }
}

} // verus!
