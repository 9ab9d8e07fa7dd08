use vstd::prelude::*;

use crate::algorithm::argmax_ex;
use crate::algorithm::argmax_excluding;
use crate::algorithm::col_products;
use crate::algorithm::from_real_prefix;
use crate::algorithm::mag_norm;
use crate::algorithm::norm;
use crate::algorithm::tr_products;
use crate::algorithm::zero_vec;
use crate::algorithm::zeros_seq;
use crate::matrix::DenseMatrix;
use crate::precision::Precision;
use crate::precision::Reals;

verus! {

/// The one-shot greedy solver: each iteration selects the column with the
/// largest inner product against the residual, accumulates that inner
/// product into the sparse estimate, and subtracts its contribution from
/// the residual.
#[derive(Clone, Copy, Debug)]
pub struct MatchingPursuitSolver<R> {
    pub max_iter: usize,
    pub tolerance: R,
}

impl<R: Reals> MatchingPursuitSolver<R> {
    pub fn with_parameters(max_iter: usize, tolerance: R) -> (r: MatchingPursuitSolver<R>)
        ensures
            r.max_iter == max_iter,
            r.tolerance == tolerance,
    {
        MatchingPursuitSolver { max_iter, tolerance }
    }
}

/// One run of matching pursuit with `fuel` iterations left, starting from
/// sparse estimate `s` and residual `r`. Each iteration selects the column
/// of maximal product magnitude (first index on exact ties), accumulates
/// the product into the estimate, updates the residual, and stops early as
/// soon as the residual norm falls below `tol`.
pub open spec fn mp_run<P: Precision>(
    a: DenseMatrix<P>,
    s: Seq<P>,
    r: Seq<P>,
    tol: <P as Precision>::Real,
    fuel: nat,
) -> Seq<P> where <P as Precision>::Real: Reals
    decreases fuel,
{
    if fuel == 0 {
        s
    } else {
        let p = col_products(a, r);
        let k = argmax_ex(p, Seq::<usize>::empty(), p.len() as int);
        if k < 0 {
            s
        } else {
            let s2 = s.update(k, s[k].spec_add(p[k]));
            let r2 = Seq::new(r.len(), |i: int| r[i].spec_sub(a.entry(i, k).spec_mul(p[k])));
            if mag_norm(r2).spec_lt(tol) {
                s2
            } else {
                mp_run(a, s2, r2, tol, (fuel - 1) as nat)
            }
        }
    }
}

/// The set of column indices that one run of matching pursuit selects.
pub open spec fn mp_touched<P: Precision>(
    a: DenseMatrix<P>,
    s: Seq<P>,
    r: Seq<P>,
    tol: <P as Precision>::Real,
    fuel: nat,
) -> Set<int> where <P as Precision>::Real: Reals
    decreases fuel,
{
    if fuel == 0 {
        Set::empty()
    } else {
        let p = col_products(a, r);
        let k = argmax_ex(p, Seq::<usize>::empty(), p.len() as int);
        if k < 0 {
            Set::empty()
        } else {
            let s2 = s.update(k, s[k].spec_add(p[k]));
            let r2 = Seq::new(r.len(), |i: int| r[i].spec_sub(a.entry(i, k).spec_mul(p[k])));
            if mag_norm(r2).spec_lt(tol) {
                Set::empty().insert(k)
            } else {
                mp_touched(a, s2, r2, tol, (fuel - 1) as nat).insert(k)
            }
        }
    }
}

/// A run of matching pursuit never changes the length of the sparse
/// estimate.
pub proof fn lemma_mp_run_len<P: Precision>(
    a: DenseMatrix<P>,
    s: Seq<P>,
    r: Seq<P>,
    tol: <P as Precision>::Real,
    fuel: nat,
) where <P as Precision>::Real: Reals
    requires
        s.len() == a.ncols,
    ensures
        mp_run(a, s, r, tol, fuel).len() == s.len(),
    decreases fuel,
{
    if fuel == 0 {
    } else {
        let p = col_products(a, r);
        let k = argmax_ex(p, Seq::<usize>::empty(), p.len() as int);
        crate::algorithm::lemma_argmax_ex_range(p, Seq::<usize>::empty(), p.len() as int);
        if k >= 0 {
            let s2 = s.update(k, s[k].spec_add(p[k]));
            let r2 = Seq::new(r.len(), |i: int| r[i].spec_sub(a.entry(i, k).spec_mul(p[k])));
            if !mag_norm(r2).spec_lt(tol) {
                lemma_mp_run_len(a, s2, r2, tol, (fuel - 1) as nat);
            }
        }
    }
}

/// Entries at indices that a run of matching pursuit never selects keep
/// exactly the value they started with; starting from the all-zero estimate
/// they remain exactly zero.
pub proof fn lemma_mp_untouched_unchanged<P: Precision>(
    a: DenseMatrix<P>,
    s: Seq<P>,
    r: Seq<P>,
    tol: <P as Precision>::Real,
    fuel: nat,
) where <P as Precision>::Real: Reals
    requires
        s.len() == a.ncols,
    ensures
        forall|i: int|
            0 <= i < s.len() && !mp_touched(a, s, r, tol, fuel).contains(i) ==> mp_run(
                a,
                s,
                r,
                tol,
                fuel,
            )[i] == s[i],
    decreases fuel,
{
    if fuel == 0 {
    } else {
        let p = col_products(a, r);
        let k = argmax_ex(p, Seq::<usize>::empty(), p.len() as int);
        crate::algorithm::lemma_argmax_ex_range(p, Seq::<usize>::empty(), p.len() as int);
        if k >= 0 {
            let s2 = s.update(k, s[k].spec_add(p[k]));
            let r2 = Seq::new(r.len(), |i: int| r[i].spec_sub(a.entry(i, k).spec_mul(p[k])));
            if !mag_norm(r2).spec_lt(tol) {
                lemma_mp_untouched_unchanged(a, s2, r2, tol, (fuel - 1) as nat);
                assert forall|i: int|
                    0 <= i < s.len() && !mp_touched(a, s, r, tol, fuel).contains(i) implies mp_run(
                    a,
                    s,
                    r,
                    tol,
                    fuel,
                )[i] == s[i] by {
                    assert(!mp_touched(a, s2, r2, tol, (fuel - 1) as nat).contains(i));
                    assert(i != k);
                    assert(mp_run(a, s2, r2, tol, (fuel - 1) as nat)[i] == s2[i]);
                    assert(s2[i] == s[i]);
                }
            }
        }
    }
}

/// Subtracts `pk` times column `k` of `a` from the residual.
fn update_residual<P: Precision>(residual: &mut Vec<P>, a: &DenseMatrix<P>, k: usize, pk: P)
    requires
        a.wf(),
        old(residual)@.len() == a.nrows,
        k < a.ncols,
    ensures
        final(residual)@ == Seq::new(
            old(residual)@.len(),
            |i: int| old(residual)@[i].spec_sub(a.entry(i, k as int).spec_mul(pk)),
        ),
{
    let n = residual.len();
    let mut i: usize = 0;
    while i < n
        invariant
            a.wf(),
            k < a.ncols,
            n == a.nrows,
            residual@.len() == n,
            i <= n,
            forall|idx: int|
                0 <= idx < i ==> #[trigger] residual@[idx] == old(residual)@[idx].spec_sub(
                    a.entry(idx, k as int).spec_mul(pk),
                ),
            forall|idx: int| i <= idx < n ==> #[trigger] residual@[idx] == old(residual)@[idx],
        decreases n - i,
    {
        let updated = residual[i].sub(a.get(i, k).mul(pk));
        residual.set(i, updated);
        i = i + 1;
    }
    proof {
        assert(residual@ =~= Seq::new(
            old(residual)@.len(),
            |i: int| old(residual)@[i].spec_sub(a.entry(i, k as int).spec_mul(pk)),
        ));
    }
}

impl<R: Reals> MatchingPursuitSolver<R> {
    /// Runs matching pursuit on the real measurements `y` against the
    /// columns of `sensing_matrix`, for at most `max_iter` iterations,
    /// stopping early once the residual norm falls below `tolerance`. The
    /// result is exactly the run described by `mp_run`, starting from the
    /// all-zero estimate and the residual `y` embedded into the sample
    /// field.
    pub fn solve<P>(&self, y: &Vec<R>, sensing_matrix: &DenseMatrix<P>) -> (r: Vec<P>) where
        P: Precision<Real = R>,

        requires
            sensing_matrix.wf(),
            y@.len() == sensing_matrix.nrows,
        ensures
            r@.len() == sensing_matrix.ncols,
            r@ == mp_run(
                *sensing_matrix,
                zeros_seq::<P>(sensing_matrix.ncols as int),
                y@.map_values(|x: R| P::spec_from_real(x)),
                self.tolerance,
                self.max_iter as nat,
            ),
    {
        let a = sensing_matrix;
        let mut sparse: Vec<P> = zero_vec(a.ncols);
        let mut residual: Vec<P> = from_real_prefix(y, y.len());
        proof {
            assert(y@.take(y@.len() as int) =~= y@);
        }
        let ghost s0 = sparse@;
        let ghost r0 = residual@;
        let ghost tol = self.tolerance;
        let ghost full_fuel = self.max_iter as nat;
        let used: Vec<usize> = Vec::new();
        let mut it: usize = 0;
        let mut done: bool = false;
        while it < self.max_iter && !done
            invariant
                a.wf(),
                it <= self.max_iter,
                used@ == Seq::<usize>::empty(),
                residual@.len() == a.nrows,
                sparse@.len() == a.ncols,
                tol == self.tolerance,
                full_fuel == self.max_iter as nat,
                done ==> sparse@ == mp_run(*a, s0, r0, tol, full_fuel),
                !done ==> mp_run(*a, s0, r0, tol, full_fuel) == mp_run(
                    *a,
                    sparse@,
                    residual@,
                    tol,
                    (self.max_iter - it) as nat,
                ),
            decreases self.max_iter - it,
        {
            let ghost spre = sparse@;
            let ghost rpre = residual@;
            let ghost fuel = (self.max_iter - it) as nat;
            let p = tr_products(a, &residual);
            let kopt = argmax_excluding(&p, &used);
            match kopt {
                Option::None => {
                    done = true;
                    proof {
                        assert(mp_run(*a, spre, rpre, tol, fuel) == spre);
                    }
                },
                Option::Some(k) => {
                    let pk = p[k];
                    let sk = sparse[k].add(pk);
                    sparse.set(k, sk);
                    update_residual(&mut residual, a, k, pk);
                    let nrm = norm(&residual);
                    if nrm.lt(self.tolerance) {
                        done = true;
                    }
                    proof {
                        let ps = col_products(*a, rpre);
                        let ks = argmax_ex(ps, Seq::<usize>::empty(), ps.len() as int);
                        assert(ks == k);
                        assert(sparse@ == spre.update(k as int, spre[k as int].spec_add(
                            ps[k as int],
                        )));
                        assert(residual@ == Seq::new(
                            rpre.len(),
                            |i: int| rpre[i].spec_sub(a.entry(i, k as int).spec_mul(ps[k as int])),
                        ));
                        if mag_norm(residual@).spec_lt(tol) {
                            assert(mp_run(*a, spre, rpre, tol, fuel) == sparse@);
                        } else {
                            assert(mp_run(*a, spre, rpre, tol, fuel) == mp_run(
                                *a,
                                sparse@,
                                residual@,
                                tol,
                                (fuel - 1) as nat,
                            ));
                        }
                    }
                },
            }
            it = it + 1;
        }
        proof {
            if !done {
                assert(mp_run(*a, sparse@, residual@, tol, 0) == sparse@);
            }
        }
        sparse
    }
}

} // verus!
