use vstd::prelude::*;

use crate::matrix::lemma_sdot_push;
use crate::matrix::sdot;
use crate::matrix::DenseMatrix;
use crate::precision::Precision;

verus! {

/// Column `j` of `a` with every sample conjugated.
pub open spec fn conj_col<P: Precision>(a: DenseMatrix<P>, j: int) -> Seq<P> {
    a.col(j).map_values(|x: P| x.spec_conj())
}

/// Row `i` of the normal-equation system for the columns of `a` selected by
/// `support` against the measurements `y`: the first `support.len()` entries
/// are inner products of the conjugated selected column `i` with each
/// selected column, and the final entry is its inner product with `y`.
pub open spec fn normal_row<P: Precision>(
    a: DenseMatrix<P>,
    support: Seq<usize>,
    y: Seq<P>,
    i: int,
) -> Seq<P> {
    let k = support.len() as int;
    Seq::new(
        (k + 1) as nat,
        |j: int|
            if j < k {
                sdot(conj_col(a, support[i] as int), a.col(support[j] as int))
            } else {
                sdot(conj_col(a, support[i] as int), y.take(a.nrows as int))
            },
    )
}

/// The augmented normal-equation system, one row per selected column.
pub open spec fn normal_rows<P: Precision>(
    a: DenseMatrix<P>,
    support: Seq<usize>,
    y: Seq<P>,
) -> Seq<Seq<P>> {
    Seq::new(support.len(), |i: int| normal_row(a, support, y, i))
}

/// One row after elimination of column `t` using the pivot row.
pub open spec fn elim_row<P: Precision>(pivot: Seq<P>, row: Seq<P>, t: int) -> Seq<P> {
    let f = row[t].spec_div(pivot[t]);
    Seq::new(row.len(), |j: int| row[j].spec_sub(f.spec_mul(pivot[j])))
}

/// One forward-elimination step: row `t` eliminates column `t` from every
/// row below it.
pub open spec fn elim_step<P: Precision>(rows: Seq<Seq<P>>, t: int) -> Seq<Seq<P>> {
    Seq::new(
        rows.len(),
        |r: int|
            if r <= t {
                rows[r]
            } else {
                elim_row(rows[t], rows[r], t)
            },
    )
}

/// The system after the first `t` forward-elimination steps.
pub open spec fn forward_upto<P: Precision>(rows: Seq<Seq<P>>, t: int) -> Seq<Seq<P>>
    decreases t,
{
    if t <= 0 {
        rows
    } else {
        elim_step(forward_upto(rows, t - 1), t - 1)
    }
}

/// Back substitution on the upper-triangular system `u` of `k` rows of
/// length `k + 1`: the solution entries for rows `i .. k`, computed from the
/// bottom row upward.
pub open spec fn back_from<P: Precision>(u: Seq<Seq<P>>, k: int, i: int) -> Seq<P>
    decreases k - i,
{
    if i >= k {
        Seq::empty()
    } else {
        let tail = back_from(u, k, i + 1);
        let s = sdot(u[i].subrange(i + 1, k), tail);
        let xi = (u[i][k].spec_sub(s)).spec_div(u[i][i]);
        seq![xi] + tail
    }
}

pub proof fn lemma_back_from_len<P: Precision>(u: Seq<Seq<P>>, k: int, i: int)
    requires
        i <= k,
    ensures
        back_from(u, k, i).len() == k - i,
    decreases k - i,
{
    if i >= k {
    } else {
        lemma_back_from_len(u, k, i + 1);
    }
}

/// The least-squares coefficients for the columns of `a` selected by
/// `support` against the measurements `y`: the solution of the augmented
/// normal-equation system by forward elimination without pivoting followed
/// by back substitution.
pub open spec fn lsq<P: Precision>(a: DenseMatrix<P>, support: Seq<usize>, y: Seq<P>) -> Seq<P> {
    let k = support.len() as int;
    back_from(forward_upto(normal_rows(a, support, y), k), k, 0)
}

/// The inner product of the conjugated column `si` of `a` with column `sj`.
fn col_dot_col<P: Precision>(a: &DenseMatrix<P>, si: usize, sj: usize) -> (r: P)
    requires
        a.wf(),
        si < a.ncols,
        sj < a.ncols,
    ensures
        r == sdot(conj_col(*a, si as int), a.col(sj as int)),
{
    let mut acc: P = P::zero();
    let mut m: usize = 0;
    while m < a.nrows
        invariant
            a.wf(),
            si < a.ncols,
            sj < a.ncols,
            m <= a.nrows,
            acc == sdot(
                conj_col(*a, si as int).take(m as int),
                a.col(sj as int).take(m as int),
            ),
        decreases a.nrows - m,
    {
        let term = a.get(m, si).conj().mul(a.get(m, sj));
        proof {
            let ci = conj_col(*a, si as int);
            let cj = a.col(sj as int);
            assert(ci.take(m as int + 1) =~= ci.take(m as int).push(ci[m as int]));
            assert(cj.take(m as int + 1) =~= cj.take(m as int).push(cj[m as int]));
            lemma_sdot_push(ci.take(m as int), cj.take(m as int), ci[m as int], cj[m as int]);
        }
        acc = acc.add(term);
        m = m + 1;
    }
    proof {
        assert(conj_col(*a, si as int).take(a.nrows as int) =~= conj_col(*a, si as int));
        assert(a.col(sj as int).take(a.nrows as int) =~= a.col(sj as int));
    }
    acc
}

/// The inner product of the conjugated column `si` of `a` with the first
/// `a.nrows` samples of `y`.
fn col_dot_vec<P: Precision>(a: &DenseMatrix<P>, si: usize, y: &Vec<P>) -> (r: P)
    requires
        a.wf(),
        si < a.ncols,
        y@.len() >= a.nrows,
    ensures
        r == sdot(conj_col(*a, si as int), y@.take(a.nrows as int)),
{
    let mut acc: P = P::zero();
    let mut m: usize = 0;
    while m < a.nrows
        invariant
            a.wf(),
            si < a.ncols,
            y@.len() >= a.nrows,
            m <= a.nrows,
            acc == sdot(
                conj_col(*a, si as int).take(m as int),
                y@.take(a.nrows as int).take(m as int),
            ),
        decreases a.nrows - m,
    {
        let term = a.get(m, si).conj().mul(y[m]);
        proof {
            let ci = conj_col(*a, si as int);
            let yv = y@.take(a.nrows as int);
            assert(ci.take(m as int + 1) =~= ci.take(m as int).push(ci[m as int]));
            assert(yv.take(m as int + 1) =~= yv.take(m as int).push(yv[m as int]));
            lemma_sdot_push(ci.take(m as int), yv.take(m as int), ci[m as int], yv[m as int]);
        }
        acc = acc.add(term);
        m = m + 1;
    }
    proof {
        assert(conj_col(*a, si as int).take(a.nrows as int) =~= conj_col(*a, si as int));
        assert(y@.take(a.nrows as int).take(a.nrows as int) =~= y@.take(a.nrows as int));
    }
    acc
}

/// The views of a vector of rows.
pub open spec fn row_views<P>(rows: Seq<Vec<P>>) -> Seq<Seq<P>> {
    rows.map_values(|v: Vec<P>| v@)
}

/// Builds the augmented normal-equation system for the selected columns.
fn build_normal_rows<P: Precision>(a: &DenseMatrix<P>, support: &Vec<usize>, y: &Vec<P>) -> (rows:
    Vec<Vec<P>>)
    requires
        a.wf(),
        y@.len() >= a.nrows,
        forall|t: int| 0 <= t < support@.len() ==> support@[t] < a.ncols,
    ensures
        row_views(rows@) == normal_rows(*a, support@, y@),
        rows@.len() == support@.len(),
        forall|i: int| 0 <= i < rows@.len() ==> #[trigger] rows@[i]@.len() == support@.len() + 1,
{
    let k = support.len();
    let mut rows: Vec<Vec<P>> = Vec::new();
    let mut i: usize = 0;
    while i < k
        invariant
            a.wf(),
            y@.len() >= a.nrows,
            forall|t: int| 0 <= t < support@.len() ==> support@[t] < a.ncols,
            k == support@.len(),
            i <= k,
            rows@.len() == i,
            forall|t: int|
                0 <= t < i ==> #[trigger] rows@[t]@ == normal_row(*a, support@, y@, t),
        decreases k - i,
    {
        let mut row: Vec<P> = Vec::new();
        let mut j: usize = 0;
        while j < k
            invariant
                a.wf(),
                y@.len() >= a.nrows,
                forall|t: int| 0 <= t < support@.len() ==> support@[t] < a.ncols,
                k == support@.len(),
                i < k,
                j <= k,
                row@ =~= normal_row(*a, support@, y@, i as int).take(j as int),
            decreases k - j,
        {
            row.push(col_dot_col(a, support[i], support[j]));
            j = j + 1;
        }
        row.push(col_dot_vec(a, support[i], y));
        proof {
            assert(row@ =~= normal_row(*a, support@, y@, i as int));
        }
        rows.push(row);
        i = i + 1;
    }
    proof {
        assert(row_views(rows@) =~= normal_rows(*a, support@, y@));
    }
    rows
}

/// One eliminated row, built fresh.
fn elim_row_exec<P: Precision>(pivot: &Vec<P>, row: &Vec<P>, t: usize) -> (r: Vec<P>)
    requires
        t < pivot@.len(),
        row@.len() == pivot@.len(),
    ensures
        r@ == elim_row(pivot@, row@, t as int),
{
    let f = row[t].div(pivot[t]);
    let mut out: Vec<P> = Vec::new();
    let mut j: usize = 0;
    while j < row.len()
        invariant
            t < pivot@.len(),
            row@.len() == pivot@.len(),
            f == row@[t as int].spec_div(pivot@[t as int]),
            j <= row@.len(),
            out@ =~= elim_row(pivot@, row@, t as int).take(j as int),
        decreases row@.len() - j,
    {
        out.push(row[j].sub(f.mul(pivot[j])));
        j = j + 1;
    }
    proof {
        assert(out@ =~= elim_row(pivot@, row@, t as int));
    }
    out
}

/// Forward elimination without pivoting, in place.
fn forward_eliminate<P: Precision>(rows: &mut Vec<Vec<P>>, k: usize)
    requires
        old(rows)@.len() == k,
        forall|i: int| 0 <= i < k ==> #[trigger] old(rows)@[i]@.len() == k + 1,
    ensures
        row_views(final(rows)@) == forward_upto(row_views(old(rows)@), k as int),
        final(rows)@.len() == k,
        forall|i: int| 0 <= i < k ==> #[trigger] final(rows)@[i]@.len() == k + 1,
{
    let ghost rows0 = row_views(rows@);
    let mut t: usize = 0;
    while t < k
        invariant
            rows@.len() == k,
            forall|i: int| 0 <= i < k ==> #[trigger] rows@[i]@.len() == k + 1,
            t <= k,
            row_views(rows@) == forward_upto(rows0, t as int),
        decreases k - t,
    {
        let pivot = crate::matrix::take_prefix(rows[t].as_slice(), rows[t].len());
        proof {
            assert(pivot@ =~= rows@[t as int]@);
        }
        let ghost ft = row_views(rows@);
        let mut rr: usize = t + 1;
        while rr < k
            invariant
                rows@.len() == k,
                forall|i: int| 0 <= i < k ==> #[trigger] rows@[i]@.len() == k + 1,
                t < k,
                t < rr,
                rr <= k,
                pivot@ == ft[t as int],
                forall|i: int|
                    0 <= i < k && !(t < i < rr) ==> #[trigger] rows@[i]@ == ft[i],
                forall|i: int|
                    t < i < rr ==> #[trigger] rows@[i]@ == elim_row(ft[t as int], ft[i], t as int),
            decreases k - rr,
        {
            proof {
                assert(rows@[rr as int]@ == ft[rr as int]);
                assert(rows@[t as int]@.len() == k + 1);
                assert(rows@[rr as int]@.len() == k + 1);
            }
            let newrow = elim_row_exec(&pivot, &rows[rr], t);
            rows.set(rr, newrow);
            rr = rr + 1;
        }
        proof {
            assert(row_views(rows@) =~= elim_step(ft, t as int));
        }
        t = t + 1;
    }
}

/// Back substitution on the upper-triangular system, from the bottom row
/// upward.
fn back_substitute<P: Precision>(rows: &Vec<Vec<P>>, k: usize) -> (x: Vec<P>)
    requires
        rows@.len() == k,
        forall|i: int| 0 <= i < k ==> #[trigger] rows@[i]@.len() == k + 1,
    ensures
        x@ == back_from(row_views(rows@), k as int, 0),
        x@.len() == k,
{
    let ghost u = row_views(rows@);
    let mut x: Vec<P> = crate::algorithm::zero_vec(k);
    let mut i: usize = k;
    while i > 0
        invariant
            rows@.len() == k,
            forall|t: int| 0 <= t < k ==> #[trigger] rows@[t]@.len() == k + 1,
            u == row_views(rows@),
            i <= k,
            x@.len() == k,
            x@.subrange(i as int, k as int) == back_from(u, k as int, i as int),
        decreases i,
    {
        i = i - 1;
        let mut acc: P = P::zero();
        let mut j: usize = i + 1;
        while j < k
            invariant
                rows@.len() == k,
                forall|t: int| 0 <= t < k ==> #[trigger] rows@[t]@.len() == k + 1,
                u == row_views(rows@),
                i < k,
                i < j,
                j <= k,
                x@.len() == k,
                x@.subrange(i as int + 1, k as int) == back_from(u, k as int, i as int + 1),
                acc == sdot(
                    u[i as int].subrange(i as int + 1, j as int),
                    back_from(u, k as int, i as int + 1).take(j - i - 1),
                ),
            decreases k - j,
        {
            proof {
                lemma_back_from_len(u, k as int, i as int + 1);
            }
            let term = rows[i][j].mul(x[j]);
            proof {
                let ui = u[i as int];
                let tail = back_from(u, k as int, i as int + 1);
                assert(ui.subrange(i as int + 1, j as int + 1) =~= ui.subrange(
                    i as int + 1,
                    j as int,
                ).push(ui[j as int]));
                assert(tail.take(j - i) =~= tail.take(j - i - 1).push(tail[j - i - 1]));
                assert(x@[j as int] == tail[j - i - 1]);
                lemma_sdot_push(
                    ui.subrange(i as int + 1, j as int),
                    tail.take(j - i - 1),
                    ui[j as int],
                    tail[j - i - 1],
                );
            }
            acc = acc.add(term);
            j = j + 1;
        }
        proof {
            lemma_back_from_len(u, k as int, i as int + 1);
            let tail = back_from(u, k as int, i as int + 1);
            assert(tail.take(k - i - 1) =~= tail);
        }
        let xi = rows[i][k].sub(acc).div(rows[i][i]);
        x.set(i, xi);
        proof {
            let tail = back_from(u, k as int, i as int + 1);
            lemma_back_from_len(u, k as int, i as int);
            assert(x@.subrange(i as int, k as int) =~= back_from(u, k as int, i as int));
        }
    }
    proof {
        assert(x@.subrange(0, k as int) =~= x@);
        lemma_back_from_len(u, k as int, 0);
    }
    x
}

/// The least-squares coefficients for the columns of `a` selected by
/// `support` against the measurements `y`, minimizing the residual over the
/// selected columns: the normal equations are formed with the conjugated
/// selected columns and solved by forward elimination and back
/// substitution, exactly as `lsq` describes.
pub fn least_squares<P: Precision>(a: &DenseMatrix<P>, support: &Vec<usize>, y: &Vec<P>) -> (r:
    Vec<P>)
    requires
        a.wf(),
        y@.len() >= a.nrows,
        forall|t: int| 0 <= t < support@.len() ==> support@[t] < a.ncols,
    ensures
        r@ == lsq(*a, support@, y@),
        r@.len() == support@.len(),
{
    let k = support.len();
    let mut rows = build_normal_rows(a, support, y);
    forward_eliminate(&mut rows, k);
    back_substitute(&rows, k)
}

} // verus!
