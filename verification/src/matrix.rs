use vstd::prelude::*;

use crate::precision::Precision;
use crate::precision::Reals;

verus! {

/// Failure of a matrix operation.
#[derive(Clone, Copy, Debug, PartialEq, Eq, Structural)]
pub enum MatrixError {
    /// An operand's shape does not satisfy a required invariant of the
    /// composition or application.
    DimensionMismatch,
    /// A pairing of matrix kinds without defined semantics, such as a real
    /// matrix composed with a complex one.
    UnsupportedCombination,
}

/// The shape of a matrix: number of rows and number of columns.
#[derive(Clone, Copy, Debug, PartialEq, Eq, Structural)]
pub struct Dimension {
    pub nrows: usize,
    pub ncols: usize,
}

impl Dimension {
    /// Dimension of the product of a matrix of this shape with one of shape
    /// `rhs`: the inner dimensions must agree, and the result is
    /// `(self.nrows, rhs.ncols)`.
    pub fn merge(&self, rhs: &Dimension) -> (r: Dimension)
        requires
            self.ncols == rhs.nrows,
        ensures
            r.nrows == self.nrows,
            r.ncols == rhs.ncols,
    {
        Dimension { nrows: self.nrows, ncols: rhs.ncols }
    }
}

/// A dense matrix over samples of type `T`, stored in column-major order:
/// the entry in row `i` of column `j` sits at `data[j * nrows + i]`.
#[derive(Debug)]
pub struct DenseMatrix<T> {
    pub nrows: usize,
    pub ncols: usize,
    pub data: Vec<T>,
}

impl<T> DenseMatrix<T> {
    /// The storage holds exactly one sample per entry.
    pub open spec fn wf(self) -> bool {
        self.data@.len() == self.nrows * self.ncols
    }

    /// The entry in row `i` of column `j`.
    pub open spec fn entry(self, i: int, j: int) -> T {
        self.data@[j * self.nrows + i]
    }

    /// Row `i` as a sequence of `ncols` samples.
    pub open spec fn row(self, i: int) -> Seq<T> {
        Seq::new(self.ncols as nat, |j: int| self.entry(i, j))
    }

    /// Column `j` as a sequence of `nrows` samples.
    pub open spec fn col(self, j: int) -> Seq<T> {
        Seq::new(self.nrows as nat, |i: int| self.entry(i, j))
    }
}

proof fn lemma_entry_index_bound(nrows: int, ncols: int, i: int, j: int) by (nonlinear_arith)
    requires
        0 <= i < nrows,
        0 <= j < ncols,
    ensures
        0 <= j * nrows + i < nrows * ncols,
{
}

impl<T: Copy> DenseMatrix<T> {
    /// Wraps a column-major buffer holding `nrows * ncols` samples.
    pub fn new(nrows: usize, ncols: usize, data: Vec<T>) -> (r: DenseMatrix<T>)
        requires
            data@.len() == nrows * ncols,
        ensures
            r.wf(),
            r.nrows == nrows,
            r.ncols == ncols,
            r.data@ == data@,
    {
        DenseMatrix { nrows, ncols, data }
    }

    /// The entry in row `i` of column `j`.
    pub fn get(&self, i: usize, j: usize) -> (r: T)
        requires
            self.wf(),
            i < self.nrows,
            j < self.ncols,
        ensures
            r == self.entry(i as int, j as int),
    {
        let n = self.data.len();
        proof {
            lemma_entry_index_bound(self.nrows as int, self.ncols as int, i as int, j as int);
        }
        assert(j * self.nrows + i < n);
        self.data[j * self.nrows + i]
    }

    /// Column `j`, copied out as a vector.
    pub fn col_vec(&self, j: usize) -> (r: Vec<T>)
        requires
            self.wf(),
            j < self.ncols,
        ensures
            r@ == self.col(j as int),
    {
        let mut out: Vec<T> = Vec::new();
        let mut i: usize = 0;
        while i < self.nrows
            invariant
                self.wf(),
                j < self.ncols,
                i <= self.nrows,
                out@ =~= self.col(j as int).take(i as int),
            decreases self.nrows - i,
        {
            out.push(self.get(i, j));
            i = i + 1;
        }
        proof {
            assert(out@ =~= self.col(j as int));
        }
        out
    }
}

impl<T: Copy> Clone for DenseMatrix<T> {
    fn clone(&self) -> (r: Self)
        ensures
            r.nrows == self.nrows,
            r.ncols == self.ncols,
            r.data@ == self.data@,
    {
        let mut data: Vec<T> = Vec::new();
        let mut i: usize = 0;
        while i < self.data.len()
            invariant
                i <= self.data@.len(),
                data@ =~= self.data@.take(i as int),
            decreases self.data@.len() - i,
        {
            data.push(self.data[i]);
            i = i + 1;
        }
        proof {
            assert(data@ =~= self.data@);
        }
        DenseMatrix { nrows: self.nrows, ncols: self.ncols, data }
    }
}

/// The inner product of two sequences of equal length, accumulated from the
/// left starting at zero, exactly as the executable loops compute it.
pub open spec fn sdot<P: Precision>(a: Seq<P>, b: Seq<P>) -> P
    decreases a.len(),
{
    if a.len() == 0 {
        P::spec_zero()
    } else {
        sdot(a.drop_last(), b.drop_last()).spec_add(a.last().spec_mul(b.last()))
    }
}

pub proof fn lemma_sdot_push<P: Precision>(a: Seq<P>, b: Seq<P>, x: P, y: P)
    ensures
        sdot(a.push(x), b.push(y)) == sdot(a, b).spec_add(x.spec_mul(y)),
{
    assert(a.push(x).drop_last() =~= a);
    assert(b.push(y).drop_last() =~= b);
    assert(a.push(x).last() == x);
    assert(b.push(y).last() == y);
}

/// The matrix-vector product of `m` with the first `m.ncols` samples of `v`:
/// entry `i` is the inner product of row `i` with that prefix.
pub open spec fn mat_vec<P: Precision>(m: DenseMatrix<P>, v: Seq<P>) -> Seq<P> {
    Seq::new(m.nrows as nat, |i: int| sdot(m.row(i), v.take(m.ncols as int)))
}

/// Multiplication by a signal buffer reinterpreted as a column vector of the
/// matrix's column count (only the prefix of that length is read).
pub trait ChunkedMultiplication<P: Precision> {
    /// How many leading samples of the signal one application consumes.
    spec fn chunk_cols(&self) -> int;

    /// The operand is well-formed.
    spec fn chunk_wf(&self) -> bool;

    /// The product of this operand with the consumed prefix.
    spec fn chunk_result(&self, signal: Seq<P>) -> Seq<P>;

    fn mul_chunked(&self, signal: &[P]) -> (r: Vec<P>)
        requires
            self.chunk_wf(),
            signal@.len() >= self.chunk_cols(),
        ensures
            r@ == self.chunk_result(signal@),
    ;
}

impl<P: Precision> ChunkedMultiplication<P> for DenseMatrix<P> {
    open spec fn chunk_cols(&self) -> int {
        self.ncols as int
    }

    open spec fn chunk_wf(&self) -> bool {
        self.wf()
    }

    open spec fn chunk_result(&self, signal: Seq<P>) -> Seq<P> {
        mat_vec(*self, signal)
    }

    fn mul_chunked(&self, signal: &[P]) -> (r: Vec<P>)
    {
        let mut out: Vec<P> = Vec::new();
        let mut i: usize = 0;
        while i < self.nrows
            invariant
                self.wf(),
                signal@.len() >= self.ncols,
                i <= self.nrows,
                out@ =~= mat_vec(*self, signal@).take(i as int),
            decreases self.nrows - i,
        {
            let mut acc: P = P::zero();
            let mut j: usize = 0;
            while j < self.ncols
                invariant
                    self.wf(),
                    signal@.len() >= self.ncols,
                    i < self.nrows,
                    j <= self.ncols,
                    acc == sdot(
                        self.row(i as int).take(j as int),
                        signal@.take(self.ncols as int).take(j as int),
                    ),
                decreases self.ncols - j,
            {
                let term = self.get(i, j).mul(signal[j]);
                proof {
                    let rowi = self.row(i as int);
                    let sig = signal@.take(self.ncols as int);
                    assert(rowi.take(j as int + 1) =~= rowi.take(j as int).push(rowi[j as int]));
                    assert(sig.take(j as int + 1) =~= sig.take(j as int).push(sig[j as int]));
                    lemma_sdot_push(
                        rowi.take(j as int),
                        sig.take(j as int),
                        rowi[j as int],
                        sig[j as int],
                    );
                }
                acc = acc.add(term);
                j = j + 1;
            }
            proof {
                let rowi = self.row(i as int);
                let sig = signal@.take(self.ncols as int);
                assert(rowi.take(self.ncols as int) =~= rowi);
                assert(sig.take(self.ncols as int) =~= sig);
                assert(mat_vec(*self, signal@).take(i as int + 1)
                    =~= mat_vec(*self, signal@).take(i as int).push(
                        mat_vec(*self, signal@)[i as int],
                    ));
            }
            out.push(acc);
            i = i + 1;
        }
        proof {
            assert(out@ =~= mat_vec(*self, signal@));
        }
        out
    }
}

/// The concatenation of the first `j` columns of the product of `a` and `b`,
/// in column-major order.
pub open spec fn prod_cols<P: Precision>(a: DenseMatrix<P>, b: DenseMatrix<P>, j: int) -> Seq<P>
    decreases j,
{
    if j <= 0 {
        Seq::empty()
    } else {
        prod_cols(a, b, j - 1) + Seq::new(a.nrows as nat, |i: int| sdot(a.row(i), b.col(j - 1)))
    }
}

proof fn lemma_prod_cols_len<P: Precision>(a: DenseMatrix<P>, b: DenseMatrix<P>, j: int)
    requires
        j >= 0,
    ensures
        prod_cols(a, b, j).len() == j * a.nrows,
    decreases j,
{
    if j <= 0 {
        assert(prod_cols(a, b, j).len() == 0);
        assert(j * a.nrows == 0) by (nonlinear_arith)
            requires
                j == 0,
        ;
    } else {
        lemma_prod_cols_len(a, b, j - 1);
        assert(prod_cols(a, b, j).len() == (j - 1) * a.nrows + a.nrows);
        assert((j - 1) * a.nrows + a.nrows == j * a.nrows) by (nonlinear_arith);
    }
}

proof fn lemma_prod_cols_index<P: Precision>(
    a: DenseMatrix<P>,
    b: DenseMatrix<P>,
    jcols: int,
    i: int,
    j: int,
)
    requires
        0 <= i < a.nrows,
        0 <= j < jcols,
    ensures
        prod_cols(a, b, jcols)[j * a.nrows + i] == sdot(a.row(i), b.col(j)),
    decreases jcols,
{
    lemma_prod_cols_len(a, b, jcols - 1);
    if j == jcols - 1 {
        assert(prod_cols(a, b, jcols)[j * a.nrows + i]
            == Seq::new(a.nrows as nat, |ii: int| sdot(a.row(ii), b.col(jcols - 1)))[i]);
    } else {
        lemma_prod_cols_index(a, b, jcols - 1, i, j);
        assert(j * a.nrows + i < (jcols - 1) * a.nrows) by (nonlinear_arith)
            requires
                0 <= i < a.nrows,
                0 <= j,
                j < jcols - 1,
        ;
    }
}

/// Dense matrix multiplication: entry `(i, j)` of the result is the inner
/// product of row `i` of `a` with column `j` of `b`.
pub fn mat_mul<P: Precision>(a: &DenseMatrix<P>, b: &DenseMatrix<P>) -> (r: DenseMatrix<P>)
    requires
        a.wf(),
        b.wf(),
        a.ncols == b.nrows,
    ensures
        r.wf(),
        r.nrows == a.nrows,
        r.ncols == b.ncols,
        forall|i: int, j: int|
            0 <= i < a.nrows && 0 <= j < b.ncols
                ==> #[trigger] r.entry(i, j) == sdot(a.row(i), b.col(j)),
{
    let mut data: Vec<P> = Vec::new();
    let mut j: usize = 0;
    while j < b.ncols
        invariant
            a.wf(),
            b.wf(),
            a.ncols == b.nrows,
            j <= b.ncols,
            data@ == prod_cols(*a, *b, j as int),
            data@.len() == j * a.nrows,
        decreases b.ncols - j,
    {
        let bcol = b.col_vec(j);
        let mut prod = a.mul_chunked(bcol.as_slice());
        proof {
            assert(bcol@.take(a.ncols as int) =~= b.col(j as int));
            assert(prod@ =~= Seq::new(
                a.nrows as nat,
                |i: int| sdot(a.row(i), b.col(j as int)),
            ));
            assert((j as int) * a.nrows + a.nrows == (j as int + 1) * a.nrows)
                by (nonlinear_arith);
        }
        data.append(&mut prod);
        j = j + 1;
    }
    proof {
        assert((b.ncols as int) * a.nrows == a.nrows * b.ncols) by (nonlinear_arith);
    }
    let r = DenseMatrix { nrows: a.nrows, ncols: b.ncols, data };
    proof {
        assert forall|i: int, jj: int|
            0 <= i < a.nrows && 0 <= jj < b.ncols
                implies #[trigger] r.entry(i, jj) == sdot(a.row(i), b.col(jj)) by {
            lemma_prod_cols_index(*a, *b, b.ncols as int, i, jj);
        }
    }
    r
}

impl<P: Precision> DenseMatrix<P> {
    /// The same matrix with every entry replaced by its real part.
    pub fn real_parts(&self) -> (r: DenseMatrix<<P as Precision>::Real>)
        requires
            self.wf(),
        ensures
            r.wf(),
            r.nrows == self.nrows,
            r.ncols == self.ncols,
            r.data@ == self.data@.map_values(|x: P| x.spec_real_part()),
            forall|i: int, j: int|
                0 <= i < self.nrows && 0 <= j < self.ncols
                    ==> #[trigger] r.entry(i, j) == self.entry(i, j).spec_real_part(),
    {
        let mut data: Vec<P::Real> = Vec::new();
        let mut k: usize = 0;
        let n = self.data.len();
        while k < n
            invariant
                n == self.data@.len(),
                k <= n,
                data@ =~= self.data@.map_values(|x: P| x.spec_real_part()).take(k as int),
            decreases n - k,
        {
            data.push(self.data[k].real_part());
            k = k + 1;
        }
        let r = DenseMatrix { nrows: self.nrows, ncols: self.ncols, data };
        proof {
            assert(r.data@ =~= self.data@.map_values(|x: P| x.spec_real_part()));
            assert forall|i: int, j: int|
                0 <= i < self.nrows && 0 <= j < self.ncols
                    implies #[trigger] r.entry(i, j) == self.entry(i, j).spec_real_part() by {
                lemma_entry_index_bound(self.nrows as int, self.ncols as int, i, j);
            }
        }
        r
    }

    /// The same matrix with every entry replaced by its imaginary part.
    pub fn imag_parts(&self) -> (r: DenseMatrix<<P as Precision>::Real>)
        requires
            self.wf(),
        ensures
            r.wf(),
            r.nrows == self.nrows,
            r.ncols == self.ncols,
            r.data@ == self.data@.map_values(|x: P| x.spec_imag_part()),
            forall|i: int, j: int|
                0 <= i < self.nrows && 0 <= j < self.ncols
                    ==> #[trigger] r.entry(i, j) == self.entry(i, j).spec_imag_part(),
    {
        let mut data: Vec<P::Real> = Vec::new();
        let mut k: usize = 0;
        let n = self.data.len();
        while k < n
            invariant
                n == self.data@.len(),
                k <= n,
                data@ =~= self.data@.map_values(|x: P| x.spec_imag_part()).take(k as int),
            decreases n - k,
        {
            data.push(self.data[k].imag_part());
            k = k + 1;
        }
        let r = DenseMatrix { nrows: self.nrows, ncols: self.ncols, data };
        proof {
            assert(r.data@ =~= self.data@.map_values(|x: P| x.spec_imag_part()));
            assert forall|i: int, j: int|
                0 <= i < self.nrows && 0 <= j < self.ncols
                    implies #[trigger] r.entry(i, j) == self.entry(i, j).spec_imag_part() by {
                lemma_entry_index_bound(self.nrows as int, self.ncols as int, i, j);
            }
        }
        r
    }
}

/// The embedding of a real matrix into the sample field `P`, entry by entry.
pub fn dense_from_real<P: Precision>(m: &DenseMatrix<<P as Precision>::Real>) -> (r: DenseMatrix<P>)
    requires
        m.wf(),
    ensures
        r.wf(),
        r.nrows == m.nrows,
        r.ncols == m.ncols,
        r.data@ == m.data@.map_values(|x: <P as Precision>::Real| P::spec_from_real(x)),
        forall|i: int, j: int|
            0 <= i < m.nrows && 0 <= j < m.ncols
                ==> #[trigger] r.entry(i, j) == P::spec_from_real(m.entry(i, j)),
{
    let mut data: Vec<P> = Vec::new();
    let mut k: usize = 0;
    let n = m.data.len();
    while k < n
        invariant
            n == m.data@.len(),
            k <= n,
            data@ =~= m.data@.map_values(|x: <P as Precision>::Real| P::spec_from_real(x)).take(
                k as int,
            ),
        decreases n - k,
    {
        data.push(P::from_real(m.data[k]));
        k = k + 1;
    }
    let r = DenseMatrix { nrows: m.nrows, ncols: m.ncols, data };
    proof {
        assert(r.data@ =~= m.data@.map_values(|x: <P as Precision>::Real| P::spec_from_real(x)));
        assert forall|i: int, j: int|
            0 <= i < m.nrows && 0 <= j < m.ncols
                implies #[trigger] r.entry(i, j) == P::spec_from_real(m.entry(i, j)) by {
            lemma_entry_index_bound(m.nrows as int, m.ncols as int, i, j);
        }
    }
    r
}

/// A linear map over the sample field `P`: either a never-materialized
/// identity, a dense matrix over the real reference field, or a dense matrix
/// over `P` itself.
pub enum Matrix<P: Precision> {
    Identity(Dimension),
    Real(DenseMatrix<<P as Precision>::Real>),
    Complex(DenseMatrix<P>),
}

impl<P: Precision> Matrix<P> {
    pub open spec fn dim(self) -> Dimension {
        match self {
            Matrix::Identity(d) => d,
            Matrix::Real(m) => Dimension { nrows: m.nrows, ncols: m.ncols },
            Matrix::Complex(m) => Dimension { nrows: m.nrows, ncols: m.ncols },
        }
    }

    pub open spec fn wf(self) -> bool {
        match self {
            Matrix::Identity(d) => d.nrows == d.ncols,
            Matrix::Real(m) => m.wf(),
            Matrix::Complex(m) => m.wf(),
        }
    }

    pub fn dimension(&self) -> (d: Dimension)
        ensures
            d == self.dim(),
    {
        match self {
            Matrix::Identity(d) => *d,
            Matrix::Real(m) => Dimension { nrows: m.nrows, ncols: m.ncols },
            Matrix::Complex(m) => Dimension { nrows: m.nrows, ncols: m.ncols },
        }
    }
}

/// Same matrix kind, same shape, and entry-for-entry the same samples.
pub open spec fn mat_like<P: Precision>(a: Matrix<P>, b: Matrix<P>) -> bool {
    match (a, b) {
        (Matrix::Identity(d1), Matrix::Identity(d2)) => d1 == d2,
        (Matrix::Real(m1), Matrix::Real(m2)) => m1.nrows == m2.nrows && m1.ncols == m2.ncols
            && m1.data@ == m2.data@,
        (Matrix::Complex(m1), Matrix::Complex(m2)) => m1.nrows == m2.nrows && m1.ncols
            == m2.ncols && m1.data@ == m2.data@,
        _ => false,
    }
}

impl<P: Precision> Clone for Matrix<P> {
    fn clone(&self) -> (r: Self)
        ensures
            mat_like(r, *self),
    {
        match self {
            Matrix::Identity(d) => Matrix::Identity(*d),
            Matrix::Real(m) => Matrix::Real(m.clone()),
            Matrix::Complex(m) => Matrix::Complex(m.clone()),
        }
    }
}

/// Whether composition of these two matrix kinds has defined semantics:
/// every pairing of a dense real with a dense complex matrix (and of two
/// dense complex matrices) is left undefined; the identity combines with
/// everything.
pub open spec fn compose_defined<P: Precision>(a: Matrix<P>, b: Matrix<P>) -> bool {
    match (a, b) {
        (Matrix::Real(_), Matrix::Complex(_)) => false,
        (Matrix::Complex(_), Matrix::Real(_)) => false,
        (Matrix::Complex(_), Matrix::Complex(_)) => false,
        _ => true,
    }
}

/// `s` holds the composition of `a` with `b`: two identities merge their
/// dimensions, an identity on either side leaves the other operand (entry
/// for entry), and two dense real matrices multiply densely.
pub open spec fn is_composition<P: Precision>(s: Matrix<P>, a: Matrix<P>, b: Matrix<P>) -> bool where
    <P as Precision>::Real: Reals,
{
    match (a, b) {
        (Matrix::Identity(ld), Matrix::Identity(rd)) => s == Matrix::Identity::<P>(
            Dimension { nrows: ld.nrows, ncols: rd.ncols },
        ),
        (Matrix::Identity(_), _) => mat_like(s, b),
        (_, Matrix::Identity(_)) => mat_like(s, a),
        (Matrix::Real(am), Matrix::Real(bm)) => s matches Matrix::Real(c) && c.nrows == am.nrows
            && c.ncols == bm.ncols && c.wf() && (forall|i: int, j: int|
            0 <= i < am.nrows && 0 <= j < bm.ncols ==> #[trigger] c.entry(i, j) == sdot(
                am.row(i),
                bm.col(j),
            )),
        _ => false,
    }
}

impl<P: Precision> Matrix<P> {
    /// Composition of linear maps. The identity composes without
    /// materializing data: composed with any operand it returns that operand
    /// unchanged, and two identities merge their dimensions. Two dense real
    /// matrices multiply densely. A pairing without defined semantics is
    /// rejected with `UnsupportedCombination`; mismatched inner dimensions
    /// of a defined pairing are rejected with `DimensionMismatch`. The
    /// result of a successful composition always has the outer dimensions
    /// `(self.nrows, rhs.ncols)`.
    pub fn compose(self, rhs: Matrix<P>) -> (r: Result<Matrix<P>, MatrixError>) where
        <P as Precision>::Real: Reals,

        requires
            self.wf(),
            rhs.wf(),
        ensures
            r is Ok <==> (compose_defined(self, rhs) && self.dim().ncols == rhs.dim().nrows),
            !compose_defined(self, rhs) ==> r == Err::<Matrix<P>, MatrixError>(
                MatrixError::UnsupportedCombination,
            ),
            compose_defined(self, rhs) && self.dim().ncols != rhs.dim().nrows ==> r
                == Err::<Matrix<P>, MatrixError>(MatrixError::DimensionMismatch),
            r is Ok ==> r->Ok_0.wf() && r->Ok_0.dim() == (Dimension {
                nrows: self.dim().nrows,
                ncols: rhs.dim().ncols,
            }),
            r is Ok ==> match (self, rhs) {
                (Matrix::Identity(ld), Matrix::Identity(rd)) => r->Ok_0 == Matrix::Identity::<P>(
                    Dimension { nrows: ld.nrows, ncols: rd.ncols },
                ),
                (Matrix::Identity(_), _) => r->Ok_0 == rhs,
                (_, Matrix::Identity(_)) => r->Ok_0 == self,
                (Matrix::Real(a), Matrix::Real(b)) => r->Ok_0 is Real && {
                    let c = r->Ok_0->Real_0;
                    &&& c.nrows == a.nrows
                    &&& c.ncols == b.ncols
                    &&& forall|i: int, j: int|
                        0 <= i < a.nrows && 0 <= j < b.ncols ==> #[trigger] c.entry(i, j)
                            == sdot(a.row(i), b.col(j))
                },
                _ => false,
            },
    {
        match (self, rhs) {
            (Matrix::Identity(ld), Matrix::Identity(rd)) => {
                if ld.ncols != rd.nrows {
                    Err(MatrixError::DimensionMismatch)
                } else {
                    Ok(Matrix::Identity(ld.merge(&rd)))
                }
            },
            (Matrix::Identity(ld), Matrix::Real(m)) => {
                if ld.ncols != m.nrows {
                    Err(MatrixError::DimensionMismatch)
                } else {
                    Ok(Matrix::Real(m))
                }
            },
            (Matrix::Real(m), Matrix::Identity(rd)) => {
                if m.ncols != rd.nrows {
                    Err(MatrixError::DimensionMismatch)
                } else {
                    Ok(Matrix::Real(m))
                }
            },
            (Matrix::Real(a), Matrix::Real(b)) => {
                if a.ncols != b.nrows {
                    Err(MatrixError::DimensionMismatch)
                } else {
                    Ok(Matrix::Real(mat_mul(&a, &b)))
                }
            },
            (Matrix::Identity(ld), Matrix::Complex(m)) => {
                if ld.ncols != m.nrows {
                    Err(MatrixError::DimensionMismatch)
                } else {
                    Ok(Matrix::Complex(m))
                }
            },
            (Matrix::Complex(m), Matrix::Identity(rd)) => {
                if m.ncols != rd.nrows {
                    Err(MatrixError::DimensionMismatch)
                } else {
                    Ok(Matrix::Complex(m))
                }
            },
            _ => Err(MatrixError::UnsupportedCombination),
        }
    }
}

/// Copies the first `k` samples of a buffer.
pub fn take_prefix<T: Copy>(signal: &[T], k: usize) -> (r: Vec<T>)
    requires
        signal@.len() >= k,
    ensures
        r@ == signal@.take(k as int),
{
    let mut out: Vec<T> = Vec::new();
    let mut i: usize = 0;
    while i < k
        invariant
            signal@.len() >= k,
            i <= k,
            out@ =~= signal@.take(k as int).take(i as int),
        decreases k - i,
    {
        out.push(signal[i]);
        i = i + 1;
    }
    proof {
        assert(out@ =~= signal@.take(k as int));
    }
    out
}

/// The application of a matrix to a real signal, over the prefix of the
/// matrix's column count: the identity passes the prefix through, a dense
/// real matrix multiplies it, and a dense complex matrix multiplies by its
/// real parts.
pub open spec fn apply_real_spec<P: Precision>(
    mat: Matrix<P>,
    v: Seq<<P as Precision>::Real>,
) -> Seq<<P as Precision>::Real> where <P as Precision>::Real: Reals {
    match mat {
        Matrix::Identity(d) => v.take(d.ncols as int),
        Matrix::Real(m) => mat_vec(m, v),
        Matrix::Complex(m) => Seq::new(
            m.nrows as nat,
            |i: int| sdot(m.row(i).map_values(|x: P| x.spec_real_part()), v.take(m.ncols as int)),
        ),
    }
}

/// The application of a matrix to a signal over `P`, over the prefix of the
/// matrix's column count: the identity passes the prefix through, a dense
/// real matrix is first embedded into `P`, and a dense complex matrix
/// multiplies directly.
pub open spec fn apply_complex_spec<P: Precision>(mat: Matrix<P>, v: Seq<P>) -> Seq<P> where
    <P as Precision>::Real: Reals,
{
    match mat {
        Matrix::Identity(d) => v.take(d.ncols as int),
        Matrix::Real(m) => Seq::new(
            m.nrows as nat,
            |i: int| sdot(
                m.row(i).map_values(|x: <P as Precision>::Real| P::spec_from_real(x)),
                v.take(m.ncols as int),
            ),
        ),
        Matrix::Complex(m) => mat_vec(m, v),
    }
}

/// With the identity transform a coefficient vector of matching length
/// passes through unchanged: the shortcut is observably transparent.
pub proof fn lemma_identity_passthrough<P: Precision>(d: Dimension, v: Seq<<P as Precision>::Real>) where
    <P as Precision>::Real: Reals,

    requires
        v.len() == d.ncols,
    ensures
        apply_real_spec::<P>(Matrix::Identity(d), v) == v,
{
    assert(v.take(d.ncols as int) =~= v);
}

impl<P: Precision> Matrix<P> {
    /// Application to a real signal buffer, reinterpreted as a column vector
    /// of the matrix's column count (only that prefix is read). The identity
    /// returns the prefix unchanged; a dense real matrix multiplies it; a
    /// dense complex matrix multiplies by its real parts.
    pub fn mul_real_signal(&self, signal: &[<P as Precision>::Real]) -> (r: Vec<
        <P as Precision>::Real,
    >) where <P as Precision>::Real: Reals
        requires
            self.wf(),
            signal@.len() >= self.dim().ncols,
        ensures
            r@.len() == self.dim().nrows,
            r@ == apply_real_spec(*self, signal@),
    {
        match self {
            Matrix::Identity(d) => take_prefix(signal, d.ncols),
            Matrix::Real(m) => m.mul_chunked(signal),
            Matrix::Complex(m) => {
                let rp = m.real_parts();
                let out = rp.mul_chunked(signal);
                proof {
                    assert forall|i: int| 0 <= i < m.nrows implies #[trigger] out@[i] == sdot(
                        m.row(i).map_values(|x: P| x.spec_real_part()),
                        signal@.take(m.ncols as int),
                    ) by {
                        assert(rp.row(i) =~= m.row(i).map_values(|x: P| x.spec_real_part()));
                    }
                    assert(out@ =~= apply_real_spec(*self, signal@));
                }
                out
            },
        }
    }

    /// Application to a signal buffer over `P`, reinterpreted as a column
    /// vector of the matrix's column count. The identity returns the prefix
    /// unchanged; a dense real matrix is first embedded into `P`; a dense
    /// complex matrix multiplies directly.
    pub fn mul_complex_signal(&self, signal: &[P]) -> (r: Vec<P>) where
        <P as Precision>::Real: Reals
        requires
            self.wf(),
            signal@.len() >= self.dim().ncols,
        ensures
            r@.len() == self.dim().nrows,
            r@ == apply_complex_spec(*self, signal@),
    {
        match self {
            Matrix::Identity(d) => take_prefix(signal, d.ncols),
            Matrix::Real(m) => {
                let cm = dense_from_real::<P>(m);
                let out = cm.mul_chunked(signal);
                proof {
                    assert forall|i: int| 0 <= i < m.nrows implies #[trigger] out@[i] == sdot(
                        m.row(i).map_values(|x: <P as Precision>::Real| P::spec_from_real(x)),
                        signal@.take(m.ncols as int),
                    ) by {
                        assert(cm.row(i) =~= m.row(i).map_values(
                            |x: <P as Precision>::Real| P::spec_from_real(x),
                        ));
                    }
                    assert(out@ =~= apply_complex_spec(*self, signal@));
                }
                out
            },
            Matrix::Complex(m) => m.mul_chunked(signal),
        }
    }
}

} // verus!
