use vstd::prelude::*;

use crate::precision::Precision;
use crate::precision::Reals;

verus! {

/// The summed squared error between the first `n` samples of `a` and of `b`,
/// accumulated from the left starting at zero.
pub open spec fn sq_err_sum<R: Reals>(a: Seq<R>, b: Seq<R>, n: int) -> R
    decreases n,
{
    if n <= 0 {
        R::spec_zero()
    } else {
        let d = a[n - 1].spec_sub(b[n - 1]);
        sq_err_sum(a, b, n - 1).spec_add(d.spec_mul(d))
    }
}

/// The length both signals share: the shorter of the two.
pub open spec fn shared_len<R>(a: Seq<R>, b: Seq<R>) -> int {
    if a.len() <= b.len() {
        a.len() as int
    } else {
        b.len() as int
    }
}

/// The sample-by-sample difference of two signals, over their shared length.
pub fn diff<R: Reals>(original: &Vec<R>, decompressed: &Vec<R>) -> (r: Vec<R>)
    ensures
        r@.len() == shared_len(original@, decompressed@),
        forall|i: int|
            0 <= i < r@.len() ==> #[trigger] r@[i] == original@[i].spec_sub(decompressed@[i]),
{
    let n = if original.len() <= decompressed.len() {
        original.len()
    } else {
        decompressed.len()
    };
    let mut out: Vec<R> = Vec::new();
    let mut i: usize = 0;
    while i < n
        invariant
            n == shared_len(original@, decompressed@),
            i <= n,
            out@.len() == i,
            forall|k: int|
                0 <= k < i ==> #[trigger] out@[k] == original@[k].spec_sub(decompressed@[k]),
        decreases n - i,
    {
        out.push(original[i].sub(decompressed[i]));
        i = i + 1;
    }
    out
}

/// The summed squared error between two signals, over their shared length.
pub fn error_l2<R: Reals>(original: &Vec<R>, decompressed: &Vec<R>) -> (r: R)
    ensures
        r == sq_err_sum(original@, decompressed@, shared_len(original@, decompressed@)),
{
    let n = if original.len() <= decompressed.len() {
        original.len()
    } else {
        decompressed.len()
    };
    let mut acc: R = R::zero();
    let mut i: usize = 0;
    while i < n
        invariant
            n == shared_len(original@, decompressed@),
            i <= n,
            acc == sq_err_sum(original@, decompressed@, i as int),
        decreases n - i,
    {
        let d = original[i].sub(decompressed[i]);
        acc = acc.add(d.mul(d));
        i = i + 1;
    }
    acc
}

/// The summed squared error divided by the length of the original signal.
pub fn error_l2_norm<R: Reals>(original: &Vec<R>, decompressed: &Vec<R>) -> (r: R)
    ensures
        r == sq_err_sum(original@, decompressed@, shared_len(original@, decompressed@)).spec_div(
            R::spec_from_int(original@.len() as u64),
        ),
{
    let e = error_l2(original, decompressed);
    let len = R::from_int(original.len() as u64);
    e.div(len)
}

} // verus!
