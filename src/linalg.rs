//! Scalars and fixed-size vectors: sums, differences, scaling, dot product
//! and the generalized cross product of `N - 1` vectors in `N` dimensions.

use vstd::prelude::*;

use crate::det::{columns, det_columns, det_fits, det_spec, lemma_det_two, sign, square};

verus! {

/// True when `x` is representable as an `i64`.
pub open spec fn fits(x: int) -> bool {
    i64::MIN <= x <= i64::MAX
}

/// A single exact number, used to scale vectors.
pub struct Scalar(pub i64);

/// An ordered sequence of exactly `N` integer components.
pub struct Vector<const N: usize>(pub [i64; N]);

impl<const N: usize> View for Vector<N> {
    type V = Seq<int>;

    open spec fn view(&self) -> Seq<int> {
        Seq::new(N as nat, |i: int| self.0[i] as int)
    }
}

/// Component-wise sum.
pub open spec fn add_spec(a: Seq<int>, b: Seq<int>) -> Seq<int> {
    Seq::new(a.len(), |i: int| a[i] + b[i])
}

/// Component-wise difference.
pub open spec fn sub_spec(a: Seq<int>, b: Seq<int>) -> Seq<int> {
    Seq::new(a.len(), |i: int| a[i] - b[i])
}

/// Every component multiplied by `s`.
pub open spec fn scale_spec(s: int, a: Seq<int>) -> Seq<int> {
    Seq::new(a.len(), |i: int| s * a[i])
}

/// Sum of the products of the first `k` component pairs.
pub open spec fn dot_prefix(a: Seq<int>, b: Seq<int>, k: int) -> int
    decreases k,
{
    if k <= 0 {
        0
    } else {
        dot_prefix(a, b, k - 1) + a[k - 1] * b[k - 1]
    }
}

/// Dot product: the sum of the component-wise products.
pub open spec fn dot_spec(a: Seq<int>, b: Seq<int>) -> int {
    dot_prefix(a, b, a.len() as int)
}

/// Every product and every partial sum of the dot product fits in an `i64`.
pub open spec fn dot_fits(a: Seq<int>, b: Seq<int>) -> bool {
    forall|k: int|
        0 <= k < a.len() ==> fits(#[trigger] (a[k] * b[k])) && fits(dot_prefix(a, b, k + 1))
}

impl From<i64> for Scalar {
    fn from(a: i64) -> (r: Scalar)
        ensures
            r.0 == a,
    {
        Scalar(a)
    }
}

impl vstd::std_specs::convert::FromSpecImpl<i64> for Scalar {
    open spec fn obeys_from_spec() -> bool {
        true
    }

    open spec fn from_spec(a: i64) -> Scalar {
        Scalar(a)
    }
}

impl Scalar {
    /// Product of two scalars.
    pub fn mul(&self, rhs: &Scalar) -> (r: Scalar)
        requires
            fits(self.0 * rhs.0),
        ensures
            r.0 == self.0 * rhs.0,
    {
        Scalar(self.0 * rhs.0)
    }

    /// The vector with every component multiplied by this scalar.
    pub fn scale<const N: usize>(&self, v: &Vector<N>) -> (r: Vector<N>)
        requires
            forall|i: int| 0 <= i < N ==> fits(self.0 * v@[i]),
        ensures
            r@ == scale_spec(self.0 as int, v@),
    {
        let mut out = [0i64; N];
        let mut i: usize = 0;
        while i < N
            invariant
                i <= N,
                forall|i: int| 0 <= i < N ==> fits(self.0 * v@[i]),
                forall|j: int| 0 <= j < i ==> out[j] == self.0 * v.0[j],
            decreases N - i,
        {
            proof { assert(fits(self.0 * v@[i as int])); }
            out[i] = self.0 * v.0[i];
            i += 1;
        }
        let r = Vector(out);
        assert(r@ =~= scale_spec(self.0 as int, v@));
        r
    }
}

impl<const N: usize> Vector<N> {
    /// Component-wise addition.
    pub fn add(&self, rhs: &Vector<N>) -> (r: Vector<N>)
        requires
            forall|i: int| 0 <= i < N ==> fits(self@[i] + rhs@[i]),
        ensures
            r@ == add_spec(self@, rhs@),
    {
        let mut out = [0i64; N];
        let mut i: usize = 0;
        while i < N
            invariant
                i <= N,
                forall|i: int| 0 <= i < N ==> fits(self@[i] + rhs@[i]),
                forall|j: int| 0 <= j < i ==> out[j] == self.0[j] + rhs.0[j],
            decreases N - i,
        {
            proof { assert(fits(self@[i as int] + rhs@[i as int])); }
            out[i] = self.0[i] + rhs.0[i];
            i += 1;
        }
        let r = Vector(out);
        assert(r@ =~= add_spec(self@, rhs@));
        r
    }

    /// Component-wise subtraction.
    pub fn sub(&self, rhs: &Vector<N>) -> (r: Vector<N>)
        requires
            forall|i: int| 0 <= i < N ==> fits(self@[i] - rhs@[i]),
        ensures
            r@ == sub_spec(self@, rhs@),
    {
        let mut out = [0i64; N];
        let mut i: usize = 0;
        while i < N
            invariant
                i <= N,
                forall|i: int| 0 <= i < N ==> fits(self@[i] - rhs@[i]),
                forall|j: int| 0 <= j < i ==> out[j] == self.0[j] - rhs.0[j],
            decreases N - i,
        {
            proof { assert(fits(self@[i as int] - rhs@[i as int])); }
            out[i] = self.0[i] - rhs.0[i];
            i += 1;
        }
        let r = Vector(out);
        assert(r@ =~= sub_spec(self@, rhs@));
        r
    }

    /// Dot product: the sum of the component-wise products.
    pub fn dot(&self, rhs: &Vector<N>) -> (r: i64)
        requires
            dot_fits(self@, rhs@),
        ensures
            r == dot_spec(self@, rhs@),
    {
        let mut sum: i64 = 0;
        let mut i: usize = 0;
        while i < N
            invariant
                i <= N,
                dot_fits(self@, rhs@),
                sum == dot_prefix(self@, rhs@, i as int),
            decreases N - i,
        {
            proof {
                let k = i as int;
                assert(fits(self@[k] * rhs@[k]) && fits(dot_prefix(self@, rhs@, k + 1)));
            }
            let p = self.0[i] * rhs.0[i];
            sum = sum + p;
            i += 1;
        }
        sum
    }
}

/// The views of the vectors handed to `cross`.
pub open spec fn views<const N: usize, const K: usize>(vs: [&Vector<N>; K]) -> Seq<Seq<int>> {
    Seq::new(K as nat, |i: int| vs[i]@)
}

/// The square matrix of the inputs with component `n` left out: row `k` is
/// `vs[k]` without its component `n`, given as columns.
pub open spec fn cross_minor(vs: Seq<Seq<int>>, n: int) -> Seq<Seq<int>> {
    Seq::new(vs.len(), |j: int| Seq::new(vs.len(), |k: int| vs[k][if j < n { j } else { j + 1 }]))
}

/// Generalized cross product of `len` vectors of dimension `len + 1`:
/// component `n` is the signed minor of the inputs with component `n` left
/// out, so that its dot product with any `x` is the determinant of the inputs
/// with `x` appended as the last row.
pub open spec fn cross_spec(vs: Seq<Seq<int>>) -> Seq<int> {
    Seq::new(
        vs.len() + 1,
        |n: int| sign(vs.len() + n) * det_spec(cross_minor(vs, n)),
    )
}

/// Every minor's expansion, and every component, fits in an `i64`.
pub open spec fn cross_fits(vs: Seq<Seq<int>>) -> bool {
    forall|n: int|
        0 <= n <= vs.len() ==> {
            &&& det_fits(#[trigger] cross_minor(vs, n))
            &&& fits(sign(vs.len() + n) * det_spec(cross_minor(vs, n)))
        }
}

/// Generalized cross product of `N - 1` vectors of dimension `N`: component
/// `n` is the signed determinant of the inputs with component `n` left out.
pub fn cross<const N: usize, const K: usize>(vectors: [&Vector<N>; K]) -> (r: Vector<N>)
    requires
        K + 1 == N,
        cross_fits(views(vectors)),
    ensures
        r@ == cross_spec(views(vectors)),
{
    let ghost vs = views(vectors);
    let mut out = [0i64; N];
    let mut n: usize = 0;
    while n < N
        invariant
            K + 1 == N,
            n <= N,
            vs == views(vectors),
            cross_fits(vs),
            forall|j: int| 0 <= j < n ==> out[j] == cross_spec(vs)[j],
        decreases N - n,
    {
        let mut cols: Vec<Vec<i64>> = Vec::new();
        let mut j: usize = 0;
        while j < K
            invariant
                K + 1 == N,
                n < N,
                j <= K,
                vs == views(vectors),
                cols@.len() == j,
                forall|i: int| 0 <= i < j ==> columns(cols@)[i] == cross_minor(vs, n as int)[i],
            decreases K - j,
        {
            let src = if j < n { j } else { j + 1 };
            let mut col: Vec<i64> = Vec::new();
            let mut k: usize = 0;
            while k < K
                invariant
                    K + 1 == N,
                    src < N,
                    k <= K,
                    col@.len() == k,
                    forall|i: int| 0 <= i < k ==> col@[i] == vectors[i].0[src as int],
                decreases K - k,
            {
                col.push(vectors[k].0[src]);
                k += 1;
            }
            let ghost before = cols@;
            cols.push(col);
            proof {
                assert(columns(cols@)[j as int] =~= cross_minor(vs, n as int)[j as int]);
                assert forall|i: int| 0 <= i < j + 1 implies columns(cols@)[i] == cross_minor(
                    vs,
                    n as int,
                )[i] by {
                    if i < j {
                        assert(cols@[i] == before[i]);
                        assert(columns(cols@)[i] =~= columns(before)[i]);
                    }
                }
            }
            j += 1;
        }
        proof {
            assert(columns(cols@) =~= cross_minor(vs, n as int));
            assert(det_fits(cross_minor(vs, n as int)));
        }
        let d = det_columns(&cols);
        let ghost dd = det_spec(cross_minor(vs, n as int));
        let ghost sg = sign(K + n);
        assert(fits(sg * dd));
        assert(((K - n) as int) % 2 == ((K + n) as int) % 2) by {
            assert((K + n) as int == (K - n) as int + 2 * n);
        }
        if (K - n) % 2 == 0 {
            assert(sg * dd == dd) by (nonlinear_arith)
                requires
                    sg == 1,
            ;
            out[n] = d;
        } else {
            assert(sg * dd == -dd) by (nonlinear_arith)
                requires
                    sg == -1,
            ;
            out[n] = -d;
        }
        assert(out[n as int] == cross_spec(vs)[n as int]);
        n += 1;
    }
    let r = Vector(out);
    assert(r@ =~= cross_spec(vs));
    r
}

/// Adding a vector and then subtracting it again gives the start back.
pub proof fn lemma_add_sub_cancel<const N: usize>(a: Vector<N>, b: Vector<N>)
    ensures
        sub_spec(add_spec(a@, b@), b@) == a@,
{
    assert(sub_spec(add_spec(a@, b@), b@) =~= a@);
}

/// The matrix of the inputs with one component left out is square.
proof fn lemma_cross_minor_square(vs: Seq<Seq<int>>, n: int)
    ensures
        square(cross_minor(vs, n)),
{
}

/// In three dimensions the cross product of two vectors is orthogonal to each.
pub proof fn lemma_cross_orthogonal(a: Vector<3>, b: Vector<3>)
    ensures
        dot_spec(cross_spec(seq![a@, b@]), a@) == 0,
        dot_spec(cross_spec(seq![a@, b@]), b@) == 0,
{
    let vs = seq![a@, b@];
    let x = cross_spec(vs);
    assert(vs.len() == 2 && vs[0] == a@ && vs[1] == b@);
    let (a0, a1, a2, b0, b1, b2) = (a@[0], a@[1], a@[2], b@[0], b@[1], b@[2]);
    lemma_cross_minor_square(vs, 0);
    lemma_cross_minor_square(vs, 1);
    lemma_cross_minor_square(vs, 2);
    lemma_det_two(cross_minor(vs, 0));
    lemma_det_two(cross_minor(vs, 1));
    lemma_det_two(cross_minor(vs, 2));
    assert(x[0] == a1 * b2 - a2 * b1);
    let d1 = det_spec(cross_minor(vs, 1));
    assert(d1 == a0 * b2 - a2 * b0);
    assert(x[1] == sign(3) * d1);
    assert(sign(3) * d1 == -d1) by (nonlinear_arith)
        requires
            sign(3) == -1,
    ;
    assert(x[2] == a0 * b1 - a1 * b0);
    assert(x[1] == -(a0 * b2 - a2 * b0));
    assert(x.len() == 3);
    assert(dot_spec(x, a@) == x[0] * a0 + x[1] * a1 + x[2] * a2) by {
        assert(dot_prefix(x, a@, 0) == 0);
        assert(dot_prefix(x, a@, 1) == x[0] * a0);
        assert(dot_prefix(x, a@, 2) == x[0] * a0 + x[1] * a1);
    }
    assert(dot_spec(x, b@) == x[0] * b0 + x[1] * b1 + x[2] * b2) by {
        assert(dot_prefix(x, b@, 0) == 0);
        assert(dot_prefix(x, b@, 1) == x[0] * b0);
        assert(dot_prefix(x, b@, 2) == x[0] * b0 + x[1] * b1);
    }
    assert((a1 * b2 - a2 * b1) * a0 + (-(a0 * b2 - a2 * b0)) * a1 + (a0 * b1 - a1 * b0) * a2 == 0)
        by (nonlinear_arith);
    assert((a1 * b2 - a2 * b1) * b0 + (-(a0 * b2 - a2 * b0)) * b1 + (a0 * b1 - a1 * b0) * b2 == 0)
        by (nonlinear_arith);
}

} // verus!
