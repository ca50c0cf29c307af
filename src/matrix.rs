//! Fixed-size matrices stored by columns: transpose, blocks, identity,
//! products and the determinant.

use vstd::prelude::*;

use crate::det::{columns, det_columns, det_fits, det_spec, det_sum, minor};
use crate::linalg::{dot_fits, dot_prefix, dot_spec, Vector};

verus! {

/// A grid of `M` rows and `N` columns, stored as `N` columns of `M` entries:
/// the first index selects the column, the second the row within it.
pub struct Matrix<const M: usize, const N: usize>(pub [[i64; M]; N]);

impl<const M: usize, const N: usize> View for Matrix<M, N> {
    type V = Seq<Seq<int>>;

    /// The columns, each a sequence of `M` entries.
    open spec fn view(&self) -> Seq<Seq<int>> {
        Seq::new(N as nat, |c: int| Seq::new(M as nat, |r: int| self.0[c][r] as int))
    }
}

/// Row `r` of a matrix given by its columns.
pub open spec fn row(m: Seq<Seq<int>>, r: int) -> Seq<int> {
    Seq::new(m.len(), |c: int| m[c][r])
}

/// The transpose of a matrix with `rows` rows: its columns are the rows of `m`.
pub open spec fn transpose_spec(m: Seq<Seq<int>>, rows: nat) -> Seq<Seq<int>> {
    Seq::new(rows, |r: int| row(m, r))
}

/// The `rows` by `cols` block in the top-left corner of `m`.
pub open spec fn upper_left_spec(m: Seq<Seq<int>>, rows: nat, cols: nat) -> Seq<Seq<int>> {
    Seq::new(cols, |c: int| Seq::new(rows, |r: int| m[c][r]))
}

/// The `n` by `n` matrix with ones on the diagonal and zeros elsewhere.
pub open spec fn identity_spec(n: nat) -> Seq<Seq<int>> {
    Seq::new(n, |c: int| Seq::new(n, |r: int| if c == r { 1int } else { 0int }))
}

/// Product of `a` (with `rows` rows) and `b`: entry `(l, n)` is the dot product
/// of row `l` of `a` with column `n` of `b`.
pub open spec fn mul_spec(a: Seq<Seq<int>>, b: Seq<Seq<int>>, rows: nat) -> Seq<Seq<int>> {
    Seq::new(b.len(), |n: int| Seq::new(rows, |l: int| dot_spec(row(a, l), b[n])))
}

/// Product of `a` (with `rows` rows) and the column vector `v`.
pub open spec fn mul_vector_spec(a: Seq<Seq<int>>, v: Seq<int>, rows: nat) -> Seq<int> {
    Seq::new(rows, |l: int| dot_spec(row(a, l), v))
}

impl<const M: usize, const N: usize> Matrix<M, N> {
    /// The matrix with rows and columns swapped.
    pub fn transpose(&self) -> (r: Matrix<N, M>)
        ensures
            r@ == transpose_spec(self@, M as nat),
    {
        let mut out = [[0i64; N]; M];
        let mut r: usize = 0;
        while r < M
            invariant
                r <= M,
                forall|i: int, c: int| 0 <= i < r && 0 <= c < N ==> out[i][c] == self.0[c][i],
            decreases M - r,
        {
            let mut col = [0i64; N];
            let mut c: usize = 0;
            while c < N
                invariant
                    r < M,
                    c <= N,
                    forall|j: int| 0 <= j < c ==> col[j] == self.0[j][r as int],
                decreases N - c,
            {
                col[c] = self.0[c][r];
                c += 1;
            }
            out[r] = col;
            r += 1;
        }
        let t = Matrix(out);
        assert(t@ =~= transpose_spec(self@, M as nat)) by {
            assert forall|i: int| 0 <= i < M implies t@[i] =~= row(self@, i) by {}
        }
        t
    }

    /// The `O` by `P` block in the top-left corner.
    pub fn upper_left<const O: usize, const P: usize>(&self) -> (r: Matrix<O, P>)
        requires
            O <= M,
            P <= N,
        ensures
            r@ == upper_left_spec(self@, O as nat, P as nat),
    {
        let mut out = [[0i64; O]; P];
        let mut c: usize = 0;
        while c < P
            invariant
                c <= P,
                O <= M,
                P <= N,
                forall|i: int, j: int| 0 <= i < c && 0 <= j < O ==> out[i][j] == self.0[i][j],
            decreases P - c,
        {
            let mut col = [0i64; O];
            let mut r: usize = 0;
            while r < O
                invariant
                    c < P,
                    r <= O,
                    O <= M,
                    P <= N,
                    forall|j: int| 0 <= j < r ==> col[j] == self.0[c as int][j],
                decreases O - r,
            {
                col[r] = self.0[c][r];
                r += 1;
            }
            out[c] = col;
            c += 1;
        }
        let u = Matrix(out);
        assert(u@ =~= upper_left_spec(self@, O as nat, P as nat)) by {
            assert forall|i: int| 0 <= i < P implies u@[i] =~= upper_left_spec(
                self@,
                O as nat,
                P as nat,
            )[i] by {}
        }
        u
    }
}

impl<const N: usize> Matrix<N, N> {
    /// The columns, as vectors.
    fn to_columns(&self) -> (r: Vec<Vec<i64>>)
        ensures
            columns(r@) == self@,
    {
        let mut out: Vec<Vec<i64>> = Vec::new();
        let mut c: usize = 0;
        while c < N
            invariant
                c <= N,
                out@.len() == c,
                forall|i: int| 0 <= i < c ==> columns(out@)[i] == self@[i],
            decreases N - c,
        {
            let mut col: Vec<i64> = Vec::new();
            let mut r: usize = 0;
            while r < N
                invariant
                    c < N,
                    r <= N,
                    col@.len() == r,
                    forall|i: int| 0 <= i < r ==> col@[i] == self.0[c as int][i],
                decreases N - r,
            {
                col.push(self.0[c][r]);
                r += 1;
            }
            let ghost before = out@;
            out.push(col);
            proof {
                assert(columns(out@)[c as int] =~= self@[c as int]);
                assert forall|i: int| 0 <= i < c + 1 implies columns(out@)[i] == self@[i] by {
                    if i < c {
                        assert(out@[i] == before[i]);
                        assert(columns(out@)[i] =~= columns(before)[i]);
                    }
                }
            }
            c += 1;
        }
        assert(columns(out@) =~= self@);
        out
    }

    /// The determinant, by cofactor expansion along the first row.
    pub fn det(&self) -> (r: i64)
        requires
            det_fits(self@),
        ensures
            r == det_spec(self@),
    {
        let cols = self.to_columns();
        det_columns(&cols)
    }

    /// The square matrix with ones on the diagonal and zeros elsewhere.
    pub fn identity() -> (r: Matrix<N, N>)
        ensures
            r@ == identity_spec(N as nat),
    {
        let mut out = [[0i64; N]; N];
        let mut c: usize = 0;
        while c < N
            invariant
                c <= N,
                forall|i: int, j: int|
                    0 <= i < c && 0 <= j < N ==> out[i][j] == if i == j { 1i64 } else { 0i64 },
            decreases N - c,
        {
            let mut col = [0i64; N];
            col[c] = 1;
            out[c] = col;
            c += 1;
        }
        let m = Matrix(out);
        assert(m@ =~= identity_spec(N as nat)) by {
            assert forall|i: int| 0 <= i < N implies m@[i] =~= identity_spec(N as nat)[i] by {}
        }
        m
    }
}

impl<const L: usize, const M: usize> Matrix<L, M> {
    /// Matrix product: entry `(l, n)` is row `l` of `self` dotted with column `n` of `rhs`.
    pub fn mul<const N: usize>(&self, rhs: &Matrix<M, N>) -> (r: Matrix<L, N>)
        requires
            forall|l: int, n: int|
                0 <= l < L && 0 <= n < N ==> dot_fits(#[trigger] row(self@, l), #[trigger] rhs@[n]),
        ensures
            r@ == mul_spec(self@, rhs@, L as nat),
    {
        let lhs = self.transpose();
        let mut out = [[0i64; L]; N];
        let mut n: usize = 0;
        while n < N
            invariant
                n <= N,
                lhs@ == transpose_spec(self@, L as nat),
                forall|l: int, n: int|
                    0 <= l < L && 0 <= n < N ==> dot_fits(#[trigger] row(self@, l), #[trigger] rhs@[n]),
                forall|i: int, j: int|
                    0 <= i < n && 0 <= j < L ==> out[i][j] == dot_spec(row(self@, j), rhs@[i]),
            decreases N - n,
        {
            let mut col = [0i64; L];
            let mut l: usize = 0;
            while l < L
                invariant
                    n < N,
                    l <= L,
                    lhs@ == transpose_spec(self@, L as nat),
                    forall|l: int, n: int|
                        0 <= l < L && 0 <= n < N ==> dot_fits(#[trigger] row(self@, l), #[trigger] rhs@[n]),
                    forall|j: int| 0 <= j < l ==> col[j] == dot_spec(row(self@, j), rhs@[n as int]),
                decreases L - l,
            {
                let a = Vector(lhs.0[l]);
                let b = Vector(rhs.0[n]);
                assert(a@ =~= row(self@, l as int)) by {
                    assert(lhs@[l as int] == row(self@, l as int));
                }
                assert(b@ =~= rhs@[n as int]);
                col[l] = a.dot(&b);
                l += 1;
            }
            out[n] = col;
            n += 1;
        }
        let p = Matrix(out);
        assert(p@ =~= mul_spec(self@, rhs@, L as nat)) by {
            assert forall|i: int| 0 <= i < N implies p@[i] =~= mul_spec(self@, rhs@, L as nat)[i] by {}
        }
        p
    }

    /// Product of this matrix and the column vector `v`.
    pub fn mul_vector(&self, v: &Vector<M>) -> (r: Vector<L>)
        requires
            forall|l: int| 0 <= l < L ==> dot_fits(#[trigger] row(self@, l), v@),
        ensures
            r@ == mul_vector_spec(self@, v@, L as nat),
    {
        let lhs = self.transpose();
        let mut out = [0i64; L];
        let mut l: usize = 0;
        while l < L
            invariant
                l <= L,
                lhs@ == transpose_spec(self@, L as nat),
                forall|l: int| 0 <= l < L ==> dot_fits(#[trigger] row(self@, l), v@),
                forall|j: int| 0 <= j < l ==> out[j] == dot_spec(row(self@, j), v@),
            decreases L - l,
        {
            let a = Vector(lhs.0[l]);
            assert(a@ =~= row(self@, l as int)) by {
                assert(lhs@[l as int] == row(self@, l as int));
            }
            out[l] = a.dot(v);
            l += 1;
        }
        let r = Vector(out);
        assert(r@ =~= mul_vector_spec(self@, v@, L as nat));
        r
    }
}

/// A dot product against a unit vector picks one component: with `b` zero
/// everywhere but a one at `j`, the first `k` products sum to `a[j]` if `j < k`.
pub proof fn lemma_dot_unit_right(a: Seq<int>, b: Seq<int>, j: int, k: int)
    requires
        0 <= k <= a.len(),
        a.len() == b.len(),
        forall|i: int| 0 <= i < b.len() ==> b[i] == if i == j { 1int } else { 0int },
    ensures
        dot_prefix(a, b, k) == if 0 <= j < k { a[j] } else { 0 },
    decreases k,
{
    if k > 0 {
        lemma_dot_unit_right(a, b, j, k - 1);
    }
}

/// The mirror of `lemma_dot_unit_right`, with the unit vector on the left.
pub proof fn lemma_dot_unit_left(a: Seq<int>, b: Seq<int>, j: int, k: int)
    requires
        0 <= k <= a.len(),
        a.len() == b.len(),
        forall|i: int| 0 <= i < a.len() ==> a[i] == if i == j { 1int } else { 0int },
    ensures
        dot_prefix(a, b, k) == if 0 <= j < k { b[j] } else { 0 },
    decreases k,
{
    if k > 0 {
        lemma_dot_unit_left(a, b, j, k - 1);
    }
}

/// Multiplying by the identity, on either side, gives the matrix back.
pub proof fn lemma_mul_identity<const M: usize, const N: usize>(m: Matrix<M, N>)
    ensures
        mul_spec(m@, identity_spec(N as nat), M as nat) == m@,
        mul_spec(identity_spec(M as nat), m@, M as nat) == m@,
{
    let right = mul_spec(m@, identity_spec(N as nat), M as nat);
    assert forall|n: int| 0 <= n < N implies right[n] =~= m@[n] by {
        assert forall|l: int| 0 <= l < M implies right[n][l] == m@[n][l] by {
            lemma_dot_unit_right(row(m@, l), identity_spec(N as nat)[n], n, N as int);
        }
    }
    assert(right =~= m@);
    let left = mul_spec(identity_spec(M as nat), m@, M as nat);
    assert forall|n: int| 0 <= n < N implies left[n] =~= m@[n] by {
        assert forall|l: int| 0 <= l < M implies left[n][l] == m@[n][l] by {
            lemma_dot_unit_left(row(identity_spec(M as nat), l), m@[n], l, M as int);
        }
    }
    assert(left =~= m@);
}

/// Transposing twice gives the matrix back.
pub proof fn lemma_transpose_transpose<const M: usize, const N: usize>(m: Matrix<M, N>)
    ensures
        transpose_spec(transpose_spec(m@, M as nat), N as nat) == m@,
{
    let t = transpose_spec(transpose_spec(m@, M as nat), N as nat);
    assert forall|c: int| 0 <= c < N implies t[c] =~= m@[c] by {}
    assert(t =~= m@);
}

proof fn lemma_det_sum_identity(n: nat, k: int)
    requires
        n >= 1,
        1 <= k <= n,
        det_spec(minor(identity_spec(n), 0)) == 1,
    ensures
        det_sum(identity_spec(n), k) == 1,
    decreases k,
{
    let id = identity_spec(n);
    if k == 1 {
        assert(det_sum(id, 0) == 0);
    } else {
        lemma_det_sum_identity(n, k - 1);
        assert(id[k - 1][0] == 0);
    }
}

/// The determinant of the identity is one, in every dimension.
pub proof fn lemma_det_identity(n: nat)
    ensures
        det_spec(identity_spec(n)) == 1,
    decreases n,
{
    if n > 0 {
        let id = identity_spec(n);
        assert forall|j: int| 0 <= j < n - 1 implies minor(id, 0)[j] =~= identity_spec(
            (n - 1) as nat,
        )[j] by {}
        assert(minor(id, 0) =~= identity_spec((n - 1) as nat));
        lemma_det_identity((n - 1) as nat);
        lemma_det_sum_identity(n, n as int);
    }
}

} // verus!
