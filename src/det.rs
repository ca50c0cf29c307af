//! The classical determinant of a square matrix, by cofactor expansion along
//! the first row, on matrices given as sequences of columns.

use vstd::prelude::*;

use crate::linalg::fits;

verus! {

/// `1` for an even index, `-1` for an odd one.
pub open spec fn sign(i: int) -> int {
    if i % 2 == 0 {
        1
    } else {
        -1
    }
}

/// Every column has as many entries as there are columns.
pub open spec fn square(m: Seq<Seq<int>>) -> bool {
    forall|c: int| 0 <= c < m.len() ==> (#[trigger] m[c]).len() == m.len()
}

/// `m` without column `c` and without its first row.
pub open spec fn minor(m: Seq<Seq<int>>, c: int) -> Seq<Seq<int>> {
    Seq::new(
        (m.len() - 1) as nat,
        |j: int|
            {
                let col = if j < c {
                    m[j]
                } else {
                    m[j + 1]
                };
                col.subrange(1, col.len() as int)
            },
    )
}

/// The first `k` terms of the expansion along the first row: entry `c` of
/// that row, times its sign, times the determinant of its minor.
pub open spec fn det_sum(m: Seq<Seq<int>>, k: int) -> int
    decreases m.len(), k,
{
    if k <= 0 || k > m.len() {
        0
    } else {
        det_sum(m, k - 1) + sign(k - 1) * (m[k - 1][0] * det_spec(minor(m, k - 1)))
    }
}

/// The determinant; the empty matrix has determinant `1`.
pub open spec fn det_spec(m: Seq<Seq<int>>) -> int
    decreases m.len(), m.len() + 1,
{
    if m.len() == 0 {
        1
    } else {
        det_sum(m, m.len() as int)
    }
}

/// Every product and partial sum of the expansion, at every level, fits in an `i64`.
pub open spec fn det_fits(m: Seq<Seq<int>>) -> bool
    decreases m.len(),
{
    forall|c: int|
        0 <= c < m.len() ==> {
            &&& det_fits(#[trigger] minor(m, c))
            &&& fits(m[c][0] * det_spec(minor(m, c)))
            &&& fits(det_sum(m, c + 1))
        }
}

/// The integer view of a matrix held as a vector of columns.
pub open spec fn columns(m: Seq<Vec<i64>>) -> Seq<Seq<int>> {
    Seq::new(m.len(), |c: int| Seq::new(m[c]@.len(), |r: int| m[c]@[r] as int))
}

/// The minor of a square matrix is square.
pub proof fn lemma_minor_square(m: Seq<Seq<int>>, c: int)
    requires
        square(m),
        m.len() >= 1,
    ensures
        square(minor(m, c)),
        minor(m, c).len() == m.len() - 1,
{
    let mm = minor(m, c);
    assert forall|j: int| 0 <= j < mm.len() implies (#[trigger] mm[j]).len() == mm.len() by {
        if j < c {
            assert(m[j].len() == m.len());
        } else {
            assert(m[j + 1].len() == m.len());
        }
    }
}

/// `m` without column `c` and without its first row.
fn minor_exec(m: &Vec<Vec<i64>>, c: usize) -> (r: Vec<Vec<i64>>)
    requires
        square(columns(m@)),
        c < m@.len(),
    ensures
        columns(r@) == minor(columns(m@), c as int),
{
    let ghost v = columns(m@);
    let n = m.len();
    let mut out: Vec<Vec<i64>> = Vec::new();
    let mut j: usize = 0;
    while j + 1 < n
        invariant
            v == columns(m@),
            square(v),
            n == m@.len(),
            c < n,
            j + 1 <= n,
            out@.len() == j,
            forall|i: int| 0 <= i < j ==> columns(out@)[i] == minor(v, c as int)[i],
        decreases n - j,
    {
        let src = if j < c { j } else { j + 1 };
        assert(v[src as int].len() == n);
        let mut col: Vec<i64> = Vec::new();
        let mut r: usize = 1;
        while r < n
            invariant
                v == columns(m@),
                n == m@.len(),
                src < n,
                m@[src as int]@.len() == n,
                1 <= r <= n,
                col@.len() == r - 1,
                forall|i: int| 0 <= i < r - 1 ==> col@[i] == m@[src as int]@[i + 1],
            decreases n - r,
        {
            col.push(m[src][r]);
            r += 1;
        }
        let ghost before = out@;
        out.push(col);
        proof {
            assert(columns(out@)[j as int] =~= minor(v, c as int)[j as int]);
            assert forall|i: int| 0 <= i < j + 1 implies columns(out@)[i] == minor(v, c as int)[i] by {
                if i < j {
                    assert(out@[i] == before[i]);
                    assert(columns(before)[i] == minor(v, c as int)[i]);
                    assert(columns(out@)[i] =~= columns(before)[i]);
                }
            }
        }
        j += 1;
    }
    assert(columns(out@) =~= minor(v, c as int));
    out
}

/// The determinant of a square matrix held as a vector of columns.
pub fn det_columns(m: &Vec<Vec<i64>>) -> (r: i64)
    requires
        square(columns(m@)),
        det_fits(columns(m@)),
    ensures
        r == det_spec(columns(m@)),
    decreases m@.len(),
{
    let ghost v = columns(m@);
    let n = m.len();
    if n == 0 {
        return 1;
    }
    let mut sum: i64 = 0;
    let mut c: usize = 0;
    while c < n
        invariant
            v == columns(m@),
            n == m@.len(),
            n >= 1,
            square(v),
            det_fits(v),
            c <= n,
            sum == det_sum(v, c as int),
        decreases n - c,
    {
        let sub = minor_exec(m, c);
        proof {
            lemma_minor_square(v, c as int);
            assert(det_fits(minor(v, c as int)));
        }
        let d = det_columns(&sub);
        proof {
            assert(v[c as int].len() == n);
            assert(fits(v[c as int][0] * det_spec(minor(v, c as int))));
            assert(fits(det_sum(v, c + 1)));
        }
        let t = m[c][0] * d;
        if c % 2 == 0 {
            sum = sum + t;
        } else {
            sum = sum - t;
        }
        c += 1;
    }
    sum
}

/// The determinant of a one-by-one matrix is its entry.
pub proof fn lemma_det_one(m: Seq<Seq<int>>)
    requires
        m.len() == 1,
        square(m),
    ensures
        det_spec(m) == m[0][0],
{
    assert(minor(m, 0).len() == 0);
    assert(det_spec(minor(m, 0)) == 1);
    assert(det_sum(m, 0) == 0);
    assert(det_sum(m, 1) == m[0][0]);
}

/// The determinant of a two-by-two matrix, with `m[c][r]` in column `c`, row `r`.
pub proof fn lemma_det_two(m: Seq<Seq<int>>)
    requires
        m.len() == 2,
        square(m),
    ensures
        det_spec(m) == m[0][0] * m[1][1] - m[1][0] * m[0][1],
{
    lemma_minor_square(m, 0);
    lemma_minor_square(m, 1);
    lemma_det_one(minor(m, 0));
    lemma_det_one(minor(m, 1));
    assert(minor(m, 0)[0][0] == m[1][1]);
    assert(minor(m, 1)[0][0] == m[0][1]);
    assert(det_sum(m, 0) == 0);
    assert(det_sum(m, 1) == m[0][0] * m[1][1]);
    assert(det_sum(m, 2) == m[0][0] * m[1][1] - m[1][0] * m[0][1]);
}

/// The determinant of a three-by-three matrix, expanded along its first row,
/// with `m[c][r]` in column `c`, row `r`.
pub proof fn lemma_det_three(m: Seq<Seq<int>>)
    requires
        m.len() == 3,
        square(m),
    ensures
        det_spec(m) == m[0][0] * (m[1][1] * m[2][2] - m[2][1] * m[1][2]) - m[1][0] * (m[0][1]
            * m[2][2] - m[2][1] * m[0][2]) + m[2][0] * (m[0][1] * m[1][2] - m[1][1] * m[0][2]),
{
    lemma_minor_square(m, 0);
    lemma_minor_square(m, 1);
    lemma_minor_square(m, 2);
    lemma_det_two(minor(m, 0));
    lemma_det_two(minor(m, 1));
    lemma_det_two(minor(m, 2));
    assert(det_sum(m, 0) == 0);
    assert(det_sum(m, 1) == m[0][0] * det_spec(minor(m, 0)));
    assert(det_sum(m, 2) == det_sum(m, 1) - m[1][0] * det_spec(minor(m, 1)));
    assert(det_sum(m, 3) == det_sum(m, 2) + m[2][0] * det_spec(minor(m, 2)));
}

} // verus!
