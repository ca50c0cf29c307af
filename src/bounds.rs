//! Axis-aligned bounding boxes that grow to hold the points they meet.

use vstd::prelude::*;

verus! {

/// An axis-aligned box in `N` dimensions, given by its corners `[min, max]`.
pub struct BoxBounds<const N: usize>(pub [[i64; N]; 2]);

impl<const N: usize> View for BoxBounds<N> {
    type V = (Seq<int>, Seq<int>);

    /// The lower corner and the upper corner.
    open spec fn view(&self) -> (Seq<int>, Seq<int>) {
        (
            Seq::new(N as nat, |i: int| self.0[0][i] as int),
            Seq::new(N as nat, |i: int| self.0[1][i] as int),
        )
    }
}

/// The lower corner lies below the upper corner in every dimension.
pub open spec fn bounds_wf(b: (Seq<int>, Seq<int>)) -> bool {
    &&& b.0.len() == b.1.len()
    &&& forall|i: int| 0 <= i < b.0.len() ==> b.0[i] <= b.1[i]
}

/// `p` lies within the box in every dimension.
pub open spec fn contains(b: (Seq<int>, Seq<int>), p: Seq<int>) -> bool {
    &&& p.len() >= b.0.len()
    &&& forall|i: int| 0 <= i < b.0.len() ==> b.0[i] <= #[trigger] p[i] <= b.1[i]
}

/// The lower bound of one dimension after meeting the coordinate `x`.
pub open spec fn lo_after(lo: int, hi: int, x: int) -> int {
    if x < lo {
        x
    } else {
        lo
    }
}

/// The upper bound of one dimension after meeting the coordinate `x`: a
/// coordinate below the lower bound moves only the lower bound.
pub open spec fn hi_after(lo: int, hi: int, x: int) -> int {
    if x < lo {
        hi
    } else if x > hi {
        x
    } else {
        hi
    }
}

/// The box after meeting the point `p`.
pub open spec fn extend_spec(b: (Seq<int>, Seq<int>), p: Seq<int>) -> (Seq<int>, Seq<int>) {
    (
        Seq::new(b.0.len(), |i: int| lo_after(b.0[i], b.1[i], p[i])),
        Seq::new(b.1.len(), |i: int| hi_after(b.0[i], b.1[i], p[i])),
    )
}

/// The box after meeting each of `pts` in turn.
pub open spec fn extend_all_spec(b: (Seq<int>, Seq<int>), pts: Seq<Seq<int>>) -> (
    Seq<int>,
    Seq<int>,
)
    decreases pts.len(),
{
    if pts.len() == 0 {
        b
    } else {
        extend_spec(extend_all_spec(b, pts.drop_last()), pts.last())
    }
}

impl<const N: usize> BoxBounds<N> {
    /// The degenerate box whose corners are both `seed`.
    pub fn new(seed: [i64; N]) -> (r: BoxBounds<N>)
        ensures
            r.0[0] == seed,
            r.0[1] == seed,
            bounds_wf(r@),
    {
        BoxBounds([seed, seed])
    }

    /// Widens the box, dimension by dimension, so that it holds `point`.
    pub fn extend(&mut self, point: &[i64])
        requires
            point@.len() >= N,
        ensures
            final(self)@ == extend_spec(old(self)@, point@.map_values(|x: i64| x as int)),
            bounds_wf(old(self)@) ==> {
                &&& bounds_wf(final(self)@)
                &&& contains(final(self)@, point@.map_values(|x: i64| x as int))
                &&& encloses(final(self)@, old(self)@)
            },
    {
        let ghost p = point@.map_values(|x: i64| x as int);
        let ghost start = self@;
        let mut lo = self.0[0];
        let mut hi = self.0[1];
        let mut i: usize = 0;
        while i < N
            invariant
                i <= N,
                point@.len() >= N,
                p == point@.map_values(|x: i64| x as int),
                start == old(self)@,
                forall|j: int| 0 <= j < i ==> lo[j] == lo_after(start.0[j], start.1[j], p[j]),
                forall|j: int| 0 <= j < i ==> hi[j] == hi_after(start.0[j], start.1[j], p[j]),
                forall|j: int| i <= j < N ==> lo[j] == start.0[j] && hi[j] == start.1[j],
            decreases N - i,
        {
            if point[i] < lo[i] {
                lo[i] = point[i];
            } else if point[i] > hi[i] {
                hi[i] = point[i];
            }
            i += 1;
        }
        self.0 = [lo, hi];
        assert(self@.0 =~= extend_spec(start, p).0);
        assert(self@.1 =~= extend_spec(start, p).1);
        proof {
            if bounds_wf(start) {
                lemma_extend_step(start, p);
            }
        }
    }
}

/// `outer` holds `inner`: its lower corner is no higher and its upper corner
/// no lower in any dimension.
pub open spec fn encloses(outer: (Seq<int>, Seq<int>), inner: (Seq<int>, Seq<int>)) -> bool {
    &&& outer.0.len() == inner.0.len()
    &&& outer.1.len() == inner.1.len()
    &&& forall|i: int|
        0 <= i < inner.0.len() ==> outer.0[i] <= #[trigger] inner.0[i] && inner.1[i] <= outer.1[i]
}

/// One extension keeps the box well formed, holds the point and encloses
/// the box it started from.
pub proof fn lemma_extend_step(b: (Seq<int>, Seq<int>), p: Seq<int>)
    requires
        bounds_wf(b),
        p.len() >= b.0.len(),
    ensures
        bounds_wf(extend_spec(b, p)),
        contains(extend_spec(b, p), p),
        encloses(extend_spec(b, p), b),
{
}

/// Extending with a point already inside the box leaves the box as it was.
pub proof fn lemma_extend_inside_unchanged(b: (Seq<int>, Seq<int>), p: Seq<int>)
    requires
        b.0.len() == b.1.len(),
        contains(b, p),
    ensures
        extend_spec(b, p) == b,
{
    let e = extend_spec(b, p);
    assert(e.0 =~= b.0);
    assert(e.1 =~= b.1);
}

/// After extending a well-formed box with any finite sequence of points, the
/// box is well formed, encloses the box it started from, and holds every one
/// of the points.
pub proof fn lemma_extend_all_monotonic(b: (Seq<int>, Seq<int>), pts: Seq<Seq<int>>)
    requires
        bounds_wf(b),
        forall|j: int| 0 <= j < pts.len() ==> #[trigger] pts[j].len() >= b.0.len(),
    ensures
        bounds_wf(extend_all_spec(b, pts)),
        encloses(extend_all_spec(b, pts), b),
        forall|j: int| 0 <= j < pts.len() ==> contains(extend_all_spec(b, pts), #[trigger] pts[j]),
    decreases pts.len(),
{
    if pts.len() > 0 {
        let init = pts.drop_last();
        assert forall|j: int| 0 <= j < init.len() implies #[trigger] init[j].len() >= b.0.len() by {
            assert(init[j] == pts[j]);
        }
        lemma_extend_all_monotonic(b, init);
        let before = extend_all_spec(b, init);
        let after = extend_all_spec(b, pts);
        assert(pts.last() == pts[pts.len() - 1]);
        lemma_extend_step(before, pts.last());
        assert forall|j: int| 0 <= j < pts.len() implies contains(after, #[trigger] pts[j]) by {
            if j < init.len() {
                assert(init[j] == pts[j]);
                assert(contains(before, init[j]));
            }
        }
    }
}

} // verus!
