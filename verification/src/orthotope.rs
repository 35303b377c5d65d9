//! Axis-aligned boxes.
pub mod element;
pub mod integers;
pub mod iter;
pub mod partial;
pub mod shift;

pub use element::{quotient, Element};
use element::{lemma_between, lemma_zero};
pub use iter::OrthotopeIter;
pub use partial::{pmax, pmin};

use vstd::pervasive::unreached;
use vstd::prelude::*;

verus! {

pub type Rect<T> = Orthotope<T, 2>;

pub type Cube<T> = Orthotope<T, 3>;

/// The integers that the values of an array stand for.
pub open spec fn vals<T: Element, const N: usize>(a: [T; N]) -> Seq<int> {
    Seq::new(N as nat, |i: int| a[i].val())
}

/// The greater of two integers.
pub open spec fn greater(a: int, b: int) -> int {
    if a > b {
        a
    } else {
        b
    }
}

/// The lesser of two integers.
pub open spec fn lesser(a: int, b: int) -> int {
    if a < b {
        a
    } else {
        b
    }
}

/// `v`, or the end of the range from `lo` up to, but without, `hi` that
/// is nearest to it.
pub open spec fn clamped(lo: int, hi: int, v: int) -> int {
    if v < lo {
        lo
    } else if v >= hi {
        hi - 1
    } else {
        v
    }
}

/// The sides of a box: on every axis the range from `lo` up to, but
/// without, `hi`.
pub struct Bounds {
    pub lo: Seq<int>,
    pub hi: Seq<int>,
}

impl Bounds {
    /// The box from `lo` to `hi`, where a side that would end before it
    /// starts is empty instead.
    pub open spec fn spanning(lo: Seq<int>, hi: Seq<int>) -> Bounds {
        Bounds { lo, hi: Seq::new(lo.len(), |i: int| greater(lo[i], hi[i])) }
    }

    /// Number of axes.
    pub open spec fn axes(self) -> int {
        self.lo.len() as int
    }

    /// Length of the side along axis `i`.
    pub open spec fn side(self, i: int) -> int {
        self.hi[i] - self.lo[i]
    }

    /// Whether every side starts no later than it ends.
    pub open spec fn ordered(self) -> bool {
        &&& self.hi.len() == self.lo.len()
        &&& forall|i: int| 0 <= i < self.axes() ==> self.lo[i] <= #[trigger] self.hi[i]
    }

    /// Whether the point lies in the box.
    pub open spec fn has(self, p: Seq<int>) -> bool {
        forall|i: int| 0 <= i < self.axes() ==> self.lo[i] <= #[trigger] p[i] < self.hi[i]
    }

    /// Whether a side has no length.
    pub open spec fn is_empty(self) -> bool {
        exists|i: int| 0 <= i < self.axes() && #[trigger] self.hi[i] <= self.lo[i]
    }

    /// Whether the sides of `inner` lie within those of this box.
    pub open spec fn encloses(self, inner: Bounds) -> bool {
        forall|i: int|
            0 <= i < self.axes() ==> self.lo[i] <= #[trigger] inner.lo[i] && self.hi[i]
                >= inner.hi[i]
    }

    /// Product of the lengths of the first `n` sides.
    pub open spec fn volume_upto(self, n: int) -> int
        decreases n,
    {
        if n <= 0 {
            1
        } else {
            self.volume_upto(n - 1) * self.side(n - 1)
        }
    }

    /// Product of the lengths of the sides.
    pub open spec fn volume(self) -> int {
        self.volume_upto(self.axes())
    }

    /// The point halfway along every side, rounded down.
    pub open spec fn center(self) -> Seq<int> {
        Seq::new(self.lo.len(), |i: int| self.lo[i] + self.side(i) / 2)
    }

    /// The part of the box before the middle of the side along `axis`.
    pub open spec fn lower_half(self, axis: int) -> Bounds {
        Bounds { lo: self.lo, hi: self.hi.update(axis, self.center()[axis]) }
    }

    /// The part of the box from the middle of the side along `axis` on.
    pub open spec fn upper_half(self, axis: int) -> Bounds {
        Bounds { lo: self.lo.update(axis, self.center()[axis]), hi: self.hi }
    }

    /// The halves of a box lie in the box, and every point of the box
    /// lies in exactly one of them.
    pub proof fn law_halves_share_the_box(self, axis: int, p: Seq<int>)
        requires
            self.ordered(),
            0 <= axis < self.axes(),
        ensures
            self.encloses(self.lower_half(axis)),
            self.encloses(self.upper_half(axis)),
            self.lower_half(axis).ordered(),
            self.upper_half(axis).ordered(),
            self.has(p) <==> self.lower_half(axis).has(p) || self.upper_half(axis).has(p),
            !(self.lower_half(axis).has(p) && self.upper_half(axis).has(p)),
    {
        let mid = self.center()[axis];
        assert(self.lo[axis] <= self.hi[axis]);
        assert(self.lo[axis] <= mid <= self.hi[axis]);
        let lower = self.lower_half(axis);
        let upper = self.upper_half(axis);
        assert forall|i: int| 0 <= i < self.axes() implies self.lo[i] <= #[trigger] lower.lo[i]
            && self.hi[i] >= lower.hi[i] && self.lo[i] <= upper.lo[i] && self.hi[i]
            >= upper.hi[i] && lower.lo[i] <= lower.hi[i] && upper.lo[i] <= upper.hi[i] by {
            assert(self.lo[i] <= self.hi[i]);
        }
        if self.has(p) {
            if p[axis] < mid {
                assert forall|i: int| 0 <= i < lower.axes() implies lower.lo[i] <= #[trigger] p[i]
                    < lower.hi[i] by {}
            } else {
                assert forall|i: int| 0 <= i < upper.axes() implies upper.lo[i] <= #[trigger] p[i]
                    < upper.hi[i] by {}
            }
        }
        if lower.has(p) {
            assert(lower.lo[axis] <= p[axis] < lower.hi[axis]);
            assert forall|i: int| 0 <= i < self.axes() implies self.lo[i] <= #[trigger] p[i]
                < self.hi[i] by {
                assert(lower.lo[i] <= p[i] < lower.hi[i]);
            }
        }
        if upper.has(p) {
            assert(upper.lo[axis] <= p[axis] < upper.hi[axis]);
            assert forall|i: int| 0 <= i < self.axes() implies self.lo[i] <= #[trigger] p[i]
                < self.hi[i] by {
                assert(upper.lo[i] <= p[i] < upper.hi[i]);
            }
        }
    }

    /// The box moved by `d`.
    pub open spec fn moved(self, d: Seq<int>) -> Bounds {
        Bounds {
            lo: Seq::new(self.lo.len(), |i: int| self.lo[i] + d[i]),
            hi: Seq::new(self.lo.len(), |i: int| self.hi[i] + d[i]),
        }
    }
}

/// Cartesian product of several ranges.
///
/// Equivalent to an axis-aligned bounding rectangle, bounding box etc.
#[derive(Copy, Eq, PartialEq, Hash, Debug)]
pub struct Orthotope<T: Element, const N: usize> {
    low: [T; N],
    high: [T; N],
}

impl<T: Element, const N: usize> Clone for Orthotope<T, N> {
    fn clone(&self) -> (copy: Self)
        ensures
            copy == *self,
    {
        *self
    }
}

impl<T: Element, const N: usize> View for Orthotope<T, N> {
    type V = Bounds;

    closed spec fn view(&self) -> Bounds {
        Bounds { lo: vals(self.low), hi: vals(self.high) }
    }
}

pub fn area<T: Element>(w: T, h: T) -> (made: Orthotope<T, 2>)
    ensures
        made@ == Bounds::spanning(seq![0, 0], seq![w.val(), h.val()]),
{
    let made = Orthotope::sized([w, h]);
    assert(made@.lo =~= seq![0, 0]);
    assert(made@.hi =~= Bounds::spanning(seq![0, 0], seq![w.val(), h.val()]).hi);
    made
}

pub fn volume<T: Element, const N: usize>(p: [T; N]) -> (made: Orthotope<T, N>)
    ensures
        made@ == Bounds::spanning(Seq::new(N as nat, |i: int| 0), vals(p)),
{
    Orthotope::sized(p)
}

/// An array with `value` at every place.
fn filled<T: Element, const N: usize>(like: [T; N], value: T) -> (a: [T; N])
    ensures
        forall|i: int| 0 <= i < N ==> a[i] == value,
{
    let mut a = like;
    let mut i: usize = 0;
    while i < N
        invariant
            i <= N,
            forall|j: int| 0 <= j < i ==> a[j] == value,
        decreases N - i,
    {
        a[i] = value;
        i += 1;
    }
    a
}

impl<T: Element, const N: usize> Orthotope<T, N> {
    #[verifier::type_invariant]
    spec fn well_formed(self) -> bool {
        forall|i: int| 0 <= i < N ==> self.low[i].val() <= self.high[i].val()
    }

    /// Every box has as many sides as its type says.
    pub proof fn lemma_view(self)
        ensures
            self@.lo.len() == N,
            self@.hi.len() == N,
    {
    }

    /// Create a new orthotope. If `high` has components that are smaller
    /// than those of `low`, the corresponding range is clamped to zero.
    pub fn new(low: [T; N], high: [T; N]) -> (made: Orthotope<T, N>)
        ensures
            made@ == Bounds::spanning(vals(low), vals(high)),
            made@.ordered(),
    {
        let mut upper = high;
        let mut i: usize = 0;
        while i < N
            invariant
                i <= N,
                forall|j: int| 0 <= j < i ==> upper[j].val() == greater(low[j].val(), high[j].val()),
                forall|j: int| i <= j < N ==> upper[j] == high[j],
            decreases N - i,
        {
            if high[i].less(low[i]) {
                upper[i] = low[i];
            }
            i += 1;
        }
        let made = Orthotope { low, high: upper };
        assert(made@.hi =~= Bounds::spanning(vals(low), vals(high)).hi);
        made
    }

    /// Faster than `Orthotope::new`: the sides are taken as they are,
    /// and it is for the caller to see that none ends before it starts.
    pub fn new_unsafe(low: [T; N], high: [T; N]) -> (made: Orthotope<T, N>)
        requires
            forall|i: int| 0 <= i < N ==> low[i].val() <= high[i].val(),
        ensures
            made@ == (Bounds { lo: vals(low), hi: vals(high) }),
    {
        Orthotope { low, high }
    }

    pub fn sized(p: [T; N]) -> (made: Orthotope<T, N>)
        ensures
            made@ == Bounds::spanning(Seq::new(N as nat, |i: int| 0), vals(p)),
    {
        let origin = filled(p, T::zero());
        assert(vals(origin) =~= Seq::new(N as nat, |i: int| 0));
        Orthotope::new(origin, p)
    }

    /// The sides of this box, which start no later than they end.
    pub fn sides(&self) -> (ends: ([T; N], [T; N]))
        ensures
            vals(ends.0) == self@.lo,
            vals(ends.1) == self@.hi,
            self@.ordered(),
    {
        proof {
            use_type_invariant(self);
        }
        (self.low, self.high)
    }

    pub fn is_empty(&self) -> (empty: bool)
        ensures
            empty == self@.is_empty(),
    {
        let mut i: usize = 0;
        while i < N
            invariant
                i <= N,
                forall|j: int| 0 <= j < i ==> !(#[trigger] self@.hi[j] <= self@.lo[j]),
            decreases N - i,
        {
            if !self.low[i].less(self.high[i]) {
                assert(self@.hi[i as int] <= self@.lo[i as int]);
                return true;
            }
            i += 1;
        }
        false
    }

    pub fn contains(&self, e: [T; N]) -> (inside: bool)
        ensures
            inside == self@.has(vals(e)),
    {
        let mut i: usize = 0;
        while i < N
            invariant
                i <= N,
                forall|j: int|
                    0 <= j < i ==> self@.lo[j] <= (#[trigger] vals(e)[j]) < self@.hi[j],
            decreases N - i,
        {
            if e[i].less(self.low[i]) || !e[i].less(self.high[i]) {
                assert(!(self@.lo[i as int] <= vals(e)[i as int] < self@.hi[i as int]));
                return false;
            }
            i += 1;
        }
        true
    }

    pub fn contains_other(&self, r: &Self) -> (inside: bool)
        ensures
            inside == self@.encloses(r@),
    {
        let mut i: usize = 0;
        while i < N
            invariant
                i <= N,
                forall|j: int|
                    0 <= j < i ==> self@.lo[j] <= #[trigger] r@.lo[j] && self@.hi[j] >= r@.hi[j],
            decreases N - i,
        {
            if r.low[i].less(self.low[i]) || self.high[i].less(r.high[i]) {
                assert(!(self@.lo[i as int] <= r@.lo[i as int] && self@.hi[i as int]
                    >= r@.hi[i as int]));
                assert(!self@.encloses(r@));
                return false;
            }
            i += 1;
        }
        true
    }

    /// Return the product of the components of the dimension vector of the
    /// orthotope.
    ///
    /// NB. This can overflow easily with large multidimensional orthotopes.
    pub fn volume(&self) -> (product: T)
        requires
            forall|i: int| 0 <= i < N ==> T::holds(#[trigger] self@.side(i)),
            forall|n: int| 0 <= n <= N ==> T::holds(#[trigger] self@.volume_upto(n)),
        ensures
            product.val() == self@.volume(),
    {
        let mut product = T::one();
        let mut i: usize = 0;
        while i < N
            invariant
                i <= N,
                forall|j: int| 0 <= j < N ==> T::holds(#[trigger] self@.side(j)),
                forall|n: int| 0 <= n <= N ==> T::holds(#[trigger] self@.volume_upto(n)),
                product.val() == self@.volume_upto(i as int),
            decreases N - i,
        {
            assert(T::holds(self@.side(i as int)));
            assert(T::holds(self@.volume_upto(i + 1)));
            let side = self.high[i].minus(self.low[i]);
            product = product.times(side);
            i += 1;
        }
        product
    }

    /// Return vector with dimensions of the orthotope.
    pub fn dim(&self) -> (d: [T; N])
        requires
            forall|i: int| 0 <= i < N ==> T::holds(#[trigger] self@.side(i)),
        ensures
            forall|i: int| 0 <= i < N ==> (#[trigger] d[i]).val() == self@.side(i),
    {
        let mut ret = self.high;
        let mut i: usize = 0;
        while i < N
            invariant
                i <= N,
                forall|j: int| 0 <= j < N ==> T::holds(#[trigger] self@.side(j)),
                forall|j: int| 0 <= j < i ==> (#[trigger] ret[j]).val() == self@.side(j),
                forall|j: int| i <= j < N ==> ret[j] == self.high[j],
            decreases N - i,
        {
            assert(T::holds(self@.side(i as int)));
            ret[i] = ret[i].minus(self.low[i]);
            i += 1;
        }
        ret
    }

    pub fn min(&self) -> (p: [T; N])
        ensures
            vals(p) == self@.lo,
    {
        self.low
    }

    pub fn max(&self) -> (p: [T; N])
        ensures
            vals(p) == self@.hi,
    {
        self.high
    }

    pub fn width(&self) -> (w: T)
        requires
            N >= 1,
            T::holds(self@.side(0)),
        ensures
            w.val() == self@.side(0),
    {
        self.high[0].minus(self.low[0])
    }

    pub fn height(&self) -> (h: T)
        requires
            N >= 2,
            T::holds(self@.side(1)),
        ensures
            h.val() == self@.side(1),
    {
        self.high[1].minus(self.low[1])
    }

    pub fn depth(&self) -> (d: T)
        requires
            N >= 3,
            T::holds(self@.side(2)),
        ensures
            d.val() == self@.side(2),
    {
        self.high[2].minus(self.low[2])
    }

    /// The box with every side moved outwards by `amount` at both ends.
    pub fn inflate(&self, amount: [T; N]) -> (grown: Self)
        requires
            forall|i: int|
                0 <= i < N ==> T::holds(#[trigger] self@.lo[i] - amount[i].val()) && T::holds(
                    self@.hi[i] + amount[i].val(),
                ),
        ensures
            grown@ == Bounds::spanning(
                Seq::new(N as nat, |i: int| self@.lo[i] - amount[i].val()),
                Seq::new(N as nat, |i: int| self@.hi[i] + amount[i].val()),
            ),
    {
        let mut low = self.low;
        let mut high = self.high;
        let mut i: usize = 0;
        while i < N
            invariant
                i <= N,
                forall|j: int|
                    0 <= j < N ==> T::holds(#[trigger] self@.lo[j] - amount[j].val()) && T::holds(
                        self@.hi[j] + amount[j].val(),
                    ),
                forall|j: int| 0 <= j < i ==> low[j].val() == self@.lo[j] - amount[j].val(),
                forall|j: int| 0 <= j < i ==> high[j].val() == self@.hi[j] + amount[j].val(),
                forall|j: int| i <= j < N ==> low[j] == self.low[j] && high[j] == self.high[j],
            decreases N - i,
        {
            assert(T::holds(self@.lo[i as int] - amount[i as int].val()));
            low[i] = low[i].minus(amount[i]);
            high[i] = high[i].plus(amount[i]);
            i += 1;
        }
        assert(vals(low) =~= Seq::new(N as nat, |i: int| self@.lo[i] - amount[i].val()));
        assert(vals(high) =~= Seq::new(N as nat, |i: int| self@.hi[i] + amount[i].val()));
        Orthotope::new(low, high)
    }

    /// The point halfway along every side, rounded down.
    pub fn center(&self) -> (c: [T; N])
        requires
            T::holds(2),
            forall|i: int| 0 <= i < N ==> T::holds(#[trigger] self@.side(i)),
        ensures
            vals(c) == self@.center(),
    {
        proof {
            use_type_invariant(self);
        }
        let two = T::one().plus(T::one());
        let dim = self.dim();
        let mut ret = self.low;
        let mut i: usize = 0;
        while i < N
            invariant
                i <= N,
                two.val() == 2,
                forall|j: int| 0 <= j < N ==> self@.lo[j] <= #[trigger] self@.hi[j],
                forall|j: int| 0 <= j < N ==> (#[trigger] dim[j]).val() == self@.side(j),
                forall|j: int| 0 <= j < i ==> ret[j].val() == self@.lo[j] + self@.side(j) / 2,
                forall|j: int| i <= j < N ==> ret[j] == self.low[j],
            decreases N - i,
        {
            proof {
                let side = self@.side(i as int);
                assert(self@.lo[i as int] <= self@.hi[i as int]);
                assert(dim[i as int].val() == side);
                T::lemma_values(dim[i as int]);
                lemma_zero::<T>();
                lemma_between::<T>(0, side / 2, side);
                T::lemma_values(self.low[i as int]);
                T::lemma_values(self.high[i as int]);
                lemma_between::<T>(self@.lo[i as int], self@.lo[i as int] + side / 2, self@.hi[i as int]);
            }
            ret[i] = ret[i].plus(dim[i].over(two));
            i += 1;
        }
        assert(vals(ret) =~= self@.center());
        ret
    }

    /// Clamp each coordinate of input point to be within the bounds.
    pub fn clamp(&self, e: [T; N]) -> (p: [T; N])
        requires
            forall|i: int|
                0 <= i < N && #[trigger] e[i].val() >= self@.hi[i] ==> T::holds(self@.hi[i] - 1),
        ensures
            vals(p) == Seq::new(N as nat, |i: int| clamped(self@.lo[i], self@.hi[i], e[i].val())),
    {
        let mut p = e;
        let mut i: usize = 0;
        while i < N
            invariant
                i <= N,
                forall|j: int|
                    0 <= j < N && #[trigger] e[j].val() >= self@.hi[j] ==> T::holds(
                        self@.hi[j] - 1,
                    ),
                forall|j: int|
                    0 <= j < i ==> p[j].val() == clamped(self@.lo[j], self@.hi[j], e[j].val()),
                forall|j: int| i <= j < N ==> p[j] == e[j],
            decreases N - i,
        {
            if p[i].less(self.low[i]) {
                p[i] = self.low[i];
            } else if !p[i].less(self.high[i]) {
                assert(e[i as int].val() >= self@.hi[i as int]);
                p[i] = self.high[i].minus(T::one());
            }
            i += 1;
        }
        assert(vals(p) =~= Seq::new(
            N as nat,
            |i: int| clamped(self@.lo[i], self@.hi[i], e[i].val()),
        ));
        p
    }

    /// Return the orthotope of the intersection of `self` and `rhs`.
    pub fn intersection(&self, rhs: &Self) -> (common: Self)
        ensures
            common@ == Bounds::spanning(
                Seq::new(N as nat, |i: int| greater(self@.lo[i], rhs@.lo[i])),
                Seq::new(N as nat, |i: int| lesser(self@.hi[i], rhs@.hi[i])),
            ),
    {
        let mut low = self.low;
        let mut high = self.high;
        let mut i: usize = 0;
        while i < N
            invariant
                i <= N,
                forall|j: int| 0 <= j < i ==> low[j].val() == greater(self@.lo[j], rhs@.lo[j]),
                forall|j: int| 0 <= j < i ==> high[j].val() == lesser(self@.hi[j], rhs@.hi[j]),
                forall|j: int| i <= j < N ==> low[j] == self.low[j] && high[j] == self.high[j],
            decreases N - i,
        {
            if low[i].less(rhs.low[i]) {
                low[i] = rhs.low[i];
            }
            if rhs.high[i].less(high[i]) {
                high[i] = rhs.high[i];
            }
            i += 1;
        }
        assert(vals(low) =~= Seq::new(N as nat, |i: int| greater(self@.lo[i], rhs@.lo[i])));
        assert(vals(high) =~= Seq::new(N as nat, |i: int| lesser(self@.hi[i], rhs@.hi[i])));
        Orthotope::new(low, high)
    }

    /// Return the smallest orthotope that contains `self` and `rhs`.
    pub fn union(&self, rhs: &Self) -> (both: Self)
        ensures
            both@ == (Bounds {
                lo: Seq::new(N as nat, |i: int| lesser(self@.lo[i], rhs@.lo[i])),
                hi: Seq::new(N as nat, |i: int| greater(self@.hi[i], rhs@.hi[i])),
            }),
    {
        proof {
            use_type_invariant(self);
            use_type_invariant(rhs);
        }
        let mut low = self.low;
        let mut high = self.high;
        let mut i: usize = 0;
        while i < N
            invariant
                i <= N,
                forall|j: int| 0 <= j < i ==> low[j].val() == lesser(self@.lo[j], rhs@.lo[j]),
                forall|j: int| 0 <= j < i ==> high[j].val() == greater(self@.hi[j], rhs@.hi[j]),
                forall|j: int| i <= j < N ==> low[j] == self.low[j] && high[j] == self.high[j],
            decreases N - i,
        {
            if rhs.low[i].less(low[i]) {
                low[i] = rhs.low[i];
            }
            if high[i].less(rhs.high[i]) {
                high[i] = rhs.high[i];
            }
            i += 1;
        }
        let both = Orthotope::new(low, high);
        assert(both@.lo =~= Seq::new(N as nat, |i: int| lesser(self@.lo[i], rhs@.lo[i])));
        assert forall|i: int| 0 <= i < N implies #[trigger] both@.hi[i] == greater(
            self@.hi[i],
            rhs@.hi[i],
        ) by {
            assert(self.low[i].val() <= self.high[i].val());
            assert(rhs.low[i].val() <= rhs.high[i].val());
        }
        assert(both@.hi =~= Seq::new(N as nat, |i: int| greater(self@.hi[i], rhs@.hi[i])));
        both
    }

    /// The first of the axes along which the box is longest.
    pub fn longest_axis(&self) -> (axis: usize)
        requires
            forall|i: int| 0 <= i < N ==> T::holds(#[trigger] self@.side(i)),
        ensures
            N == 0 ==> axis == 0,
            N > 0 ==> axis < N,
            forall|i: int| 0 <= i < N ==> #[trigger] self@.side(i) <= self@.side(axis as int),
            forall|i: int| 0 <= i < axis ==> #[trigger] self@.side(i) < self@.side(axis as int),
    {
        let d = self.dim();
        let mut ret: usize = 0;
        let mut i: usize = 1;
        while i < N
            invariant
                1 <= i,
                i <= N || N == 0,
                ret < i,
                N == 0 ==> ret == 0,
                forall|j: int| 0 <= j < N ==> (#[trigger] d[j]).val() == self@.side(j),
                forall|j: int| 0 <= j < i && j < N ==> #[trigger] self@.side(j) <= self@.side(ret as int),
                forall|j: int| 0 <= j < ret ==> #[trigger] self@.side(j) < self@.side(ret as int),
            decreases N - i,
        {
            assert(d[i as int].val() == self@.side(i as int));
            assert(d[ret as int].val() == self@.side(ret as int));
            if d[ret].less(d[i]) {
                ret = i;
            }
            i += 1;
        }
        ret
    }

    /// The two halves of the box on either side of the middle of one axis.
    pub fn split_along(&self, axis: usize) -> (halves: [Self; 2])
        requires
            axis < N,
            T::holds(2),
            T::holds(self@.side(axis as int)),
        ensures
            halves[0]@ == self@.lower_half(axis as int),
            halves[1]@ == self@.upper_half(axis as int),
    {
        proof {
            use_type_invariant(self);
        }
        let mut upper_start = self.low;
        let mut lower_end = self.high;
        let two = T::one().plus(T::one());
        let ghost side = self@.side(axis as int);
        let ghost mid = self@.lo[axis as int] + side / 2;
        proof {
            assert(self.low[axis as int].val() <= self.high[axis as int].val());
            T::lemma_values(self.low[axis as int]);
            T::lemma_values(self.high[axis as int]);
            lemma_zero::<T>();
            lemma_between::<T>(0, side / 2, side);
            lemma_between::<T>(self@.lo[axis as int], mid, self@.hi[axis as int]);
        }
        let midpoint = self.low[axis].plus(self.high[axis].minus(self.low[axis]).over(two));
        upper_start[axis] = midpoint;
        lower_end[axis] = midpoint;
        let low = Orthotope::new(self.low, lower_end);
        let high = Orthotope::new(upper_start, self.high);
        proof {
            assert forall|i: int| 0 <= i < N implies self.low[i].val() <= #[trigger] lower_end[i].val()
                && upper_start[i].val() <= self.high[i].val() by {
                assert(self.low[i].val() <= self.high[i].val());
            }
            assert(low@.hi =~= self@.hi.update(axis as int, mid));
            assert(high@.lo =~= self@.lo.update(axis as int, mid));
            assert(high@.hi =~= self@.hi);
        }
        [low, high]
    }
}

/// The least coordinate along `axis` of the first `n` of `points`.
pub open spec fn least_of<T: Element, const N: usize>(
    points: Seq<[T; N]>,
    axis: int,
    n: int,
) -> int
    decreases n,
{
    if n <= 1 {
        points[0][axis].val()
    } else {
        lesser(least_of(points, axis, n - 1), points[n - 1][axis].val())
    }
}

/// The greatest coordinate along `axis` of the first `n` of `points`.
pub open spec fn greatest_of<T: Element, const N: usize>(
    points: Seq<[T; N]>,
    axis: int,
    n: int,
) -> int
    decreases n,
{
    if n <= 1 {
        points[0][axis].val()
    } else {
        greater(greatest_of(points, axis, n - 1), points[n - 1][axis].val())
    }
}

impl Bounds {
    /// The place of the point among the points of the box, counted along
    /// the first `n` axes, the first axis running fastest. A point outside
    /// the box counts as the point inside that it is a whole number of
    /// sides away from.
    pub open spec fn index_upto(self, p: Seq<int>, n: int) -> int
        decreases n,
    {
        if n <= 0 {
            0
        } else {
            self.index_upto(p, n - 1) + ((p[n - 1] - self.lo[n - 1]) % self.side(n - 1))
                * self.volume_upto(n - 1)
        }
    }

    /// The place of the point among the points of the box.
    pub open spec fn index_of(self, p: Seq<int>) -> int {
        self.index_upto(p, self.axes())
    }

    /// The point of the box at place `index`.
    pub open spec fn point_at(self, index: int) -> Seq<int> {
        Seq::new(
            self.lo.len(),
            |i: int| self.lo[i] + (index / self.volume_upto(i)) % self.side(i),
        )
    }

    /// The point that lies in the box as many places from its start as
    /// `p`, along every axis, lies from the start of a box of the lattice
    /// of which this box is a cell.
    pub open spec fn wrapped(self, p: Seq<int>) -> Seq<int> {
        Seq::new(self.lo.len(), |i: int| self.lo[i] + (p[i] - self.lo[i]) % self.side(i))
    }

    /// Where the cell that holds `p` starts along axis `i`, in the lattice
    /// of which this box is a cell.
    pub open spec fn cell_start(self, p: Seq<int>, i: int) -> int {
        self.lo[i] + self.side(i) * ((p[i] - self.lo[i]) / self.side(i))
    }

    /// Whether every side has a length.
    pub open spec fn solid(self) -> bool {
        forall|i: int| 0 <= i < self.axes() ==> #[trigger] self.side(i) > 0
    }

    /// In a box whose sides have lengths, the volume along any number of
    /// axes is at least one.
    pub proof fn lemma_volume_positive(self, n: int)
        requires
            self.solid(),
            0 <= n <= self.axes(),
        ensures
            1 <= self.volume_upto(n),
        decreases n,
    {
        if n > 0 {
            self.lemma_volume_positive(n - 1);
            let before = self.volume_upto(n - 1);
            let side = self.side(n - 1);
            assert(side > 0);
            assert(before * side >= 1) by (nonlinear_arith)
                requires
                    before >= 1,
                    side >= 1,
            ;
        }
    }

    /// In a box whose sides have lengths, the volume along more axes is
    /// no less, and no side is longer than the volume.
    pub proof fn lemma_volume_grows(self, k: int, n: int)
        requires
            self.solid(),
            0 <= k <= n <= self.axes(),
        ensures
            1 <= self.volume_upto(k) <= self.volume_upto(n),
            k < n ==> self.side(k) <= self.volume_upto(n),
        decreases n,
    {
        self.lemma_volume_positive(k);
        if k < n {
            self.lemma_volume_grows(k, n - 1);
            let before = self.volume_upto(n - 1);
            let side = self.side(n - 1);
            assert(side > 0);
            assert(before * side >= before && before * side >= side) by (nonlinear_arith)
                requires
                    before >= 1,
                    side >= 1,
            ;
        }
    }

    /// A place along the first `n` axes is less than the volume along
    /// them.
    pub proof fn lemma_index_in_volume(self, p: Seq<int>, n: int)
        requires
            self.solid(),
            0 <= n <= self.axes(),
        ensures
            0 <= self.index_upto(p, n) < self.volume_upto(n),
        decreases n,
    {
        if n > 0 {
            self.lemma_index_in_volume(p, n - 1);
            self.lemma_volume_grows(0, n - 1);
            let side = self.side(n - 1);
            let before = self.volume_upto(n - 1);
            let digit = (p[n - 1] - self.lo[n - 1]) % side;
            assert(side > 0);
            assert(0 <= digit < side);
            assert(0 <= digit * before <= (side - 1) * before) by (nonlinear_arith)
                requires
                    0 <= digit <= side - 1,
                    before >= 1,
            ;
            assert((side - 1) * before == before * side - before) by (nonlinear_arith);
        }
    }
}

impl<T: Element, const N: usize> Default for Orthotope<T, N> {
    fn default() -> (made: Self)
        ensures
            made@ == (Bounds {
                lo: Seq::new(N as nat, |i: int| 0),
                hi: Seq::new(N as nat, |i: int| 0),
            }),
    {
        let origin: [T; N] = vstd::array::array_fill_for_copy_types(T::zero());
        let made = Orthotope { low: origin, high: origin };
        assert(made@.lo =~= Seq::new(N as nat, |i: int| 0));
        assert(made@.hi =~= Seq::new(N as nat, |i: int| 0));
        made
    }
}

impl<T: Element, const N: usize> Orthotope<T, N> {
    /// Builds an orthotope from the elementwise minimum and maximum of the
    /// points in the input point cloud. Without points it is the empty box
    /// at the origin.
    ///
    /// NB. The resulting orthotope does not contain the outer rim of the
    /// points since the component ranges are exclusive on the outer end.
    pub fn from_points(points: &[[T; N]]) -> (made: Orthotope<T, N>)
        ensures
            made@.lo.len() == N,
            made@.hi.len() == N,
            forall|i: int|
                0 <= i < N ==> #[trigger] made@.lo[i] == (if points@.len() == 0 {
                    0
                } else {
                    least_of(points@, i, points@.len() as int)
                }),
            forall|i: int|
                0 <= i < N ==> #[trigger] made@.hi[i] == (if points@.len() == 0 {
                    0
                } else {
                    greatest_of(points@, i, points@.len() as int)
                }),
    {
        if points.len() == 0 {
            return Orthotope::default();
        }
        let mut low = points[0];
        let mut high = points[0];
        let mut k: usize = 1;
        while k < points.len()
            invariant
                1 <= k <= points@.len(),
                forall|i: int| 0 <= i < N ==> low[i].val() == least_of(points@, i, k as int),
                forall|i: int| 0 <= i < N ==> high[i].val() == greatest_of(points@, i, k as int),
                forall|i: int| 0 <= i < N ==> low[i].val() <= high[i].val(),
            decreases points@.len() - k,
        {
            let p = points[k];
            let mut i: usize = 0;
            while i < N
                invariant
                    i <= N,
                    1 <= k < points@.len(),
                    p == points@[k as int],
                    forall|j: int| 0 <= j < i ==> low[j].val() == least_of(points@, j, k + 1),
                    forall|j: int| 0 <= j < i ==> high[j].val() == greatest_of(points@, j, k + 1),
                    forall|j: int| i <= j < N ==> low[j].val() == least_of(points@, j, k as int),
                    forall|j: int| i <= j < N ==> high[j].val() == greatest_of(points@, j, k as int),
                    forall|j: int| 0 <= j < N ==> low[j].val() <= high[j].val(),
                decreases N - i,
            {
                assert(least_of(points@, i as int, k + 1) == lesser(
                    least_of(points@, i as int, k as int),
                    points@[k as int][i as int].val(),
                ));
                assert(greatest_of(points@, i as int, k + 1) == greater(
                    greatest_of(points@, i as int, k as int),
                    points@[k as int][i as int].val(),
                ));
                if p[i].less(low[i]) {
                    low[i] = p[i];
                }
                if high[i].less(p[i]) {
                    high[i] = p[i];
                }
                i += 1;
            }
            k += 1;
        }
        Orthotope { low, high }
    }

    /// Builds an orthotope guaranteed to contain every point in the point
    /// cloud, the smallest such orthotope. Without points it is the empty
    /// box at the origin.
    pub fn from_points_inclusive(points: &[[T; N]]) -> (made: Orthotope<T, N>)
        requires
            forall|k: int, i: int|
                0 <= k < points@.len() && 0 <= i < N ==> T::holds(
                    #[trigger] points@[k][i].val() + 1,
                ),
        ensures
            made@.lo.len() == N,
            made@.hi.len() == N,
            forall|i: int|
                0 <= i < N ==> #[trigger] made@.lo[i] == (if points@.len() == 0 {
                    0
                } else {
                    least_of(points@, i, points@.len() as int)
                }),
            forall|i: int|
                0 <= i < N ==> #[trigger] made@.hi[i] == (if points@.len() == 0 {
                    0
                } else {
                    greatest_of(points@, i, points@.len() as int) + 1
                }),
    {
        if points.len() == 0 {
            return Orthotope::default();
        }
        let low = points[0];
        let mut high = low;
        let mut i: usize = 0;
        while i < N
            invariant
                i <= N,
                points@.len() > 0,
                low == points@[0],
                forall|k: int, j: int|
                    0 <= k < points@.len() && 0 <= j < N ==> T::holds(
                        #[trigger] points@[k][j].val() + 1,
                    ),
                forall|j: int| 0 <= j < i ==> high[j].val() == low[j].val() + 1,
                forall|j: int| i <= j < N ==> high[j] == low[j],
            decreases N - i,
        {
            assert(T::holds(points@[0][i as int].val() + 1));
            high[i] = high[i].plus(T::one());
            i += 1;
        }
        let mut low = low;
        let mut k: usize = 1;
        while k < points.len()
            invariant
                1 <= k <= points@.len(),
                forall|n: int, j: int|
                    0 <= n < points@.len() && 0 <= j < N ==> T::holds(
                        #[trigger] points@[n][j].val() + 1,
                    ),
                forall|i: int| 0 <= i < N ==> low[i].val() == least_of(points@, i, k as int),
                forall|i: int| 0 <= i < N ==> high[i].val() == greatest_of(points@, i, k as int) + 1,
                forall|i: int| 0 <= i < N ==> low[i].val() <= high[i].val(),
            decreases points@.len() - k,
        {
            let p = points[k];
            let mut i: usize = 0;
            while i < N
                invariant
                    i <= N,
                    1 <= k < points@.len(),
                    p == points@[k as int],
                    forall|n: int, j: int|
                        0 <= n < points@.len() && 0 <= j < N ==> T::holds(
                            #[trigger] points@[n][j].val() + 1,
                        ),
                    forall|j: int| 0 <= j < i ==> low[j].val() == least_of(points@, j, k + 1),
                    forall|j: int|
                        0 <= j < i ==> high[j].val() == greatest_of(points@, j, k + 1) + 1,
                    forall|j: int| i <= j < N ==> low[j].val() == least_of(points@, j, k as int),
                    forall|j: int|
                        i <= j < N ==> high[j].val() == greatest_of(points@, j, k as int) + 1,
                    forall|j: int| 0 <= j < N ==> low[j].val() <= high[j].val(),
                decreases N - i,
            {
                assert(T::holds(points@[k as int][i as int].val() + 1));
                assert(least_of(points@, i as int, k + 1) == lesser(
                    least_of(points@, i as int, k as int),
                    points@[k as int][i as int].val(),
                ));
                assert(greatest_of(points@, i as int, k + 1) == greater(
                    greatest_of(points@, i as int, k as int),
                    points@[k as int][i as int].val(),
                ));
                if p[i].less(low[i]) {
                    low[i] = p[i];
                }
                let above = p[i].plus(T::one());
                if high[i].less(above) {
                    high[i] = above;
                }
                i += 1;
            }
            k += 1;
        }
        Orthotope { low, high }
    }

    /// Projects a point into the inside of the orthotope using modular
    /// arithmetic on each axis. A point leaving across one end will return on
    /// the other end.
    pub fn mod_proj(&self, p: [T; N]) -> (inside: [T; N])
        requires
            self@.solid(),
            forall|i: int|
                0 <= i < N ==> T::holds(#[trigger] self@.side(i)) && T::holds(
                    p[i].val() - self@.lo[i],
                ) && T::holds((p[i].val() - self@.lo[i]) / self@.side(i)),
        ensures
            vals(inside) == self@.wrapped(vals(p)),
            self@.has(vals(inside)),
    {
        let mut ret = p;
        let mut i: usize = 0;
        while i < N
            invariant
                i <= N,
                self@.solid(),
                forall|j: int|
                    0 <= j < N ==> T::holds(#[trigger] self@.side(j)) && T::holds(
                        p[j].val() - self@.lo[j],
                    ) && T::holds((p[j].val() - self@.lo[j]) / self@.side(j)),
                forall|j: int|
                    0 <= j < i ==> ret[j].val() == self@.lo[j] + (p[j].val() - self@.lo[j])
                        % self@.side(j),
                forall|j: int| i <= j < N ==> ret[j] == p[j],
            decreases N - i,
        {
            proof {
                let side = self@.side(i as int);
                let rest = (p[i as int].val() - self@.lo[i as int]) % side;
                assert(side > 0);
                assert(T::holds(side));
                T::lemma_values(self.low[i as int]);
                T::lemma_values(self.high[i as int]);
                lemma_zero::<T>();
                lemma_between::<T>(0, rest, side);
                lemma_between::<T>(self@.lo[i as int], self@.lo[i as int] + rest, self@.hi[i as int]);
            }
            let from_start = ret[i].minus(self.low[i]);
            let rest = from_start.rem_euclid(self.high[i].minus(self.low[i]));
            ret[i] = rest.plus(self.low[i]);
            i += 1;
        }
        assert(vals(ret) =~= self@.wrapped(vals(p)));
        assert forall|j: int| 0 <= j < N implies self@.lo[j] <= #[trigger] vals(ret)[j]
            < self@.hi[j] by {
            assert(self@.side(j) > 0);
        }
        ret
    }

    /// The place of a point among the points of the box, the first axis
    /// running fastest.
    pub fn idx(&self, p: [T; N]) -> (index: usize)
        requires
            self@.solid(),
            self@.volume() <= usize::MAX,
            forall|i: int|
                0 <= i < N ==> T::holds(#[trigger] self@.side(i)) && T::holds(
                    p[i].val() - self@.lo[i],
                ) && T::holds((p[i].val() - self@.lo[i]) / self@.side(i)),
        ensures
            index == self@.index_of(vals(p)),
            index < self@.volume(),
    {
        let mut ret: usize = 0;
        let mut scale: usize = 1;
        let mut i: usize = 0;
        while i < N
            invariant
                i <= N,
                self@.solid(),
                self@.volume() <= usize::MAX,
                self@.axes() == N,
                forall|j: int|
                    0 <= j < N ==> T::holds(#[trigger] self@.side(j)) && T::holds(
                        p[j].val() - self@.lo[j],
                    ) && T::holds((p[j].val() - self@.lo[j]) / self@.side(j)),
                scale == self@.volume_upto(i as int),
                ret == self@.index_upto(vals(p), i as int),
            decreases N - i,
        {
            let ghost side = self@.side(i as int);
            let ghost digit = (p[i as int].val() - self@.lo[i as int]) % side;
            proof {
                assert(side > 0);
                assert(T::holds(side));
                T::lemma_values(self.low[i as int]);
                lemma_zero::<T>();
                lemma_between::<T>(0, digit, side);
                self@.lemma_volume_grows(i as int, N as int);
                self@.lemma_volume_grows(i + 1, N as int);
                self@.lemma_index_in_volume(vals(p), i + 1);
                self@.lemma_index_in_volume(vals(p), i as int);
                assert(0 <= digit * self@.volume_upto(i as int)) by (nonlinear_arith)
                    requires
                        digit >= 0,
                        self@.volume_upto(i as int) >= 1,
                ;
            }
            let size = self.high[i].minus(self.low[i]);
            let span = match size.to_usize() {
                Some(span) => span,
                None => unreached(),
            };
            let x = match p[i].minus(self.low[i]).rem_euclid(size).to_usize() {
                Some(x) => x,
                None => unreached(),
            };
            assert(vals(p)[i as int] == p[i as int].val());
            ret += x * scale;
            scale *= span;
            i += 1;
        }
        proof {
            self@.lemma_index_in_volume(vals(p), N as int);
        }
        ret
    }

    /// Return the cell containing the given point in the lattice that has self as
    /// the unit cell.
    pub fn lattice_cell_for(&self, p: [T; N]) -> (cell: Self)
        requires
            self@.solid(),
            forall|i: int|
                0 <= i < N ==> {
                    &&& T::holds(#[trigger] self@.side(i))
                    &&& T::holds(p[i].val() - self@.lo[i])
                    &&& T::holds((p[i].val() - self@.lo[i]) / self@.side(i))
                    &&& T::holds(self@.side(i) * ((p[i].val() - self@.lo[i]) / self@.side(i)))
                    &&& T::holds(self@.cell_start(vals(p), i))
                    &&& T::holds(self@.cell_start(vals(p), i) + self@.side(i))
                },
        ensures
            cell@ == (Bounds {
                lo: Seq::new(N as nat, |i: int| self@.cell_start(vals(p), i)),
                hi: Seq::new(N as nat, |i: int| self@.cell_start(vals(p), i) + self@.side(i)),
            }),
    {
        let mut start = p;
        let mut end = p;
        let mut i: usize = 0;
        while i < N
            invariant
                i <= N,
                self@.solid(),
                forall|j: int|
                    0 <= j < N ==> {
                        &&& T::holds(#[trigger] self@.side(j))
                        &&& T::holds(p[j].val() - self@.lo[j])
                        &&& T::holds((p[j].val() - self@.lo[j]) / self@.side(j))
                        &&& T::holds(self@.side(j) * ((p[j].val() - self@.lo[j]) / self@.side(j)))
                        &&& T::holds(self@.cell_start(vals(p), j))
                        &&& T::holds(self@.cell_start(vals(p), j) + self@.side(j))
                    },
                forall|j: int| 0 <= j < i ==> start[j].val() == self@.cell_start(vals(p), j),
                forall|j: int|
                    0 <= j < i ==> end[j].val() == self@.cell_start(vals(p), j) + self@.side(j),
                forall|j: int| i <= j < N ==> start[j] == p[j],
            decreases N - i,
        {
            assert(T::holds(self@.side(i as int)));
            assert(self@.side(i as int) > 0);
            assert(vals(p)[i as int] == p[i as int].val());
            let size = self.high[i].minus(self.low[i]);
            let cells = start[i].minus(self.low[i]).div_euclid(size);
            start[i] = self.low[i].plus(size.times(cells));
            end[i] = start[i].plus(size);
            i += 1;
        }
        let cell = Orthotope::new(start, end);
        proof {
            assert(cell@.lo =~= Seq::new(N as nat, |i: int| self@.cell_start(vals(p), i)));
            assert forall|i: int| 0 <= i < N implies #[trigger] cell@.hi[i] == self@.cell_start(
                vals(p),
                i,
            ) + self@.side(i) by {
                assert(self@.side(i) > 0);
            }
            assert(cell@.hi =~= Seq::new(
                N as nat,
                |i: int| self@.cell_start(vals(p), i) + self@.side(i),
            ));
        }
        cell
    }

    /// The point of the box at a place, the first axis running fastest.
    /// Places beyond the last point start over at the first.
    pub fn get(&self, n: usize) -> (point: [T; N])
        requires
            self@.solid(),
            self@.volume() <= usize::MAX,
            forall|i: int| 0 <= i < N ==> T::holds(#[trigger] self@.side(i)),
        ensures
            vals(point) == self@.point_at(n as int),
            self@.has(vals(point)),
    {
        let mut e = self.low;
        let mut scale: usize = 1;
        let mut i: usize = 0;
        while i < N
            invariant
                i <= N,
                self@.solid(),
                self@.volume() <= usize::MAX,
                self@.axes() == N,
                forall|j: int| 0 <= j < N ==> T::holds(#[trigger] self@.side(j)),
                scale == self@.volume_upto(i as int),
                forall|j: int|
                    0 <= j < i ==> e[j].val() == self@.lo[j] + (n as int / self@.volume_upto(j))
                        % self@.side(j),
                forall|j: int| i <= j < N ==> e[j] == self.low[j],
            decreases N - i,
        {
            let ghost side = self@.side(i as int);
            let ghost digit = (n as int / self@.volume_upto(i as int)) % side;
            proof {
                assert(side > 0);
                assert(T::holds(side));
                T::lemma_values(self.low[i as int]);
                T::lemma_values(self.high[i as int]);
                lemma_zero::<T>();
                lemma_between::<T>(0, digit, side);
                lemma_between::<T>(self@.lo[i as int], self@.lo[i as int] + digit, self@.hi[i as int]);
                self@.lemma_volume_grows(i as int, N as int);
                self@.lemma_volume_grows(i + 1, N as int);
            }
            let span = match self.high[i].minus(self.low[i]).to_usize() {
                Some(span) => span,
                None => unreached(),
            };
            let v = (n / scale) % span;
            let x = match T::from_usize(v) {
                Some(x) => x,
                None => unreached(),
            };
            e[i] = self.low[i].plus(x);
            scale *= span;
            i += 1;
        }
        assert(vals(e) =~= self@.point_at(n as int));
        assert forall|j: int| 0 <= j < N implies self@.lo[j] <= #[trigger] vals(e)[j]
            < self@.hi[j] by {
            assert(self@.side(j) > 0);
        }
        e
    }
}

/// The three places along a side where quarters meet: its start, its
/// middle and its end.
pub open spec fn cuts(b: Bounds, axis: int) -> Seq<int> {
    seq![b.lo[axis], b.center()[axis], b.hi[axis]]
}

impl<T: Element> Orthotope<T, 2> {
    /// Split a rectangle into four quarters.
    pub fn partition(&self) -> (parts: [Self; 4])
        requires
            T::holds(2),
            forall|i: int| 0 <= i < 2 ==> T::holds(#[trigger] self@.side(i)),
        ensures
            forall|i: int|
                0 <= i < 4 ==> (#[trigger] parts[i])@ == (Bounds {
                    lo: seq![cuts(self@, 0)[i % 2], cuts(self@, 1)[i / 2]],
                    hi: seq![cuts(self@, 0)[i % 2 + 1], cuts(self@, 1)[i / 2 + 1]],
                }),
    {
        proof {
            use_type_invariant(self);
        }
        let center = self.center();
        let xp = [self.low[0], center[0], self.high[0]];
        let yp = [self.low[1], center[1], self.high[1]];
        proof {
            assert(self.low[0].val() <= self.high[0].val());
            assert(self.low[1].val() <= self.high[1].val());
            assert(vals(center)[0] == self@.center()[0]);
            assert(vals(center)[1] == self@.center()[1]);
        }
        let a = Orthotope::new([xp[0], yp[0]], [xp[1], yp[1]]);
        let b = Orthotope::new([xp[1], yp[0]], [xp[2], yp[1]]);
        let c = Orthotope::new([xp[0], yp[1]], [xp[1], yp[2]]);
        let d = Orthotope::new([xp[1], yp[1]], [xp[2], yp[2]]);
        proof {
            assert(a@.lo =~= seq![cuts(self@, 0)[0], cuts(self@, 1)[0]]);
            assert(a@.hi =~= seq![cuts(self@, 0)[1], cuts(self@, 1)[1]]);
            assert(b@.lo =~= seq![cuts(self@, 0)[1], cuts(self@, 1)[0]]);
            assert(b@.hi =~= seq![cuts(self@, 0)[2], cuts(self@, 1)[1]]);
            assert(c@.lo =~= seq![cuts(self@, 0)[0], cuts(self@, 1)[1]]);
            assert(c@.hi =~= seq![cuts(self@, 0)[1], cuts(self@, 1)[2]]);
            assert(d@.lo =~= seq![cuts(self@, 0)[1], cuts(self@, 1)[1]]);
            assert(d@.hi =~= seq![cuts(self@, 0)[2], cuts(self@, 1)[2]]);
        }
        [a, b, c, d]
    }
}

impl<T: Element> Orthotope<T, 3> {
    /// Split a cube into eight octants.
    pub fn partition(&self) -> (parts: [Self; 8])
        requires
            T::holds(2),
            forall|i: int| 0 <= i < 3 ==> T::holds(#[trigger] self@.side(i)),
        ensures
            forall|i: int|
                0 <= i < 8 ==> (#[trigger] parts[i])@ == (Bounds {
                    lo: seq![
                        cuts(self@, 0)[i % 2],
                        cuts(self@, 1)[(i / 2) % 2],
                        cuts(self@, 2)[i / 4],
                    ],
                    hi: seq![
                        cuts(self@, 0)[i % 2 + 1],
                        cuts(self@, 1)[(i / 2) % 2 + 1],
                        cuts(self@, 2)[i / 4 + 1],
                    ],
                }),
    {
        proof {
            use_type_invariant(self);
        }
        let center = self.center();
        let xp = [self.low[0], center[0], self.high[0]];
        let yp = [self.low[1], center[1], self.high[1]];
        let zp = [self.low[2], center[2], self.high[2]];
        proof {
            assert(self.low[0].val() <= self.high[0].val());
            assert(self.low[1].val() <= self.high[1].val());
            assert(self.low[2].val() <= self.high[2].val());
            assert(vals(center)[0] == self@.center()[0]);
            assert(vals(center)[1] == self@.center()[1]);
            assert(vals(center)[2] == self@.center()[2]);
        }
        let a = Orthotope::new([xp[0], yp[0], zp[0]], [xp[1], yp[1], zp[1]]);
        let b = Orthotope::new([xp[1], yp[0], zp[0]], [xp[2], yp[1], zp[1]]);
        let c = Orthotope::new([xp[0], yp[1], zp[0]], [xp[1], yp[2], zp[1]]);
        let d = Orthotope::new([xp[1], yp[1], zp[0]], [xp[2], yp[2], zp[1]]);
        let e = Orthotope::new([xp[0], yp[0], zp[1]], [xp[1], yp[1], zp[2]]);
        let f = Orthotope::new([xp[1], yp[0], zp[1]], [xp[2], yp[1], zp[2]]);
        let g = Orthotope::new([xp[0], yp[1], zp[1]], [xp[1], yp[2], zp[2]]);
        let h = Orthotope::new([xp[1], yp[1], zp[1]], [xp[2], yp[2], zp[2]]);
        let parts = [a, b, c, d, e, f, g, h];
        proof {
            assert forall|i: int| 0 <= i < 8 implies (#[trigger] parts[i])@ == (Bounds {
                lo: seq![
                    cuts(self@, 0)[i % 2],
                    cuts(self@, 1)[(i / 2) % 2],
                    cuts(self@, 2)[i / 4],
                ],
                hi: seq![
                    cuts(self@, 0)[i % 2 + 1],
                    cuts(self@, 1)[(i / 2) % 2 + 1],
                    cuts(self@, 2)[i / 4 + 1],
                ],
            }) by {
                let part = parts[i]@;
                assert(part.lo =~= seq![
                    cuts(self@, 0)[i % 2],
                    cuts(self@, 1)[(i / 2) % 2],
                    cuts(self@, 2)[i / 4],
                ]);
                assert(part.hi =~= seq![
                    cuts(self@, 0)[i % 2 + 1],
                    cuts(self@, 1)[(i / 2) % 2 + 1],
                    cuts(self@, 2)[i / 4 + 1],
                ]);
            }
        }
        parts
    }
}

impl<T: Element, const N: usize> Orthotope<T, N> {
    /// Whether the box can be moved by `d` without leaving the numbers of
    /// its type.
    pub open spec fn can_move(self, d: Seq<int>) -> bool {
        forall|i: int|
            0 <= i < N ==> T::holds(#[trigger] self@.lo[i] + d[i]) && T::holds(self@.hi[i] + d[i])
    }

    /// The box moved by `d`.
    pub fn translated(self, d: [T; N]) -> (moved: Self)
        requires
            self.can_move(vals(d)),
        ensures
            moved@ == self@.moved(vals(d)),
    {
        proof {
            use_type_invariant(self);
        }
        let mut low = self.low;
        let mut high = self.high;
        let mut i: usize = 0;
        while i < N
            invariant
                i <= N,
                self.can_move(vals(d)),
                forall|j: int| 0 <= j < N ==> self.low[j].val() <= self.high[j].val(),
                forall|j: int| 0 <= j < i ==> low[j].val() == self@.lo[j] + d[j].val(),
                forall|j: int| 0 <= j < i ==> high[j].val() == self@.hi[j] + d[j].val(),
                forall|j: int| i <= j < N ==> low[j] == self.low[j] && high[j] == self.high[j],
            decreases N - i,
        {
            assert(T::holds(self@.lo[i as int] + vals(d)[i as int]));
            low[i] = low[i].plus(d[i]);
            high[i] = high[i].plus(d[i]);
            i += 1;
        }
        let moved = Orthotope { low, high };
        assert(moved@.lo =~= self@.moved(vals(d)).lo);
        assert(moved@.hi =~= self@.moved(vals(d)).hi);
        moved
    }

    /// The box moved against `d`.
    pub fn translated_back(self, d: [T; N]) -> (moved: Self)
        requires
            self.can_move(Seq::new(N as nat, |i: int| -d[i].val())),
        ensures
            moved@ == self@.moved(Seq::new(N as nat, |i: int| -d[i].val())),
    {
        proof {
            use_type_invariant(self);
        }
        let ghost back = Seq::new(N as nat, |i: int| -d[i].val());
        let mut low = self.low;
        let mut high = self.high;
        let mut i: usize = 0;
        while i < N
            invariant
                i <= N,
                back == Seq::new(N as nat, |i: int| -d[i].val()),
                self.can_move(back),
                forall|j: int| 0 <= j < N ==> self.low[j].val() <= self.high[j].val(),
                forall|j: int| 0 <= j < i ==> low[j].val() == self@.lo[j] - d[j].val(),
                forall|j: int| 0 <= j < i ==> high[j].val() == self@.hi[j] - d[j].val(),
                forall|j: int| i <= j < N ==> low[j] == self.low[j] && high[j] == self.high[j],
            decreases N - i,
        {
            assert(T::holds(self@.lo[i as int] + back[i as int]));
            low[i] = low[i].minus(d[i]);
            high[i] = high[i].minus(d[i]);
            i += 1;
        }
        let moved = Orthotope { low, high };
        assert(moved@.lo =~= self@.moved(back).lo);
        assert(moved@.hi =~= self@.moved(back).hi);
        moved
    }
}

} // verus!
