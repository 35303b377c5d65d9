//! Walking through the points of a box.
use crate::orthotope::element::lemma_between;
use crate::orthotope::{vals, Bounds, Element, Orthotope};
use vstd::arithmetic::div_mod::{
    lemma_breakdown, lemma_fundamental_div_mod, lemma_fundamental_div_mod_converse,
    lemma_mod_bound, lemma_mod_self_0, lemma_small_mod,
};
use vstd::prelude::*;

verus! {

/// Where a walk through a box stands.
pub struct Walk {
    /// The box that is walked through.
    pub bounds: Bounds,
    /// The point to be handed out next, before carries.
    pub at: Seq<int>,
}

/// The point `x` after the carries along the first `n` axes: a coordinate
/// that has reached the end of its side starts over, and the coordinate
/// along the next axis moves on by one.
pub open spec fn carried(b: Bounds, x: Seq<int>, n: int) -> Seq<int>
    decreases n,
{
    if n <= 0 {
        x
    } else {
        let c = carried(b, x, n - 1);
        if c[n - 1] >= b.hi[n - 1] {
            c.update(n - 1, b.lo[n - 1]).update(n, c[n] + 1)
        } else {
            c
        }
    }
}

impl Walk {
    /// The point after all carries.
    pub open spec fn ahead(self) -> Seq<int> {
        carried(self.bounds, self.at, self.bounds.axes() - 1)
    }

    /// Whether the walk is over: the coordinate along the last axis has
    /// reached the end of its side.
    pub open spec fn done(self) -> bool {
        self.ahead()[self.bounds.axes() - 1] >= self.bounds.hi[self.bounds.axes() - 1]
    }

    /// The walk after one step.
    pub open spec fn stepped(self) -> Walk {
        if self.done() {
            Walk { bounds: self.bounds, at: self.ahead() }
        } else {
            Walk { bounds: self.bounds, at: self.ahead().update(0, self.ahead()[0] + 1) }
        }
    }

    /// Whether the numbers of the next step have values in `T`.
    pub open spec fn can_step<T: Element>(self) -> bool {
        &&& forall|i: int|
            0 <= i < self.bounds.axes() - 1 && (#[trigger] carried(self.bounds, self.at, i))[i]
                >= self.bounds.hi[i] ==> T::holds(carried(self.bounds, self.at, i)[i + 1] + 1)
        &&& !self.done() ==> T::holds(self.ahead()[0] + 1)
    }

    /// Whether the walk is one through a box whose sides have lengths,
    /// as it stands at its start and after any number of steps.
    pub open spec fn settled(self) -> bool {
        let n = self.bounds.axes();
        &&& n >= 1
        &&& self.at.len() == n
        &&& self.bounds.hi.len() == n
        &&& self.bounds.solid()
        &&& forall|i: int|
            0 <= i < n ==> self.bounds.lo[i] <= #[trigger] self.at[i] <= self.bounds.hi[i]
        &&& forall|i: int| 1 <= i < n - 1 ==> #[trigger] self.at[i] < self.bounds.hi[i]
        &&& self.at[n - 1] == self.bounds.hi[n - 1] ==> forall|i: int|
            0 <= i < n - 1 ==> #[trigger] self.at[i] < self.bounds.hi[i]
    }

    /// In a settled walk, the carries along the first `n` axes leave the
    /// coordinates along them inside their sides, and move the coordinate
    /// along the next axis on by one at most and not past the end of its
    /// side.
    pub proof fn lemma_carried(self, n: int)
        requires
            self.settled(),
            0 <= n <= self.bounds.axes() - 1,
        ensures
            carried(self.bounds, self.at, n).len() == self.at.len(),
            forall|j: int|
                0 <= j < n ==> self.bounds.lo[j] <= #[trigger] carried(self.bounds, self.at, n)[j]
                    < self.bounds.hi[j],
            forall|j: int|
                n < j < self.at.len() ==> #[trigger] carried(self.bounds, self.at, n)[j]
                    == self.at[j],
            self.at[n] <= carried(self.bounds, self.at, n)[n] <= self.bounds.hi[n],
            carried(self.bounds, self.at, n)[n] <= self.at[n] + 1,
            carried(self.bounds, self.at, n)[n] != self.at[n] ==> self.at[0] >= self.bounds.hi[0],
        decreases n,
    {
        if n > 0 {
            self.lemma_carried(n - 1);
            let c = carried(self.bounds, self.at, n - 1);
            assert(self.bounds.side(n - 1) > 0);
            if c[n - 1] >= self.bounds.hi[n - 1] {
                // A carry has come this far only if the first coordinate
                // was at the end of its side.
                assert(self.at[0] >= self.bounds.hi[0]);
                assert(self.at[n] < self.bounds.hi[n]);
            }
        }
    }

    /// A settled walk can go on for ever: each step is possible and leads
    /// to a settled walk.
    pub proof fn lemma_settled<T: Element>(self, lo: Seq<T>, hi: Seq<T>)
        requires
            self.settled(),
            lo.len() == self.at.len(),
            hi.len() == self.at.len(),
            forall|i: int| 0 <= i < lo.len() ==> (#[trigger] lo[i]).val() == self.bounds.lo[i],
            forall|i: int| 0 <= i < hi.len() ==> (#[trigger] hi[i]).val() == self.bounds.hi[i],
        ensures
            self.can_step::<T>(),
            self.stepped().settled(),
    {
        let n = self.bounds.axes();
        assert forall|i: int|
            0 <= i < n - 1 && (#[trigger] carried(self.bounds, self.at, i))[i]
                >= self.bounds.hi[i] implies T::holds(
            carried(self.bounds, self.at, i)[i + 1] + 1,
        ) by {
            self.lemma_carried(i);
            self.lemma_carried(i + 1);
            let c = carried(self.bounds, self.at, i);
            assert(self.bounds.side(i) > 0);
            assert(carried(self.bounds, self.at, i + 1)[i + 1] == c[i + 1] + 1);
            T::lemma_values(lo[i + 1]);
            T::lemma_values(hi[i + 1]);
            lemma_between::<T>(self.bounds.lo[i + 1], c[i + 1] + 1, self.bounds.hi[i + 1]);
        }
        self.lemma_carried(n - 1);
        let c = self.ahead();
        assert(self.bounds.side(0) > 0);
        if !self.done() {
            if n >= 2 {
                assert(c[0] < self.bounds.hi[0]);
            }
            T::lemma_values(lo[0]);
            T::lemma_values(hi[0]);
            lemma_between::<T>(self.bounds.lo[0], c[0] + 1, self.bounds.hi[0]);
        }
        let next = self.stepped();
        assert forall|i: int| 0 <= i < n implies self.bounds.lo[i] <= #[trigger] next.at[i]
            <= self.bounds.hi[i] by {
            if i < n - 1 {
                assert(self.bounds.lo[i] <= c[i] < self.bounds.hi[i]);
            }
        }
        assert forall|i: int| 1 <= i < n - 1 implies #[trigger] next.at[i]
            < self.bounds.hi[i] by {
            assert(self.bounds.lo[i] <= c[i] < self.bounds.hi[i]);
        }
        if next.at[n - 1] == self.bounds.hi[n - 1] {
            assert forall|i: int| 0 <= i < n - 1 implies #[trigger] next.at[i]
                < self.bounds.hi[i] by {
                assert(self.bounds.lo[i] <= c[i] < self.bounds.hi[i]);
            }
        }
    }
}

/// A walk through the points of a box, the first axis running fastest.
#[derive(Debug)]
pub struct OrthotopeIter<T: Element, const N: usize> {
    inner: Orthotope<T, N>,
    x: [T; N],
}

impl<T: Element, const N: usize> View for OrthotopeIter<T, N> {
    type V = Walk;

    closed spec fn view(&self) -> Walk {
        Walk { bounds: self.inner@, at: vals(self.x) }
    }
}

impl<T: Element, const N: usize> Orthotope<T, N> {
    /// A walk through the points of the box that starts at its first
    /// point.
    pub fn into_iter(self) -> (walk: OrthotopeIter<T, N>)
        ensures
            walk@ == (Walk { bounds: self@, at: self@.lo }),
            N >= 1 && self@.solid() ==> walk@.settled(),
    {
        let (lo, hi) = self.sides();
        proof {
            self.lemma_view();
            if N >= 1 && self@.solid() {
                let walk = Walk { bounds: self@, at: self@.lo };
                assert forall|i: int| 0 <= i < N implies #[trigger] walk.at[i]
                    < self@.hi[i] by {
                    assert(self@.side(i) > 0);
                }
            }
        }
        OrthotopeIter { inner: self, x: lo }
    }
}

impl<T: Element, const N: usize> OrthotopeIter<T, N> {
    /// Whether the next step stays within the numbers of `T`. It always
    /// does in a walk through a box whose sides have lengths.
    pub open spec fn can_step(self) -> bool {
        self@.settled() || self@.can_step::<T>()
    }

    /// Hand out the next point, if the walk is not over, and move on.
    pub fn next(&mut self) -> (point: Option<[T; N]>)
        requires
            N >= 1,
            old(self).can_step(),
        ensures
            final(self)@ == old(self)@.stepped(),
            old(self)@.settled() ==> final(self)@.settled(),
            match point {
                Some(p) => !old(self)@.done() && vals(p) == old(self)@.ahead(),
                None => old(self)@.done(),
            },
    {
        let (lo, hi) = self.inner.sides();
        let ghost start = self@;
        proof {
            self.inner.lemma_view();
            if start.settled() {
                start.lemma_settled::<T>(lo@, hi@);
            }
        }
        let mut i: usize = 0;
        while i < N - 1
            invariant
                N >= 1,
                i <= N - 1,
                start.can_step::<T>(),
                start.bounds == self.inner@,
                self.inner == old(self).inner,
                vals(lo) == start.bounds.lo,
                vals(hi) == start.bounds.hi,
                start.bounds.lo.len() == N,
                vals(self.x) == carried(start.bounds, start.at, i as int),
            decreases N - 1 - i,
        {
            let ghost c = carried(start.bounds, start.at, i as int);
            assert(vals(self.x)[i as int] == c[i as int]);
            assert(vals(self.x)[i + 1] == c[i + 1]);
            assert(vals(hi)[i as int] == start.bounds.hi[i as int]);
            assert(vals(lo)[i as int] == start.bounds.lo[i as int]);
            if !self.x[i].less(hi[i]) {
                self.x[i] = lo[i];
                self.x[i + 1] = self.x[i + 1].plus(T::one());
                assert(vals(self.x) =~= c.update(i as int, start.bounds.lo[i as int]).update(
                    i + 1,
                    c[i + 1] + 1,
                ));
            }
            i += 1;
        }
        let ghost c = start.ahead();
        assert(vals(self.x)[N - 1] == c[N - 1]);
        assert(vals(hi)[N - 1] == start.bounds.hi[N - 1]);
        if !self.x[N - 1].less(hi[N - 1]) {
            // Out of content.
            return None;
        }
        let ret = self.x;
        assert(vals(self.x)[0] == c[0]);
        self.x[0] = self.x[0].plus(T::one());
        assert(vals(self.x) =~= c.update(0, c[0] + 1));
        Some(ret)
    }
}

/// Counting up by one in a number system: `k - 1` and `k`, both split
/// at a place of value `v` with `s` digits. The digit of `k - 1` at the
/// place, plus the carry that comes from below exactly if `v` divides
/// `k`, is the digit of `k` unless it has reached `s`; then the digit of
/// `k` is zero and the carry goes on, as `v * s` divides `k`.
pub proof fn lemma_count_up(k: int, v: int, s: int)
    requires
        k >= 1,
        v >= 1,
        s >= 1,
    ensures
        ({
            let reached = ((k - 1) / v) % s + (if k % v == 0 {
                1int
            } else {
                0int
            });
            &&& 0 <= reached <= s
            &&& reached < s ==> (k / v) % s == reached && k % (v * s) != 0
            &&& reached == s ==> (k / v) % s == 0 && k % (v * s) == 0
        }),
{
    let m = k - 1;
    let q = k / v;
    lemma_fundamental_div_mod(k, v);
    lemma_mod_bound(k, v);
    lemma_mod_bound(m / v, s);
    lemma_mod_bound(q, s);
    lemma_breakdown(k, v, s);
    assert(v * q == q * v) by (nonlinear_arith);
    if k % v != 0 {
        lemma_fundamental_div_mod_converse(m, v, q, k % v - 1);
        assert(v * (q % s) >= 0) by (nonlinear_arith)
            requires
                v >= 1,
                q % s >= 0,
        ;
    } else {
        assert((q - 1) * v + (v - 1) == q * v - 1) by (nonlinear_arith);
        lemma_fundamental_div_mod_converse(m, v, q - 1, v - 1);
        let a = q - 1;
        lemma_fundamental_div_mod(a, s);
        assert(s * (a / s) == (a / s) * s) by (nonlinear_arith);
        if a % s + 1 < s {
            lemma_fundamental_div_mod_converse(q, s, a / s, a % s + 1);
            assert(v * (q % s) >= 1) by (nonlinear_arith)
                requires
                    v >= 1,
                    q % s >= 1,
            ;
        } else {
            assert((a / s + 1) * s + 0 == (a / s) * s + s) by (nonlinear_arith);
            lemma_fundamental_div_mod_converse(q, s, a / s + 1, 0);
            assert(v * (q % s) == 0) by (nonlinear_arith)
                requires
                    q % s == 0,
            ;
        }
    }
}

impl Bounds {
    /// Where a walk through the box stands before its carries, after
    /// `k` points have been handed out.
    pub open spec fn reached(self, k: int) -> Seq<int> {
        if k <= 0 {
            self.lo
        } else if k <= self.volume() {
            self.point_at(k - 1).update(0, self.point_at(k - 1)[0] + 1)
        } else {
            Seq::new(
                self.lo.len(),
                |i: int|
                    if i == self.axes() - 1 {
                        self.hi[i]
                    } else {
                        self.lo[i]
                    },
            )
        }
    }

    /// The point `reached(k)` after the carries along the first `n` axes:
    /// the coordinates along them are those of the point at place `k`,
    /// the coordinate along axis `n` is that of the point before, moved
    /// on if the carry has come this far, and the others are those of the
    /// point before.
    pub open spec fn carrying(self, k: int, n: int) -> Seq<int> {
        Seq::new(
            self.lo.len(),
            |j: int|
                self.lo[j] + (if j < n {
                    (k / self.volume_upto(j)) % self.side(j)
                } else if j == n {
                    ((k - 1) / self.volume_upto(j)) % self.side(j) + (if k % self.volume_upto(j)
                        == 0 {
                        1int
                    } else {
                        0int
                    })
                } else {
                    ((k - 1) / self.volume_upto(j)) % self.side(j)
                }),
        )
    }

    /// The carries of a walk count up: see [`Bounds::carrying`].
    pub proof fn lemma_carries_count_up(self, k: int, n: int)
        requires
            self.solid(),
            self.hi.len() == self.lo.len(),
            1 <= k <= self.volume(),
            0 <= n <= self.axes() - 1,
        ensures
            carried(self, self.reached(k), n) == self.carrying(k, n),
        decreases n,
    {
        if n == 0 {
            assert(self.volume_upto(0) == 1);
            assert(self.reached(k) =~= self.carrying(k, 0));
        } else {
            self.lemma_carries_count_up(k, n - 1);
            self.lemma_volume_positive(n - 1);
            let c = self.carrying(k, n - 1);
            let v = self.volume_upto(n - 1);
            let side = self.side(n - 1);
            assert(side > 0);
            lemma_count_up(k, v, side);
            assert(self.volume_upto(n) == v * side);
            assert(c[n - 1] >= self.hi[n - 1] <==> c[n - 1] - self.lo[n - 1] == side);
            assert(carried(self, self.reached(k), n) =~= self.carrying(k, n));
        }
    }

    /// The volume along some of the axes divides the volume of the box,
    /// and the quotient is a whole number of the sides that follow.
    pub proof fn lemma_volume_divides(self, i: int)
        requires
            self.solid(),
            0 <= i < self.axes(),
        ensures
            self.volume() % self.volume_upto(i) == 0,
            (self.volume() / self.volume_upto(i)) % self.side(i) == 0,
        decreases self.axes() - i,
    {
        let v = self.volume_upto(i);
        let side = self.side(i);
        self.lemma_volume_positive(i);
        self.lemma_volume_positive(self.axes());
        assert(side > 0);
        assert(self.volume_upto(i + 1) == v * side);
        if i + 1 < self.axes() {
            self.lemma_volume_divides(i + 1);
        } else {
            lemma_mod_self_0(self.volume());
        }
        lemma_breakdown(self.volume(), v, side);
        lemma_mod_bound(self.volume(), v);
        lemma_mod_bound(self.volume() / v, side);
        assert(v * ((self.volume() / v) % side) >= 0) by (nonlinear_arith)
            requires
                v >= 1,
                (self.volume() / v) % side >= 0,
        ;
        assert((self.volume() / v) % side == 0) by (nonlinear_arith)
            requires
                v >= 1,
                (self.volume() / v) % side >= 0,
                v * ((self.volume() / v) % side) == 0,
        ;
    }

    /// A walk that has not started has nothing to carry.
    pub proof fn lemma_nothing_to_carry(self, n: int)
        requires
            self.solid(),
            self.hi.len() == self.lo.len(),
            0 <= n <= self.axes() - 1,
        ensures
            carried(self, self.lo, n) == self.lo,
        decreases n,
    {
        if n > 0 {
            self.lemma_nothing_to_carry(n - 1);
            assert(self.side(n - 1) > 0);
        }
    }

    /// A walk that is over has nothing to carry.
    pub proof fn lemma_over_stays_over(self, k: int, n: int)
        requires
            self.solid(),
            self.hi.len() == self.lo.len(),
            k > self.volume(),
            0 <= n <= self.axes() - 1,
        ensures
            carried(self, self.reached(k), n) == self.reached(k),
        decreases n,
    {
        if n > 0 {
            self.lemma_over_stays_over(k, n - 1);
            assert(self.side(n - 1) > 0);
        }
    }
}

impl Walk {
    /// The walk after `k` steps.
    pub open spec fn after(self, k: int) -> Walk
        decreases k,
    {
        if k <= 0 {
            self
        } else {
            self.after(k - 1).stepped()
        }
    }
}

/// A walk through a box whose sides have lengths hands out the points of
/// the box in the order of their places, each once, and is over after
/// that: after `k` steps from the start, the point handed out next is the
/// point at place `k` if there is one, and the walk is over if there is
/// none.
pub proof fn law_walk_follows_places(b: Bounds, k: int)
    requires
        b.solid(),
        b.axes() >= 1,
        b.hi.len() == b.lo.len(),
        k >= 0,
    ensures
        (Walk { bounds: b, at: b.lo }).after(k) == (Walk { bounds: b, at: b.reached(k) }),
        k < b.volume() ==> !(Walk { bounds: b, at: b.lo }).after(k).done() && (Walk {
            bounds: b,
            at: b.lo,
        }).after(k).ahead() == b.point_at(k),
        k >= b.volume() ==> (Walk { bounds: b, at: b.lo }).after(k).done(),
    decreases k,
{
    let n = b.axes();
    let start = Walk { bounds: b, at: b.lo };
    let here = Walk { bounds: b, at: b.reached(k) };
    b.lemma_volume_positive(n);
    b.lemma_volume_positive(n - 1);
    assert(b.side(n - 1) > 0);
    assert(b.volume() == b.volume_upto(n - 1) * b.side(n - 1));
    if k > 0 {
        law_walk_follows_places(b, k - 1);
        let before = Walk { bounds: b, at: b.reached(k - 1) };
        assert(start.after(k) == before.stepped());
        if k - 1 < b.volume() {
            assert(before.stepped().at =~= b.reached(k));
        } else if k - 1 == b.volume() {
            // The last point has been handed out: the carry runs through.
            b.lemma_carries_count_up(k - 1, n - 1);
            lemma_count_up(k - 1, b.volume_upto(n - 1), b.side(n - 1));
            lemma_mod_self_0(k - 1);
            assert forall|i: int| 0 <= i < n - 1 implies #[trigger] before.ahead()[i]
                == b.lo[i] by {
                b.lemma_volume_divides(i);
            }
            assert(before.ahead() =~= b.reached(k));
        } else {
            b.lemma_over_stays_over(k - 1, n - 1);
            assert(before.ahead() =~= b.reached(k));
        }
        assert(start.after(k) == here);
    }
    // What the walk hands out from here.
    if k == 0 {
        b.lemma_nothing_to_carry(n - 1);
        assert forall|i: int| 0 <= i < n implies #[trigger] b.point_at(0)[i] == b.lo[i] by {
            b.lemma_volume_positive(i);
            assert(b.side(i) > 0);
            assert(0int / b.volume_upto(i) == 0) by (nonlinear_arith)
                requires
                    b.volume_upto(i) >= 1,
            ;
            assert(0int % b.side(i) == 0) by (nonlinear_arith)
                requires
                    b.side(i) >= 1,
            ;
        }
        assert(here.ahead() =~= b.point_at(0));
    } else if k <= b.volume() {
        b.lemma_carries_count_up(k, n - 1);
        lemma_count_up(k, b.volume_upto(n - 1), b.side(n - 1));
        let c = b.carrying(k, n - 1);
        assert(here.ahead() == c);
        assert(c[n - 1] >= b.hi[n - 1] <==> c[n - 1] - b.lo[n - 1] == b.side(n - 1));
        if k < b.volume() {
            // Only a whole volume brings the carry past the last axis.
            lemma_small_mod(k as nat, b.volume() as nat);
            assert(c =~= b.point_at(k));
        } else {
            lemma_mod_self_0(k);
        }
    } else {
        b.lemma_over_stays_over(k, n - 1);
    }
}

/// The place of the point at place `k` is `k`, counted along the first
/// `n` axes and up to whole volumes along them.
pub proof fn lemma_place_upto(b: Bounds, k: int, n: int)
    requires
        b.solid(),
        k >= 0,
        0 <= n <= b.axes(),
    ensures
        b.index_upto(b.point_at(k), n) == k % b.volume_upto(n),
    decreases n,
{
    if n > 0 {
        lemma_place_upto(b, k, n - 1);
        b.lemma_volume_positive(n - 1);
        let v = b.volume_upto(n - 1);
        let side = b.side(n - 1);
        assert(side > 0);
        let digit = (k / v) % side;
        lemma_mod_bound(k / v, side);
        lemma_small_mod(digit as nat, side as nat);
        assert(b.point_at(k)[n - 1] - b.lo[n - 1] == digit);
        lemma_breakdown(k, v, side);
        assert(digit * v == v * digit) by (nonlinear_arith);
    } else {
        assert(k % 1 == 0);
    }
}

/// Places and points go together: the place of the point at place `k`
/// is `k`, for every place of the box.
pub proof fn law_place_of_point(b: Bounds, k: int)
    requires
        b.solid(),
        0 <= k < b.volume(),
    ensures
        b.index_of(b.point_at(k)) == k,
{
    lemma_place_upto(b, k, b.axes());
    lemma_small_mod(k as nat, b.volume() as nat);
}

} // verus!
