//! The numbers that the sides of a box are made of.
use vstd::prelude::*;

verus! {

/// The quotient of `a` by `b`, rounded towards zero.
pub open spec fn quotient(a: int, b: int) -> int
    recommends
        b != 0,
{
    if a >= 0 {
        a / b
    } else {
        -((-a) / b)
    }
}

/// A type of numbers that the sides of a box can be made of.
///
/// A verified implementation says which integer each value stands for;
/// the operations are then those of the integers, as far as their results
/// have a value in the type. An implementation that says nothing is held
/// to nothing.
pub trait Element: Copy {
    /// The integer that the value stands for.
    open spec fn val(self) -> int {
        0
    }

    /// Whether the type has a value that stands for `v`.
    open spec fn holds(v: int) -> bool {
        true
    }

    /// What a value stands for has a value.
    proof fn lemma_values(a: Self)
        ensures
            Self::holds(a.val()),
    ;

    /// The integers that have values are a range without gaps, and zero
    /// and one are among them.
    proof fn lemma_range()
        ensures
            Self::holds(0),
            Self::holds(1),
            forall|low: int, v: int, high: int|
                #![trigger Self::holds(low), Self::holds(v), Self::holds(high)]
                Self::holds(low) && Self::holds(high) && low <= v <= high ==> Self::holds(v),
    ;

    fn zero() -> (z: Self)
        ensures
            z.val() == 0,
    ;

    fn one() -> (o: Self)
        ensures
            o.val() == 1,
    ;

    fn plus(self, rhs: Self) -> (sum: Self)
        requires
            Self::holds(self.val() + rhs.val()),
        ensures
            sum.val() == self.val() + rhs.val(),
    ;

    fn minus(self, rhs: Self) -> (difference: Self)
        requires
            Self::holds(self.val() - rhs.val()),
        ensures
            difference.val() == self.val() - rhs.val(),
    ;

    fn times(self, rhs: Self) -> (product: Self)
        requires
            Self::holds(self.val() * rhs.val()),
        ensures
            product.val() == self.val() * rhs.val(),
    ;

    /// Division that rounds towards zero.
    fn over(self, rhs: Self) -> (q: Self)
        requires
            rhs.val() != 0,
            Self::holds(quotient(self.val(), rhs.val())),
        ensures
            q.val() == quotient(self.val(), rhs.val()),
    ;

    fn less(self, rhs: Self) -> (b: bool)
        ensures
            b == (self.val() < rhs.val()),
    ;

    /// Division that rounds so that the remainder is not negative.
    fn div_euclid(self, rhs: Self) -> (q: Self)
        requires
            rhs.val() != 0,
            Self::holds(self.val() / rhs.val()),
        ensures
            q.val() == self.val() / rhs.val(),
    ;

    /// The remainder that is not negative.
    fn rem_euclid(self, rhs: Self) -> (r: Self)
        requires
            rhs.val() != 0,
            Self::holds(self.val() / rhs.val()),
        ensures
            r.val() == self.val() % rhs.val(),
    ;

    /// The value as an index, if it is one.
    fn to_usize(self) -> (index: Option<usize>)
        ensures
            index == (if 0 <= self.val() <= usize::MAX {
                Some(self.val() as usize)
            } else {
                None
            }),
    ;

    /// The value that stands for an index, if there is one.
    fn from_usize(index: usize) -> (value: Option<Self>)
        ensures
            match value {
                Some(v) => v.val() == index,
                None => !Self::holds(index as int),
            },
    ;
}

/// An integer between two that have values has a value.
pub proof fn lemma_between<T: Element>(low: int, v: int, high: int)
    requires
        T::holds(low),
        T::holds(high),
        low <= v <= high,
    ensures
        T::holds(v),
{
    T::lemma_range();
}

/// Zero has a value in every type.
pub proof fn lemma_zero<T: Element>()
    ensures
        T::holds(0),
{
    T::lemma_range();
}

/// `Zero::zero` of `num_traits` for `i32`: the number zero.
#[verifier::external_body]
fn zero_i32() -> (z: i32)
    ensures
        z == 0,
{
    <i32 as num_traits::Zero>::zero()
}

/// `One::one` of `num_traits` for `i32`: the number one.
#[verifier::external_body]
fn one_i32() -> (o: i32)
    ensures
        o == 1,
{
    <i32 as num_traits::One>::one()
}

/// `Euclid::div_euclid` of `num_traits` for `i32`, which is that of the
/// standard library: the quotient that leaves a remainder that is not
/// negative. It panics for a divisor of zero and where the quotient does
/// not fit.
#[verifier::external_body]
fn div_euclid_i32(a: i32, b: i32) -> (q: i32)
    requires
        b != 0,
        i32::MIN <= a as int / b as int <= i32::MAX,
    ensures
        q == a as int / b as int,
{
    num_traits::Euclid::div_euclid(&a, &b)
}

/// `Euclid::rem_euclid` of `num_traits` for `i32`, which is that of the
/// standard library: the least remainder that is not negative. It panics
/// for a divisor of zero and where the quotient does not fit.
#[verifier::external_body]
fn rem_euclid_i32(a: i32, b: i32) -> (r: i32)
    requires
        b != 0,
        i32::MIN <= a as int / b as int <= i32::MAX,
    ensures
        r == a as int % b as int,
{
    num_traits::Euclid::rem_euclid(&a, &b)
}

impl Element for i32 {
    open spec fn val(self) -> int {
        self as int
    }

    open spec fn holds(v: int) -> bool {
        i32::MIN <= v <= i32::MAX
    }

    proof fn lemma_values(a: Self) {
    }

    proof fn lemma_range() {
    }

    fn zero() -> (z: Self) {
        zero_i32()
    }

    fn one() -> (o: Self) {
        one_i32()
    }

    fn plus(self, rhs: Self) -> (sum: Self) {
        self + rhs
    }

    fn minus(self, rhs: Self) -> (difference: Self) {
        self - rhs
    }

    fn times(self, rhs: Self) -> (product: Self) {
        self * rhs
    }

    fn over(self, rhs: Self) -> (q: Self) {
        proof {
            if self == i32::MIN && rhs == -1 {
                assert(0x8000_0000int / (-1int) == -0x8000_0000) by (nonlinear_arith);
            }
        }
        self / rhs
    }

    fn less(self, rhs: Self) -> (b: bool) {
        self < rhs
    }

    fn div_euclid(self, rhs: Self) -> (q: Self) {
        div_euclid_i32(self, rhs)
    }

    fn rem_euclid(self, rhs: Self) -> (r: Self) {
        rem_euclid_i32(self, rhs)
    }

    fn to_usize(self) -> (index: Option<usize>) {
        if self >= 0 {
            Some(self as usize)
        } else {
            None
        }
    }

    fn from_usize(index: usize) -> (value: Option<Self>) {
        if index <= 0x7fff_ffff {
            Some(index as i32)
        } else {
            None
        }
    }
}

} // verus!
