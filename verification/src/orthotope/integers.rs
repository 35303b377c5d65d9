//! Boxes of the integers of the machine.
use crate::orthotope::element::Element;
use vstd::pervasive::unreached;
use vstd::prelude::*;

verus! {

/// A remainder is less than its divisor in size, whatever the signs.
proof fn lemma_mod_bound_any(a: int, b: int)
    requires
        b != 0,
    ensures
        0 <= a % b,
        a % b < b || a % b < -b,
{
    if b > 0 {
        vstd::arithmetic::div_mod::lemma_mod_bound(a, b);
    } else {
        assert(0 <= a % b < -b) by (nonlinear_arith)
            requires
                b < 0,
        ;
    }
}

impl Element for i64 {
    open spec fn val(self) -> int {
        self as int
    }

    open spec fn holds(v: int) -> bool {
        i64::MIN <= v <= i64::MAX
    }

    proof fn lemma_values(a: Self) {
    }

    proof fn lemma_range() {
    }

    fn zero() -> (z: Self) {
        0
    }

    fn one() -> (o: Self) {
        1
    }

    fn plus(self, rhs: Self) -> (sum: Self) {
        self + rhs
    }

    fn minus(self, rhs: Self) -> (difference: Self) {
        self - rhs
    }

    fn times(self, rhs: Self) -> (product: Self) {
        self * rhs
    }

    fn over(self, rhs: Self) -> (q: Self) {
        proof {
            if self == i64::MIN && rhs == -1 {
                assert((i64::MAX + 1) / (-1int) == -(i64::MAX + 1)) by (nonlinear_arith);
            }
        }
        self / rhs
    }

    fn less(self, rhs: Self) -> (b: bool) {
        self < rhs
    }

    fn div_euclid(self, rhs: Self) -> (q: Self) {
        match self.checked_div_euclid(rhs) {
            Some(q) => q,
            None => unreached(),
        }
    }

    fn rem_euclid(self, rhs: Self) -> (r: Self) {
        proof {
            lemma_mod_bound_any(self as int, rhs as int);
            if self == i64::MIN && rhs == -1 {
                assert((i64::MAX + 1) / (-1int) == -(i64::MAX + 1)) by (nonlinear_arith);
            }
        }
        match self.checked_rem_euclid(rhs) {
            Some(r) => r,
            None => unreached(),
        }
    }

    fn to_usize(self) -> (index: Option<usize>) {
        if self >= 0 && self as u64 <= usize::MAX as u64 {
            Some(self as usize)
        } else {
            None
        }
    }

    fn from_usize(index: usize) -> (value: Option<Self>) {
        if index as u64 <= i64::MAX as u64 {
            Some(index as i64)
        } else {
            None
        }
    }
}

impl Element for u32 {
    open spec fn val(self) -> int {
        self as int
    }

    open spec fn holds(v: int) -> bool {
        0 <= v <= u32::MAX
    }

    proof fn lemma_values(a: Self) {
    }

    proof fn lemma_range() {
    }

    fn zero() -> (z: Self) {
        0
    }

    fn one() -> (o: Self) {
        1
    }

    fn plus(self, rhs: Self) -> (sum: Self) {
        self + rhs
    }

    fn minus(self, rhs: Self) -> (difference: Self) {
        self - rhs
    }

    fn times(self, rhs: Self) -> (product: Self) {
        self * rhs
    }

    fn over(self, rhs: Self) -> (q: Self) {
        self / rhs
    }

    fn less(self, rhs: Self) -> (b: bool) {
        self < rhs
    }

    fn div_euclid(self, rhs: Self) -> (q: Self) {
        self / rhs
    }

    fn rem_euclid(self, rhs: Self) -> (r: Self) {
        self % rhs
    }

    fn to_usize(self) -> (index: Option<usize>) {
        if self as u64 <= usize::MAX as u64 {
            Some(self as usize)
        } else {
            None
        }
    }

    fn from_usize(index: usize) -> (value: Option<Self>) {
        if index as u64 <= u32::MAX as u64 {
            Some(index as u32)
        } else {
            None
        }
    }
}

impl Element for u64 {
    open spec fn val(self) -> int {
        self as int
    }

    open spec fn holds(v: int) -> bool {
        0 <= v <= u64::MAX
    }

    proof fn lemma_values(a: Self) {
    }

    proof fn lemma_range() {
    }

    fn zero() -> (z: Self) {
        0
    }

    fn one() -> (o: Self) {
        1
    }

    fn plus(self, rhs: Self) -> (sum: Self) {
        self + rhs
    }

    fn minus(self, rhs: Self) -> (difference: Self) {
        self - rhs
    }

    fn times(self, rhs: Self) -> (product: Self) {
        self * rhs
    }

    fn over(self, rhs: Self) -> (q: Self) {
        self / rhs
    }

    fn less(self, rhs: Self) -> (b: bool) {
        self < rhs
    }

    fn div_euclid(self, rhs: Self) -> (q: Self) {
        self / rhs
    }

    fn rem_euclid(self, rhs: Self) -> (r: Self) {
        self % rhs
    }

    fn to_usize(self) -> (index: Option<usize>) {
        if self as u64 <= usize::MAX as u64 {
            Some(self as usize)
        } else {
            None
        }
    }

    fn from_usize(index: usize) -> (value: Option<Self>) {
        if index as u64 <= u64::MAX as u64 {
            Some(index as u64)
        } else {
            None
        }
    }
}

impl Element for usize {
    open spec fn val(self) -> int {
        self as int
    }

    open spec fn holds(v: int) -> bool {
        0 <= v <= usize::MAX
    }

    proof fn lemma_values(a: Self) {
    }

    proof fn lemma_range() {
    }

    fn zero() -> (z: Self) {
        0
    }

    fn one() -> (o: Self) {
        1
    }

    fn plus(self, rhs: Self) -> (sum: Self) {
        self + rhs
    }

    fn minus(self, rhs: Self) -> (difference: Self) {
        self - rhs
    }

    fn times(self, rhs: Self) -> (product: Self) {
        self * rhs
    }

    fn over(self, rhs: Self) -> (q: Self) {
        self / rhs
    }

    fn less(self, rhs: Self) -> (b: bool) {
        self < rhs
    }

    fn div_euclid(self, rhs: Self) -> (q: Self) {
        self / rhs
    }

    fn rem_euclid(self, rhs: Self) -> (r: Self) {
        self % rhs
    }

    fn to_usize(self) -> (index: Option<usize>) {
        if self as u64 <= usize::MAX as u64 {
            Some(self as usize)
        } else {
            None
        }
    }

    fn from_usize(index: usize) -> (value: Option<Self>) {
        if index as u64 <= usize::MAX as u64 {
            Some(index as usize)
        } else {
            None
        }
    }
}

} // verus!
