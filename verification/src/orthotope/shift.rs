//! Moving a box with `+` and `-`.
use crate::orthotope::{vals, Element, Orthotope};
use vstd::prelude::*;
use vstd::std_specs::ops::{AddSpecImpl, SubSpecImpl};

verus! {

impl<T: Element, const N: usize> core::ops::Add<[T; N]> for Orthotope<T, N> {
    type Output = Orthotope<T, N>;

    /// The box moved by `rhs`.
    fn add(self, rhs: [T; N]) -> (moved: Orthotope<T, N>)
        ensures
            moved@ == self@.moved(vals(rhs)),
    {
        self.translated(rhs)
    }
}

impl<T: Element, const N: usize> AddSpecImpl<[T; N]> for Orthotope<T, N> {
    open spec fn obeys_add_spec() -> bool {
        false
    }

    open spec fn add_req(self, rhs: [T; N]) -> bool {
        self.can_move(vals(rhs))
    }

    open spec fn add_spec(self, rhs: [T; N]) -> Orthotope<T, N> {
        self
    }
}

impl<T: Element, const N: usize> core::ops::Sub<[T; N]> for Orthotope<T, N> {
    type Output = Orthotope<T, N>;

    /// The box moved against `rhs`.
    fn sub(self, rhs: [T; N]) -> (moved: Orthotope<T, N>)
        ensures
            moved@ == self@.moved(Seq::new(N as nat, |i: int| -rhs[i].val())),
    {
        self.translated_back(rhs)
    }
}

impl<T: Element, const N: usize> SubSpecImpl<[T; N]> for Orthotope<T, N> {
    open spec fn obeys_sub_spec() -> bool {
        false
    }

    open spec fn sub_req(self, rhs: [T; N]) -> bool {
        self.can_move(Seq::new(N as nat, |i: int| -rhs[i].val()))
    }

    open spec fn sub_spec(self, rhs: [T; N]) -> Orthotope<T, N> {
        self
    }
}

} // verus!
