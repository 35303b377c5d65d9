use fraction::Fraction;
use navni::orthotope::{area, Element};

/// Fractions as the numbers of a box.
#[derive(Copy, Clone, PartialEq, Debug)]
struct F(Fraction);

impl From<i32> for F {
    fn from(n: i32) -> F {
        F(Fraction::from(n))
    }
}

impl Element for F {
    // Nothing is claimed of fractions, so there is nothing to show.
    fn lemma_values(_a: Self) {}

    fn lemma_range() {}

    fn zero() -> Self {
        F::from(0)
    }

    fn one() -> Self {
        F::from(1)
    }

    fn plus(self, rhs: Self) -> Self {
        F(self.0 + rhs.0)
    }

    fn minus(self, rhs: Self) -> Self {
        F(self.0 - rhs.0)
    }

    fn times(self, rhs: Self) -> Self {
        F(self.0 * rhs.0)
    }

    fn over(self, rhs: Self) -> Self {
        F(self.0 / rhs.0)
    }

    fn less(self, rhs: Self) -> bool {
        self.0 < rhs.0
    }

    fn div_euclid(self, rhs: Self) -> Self {
        F((self.0 / rhs.0).floor())
    }

    fn rem_euclid(self, rhs: Self) -> Self {
        F(self.0 - rhs.0 * (self.0 / rhs.0).floor())
    }

    fn to_usize(self) -> Option<usize> {
        usize::try_from(self.0).ok()
    }

    fn from_usize(index: usize) -> Option<Self> {
        Some(F(Fraction::from(index)))
    }
}

#[test]
fn custom_numeric_type() {
    let bounds = area(F::from(10), F::from(20));

    assert_eq!(bounds.center(), [F::from(5), F::from(10)]);
}

#[test]
fn boxes_of_fractions() {
    let bounds = area(F::from(5), F::from(3));
    // The middle of a side of odd length is no whole number.
    assert_eq!(bounds.center(), [F(Fraction::new(5u64, 2u64)), F(Fraction::new(3u64, 2u64))]);
    assert!(bounds.contains([F(Fraction::new(9u64, 2u64)), F::from(0)]));
    assert!(!bounds.contains([F::from(5), F::from(0)]));
    assert_eq!(bounds.mod_proj([F::from(7), F::from(-1)]), [F::from(2), F::from(2)]);
    assert_eq!(bounds.idx([F::from(2), F::from(1)]), 7);
    assert_eq!(bounds.get(7), [F::from(2), F::from(1)]);
}
