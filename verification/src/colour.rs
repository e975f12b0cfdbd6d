//! Linear colour triples.
use crate::arithmetic::{
    exact, over, plus, product, quotient, sqrt, square_root, sum, times, Arithmetic,
};
use crate::scalar::{Scalar, ONE, ZERO};
use vstd::prelude::*;

verus! {

/// Red, green and blue radiance, each unbounded above.
#[derive(Clone, Copy, PartialEq, Eq, Debug, Structural)]
pub struct Colour {
    pub red: Scalar,
    pub green: Scalar,
    pub blue: Scalar,
}

impl Colour {
    /// The colour with the given channels.
    pub fn new(red: Scalar, green: Scalar, blue: Scalar) -> (r: Colour)
        ensures
            r == (Colour { red, green, blue }),
    {
        Colour { red, green, blue }
    }

    /// No light at all.
    pub open spec fn spec_black() -> Colour {
        Colour {
            red: Scalar { bits: ZERO },
            green: Scalar { bits: ZERO },
            blue: Scalar { bits: ZERO },
        }
    }

    /// Black: no light at all.
    pub fn black() -> (r: Colour)
        ensures
            r == Colour::spec_black(),
    {
        Colour {
            red: Scalar { bits: ZERO },
            green: Scalar { bits: ZERO },
            blue: Scalar { bits: ZERO },
        }
    }

    /// Full intensity in each channel.
    pub open spec fn spec_white() -> Colour {
        Colour { red: Scalar { bits: ONE }, green: Scalar { bits: ONE }, blue: Scalar { bits: ONE } }
    }

    /// White: full intensity in each channel.
    pub fn white() -> (r: Colour)
        ensures
            r == Colour::spec_white(),
    {
        Colour { red: Scalar { bits: ONE }, green: Scalar { bits: ONE }, blue: Scalar { bits: ONE } }
    }

    /// Each channel scaled by `scale`, then its square root taken.
    pub open spec fn spec_gamma_correct<A: Arithmetic>(self, ar: &A, scale: Scalar) -> Colour {
        Colour {
            red: square_root(ar, product(ar, self.red, scale)),
            green: square_root(ar, product(ar, self.green, scale)),
            blue: square_root(ar, product(ar, self.blue, scale)),
        }
    }

    /// Each channel scaled by `scale`, then its square root taken.
    pub fn gamma_correct<A: Arithmetic>(self, ar: &A, scale: Scalar) -> (r: Colour)
        requires
            exact(ar),
        ensures
            r == self.spec_gamma_correct(ar, scale),
    {
        Colour {
            red: sqrt(ar, times(ar, self.red, scale)),
            green: sqrt(ar, times(ar, self.green, scale)),
            blue: sqrt(ar, times(ar, self.blue, scale)),
        }
    }

    /// The channel-wise sum.
    pub open spec fn spec_plus<A: Arithmetic>(self, ar: &A, other: Colour) -> Colour {
        Colour {
            red: sum(ar, self.red, other.red),
            green: sum(ar, self.green, other.green),
            blue: sum(ar, self.blue, other.blue),
        }
    }

    /// The channel-wise sum.
    pub fn plus<A: Arithmetic>(self, ar: &A, other: Colour) -> (r: Colour)
        requires
            exact(ar),
        ensures
            r == self.spec_plus(ar, other),
    {
        Colour {
            red: plus(ar, self.red, other.red),
            green: plus(ar, self.green, other.green),
            blue: plus(ar, self.blue, other.blue),
        }
    }

    /// Each channel multiplied by `s`.
    pub open spec fn spec_scaled<A: Arithmetic>(self, ar: &A, s: Scalar) -> Colour {
        Colour {
            red: product(ar, self.red, s),
            green: product(ar, self.green, s),
            blue: product(ar, self.blue, s),
        }
    }

    /// Each channel multiplied by `s`.
    pub fn scaled<A: Arithmetic>(self, ar: &A, s: Scalar) -> (r: Colour)
        requires
            exact(ar),
        ensures
            r == self.spec_scaled(ar, s),
    {
        Colour {
            red: times(ar, self.red, s),
            green: times(ar, self.green, s),
            blue: times(ar, self.blue, s),
        }
    }

    /// The channel-wise product: light `other` seen through the filter `self`.
    pub open spec fn spec_times<A: Arithmetic>(self, ar: &A, other: Colour) -> Colour {
        Colour {
            red: product(ar, self.red, other.red),
            green: product(ar, self.green, other.green),
            blue: product(ar, self.blue, other.blue),
        }
    }

    /// The channel-wise product: light `other` seen through the filter `self`.
    pub fn times<A: Arithmetic>(self, ar: &A, other: Colour) -> (r: Colour)
        requires
            exact(ar),
        ensures
            r == self.spec_times(ar, other),
    {
        Colour {
            red: times(ar, self.red, other.red),
            green: times(ar, self.green, other.green),
            blue: times(ar, self.blue, other.blue),
        }
    }

    /// Each channel divided by `s`.
    pub open spec fn spec_over<A: Arithmetic>(self, ar: &A, s: Scalar) -> Colour {
        Colour {
            red: quotient(ar, self.red, s),
            green: quotient(ar, self.green, s),
            blue: quotient(ar, self.blue, s),
        }
    }

    /// Each channel divided by `s`.
    pub fn over<A: Arithmetic>(self, ar: &A, s: Scalar) -> (r: Colour)
        requires
            exact(ar),
        ensures
            r == self.spec_over(ar, s),
    {
        Colour {
            red: over(ar, self.red, s),
            green: over(ar, self.green, s),
            blue: over(ar, self.blue, s),
        }
    }
}

} // verus!
