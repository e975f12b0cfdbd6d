//! Surface colour as a function of where a surface is hit.
use crate::arithmetic::{exact, product, sin, sine, times, Arithmetic};
use crate::colour::Colour;
use crate::scalar::{Scalar, ZERO};
use crate::v3::V3;
use vstd::prelude::*;

verus! {

/// One colour everywhere.
#[derive(PartialEq, Eq, Debug)]
pub struct SolidColour {
    pub colour: Colour,
}

/// A pattern of cells in space that alternate between two textures.
#[derive(PartialEq, Eq, Debug)]
pub struct Checkers {
    /// Spatial frequency of the pattern.
    pub scale: Scalar,
    pub odd: Box<Texture>,
    pub even: Box<Texture>,
}

/// A texture: queried by texture coordinates and point, it gives a colour.
#[derive(PartialEq, Eq, Debug)]
pub enum Texture {
    SolidColour(SolidColour),
    Checkers(Checkers),
}

impl SolidColour {
    /// The texture of the one colour `colour`.
    pub fn new(colour: Colour) -> (r: SolidColour)
        ensures
            r.colour == colour,
    {
        SolidColour { colour }
    }

    /// The one colour, wherever it is asked for.
    pub fn colour(&self, u: Scalar, v: Scalar, p: V3) -> (r: Colour)
        ensures
            r == self.colour,
    {
        self.colour
    }
}

impl Checkers {
    /// Checkers of spatial frequency `scale` that alternate between the textures
    /// `even` and `odd`.
    pub fn new(scale: Scalar, even: Texture, odd: Texture) -> (r: Checkers)
        ensures
            r.scale == scale,
            *r.even == even,
            *r.odd == odd,
    {
        Checkers { scale, odd: Box::new(odd), even: Box::new(even) }
    }

    /// Checkers of spatial frequency `scale` that alternate between the colours
    /// `even` and `odd`.
    pub fn new_from_colours(scale: Scalar, even: Colour, odd: Colour) -> (r: Checkers)
        ensures
            r.scale == scale,
            *r.even == Texture::SolidColour(SolidColour { colour: even }),
            *r.odd == Texture::SolidColour(SolidColour { colour: odd }),
    {
        Checkers {
            scale,
            odd: Box::new(Texture::SolidColour(SolidColour::new(odd))),
            even: Box::new(Texture::SolidColour(SolidColour::new(even))),
        }
    }

    /// The point lies in an odd cell of the pattern: the product
    /// `sin(scale x) sin(scale y) sin(scale z)` is negative.
    pub open spec fn spec_in_odd_cell<A: Arithmetic>(self, ar: &A, p: V3) -> bool {
        product(
            ar,
            product(
                ar,
                sine(ar, product(ar, self.scale, p.x)),
                sine(ar, product(ar, self.scale, p.y)),
            ),
            sine(ar, product(ar, self.scale, p.z)),
        ).spec_lt(Scalar { bits: ZERO })
    }

    /// Whether the point lies in an odd cell of the pattern.
    pub fn in_odd_cell<A: Arithmetic>(&self, ar: &A, p: V3) -> (r: bool)
        requires
            exact(ar),
        ensures
            r == self.spec_in_odd_cell(ar, p),
    {
        let sx: Scalar = sin(ar, times(ar, self.scale, p.x));
        let sy: Scalar = sin(ar, times(ar, self.scale, p.y));
        let sz: Scalar = sin(ar, times(ar, self.scale, p.z));
        let sines: Scalar = times(ar, times(ar, sx, sy), sz);
        sines.lt(Scalar { bits: ZERO })
    }
}

impl Texture {
    /// The colour at texture coordinates `(u, v)` and point `p`: a solid
    /// colour's one colour; for checkers, the colour of the odd texture in
    /// odd cells and of the even texture elsewhere.
    pub open spec fn spec_colour<A: Arithmetic>(self, ar: &A, u: Scalar, v: Scalar, p: V3) -> Colour
        decreases self,
    {
        match self {
            Texture::SolidColour(s) => s.colour,
            Texture::Checkers(c) => if c.spec_in_odd_cell(ar, p) {
                c.odd.spec_colour(ar, u, v, p)
            } else {
                c.even.spec_colour(ar, u, v, p)
            },
        }
    }

    /// The colour at texture coordinates `(u, v)` and point `p`: a solid
    /// colour's one colour; for checkers, the colour of the odd texture in odd
    /// cells and of the even texture elsewhere.
    pub fn colour<A: Arithmetic>(&self, ar: &A, u: Scalar, v: Scalar, p: V3) -> (r: Colour)
        requires
            exact(ar),
        ensures
            r == self.spec_colour(ar, u, v, p),
        decreases self,
    {
        match self {
            Texture::SolidColour(s) => s.colour(u, v, p),
            Texture::Checkers(c) => {
                if c.in_odd_cell(ar, p) {
                    c.odd.colour(ar, u, v, p)
                } else {
                    c.even.colour(ar, u, v, p)
                }
            },
        }
    }
}

} // verus!
