//! Images: rows of colours, and the levels they are written as.
use crate::arithmetic::{
    count_of, exact, from_count, over, product, quotient, scalar_of, times, to_count, Arithmetic,
};
use crate::colour::Colour;
use crate::scalar::{Scalar, BRIGHTEST, LEVELS, QUARTER, ZERO};
use vstd::prelude::*;

verus! {

/// The level at which a channel of intensity `x` is written: `x` held to
/// `[0, 0.999]`, times 256, cut to a count.
pub open spec fn spec_level<A: Arithmetic>(ar: &A, x: Scalar) -> u64 {
    count_of(
        ar,
        product(
            ar,
            x.spec_clamp(Scalar { bits: ZERO }, Scalar { bits: BRIGHTEST }),
            Scalar { bits: LEVELS },
        ),
    )
}

/// The level at which a channel of intensity `x` is written: `x` held to `[0,
/// 0.999]`, times 256, cut to a count.
pub fn level<A: Arithmetic>(ar: &A, x: Scalar) -> (r: u64)
    requires
        exact(ar),
    ensures
        r == spec_level(ar, x),
{
    to_count(
        ar,
        times(
            ar,
            x.clamp(Scalar { bits: ZERO }, Scalar { bits: BRIGHTEST }),
            Scalar { bits: LEVELS },
        ),
    )
}

/// The red, green and blue levels at which `colour` is written.
pub open spec fn spec_levels<A: Arithmetic>(ar: &A, colour: Colour) -> (u64, u64, u64) {
    (spec_level(ar, colour.red), spec_level(ar, colour.green), spec_level(ar, colour.blue))
}

/// The red, green and blue levels at which `colour` is written.
pub fn levels<A: Arithmetic>(ar: &A, colour: &Colour) -> (r: (u64, u64, u64))
    requires
        exact(ar),
    ensures
        r == spec_levels(ar, *colour),
{
    (level(ar, colour.red), level(ar, colour.green), level(ar, colour.blue))
}

/// The pixels of `image` in the order in which they are written: the last
/// row first, and each row from its first pixel to its last.
pub open spec fn spec_written<A: Arithmetic>(ar: &A, image: Seq<Vec<Colour>>) -> Seq<
    (u64, u64, u64),
>
    decreases image.len(),
{
    if image.len() == 0 {
        Seq::empty()
    } else {
        image.last()@.map_values(|c: Colour| spec_levels(ar, c)) + spec_written(
            ar,
            image.drop_last(),
        )
    }
}

/// The levels of every pixel of `image`, in the order in which they are
/// written.
pub fn written<A: Arithmetic>(ar: &A, image: &Vec<Vec<Colour>>) -> (r: Vec<(u64, u64, u64)>)
    requires
        exact(ar),
    ensures
        r@ == spec_written(ar, image@),
{
    let mut out: Vec<(u64, u64, u64)> = Vec::new();
    let mut remaining: usize = image.len();
    proof {
        assert(image@.take(remaining as int) == image@);
    }
    while remaining > 0
        invariant
            exact(ar),
            remaining <= image.len(),
            spec_written(ar, image@) == out@ + spec_written(ar, image@.take(remaining as int)),
        decreases remaining,
    {
        let row: &Vec<Colour> = &image[remaining - 1];
        let ghost before = out@;
        let ghost rows = image@.take(remaining as int);
        let mut i: usize = 0;
        while i < row.len()
            invariant
                exact(ar),
                i <= row.len(),
                out@ == before + row@.take(i as int).map_values(|c: Colour| spec_levels(ar, c)),
            decreases row.len() - i,
        {
            let l = levels(ar, &row[i]);
            out.push(l);
            i = i + 1;
        }
        proof {
            assert(rows.drop_last() == image@.take(remaining as int - 1));
        }
        remaining = remaining - 1;
    }
    out
}

/// An image of `height` rows of `width` pixels, the pixel in row `row` and
/// column `col` being what `f` gives for `(row, col)`. Rows are filled from
/// row 0, and each row from column 0.
pub fn generate_image<F: Fn(u64, u64) -> Colour>(width: u64, height: u64, f: F) -> (image: Vec<
    Vec<Colour>,
>)
    requires
        forall|row: u64, col: u64| row < height && col < width ==> call_requires(f, (row, col)),
    ensures
        image@.len() == height,
        forall|row: int| 0 <= row < height ==> (#[trigger] image@[row])@.len() == width,
        forall|row: int, col: int|
            0 <= row < height && 0 <= col < width ==> call_ensures(
                f,
                (row as u64, col as u64),
                #[trigger] image@[row]@[col],
            ),
{
    let mut image: Vec<Vec<Colour>> = Vec::new();
    let mut row: u64 = 0;
    while row < height
        invariant
            row <= height,
            image@.len() == row,
            forall|r: u64, c: u64| r < height && c < width ==> call_requires(f, (r, c)),
            forall|r: int| 0 <= r < row ==> (#[trigger] image@[r])@.len() == width,
            forall|r: int, c: int|
                0 <= r < row && 0 <= c < width ==> call_ensures(
                    f,
                    (r as u64, c as u64),
                    #[trigger] image@[r]@[c],
                ),
        decreases height - row,
    {
        let mut line: Vec<Colour> = Vec::new();
        let mut col: u64 = 0;
        while col < width
            invariant
                row < height,
                col <= width,
                line@.len() == col,
                forall|r: u64, c: u64| r < height && c < width ==> call_requires(f, (r, c)),
                forall|c: int|
                    0 <= c < col ==> call_ensures(f, (row, c as u64), #[trigger] line@[c]),
            decreases width - col,
        {
            line.push(f(row, col));
            col = col + 1;
        }
        image.push(line);
        row = row + 1;
    }
    image
}

/// The colour of the test gradient at `(row, col)`: red rises with the column
/// to one at the last, green with the row, and blue is a quarter throughout.
pub open spec fn spec_gradient_at<A: Arithmetic>(
    ar: &A,
    width: u64,
    height: u64,
    row: u64,
    col: u64,
) -> Colour {
    Colour {
        red: quotient(ar, scalar_of(ar, col), scalar_of(ar, (width - 1) as u64)),
        green: quotient(ar, scalar_of(ar, row), scalar_of(ar, (height - 1) as u64)),
        blue: Scalar { bits: QUARTER },
    }
}

/// The colour of the test gradient at `(row, col)`: red rises with the column
/// to one at the last, green with the row, and blue is a quarter throughout.
pub fn gradient_at<A: Arithmetic>(ar: &A, width: u64, height: u64, row: u64, col: u64) -> (r:
    Colour)
    requires
        exact(ar),
        width >= 1,
        height >= 1,
    ensures
        r == spec_gradient_at(ar, width, height, row, col),
{
    Colour {
        red: over(ar, from_count(ar, col), from_count(ar, width - 1)),
        green: over(ar, from_count(ar, row), from_count(ar, height - 1)),
        blue: Scalar { bits: QUARTER },
    }
}

/// The test gradient, `height` rows of `width` pixels.
pub fn generate_gradient<A: Arithmetic>(ar: &A, width: u64, height: u64) -> (image: Vec<
    Vec<Colour>,
>)
    requires
        exact(ar),
    ensures
        image@.len() == height,
        forall|row: int| 0 <= row < height ==> (#[trigger] image@[row])@.len() == width,
        forall|row: int, col: int|
            0 <= row < height && 0 <= col < width ==> #[trigger] image@[row]@[col]
                == spec_gradient_at(ar, width, height, row as u64, col as u64),
{
    let f = |row: u64, col: u64| -> (c: Colour)
        requires
            row < height,
            col < width,
        ensures
            c == spec_gradient_at(ar, width, height, row, col),
        { gradient_at(ar, width, height, row, col) };
    generate_image(width, height, f)
}

} // verus!
