//! Rendering: from a scene to an image, one pixel estimate at a time.
use crate::arithmetic::{
    count_of, difference, exact, from_count, minus, over, plus, quotient, scalar_of, sum,
    to_count, Arithmetic,
};
use crate::colour::Colour;
use crate::image::generate_image;
use crate::integrator::{lemma_radiance_is_settled, radiates, ray_colour};
use crate::random::{may_draw, settled, RandomSource};
use crate::ray::Ray;
use crate::scalar::{Scalar, ONE};
use crate::scenes::Scene;
use vstd::prelude::*;

verus! {

/// How much work a rendering spends.
#[derive(Clone, Copy, PartialEq, Eq, Debug, Structural)]
pub enum Fidelity {
    /// A quick look: 200 pixels across, 50 samples a pixel, 10 bounces.
    Small,
    /// The full picture: 1200 pixels across, 500 samples a pixel, 50 bounces.
    Full,
}

/// The settings of a rendering.
#[derive(Clone, Copy, PartialEq, Eq, Debug, Structural)]
pub struct Settings {
    pub samples_per_pixel: u64,
    pub max_depth: u64,
    pub image_width: u64,
    pub image_height: u64,
}

/// The settings that `fidelity` stands for, for an image whose width is
/// `aspect_ratio` times its height: the height is the width divided by the
/// aspect ratio, cut to a count.
pub open spec fn spec_get_fidelity<A: Arithmetic>(
    ar: &A,
    fidelity: Fidelity,
    aspect_ratio: Scalar,
) -> Settings {
    let image_width: u64 = match fidelity {
        Fidelity::Small => 200,
        Fidelity::Full => 1200,
    };
    Settings {
        samples_per_pixel: match fidelity {
            Fidelity::Small => 50,
            Fidelity::Full => 500,
        },
        max_depth: match fidelity {
            Fidelity::Small => 10,
            Fidelity::Full => 50,
        },
        image_width,
        image_height: count_of(ar, quotient(ar, scalar_of(ar, image_width), aspect_ratio)),
    }
}

/// The settings that `fidelity` stands for, for an image whose width is
/// `aspect_ratio` times its height: the height is the width divided by the
/// aspect ratio, cut to a count.
pub fn get_fidelity<A: Arithmetic>(ar: &A, fidelity: Fidelity, aspect_ratio: Scalar) -> (r: Settings)
    requires
        exact(ar),
    ensures
        r == spec_get_fidelity(ar, fidelity, aspect_ratio),
{
    let image_width: u64 = match fidelity {
        Fidelity::Small => 200,
        Fidelity::Full => 1200,
    };
    let image_height: u64 = to_count(ar, over(ar, from_count(ar, image_width), aspect_ratio));

    let samples_per_pixel: u64 = match fidelity {
        Fidelity::Small => 50,
        Fidelity::Full => 500,
    };
    let max_depth: u64 = match fidelity {
        Fidelity::Small => 10,
        Fidelity::Full => 50,
    };
    Settings { samples_per_pixel, max_depth, image_width, image_height }
}

/// The screen coordinate of a sample: the pixel's index `index` plus the
/// jitter `jitter`, as a fraction of `extent - 1`.
pub open spec fn spec_screen_coordinate<A: Arithmetic>(
    ar: &A,
    index: u64,
    jitter: Scalar,
    extent: u64,
) -> Scalar {
    quotient(
        ar,
        sum(ar, scalar_of(ar, index), jitter),
        difference(ar, scalar_of(ar, extent), Scalar { bits: ONE }),
    )
}

/// The screen coordinate of a sample: the pixel's index `index` plus the jitter
/// `jitter`, as a fraction of `extent - 1`.
pub fn screen_coordinate<A: Arithmetic>(ar: &A, index: u64, jitter: Scalar, extent: u64) -> (r:
    Scalar)
    requires
        exact(ar),
    ensures
        r == spec_screen_coordinate(ar, index, jitter, extent),
{
    over(
        ar,
        plus(ar, from_count(ar, index), jitter),
        minus(ar, from_count(ar, extent), Scalar { bits: ONE }),
    )
}

/// `sample` is a radiance that one sample of the pixel at `(row, col)` may
/// give: the radiance arriving along a camera ray through the pixel, jittered
/// within it by two uniform draws, first across and then up.
pub open spec fn samples<A: Arithmetic, S: RandomSource>(
    ar: &A,
    source: &S,
    scene: Scene,
    settings: Settings,
    row: u64,
    col: u64,
    sample: Colour,
) -> bool {
    exists|u_d: Scalar, v_d: Scalar, ray: Ray|
        {
            &&& may_draw(source, u_d)
            &&& may_draw(source, v_d)
            &&& #[trigger] scene.camera.may_send(
                ar,
                source,
                spec_screen_coordinate(ar, col, u_d, settings.image_width),
                spec_screen_coordinate(ar, row, v_d, settings.image_height),
                ray,
            )
            &&& radiates(ar, source, scene, ray, settings.max_depth, sample)
        }
}

/// `total` is a sum that `count` samples of the pixel at `(row, col)` may
/// add up to, each added to the sum of those before it, from black.
pub open spec fn accumulates<A: Arithmetic, S: RandomSource>(
    ar: &A,
    source: &S,
    scene: Scene,
    settings: Settings,
    row: u64,
    col: u64,
    count: u64,
    total: Colour,
) -> bool
    decreases count,
{
    if count == 0 {
        total == Colour::spec_black()
    } else {
        exists|before: Colour, sample: Colour|
            {
                &&& accumulates(
                    ar,
                    source,
                    scene,
                    settings,
                    row,
                    col,
                    (count - 1) as u64,
                    before,
                )
                &&& samples(ar, source, scene, settings, row, col, sample)
                &&& total == #[trigger] before.spec_plus(ar, sample)
            }
    }
}

/// `colour` is a colour that the pixel at `(row, col)` may get: the gamma
/// corrected mean of its samples, that is their sum scaled by one over their
/// number, and of each channel the square root.
pub open spec fn estimates<A: Arithmetic, S: RandomSource>(
    ar: &A,
    source: &S,
    scene: Scene,
    settings: Settings,
    row: u64,
    col: u64,
    colour: Colour,
) -> bool {
    exists|total: Colour|
        accumulates(ar, source, scene, settings, row, col, settings.samples_per_pixel, total)
            && colour == #[trigger] total.spec_gamma_correct(
            ar,
            quotient(ar, Scalar { bits: ONE }, scalar_of(ar, settings.samples_per_pixel)),
        )
}

/// With settled draws a sample of a pixel has one value only.
proof fn lemma_sample_is_settled<A: Arithmetic, S: RandomSource>(
    ar: &A,
    source: &S,
    scene: Scene,
    settings: Settings,
    row: u64,
    col: u64,
    first: Colour,
    second: Colour,
)
    requires
        settled(source),
        samples(ar, source, scene, settings, row, col, first),
        samples(ar, source, scene, settings, row, col, second),
    ensures
        first == second,
{
    let (u1, v1, r1) = choose|u_d: Scalar, v_d: Scalar, ray: Ray|
        {
            &&& may_draw(source, u_d)
            &&& may_draw(source, v_d)
            &&& #[trigger] scene.camera.may_send(
                ar,
                source,
                spec_screen_coordinate(ar, col, u_d, settings.image_width),
                spec_screen_coordinate(ar, row, v_d, settings.image_height),
                ray,
            )
            &&& radiates(ar, source, scene, ray, settings.max_depth, first)
        };
    let (u2, v2, r2) = choose|u_d: Scalar, v_d: Scalar, ray: Ray|
        {
            &&& may_draw(source, u_d)
            &&& may_draw(source, v_d)
            &&& #[trigger] scene.camera.may_send(
                ar,
                source,
                spec_screen_coordinate(ar, col, u_d, settings.image_width),
                spec_screen_coordinate(ar, row, v_d, settings.image_height),
                ray,
            )
            &&& radiates(ar, source, scene, ray, settings.max_depth, second)
        };
    assert(u1 == u2 && v1 == v2);
    assert(r1 == r2);
    lemma_radiance_is_settled(ar, source, scene, r1, settings.max_depth, first, second);
}

/// With settled draws the samples of a pixel add up to one sum only.
proof fn lemma_sum_is_settled<A: Arithmetic, S: RandomSource>(
    ar: &A,
    source: &S,
    scene: Scene,
    settings: Settings,
    row: u64,
    col: u64,
    count: u64,
    first: Colour,
    second: Colour,
)
    requires
        settled(source),
        accumulates(ar, source, scene, settings, row, col, count, first),
        accumulates(ar, source, scene, settings, row, col, count, second),
    ensures
        first == second,
    decreases count,
{
    if count > 0 {
        let (b1, s1) = choose|before: Colour, sample: Colour|
            {
                &&& accumulates(
                    ar,
                    source,
                    scene,
                    settings,
                    row,
                    col,
                    (count - 1) as u64,
                    before,
                )
                &&& samples(ar, source, scene, settings, row, col, sample)
                &&& first == #[trigger] before.spec_plus(ar, sample)
            };
        let (b2, s2) = choose|before: Colour, sample: Colour|
            {
                &&& accumulates(
                    ar,
                    source,
                    scene,
                    settings,
                    row,
                    col,
                    (count - 1) as u64,
                    before,
                )
                &&& samples(ar, source, scene, settings, row, col, sample)
                &&& second == #[trigger] before.spec_plus(ar, sample)
            };
        lemma_sum_is_settled(ar, source, scene, settings, row, col, (count - 1) as u64, b1, b2);
        lemma_sample_is_settled(ar, source, scene, settings, row, col, s1, s2);
    }
}

/// With settled draws a pixel gets one colour only: the picture is a function
/// of the scene, the settings, the arithmetic and the draws, and of nothing
/// else.
pub proof fn lemma_pixel_is_settled<A: Arithmetic, S: RandomSource>(
    ar: &A,
    source: &S,
    scene: Scene,
    settings: Settings,
    row: u64,
    col: u64,
    first: Colour,
    second: Colour,
)
    requires
        settled(source),
        estimates(ar, source, scene, settings, row, col, first),
        estimates(ar, source, scene, settings, row, col, second),
    ensures
        first == second,
{
    let scale = quotient(ar, Scalar { bits: ONE }, scalar_of(ar, settings.samples_per_pixel));
    let t1 = choose|total: Colour|
        accumulates(ar, source, scene, settings, row, col, settings.samples_per_pixel, total)
            && first == #[trigger] total.spec_gamma_correct(ar, scale);
    let t2 = choose|total: Colour|
        accumulates(ar, source, scene, settings, row, col, settings.samples_per_pixel, total)
            && second == #[trigger] total.spec_gamma_correct(ar, scale);
    lemma_sum_is_settled(
        ar,
        source,
        scene,
        settings,
        row,
        col,
        settings.samples_per_pixel,
        t1,
        t2,
    );
}

/// The colour of the pixel at `(row, col)`.
pub fn pixel_colour<A: Arithmetic, S: RandomSource>(
    ar: &A,
    source: &S,
    scene: &Scene,
    settings: &Settings,
    row: u64,
    col: u64,
) -> (r: Colour)
    requires
        exact(ar),
        scene.well_formed(),
    ensures
        estimates(ar, source, *scene, *settings, row, col, r),
{
    let mut colour: Colour = Colour::black();
    let mut taken: u64 = 0;
    while taken < settings.samples_per_pixel
        invariant
            exact(ar),
            scene.well_formed(),
            taken <= settings.samples_per_pixel,
            accumulates(ar, source, *scene, *settings, row, col, taken, colour),
        decreases settings.samples_per_pixel - taken,
    {
        let u_d: Scalar = source.uniform();
        let v_d: Scalar = source.uniform();
        let u: Scalar = screen_coordinate(ar, col, u_d, settings.image_width);
        let v: Scalar = screen_coordinate(ar, row, v_d, settings.image_height);
        let ray: Ray = scene.camera.get_ray(ar, source, u, v);
        let sample: Colour = ray_colour(ar, source, &ray, scene, settings.max_depth);
        colour = colour.plus(ar, sample);
        taken = taken + 1;
    }
    colour.gamma_correct(ar, over(ar, Scalar { bits: ONE }, from_count(ar, settings.samples_per_pixel)))
}

/// Renders `scene` at `fidelity`: an image of as many rows and columns as
/// the settings for the scene's aspect ratio say, row 0 being the lowest.
pub fn render_scene<A: Arithmetic, S: RandomSource>(
    ar: &A,
    source: &S,
    scene: &Scene,
    fidelity: Fidelity,
) -> (image: Vec<Vec<Colour>>)
    requires
        exact(ar),
        scene.well_formed(),
    ensures
        image@.len() == spec_get_fidelity(ar, fidelity, scene.aspect_ratio).image_height,
        forall|row: int|
            0 <= row < image@.len() ==> (#[trigger] image@[row])@.len() == spec_get_fidelity(
                ar,
                fidelity,
                scene.aspect_ratio,
            ).image_width,
        forall|row: int, col: int|
            0 <= row < image@.len() && 0 <= col < image@[row]@.len() ==> estimates(
                ar,
                source,
                *scene,
                spec_get_fidelity(ar, fidelity, scene.aspect_ratio),
                row as u64,
                col as u64,
                #[trigger] image@[row]@[col],
            ),
{
    let settings: Settings = get_fidelity(ar, fidelity, scene.aspect_ratio);
    render(ar, source, scene, &settings)
}

/// Renders `scene` with the given settings.
pub fn render<A: Arithmetic, S: RandomSource>(
    ar: &A,
    source: &S,
    scene: &Scene,
    settings: &Settings,
) -> (image: Vec<Vec<Colour>>)
    requires
        exact(ar),
        scene.well_formed(),
    ensures
        image@.len() == settings.image_height,
        forall|row: int|
            0 <= row < image@.len() ==> (#[trigger] image@[row])@.len() == settings.image_width,
        forall|row: int, col: int|
            0 <= row < image@.len() && 0 <= col < image@[row]@.len() ==> estimates(
                ar,
                source,
                *scene,
                *settings,
                row as u64,
                col as u64,
                #[trigger] image@[row]@[col],
            ),
{
    let f = |row: u64, col: u64| -> (c: Colour)
        ensures
            estimates(ar, source, *scene, *settings, row, col, c),
        { pixel_colour(ar, source, scene, settings, row, col) };
    generate_image(settings.image_width, settings.image_height, f)
}

} // verus!
