//! Scenes: geometry, materials, a camera and a background.
use crate::arithmetic::{difference, exact, minus, plus, product, sum, times, Arithmetic};
use crate::camera::Camera;
use crate::colour::Colour;
use crate::hittable::Hittable;
use crate::material::Material;
use crate::ray::Ray;
use crate::scalar::{Scalar, HALF, ONE, SEVEN_TENTHS};
use crate::v3::unit_vector;
use vstd::prelude::*;

verus! {

/// The scenes that can be asked for by name.
#[derive(Clone, Copy, PartialEq, Eq, Debug)]
pub enum SceneConfig {
    Example,
    ExampleBVH,
    NTS,
}

/// What a ray sees that hits nothing.
#[derive(Clone, Copy, PartialEq, Eq, Debug, Structural)]
pub enum Background {
    /// Darkness: the scene is lit by its lights alone.
    Black,
    /// A sky that fades from white at the horizon to blue overhead.
    Sky,
}

/// A scene, ready to be rendered.
pub struct Scene {
    pub aspect_ratio: Scalar,
    pub world: Hittable,
    pub camera: Camera,
    /// The materials that the primitives of `world` name by index.
    pub materials: Vec<Material>,
    pub background: Background,
}

impl Background {
    /// The colour of the sky in the direction of `ray`: with `t` half of the
    /// unit direction's height plus one, `(1 - t) white + t (0.5, 0.7, 1.0)`.
    pub open spec fn spec_sky<A: Arithmetic>(ar: &A, ray: Ray) -> Colour {
        let one = Scalar { bits: ONE };
        let unit_direction = ray.direction.spec_unit_vector(ar);
        let t = product(ar, Scalar { bits: HALF }, sum(ar, unit_direction.y, one));
        let blue = Colour { red: Scalar { bits: HALF }, green: Scalar { bits: SEVEN_TENTHS }, blue: one };
        Colour::spec_white().spec_scaled(ar, difference(ar, one, t)).spec_plus(
            ar,
            blue.spec_scaled(ar, t),
        )
    }

    /// What `ray` sees of the background.
    pub open spec fn spec_colour<A: Arithmetic>(self, ar: &A, ray: Ray) -> Colour {
        match self {
            Background::Black => Colour::spec_black(),
            Background::Sky => Background::spec_sky(ar, ray),
        }
    }

    /// What `ray` sees of the background.
    pub fn colour<A: Arithmetic>(&self, ar: &A, ray: &Ray) -> (r: Colour)
        requires
            exact(ar),
        ensures
            r == self.spec_colour(ar, *ray),
    {
        match self {
            Background::Black => Colour::black(),
            Background::Sky => {
                let one: Scalar = Scalar { bits: ONE };
                let unit_direction = unit_vector(ar, ray.direction);
                let t: Scalar = times(ar, Scalar { bits: HALF }, plus(ar, unit_direction.y, one));
                let blue: Colour = Colour::new(
                    Scalar { bits: HALF },
                    Scalar { bits: SEVEN_TENTHS },
                    one,
                );
                Colour::white().scaled(ar, minus(ar, one, t)).plus(ar, blue.scaled(ar, t))
            },
        }
    }
}

impl Scene {
    /// Every primitive of the world names a material that the scene has.
    pub open spec fn well_formed(self) -> bool {
        self.world.materials_below(self.materials.len())
    }

    /// Whether every sphere and rectangle of the world names a material that the
    /// scene has.
    pub fn is_well_formed(&self) -> (r: bool)
        ensures
            r == self.well_formed(),
    {
        self.world.has_materials_below(self.materials.len())
    }
}

} // verus!
