//! Materials: how a surface sends light on, and what it emits.
use crate::arithmetic::{
    difference, exact, minus, over, plus, power, powi, product, quotient, sqrt, square_root, sum,
    times, Arithmetic,
};
use crate::colour::Colour;
use crate::hittable::HitRecord;
use crate::random::{may_draw, may_draw_in_sphere, settled, RandomSource};
use crate::ray::Ray;
use crate::scalar::{Scalar, ONE, ZERO};
use crate::texture::{SolidColour, Texture};
use crate::v3::{reflect, spec_reflect, unit_vector, V3};
use vstd::prelude::*;

verus! {

/// A diffuse surface.
#[derive(PartialEq, Eq, Debug)]
pub struct Lambertian {
    pub albedo: Texture,
}

/// A mirror, blurred by `fuzz`.
#[derive(PartialEq, Eq, Debug)]
pub struct Metal {
    pub albedo: Colour,
    pub fuzz: Scalar,
}

/// Clear glass.
#[derive(PartialEq, Eq, Debug)]
pub struct Dielectric {
    pub index_of_refraction: Scalar,
}

/// A surface that glows and sends no light on.
#[derive(PartialEq, Eq, Debug)]
pub struct DiffuseLight {
    pub emit: Colour,
}

/// A material, of one of four kinds.
#[derive(PartialEq, Eq, Debug)]
pub enum Material {
    Lambertian(Lambertian),
    Metal(Metal),
    Dielectric(Dielectric),
    DiffuseLight(DiffuseLight),
}

/// The random values that one scattering may use.
#[derive(Clone, Copy, PartialEq, Eq, Debug, Structural)]
pub struct Draws {
    /// A point of the unit ball.
    pub point: V3,
    /// A value of `[0, 1)`.
    pub uniform: Scalar,
}

impl Lambertian {
    /// A diffuse surface of the one colour `albedo`.
    pub fn new(albedo: Colour) -> (r: Lambertian)
        ensures
            r.albedo == Texture::SolidColour(SolidColour { colour: albedo }),
    {
        Lambertian { albedo: Texture::SolidColour(SolidColour::new(albedo)) }
    }

    /// A diffuse surface coloured by `texture`.
    pub fn new_from_texture(texture: Texture) -> (r: Lambertian)
        ensures
            r.albedo == texture,
    {
        Lambertian { albedo: texture }
    }

    /// The direction in which light leaves: the normal plus the random
    /// direction, or the normal itself where the two all but cancel.
    pub open spec fn spec_scatter_direction<A: Arithmetic>(
        ar: &A,
        normal: V3,
        random_unit: V3,
    ) -> V3 {
        let direction = normal.spec_plus(ar, random_unit);
        if direction.spec_near_zero() {
            normal
        } else {
            direction
        }
    }

    /// The scattered ray and its attenuation for the random direction
    /// `random_unit`: the ray leaves the hit point in the scatter direction,
    /// attenuated by the albedo at the hit.
    pub open spec fn spec_scatter_with<A: Arithmetic>(
        self,
        ar: &A,
        hit_record: HitRecord,
        random_unit: V3,
    ) -> (Ray, Colour) {
        (
            Ray {
                origin: hit_record.point,
                direction: Lambertian::spec_scatter_direction(ar, hit_record.normal, random_unit),
            },
            self.albedo.spec_colour(ar, hit_record.u, hit_record.v, hit_record.point),
        )
    }

    /// The direction in which light leaves: the normal plus the random
    /// direction, or the normal itself where the two all but cancel.
    pub fn scatter_direction<A: Arithmetic>(ar: &A, normal: V3, random_unit: V3) -> (r: V3)
        requires
            exact(ar),
        ensures
            r == Lambertian::spec_scatter_direction(ar, normal, random_unit),
            !normal.spec_near_zero() ==> !r.spec_near_zero(),
    {
        let scatter_direction: V3 = normal.plus(ar, random_unit);
        if scatter_direction.near_zero() {
            normal
        } else {
            scatter_direction
        }
    }

    /// The scattered ray and its attenuation for the random direction
    /// `random_unit`: the ray leaves the hit point in the scatter direction,
    /// attenuated by the albedo at the hit.
    pub fn scatter_with<A: Arithmetic>(
        &self,
        ar: &A,
        hit_record: &HitRecord,
        random_unit: V3,
    ) -> (r: (Ray, Colour))
        requires
            exact(ar),
        ensures
            r == self.spec_scatter_with(ar, *hit_record, random_unit),
            !hit_record.normal.spec_near_zero() ==> !r.0.direction.spec_near_zero(),
    {
        let scatter_direction: V3 = Lambertian::scatter_direction(
            ar,
            hit_record.normal,
            random_unit,
        );
        let scattered: Ray = Ray::new(hit_record.point, scatter_direction);
        let colour: Colour = self.albedo.colour(ar, hit_record.u, hit_record.v, hit_record.point);
        (scattered, colour)
    }
}

impl Metal {
    /// The fuzz that a metal keeps of the one it is given: the value itself
    /// between zero and one, zero below, and one above or where the value is
    /// not a number.
    pub open spec fn spec_limit_fuzz(fuzz: Scalar) -> Scalar {
        if fuzz.spec_lt(Scalar { bits: ONE }) {
            if fuzz.spec_lt(Scalar { bits: ZERO }) {
                Scalar { bits: ZERO }
            } else {
                fuzz
            }
        } else {
            Scalar { bits: ONE }
        }
    }

    /// A metal of colour `albedo`; `fuzz` is held to the range from zero to one.
    pub fn new(albedo: Colour, fuzz: Scalar) -> (r: Metal)
        ensures
            r.albedo == albedo,
            r.fuzz == Metal::spec_limit_fuzz(fuzz),
            (Scalar { bits: ZERO }).spec_le(r.fuzz),
            r.fuzz.spec_le(Scalar { bits: ONE }),
    {
        let limited_fuzz: Scalar = if fuzz.lt(Scalar { bits: ONE }) {
            if fuzz.lt(Scalar { bits: ZERO }) {
                Scalar { bits: ZERO }
            } else {
                fuzz
            }
        } else {
            Scalar { bits: ONE }
        };
        Metal { albedo, fuzz: limited_fuzz }
    }

    /// The direction in which the mirror sends the ray on: the unit incoming
    /// direction reflected about the normal, displaced by `fuzz` times the
    /// random point.
    pub open spec fn spec_scatter_direction<A: Arithmetic>(
        self,
        ar: &A,
        incoming: V3,
        normal: V3,
        random_point: V3,
    ) -> V3 {
        spec_reflect(ar, incoming.spec_unit_vector(ar), normal).spec_plus(
            ar,
            random_point.spec_scaled(ar, self.fuzz),
        )
    }

    /// The direction in which the mirror sends the ray on: the unit incoming
    /// direction reflected about the normal, displaced by `fuzz` times the
    /// random point.
    pub fn scatter_direction<A: Arithmetic>(
        &self,
        ar: &A,
        incoming: V3,
        normal: V3,
        random_point: V3,
    ) -> (r: V3)
        requires
            exact(ar),
        ensures
            r == self.spec_scatter_direction(ar, incoming, normal, random_point),
    {
        let reflected: V3 = reflect(ar, unit_vector(ar, incoming), normal);
        reflected.plus(ar, random_point.scaled(ar, self.fuzz))
    }

    /// The scattered ray and its attenuation for the random point
    /// `random_point` of the unit ball. A direction that does not leave the
    /// surface (`direction . normal <= 0`) is absorbed.
    pub open spec fn spec_scatter_with<A: Arithmetic>(
        self,
        ar: &A,
        ray_in: Ray,
        hit_record: HitRecord,
        random_point: V3,
    ) -> Option<(Ray, Colour)> {
        let direction = self.spec_scatter_direction(
            ar,
            ray_in.direction,
            hit_record.normal,
            random_point,
        );
        if V3::spec_dot(ar, direction, hit_record.normal).spec_le(Scalar { bits: ZERO }) {
            None
        } else {
            Some((Ray { origin: hit_record.point, direction }, self.albedo))
        }
    }

    /// The scattered ray and its attenuation for the random point
    /// `random_point` of the unit ball.
    pub fn scatter_with<A: Arithmetic>(
        &self,
        ar: &A,
        ray_in: &Ray,
        hit_record: &HitRecord,
        random_point: V3,
    ) -> (r: Option<(Ray, Colour)>)
        requires
            exact(ar),
        ensures
            r == self.spec_scatter_with(ar, *ray_in, *hit_record, random_point),
            r matches Some(s) ==> !V3::spec_dot(ar, s.0.direction, hit_record.normal).spec_le(
                Scalar { bits: ZERO },
            ),
    {
        let scattered: Ray = Ray::new(
            hit_record.point,
            self.scatter_direction(ar, ray_in.direction, hit_record.normal, random_point),
        );
        if V3::dot(ar, scattered.direction, hit_record.normal).le(Scalar { bits: ZERO }) {
            return None;
        }
        Some((scattered, self.albedo))
    }
}

/// The direction of the unit vector `uv` after it enters a medium through a
/// surface with normal `n`, by Snell's law with the ratio `etai_over_etat` of
/// refractive indices: with `cos = min(-uv . n, 1)`, the part across the
/// normal is `ratio (uv + cos n)` and the part along it
/// `-sqrt(|1 - |across|^2|) n`.
pub open spec fn spec_refract<A: Arithmetic>(ar: &A, uv: V3, n: V3, etai_over_etat: Scalar) -> V3 {
    let cos_theta = V3::spec_dot(ar, uv.spec_neg(), n).spec_min(Scalar { bits: ONE });
    let r_out_perp = uv.spec_plus(ar, n.spec_scaled(ar, cos_theta)).spec_scaled(ar, etai_over_etat);
    let r_out_parallel = n.spec_scaled(
        ar,
        square_root(
            ar,
            difference(ar, Scalar { bits: ONE }, r_out_perp.spec_length_squared(ar)).spec_abs(),
        ).spec_neg(),
    );
    r_out_perp.spec_plus(ar, r_out_parallel)
}

/// The direction of the unit vector `uv` after it enters a medium through a
/// surface with normal `n`, by Snell's law with the ratio `etai_over_etat` of
/// refractive indices: with `cos = min(-uv . n, 1)`, the part across the
/// normal is `ratio (uv + cos n)` and the part along it
/// `-sqrt(|1 - |across|^2|) n`.
pub fn refract<A: Arithmetic>(ar: &A, uv: V3, n: V3, etai_over_etat: Scalar) -> (r: V3)
    requires
        exact(ar),
    ensures
        r == spec_refract(ar, uv, n, etai_over_etat),
{
    let cos_theta: Scalar = V3::dot(ar, uv.neg(), n).min(Scalar { bits: ONE });
    let r_out_perp: V3 = uv.plus(ar, n.scaled(ar, cos_theta)).scaled(ar, etai_over_etat);
    let r_out_parallel: V3 = n.scaled(
        ar,
        sqrt(ar, minus(ar, Scalar { bits: ONE }, r_out_perp.length_squared(ar)).abs()).neg(),
    );
    r_out_perp.plus(ar, r_out_parallel)
}

/// Schlick's approximation of the share of light that a glass surface
/// reflects: `r0 + (1 - r0) (1 - cosine)^5` with
/// `r0 = ((1 - ref_idx) / (1 + ref_idx))^2`.
pub open spec fn spec_reflectance<A: Arithmetic>(ar: &A, cosine: Scalar, ref_idx: Scalar) -> Scalar {
    let one = Scalar { bits: ONE };
    let r = quotient(ar, difference(ar, one, ref_idx), sum(ar, one, ref_idx));
    let r0 = product(ar, r, r);
    sum(ar, r0, product(ar, difference(ar, one, r0), power(ar, difference(ar, one, cosine), 5)))
}

/// Schlick's approximation of the share of light that a glass surface reflects:
/// `r0 + (1 - r0) (1 - cosine)^5` with `r0 = ((1 - ref_idx) / (1 +
/// ref_idx))^2`.
pub fn reflectance<A: Arithmetic>(ar: &A, cosine: Scalar, ref_idx: Scalar) -> (r: Scalar)
    requires
        exact(ar),
    ensures
        r == spec_reflectance(ar, cosine, ref_idx),
{
    // Schlick's approximation
    let one: Scalar = Scalar { bits: ONE };
    let mut r0: Scalar = over(ar, minus(ar, one, ref_idx), plus(ar, one, ref_idx));
    r0 = times(ar, r0, r0);
    plus(ar, r0, times(ar, minus(ar, one, r0), powi(ar, minus(ar, one, cosine), 5)))
}

impl Dielectric {
    /// Glass with the given index of refraction.
    pub fn new(index_of_refraction: Scalar) -> (r: Dielectric)
        ensures
            r.index_of_refraction == index_of_refraction,
    {
        Dielectric { index_of_refraction }
    }

    /// The ratio of refractive indices that the ray meets: `1 / index` on
    /// entering through the front face, `index` on leaving through the back.
    pub open spec fn spec_refraction_ratio<A: Arithmetic>(self, ar: &A, front_face: bool) -> Scalar {
        if front_face {
            quotient(ar, Scalar { bits: ONE }, self.index_of_refraction)
        } else {
            self.index_of_refraction
        }
    }

    /// The cosine of the angle between the reversed unit direction and the
    /// normal, held to at most one.
    pub open spec fn spec_cos_theta<A: Arithmetic>(ar: &A, unit_direction: V3, normal: V3) -> Scalar {
        V3::spec_dot(ar, unit_direction.spec_neg(), normal).spec_min(Scalar { bits: ONE })
    }

    /// Total internal reflection: with `sin = sqrt(1 - cos^2)`, Snell's law
    /// has no solution where `ratio sin > 1`.
    pub open spec fn spec_cannot_refract<A: Arithmetic>(
        self,
        ar: &A,
        ray_in: Ray,
        hit_record: HitRecord,
    ) -> bool {
        let one = Scalar { bits: ONE };
        let ratio = self.spec_refraction_ratio(ar, hit_record.front_face);
        let cos_theta = Dielectric::spec_cos_theta(
            ar,
            ray_in.direction.spec_unit_vector(ar),
            hit_record.normal,
        );
        let sin_theta = square_root(ar, difference(ar, one, product(ar, cos_theta, cos_theta)));
        product(ar, ratio, sin_theta).spec_gt(one)
    }

    /// The ray reflects though it could refract: the reflectance at this
    /// angle exceeds the uniform draw.
    pub open spec fn spec_reflects_by_chance<A: Arithmetic>(
        self,
        ar: &A,
        ray_in: Ray,
        hit_record: HitRecord,
        uniform: Scalar,
    ) -> bool {
        let ratio = self.spec_refraction_ratio(ar, hit_record.front_face);
        let cos_theta = Dielectric::spec_cos_theta(
            ar,
            ray_in.direction.spec_unit_vector(ar),
            hit_record.normal,
        );
        spec_reflectance(ar, cos_theta, ratio).spec_gt(uniform)
    }

    /// The ray that leaves the glass: reflected where refraction is impossible
    /// or chance has it so, refracted otherwise.
    pub open spec fn spec_scatter_ray<A: Arithmetic>(
        self,
        ar: &A,
        ray_in: Ray,
        hit_record: HitRecord,
        reflects: bool,
    ) -> Ray {
        let unit_direction = ray_in.direction.spec_unit_vector(ar);
        Ray {
            origin: hit_record.point,
            direction: if reflects {
                spec_reflect(ar, unit_direction, hit_record.normal)
            } else {
                spec_refract(
                    ar,
                    unit_direction,
                    hit_record.normal,
                    self.spec_refraction_ratio(ar, hit_record.front_face),
                )
            },
        }
    }

    /// The scattered ray and its attenuation for the uniform draw `uniform`.
    /// Glass absorbs nothing: the attenuation is white.
    pub open spec fn spec_scatter_with<A: Arithmetic>(
        self,
        ar: &A,
        ray_in: Ray,
        hit_record: HitRecord,
        uniform: Scalar,
    ) -> (Ray, Colour) {
        (
            self.spec_scatter_ray(
                ar,
                ray_in,
                hit_record,
                self.spec_cannot_refract(ar, ray_in, hit_record) || self.spec_reflects_by_chance(
                    ar,
                    ray_in,
                    hit_record,
                    uniform,
                ),
            ),
            Colour::spec_white(),
        )
    }

    /// The scattered ray and its attenuation for the uniform draw `uniform`.
    pub fn scatter_with<A: Arithmetic>(
        &self,
        ar: &A,
        ray_in: &Ray,
        hit_record: &HitRecord,
        uniform: Scalar,
    ) -> (r: (Ray, Colour))
        requires
            exact(ar),
        ensures
            r == self.spec_scatter_with(ar, *ray_in, *hit_record, uniform),
    {
        let one: Scalar = Scalar { bits: ONE };
        let refraction_ratio: Scalar = if hit_record.front_face {
            over(ar, one, self.index_of_refraction)
        } else {
            self.index_of_refraction
        };
        let unit_direction: V3 = unit_vector(ar, ray_in.direction);
        let cos_theta: Scalar = V3::dot(ar, unit_direction.neg(), hit_record.normal).min(one);
        let sin_theta: Scalar = sqrt(ar, minus(ar, one, times(ar, cos_theta, cos_theta)));
        let cannot_refract: bool = times(ar, refraction_ratio, sin_theta).gt(one);
        let direction: V3 = if cannot_refract || reflectance(ar, cos_theta, refraction_ratio).gt(
            uniform,
        ) {
            reflect(ar, unit_direction, hit_record.normal)
        } else {
            refract(ar, unit_direction, hit_record.normal, refraction_ratio)
        };
        (Ray::new(hit_record.point, direction), Colour::white())
    }

    /// Whether the ray is reflected whatever is drawn: total internal
    /// reflection.
    pub fn cannot_refract<A: Arithmetic>(
        &self,
        ar: &A,
        ray_in: &Ray,
        hit_record: &HitRecord,
    ) -> (r: bool)
        requires
            exact(ar),
        ensures
            r == self.spec_cannot_refract(ar, *ray_in, *hit_record),
    {
        let one: Scalar = Scalar { bits: ONE };
        let refraction_ratio: Scalar = if hit_record.front_face {
            over(ar, one, self.index_of_refraction)
        } else {
            self.index_of_refraction
        };
        let unit_direction: V3 = unit_vector(ar, ray_in.direction);
        let cos_theta: Scalar = V3::dot(ar, unit_direction.neg(), hit_record.normal).min(one);
        let sin_theta: Scalar = sqrt(ar, minus(ar, one, times(ar, cos_theta, cos_theta)));
        // by Snell's law, a sine cannot exceed one
        times(ar, refraction_ratio, sin_theta).gt(one)
    }

    /// Scatters as glass does, drawing from `source` only where the choice
    /// between reflection and refraction is open.
    pub fn scatter<A: Arithmetic, S: RandomSource>(
        &self,
        ar: &A,
        source: &S,
        ray_in: &Ray,
        hit_record: &HitRecord,
    ) -> (r: (Ray, Colour))
        requires
            exact(ar),
        ensures
            exists|uniform: Scalar|
                (self.spec_cannot_refract(ar, *ray_in, *hit_record) || may_draw(source, uniform))
                    && r == #[trigger] self.spec_scatter_with(ar, *ray_in, *hit_record, uniform),
    {
        let uniform: Scalar = if self.cannot_refract(ar, ray_in, hit_record) {
            // no draw can change the outcome, and none is taken
            Scalar { bits: ZERO }
        } else {
            source.uniform()
        };
        self.scatter_with(ar, ray_in, hit_record, uniform)
    }
}

impl DiffuseLight {
    /// A light that emits `emit`.
    pub fn new(emit: Colour) -> (r: DiffuseLight)
        ensures
            r.emit == emit,
    {
        DiffuseLight { emit }
    }
}

impl Material {
    /// What the material sends on of the ray `ray_in` that hit it, for the
    /// random values `draws`: a scattered ray and its attenuation, or nothing
    /// where the light is absorbed. A light scatters nothing; glass always
    /// scatters.
    pub open spec fn spec_scatter<A: Arithmetic>(
        self,
        ar: &A,
        ray_in: Ray,
        hit_record: HitRecord,
        draws: Draws,
    ) -> Option<(Ray, Colour)> {
        match self {
            Material::Lambertian(l) => Some(
                l.spec_scatter_with(ar, hit_record, draws.point.spec_unit_vector(ar)),
            ),
            Material::Metal(m) => m.spec_scatter_with(ar, ray_in, hit_record, draws.point),
            Material::Dielectric(d) => Some(
                d.spec_scatter_with(ar, ray_in, hit_record, draws.uniform),
            ),
            Material::DiffuseLight(_) => None,
        }
    }

    /// What the material sends on of the ray `ray_in` that hit it, for the random
    /// values `draws`.
    pub fn scatter_with<A: Arithmetic>(
        &self,
        ar: &A,
        ray_in: &Ray,
        hit_record: &HitRecord,
        draws: &Draws,
    ) -> (r: Option<(Ray, Colour)>)
        requires
            exact(ar),
        ensures
            r == self.spec_scatter(ar, *ray_in, *hit_record, *draws),
    {
        match self {
            Material::Lambertian(l) => Some(
                l.scatter_with(ar, hit_record, unit_vector(ar, draws.point)),
            ),
            Material::Metal(m) => m.scatter_with(ar, ray_in, hit_record, draws.point),
            Material::Dielectric(d) => Some(d.scatter_with(ar, ray_in, hit_record, draws.uniform)),
            Material::DiffuseLight(_) => None,
        }
    }

    /// `r` is a way in which the material may scatter `ray_in`, with random
    /// values drawn from `source`.
    pub open spec fn may_scatter<A: Arithmetic, S: RandomSource>(
        self,
        ar: &A,
        source: &S,
        ray_in: Ray,
        hit_record: HitRecord,
        r: Option<(Ray, Colour)>,
    ) -> bool {
        match self {
            Material::Lambertian(_) => exists|draws: Draws|
                may_draw_in_sphere(source, draws.point) && r == #[trigger] self.spec_scatter(
                    ar,
                    ray_in,
                    hit_record,
                    draws,
                ),
            Material::Metal(_) => exists|draws: Draws|
                may_draw_in_sphere(source, draws.point) && r == #[trigger] self.spec_scatter(
                    ar,
                    ray_in,
                    hit_record,
                    draws,
                ),
            Material::Dielectric(d) => exists|draws: Draws|
                (d.spec_cannot_refract(ar, ray_in, hit_record) || may_draw(source, draws.uniform))
                    && r == #[trigger] self.spec_scatter(ar, ray_in, hit_record, draws),
            Material::DiffuseLight(_) => r is None,
        }
    }

    /// Scatters the ray `ray_in` at the hit `hit_record`.
    pub fn scatter<A: Arithmetic, S: RandomSource>(
        &self,
        ar: &A,
        source: &S,
        ray_in: &Ray,
        hit_record: &HitRecord,
    ) -> (r: Option<(Ray, Colour)>)
        requires
            exact(ar),
        ensures
            self.may_scatter(ar, source, *ray_in, *hit_record, r),
            self is Dielectric ==> r is Some,
            self is Lambertian ==> r is Some,
            self is DiffuseLight ==> r is None,
    {
        match self {
            Material::Lambertian(l) => {
                let point: V3 = source.in_unit_sphere();
                let r = Some(l.scatter_with(ar, hit_record, unit_vector(ar, point)));
                let ghost draws = Draws { point, uniform: Scalar { bits: ZERO } };
                assert(r == self.spec_scatter(ar, *ray_in, *hit_record, draws));
                r
            },
            Material::Metal(m) => {
                let point: V3 = source.in_unit_sphere();
                let r = m.scatter_with(ar, ray_in, hit_record, point);
                let ghost draws = Draws { point, uniform: Scalar { bits: ZERO } };
                assert(r == self.spec_scatter(ar, *ray_in, *hit_record, draws));
                r
            },
            Material::Dielectric(d) => {
                let s = d.scatter(ar, source, ray_in, hit_record);
                let r = Some(s);
                proof {
                    let uniform = choose|uniform: Scalar|
                        (d.spec_cannot_refract(ar, *ray_in, *hit_record) || may_draw(
                            source,
                            uniform,
                        )) && s == #[trigger] d.spec_scatter_with(
                            ar,
                            *ray_in,
                            *hit_record,
                            uniform,
                        );
                    let zero = Scalar { bits: ZERO };
                    let draws = Draws { point: V3 { x: zero, y: zero, z: zero }, uniform };
                    assert(r == self.spec_scatter(ar, *ray_in, *hit_record, draws));
                }
                r
            },
            Material::DiffuseLight(_) => None,
        }
    }

    /// The light that the material emits of itself at texture coordinates
    /// `(u, v)` and point `p`: a light's emission colour, everywhere and in
    /// every direction, and black for every other material.
    pub open spec fn spec_emitted(self, u: Scalar, v: Scalar, p: V3) -> Colour {
        match self {
            Material::DiffuseLight(l) => l.emit,
            _ => Colour::spec_black(),
        }
    }

    /// The light that the material emits of itself at texture coordinates `(u,
    /// v)` and point `p`: a light's emission colour, everywhere and in every
    /// direction, and black for every other material.
    pub fn emitted(&self, u: Scalar, v: Scalar, p: V3) -> (r: Colour)
        ensures
            r == self.spec_emitted(u, v, p),
    {
        match self {
            Material::DiffuseLight(l) => l.emit,
            _ => Colour::black(),
        }
    }
}

/// With settled draws a material scatters a ray in one way only.
pub proof fn lemma_scatter_is_settled<A: Arithmetic, S: RandomSource>(
    material: &Material,
    ar: &A,
    source: &S,
    ray_in: Ray,
    hit_record: HitRecord,
    first: Option<(Ray, Colour)>,
    second: Option<(Ray, Colour)>,
)
    requires
        settled(source),
        material.may_scatter(ar, source, ray_in, hit_record, first),
        material.may_scatter(ar, source, ray_in, hit_record, second),
    ensures
        first == second,
{
    match material {
        Material::DiffuseLight(_) => {},
        Material::Lambertian(_) => {
            let a = choose|draws: Draws|
                may_draw_in_sphere(source, draws.point) && first == #[trigger] material.spec_scatter(
                    ar,
                    ray_in,
                    hit_record,
                    draws,
                );
            let b = choose|draws: Draws|
                may_draw_in_sphere(source, draws.point) && second
                    == #[trigger] material.spec_scatter(ar, ray_in, hit_record, draws);
            assert(a.point == b.point);
        },
        Material::Metal(_) => {
            let a = choose|draws: Draws|
                may_draw_in_sphere(source, draws.point) && first == #[trigger] material.spec_scatter(
                    ar,
                    ray_in,
                    hit_record,
                    draws,
                );
            let b = choose|draws: Draws|
                may_draw_in_sphere(source, draws.point) && second
                    == #[trigger] material.spec_scatter(ar, ray_in, hit_record, draws);
            assert(a.point == b.point);
        },
        Material::Dielectric(d) => {
            let a = choose|draws: Draws|
                (d.spec_cannot_refract(ar, ray_in, hit_record) || may_draw(source, draws.uniform))
                    && first == #[trigger] material.spec_scatter(ar, ray_in, hit_record, draws);
            let b = choose|draws: Draws|
                (d.spec_cannot_refract(ar, ray_in, hit_record) || may_draw(source, draws.uniform))
                    && second == #[trigger] material.spec_scatter(ar, ray_in, hit_record, draws);
            if !d.spec_cannot_refract(ar, ray_in, hit_record) {
                assert(a.uniform == b.uniform);
            }
        },
    }
}

} // verus!
