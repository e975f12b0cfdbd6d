//! The camera: from screen coordinates to rays.
use crate::arithmetic::{exact, over, product, quotient, tan, tangent, times, Arithmetic};
use crate::random::{may_draw_in_disk, RandomSource};
use crate::ray::Ray;
use crate::scalar::{Scalar, RADIANS_PER_DEGREE, TWO};
use crate::v3::{unit_vector, V3};
use vstd::prelude::*;

verus! {

/// A thin-lens camera.
#[derive(Clone, Copy, PartialEq, Eq, Debug, Structural)]
pub struct Camera {
    pub origin: V3,
    pub lower_left_corner: V3,
    pub horizontal: V3,
    pub vertical: V3,
    pub u: V3,
    pub v: V3,
    pub lens_radius: Scalar,
}

impl Camera {
    /// The camera at `look_from` that looks at `look_at`, with `view_up`
    /// upwards, a vertical field of view of `vertical_field_of_view` degrees,
    /// and a lens of diameter `aperture` focused at the distance `focus_dist`.
    pub open spec fn spec_new<A: Arithmetic>(
        ar: &A,
        look_from: V3,
        look_at: V3,
        view_up: V3,
        vertical_field_of_view: Scalar,
        aspect_ratio: Scalar,
        aperture: Scalar,
        focus_dist: Scalar,
    ) -> Camera {
        let two = Scalar { bits: TWO };
        let theta = product(ar, vertical_field_of_view, Scalar { bits: RADIANS_PER_DEGREE });
        let h = tangent(ar, quotient(ar, theta, two));
        let viewport_height = product(ar, two, h);
        let viewport_width = product(ar, aspect_ratio, viewport_height);
        let w = look_from.spec_minus(ar, look_at).spec_unit_vector(ar);
        let u = V3::spec_cross(ar, view_up, w).spec_unit_vector(ar);
        let v = V3::spec_cross(ar, w, u);
        let horizontal = u.spec_scaled(ar, product(ar, focus_dist, viewport_width));
        let vertical = v.spec_scaled(ar, product(ar, focus_dist, viewport_height));
        Camera {
            origin: look_from,
            lower_left_corner: look_from.spec_minus(ar, horizontal.spec_over(ar, two)).spec_minus(
                ar,
                vertical.spec_over(ar, two),
            ).spec_minus(ar, w.spec_scaled(ar, focus_dist)),
            horizontal,
            vertical,
            u,
            v,
            lens_radius: quotient(ar, aperture, two),
        }
    }

    /// The camera at `look_from` that looks at `look_at`, with `view_up`
    /// upwards, a vertical field of view of `vertical_field_of_view` degrees,
    /// and a lens of diameter `aperture` focused at the distance `focus_dist`.
    pub fn new<A: Arithmetic>(
        ar: &A,
        look_from: V3,
        look_at: V3,
        view_up: V3,
        vertical_field_of_view: Scalar,
        aspect_ratio: Scalar,
        aperture: Scalar,
        focus_dist: Scalar,
    ) -> (r: Camera)
        requires
            exact(ar),
        ensures
            r == Camera::spec_new(
                ar,
                look_from,
                look_at,
                view_up,
                vertical_field_of_view,
                aspect_ratio,
                aperture,
                focus_dist,
            ),
    {
        let two: Scalar = Scalar { bits: TWO };
        let theta: Scalar = times(ar, vertical_field_of_view, Scalar { bits: RADIANS_PER_DEGREE });
        let h: Scalar = tan(ar, over(ar, theta, two));
        let viewport_height: Scalar = times(ar, two, h);
        let viewport_width: Scalar = times(ar, aspect_ratio, viewport_height);

        let w: V3 = unit_vector(ar, look_from.minus(ar, look_at));
        let u: V3 = unit_vector(ar, V3::cross(ar, view_up, w));
        let v: V3 = V3::cross(ar, w, u);

        let origin: V3 = look_from;
        let horizontal: V3 = u.scaled(ar, times(ar, focus_dist, viewport_width));
        let vertical: V3 = v.scaled(ar, times(ar, focus_dist, viewport_height));
        let lower_left_corner: V3 = origin.minus(ar, horizontal.over(ar, two)).minus(
            ar,
            vertical.over(ar, two),
        ).minus(ar, w.scaled(ar, focus_dist));

        let lens_radius: Scalar = over(ar, aperture, two);

        Camera { origin, lower_left_corner, horizontal, vertical, u, v, lens_radius }
    }

    /// The ray through the screen point `(s, t)` that leaves the lens at the
    /// point `disk` of the unit disk.
    pub open spec fn spec_ray_through<A: Arithmetic>(
        self,
        ar: &A,
        s: Scalar,
        t: Scalar,
        disk: V3,
    ) -> Ray {
        let random_disk = disk.spec_scaled(ar, self.lens_radius);
        let offset = self.u.spec_scaled(ar, random_disk.x).spec_plus(
            ar,
            self.v.spec_scaled(ar, random_disk.y),
        );
        Ray {
            origin: self.origin.spec_plus(ar, offset),
            direction: self.lower_left_corner.spec_plus(ar, self.horizontal.spec_scaled(ar, s))
                .spec_plus(ar, self.vertical.spec_scaled(ar, t)).spec_minus(
                ar,
                self.origin,
            ).spec_minus(ar, offset),
        }
    }

    /// The ray through the screen point `(s, t)` that leaves the lens at the
    /// point `disk` of the unit disk.
    pub fn ray_through<A: Arithmetic>(&self, ar: &A, s: Scalar, t: Scalar, disk: V3) -> (r: Ray)
        requires
            exact(ar),
        ensures
            r == self.spec_ray_through(ar, s, t, disk),
    {
        let random_disk: V3 = disk.scaled(ar, self.lens_radius);
        let offset: V3 = self.u.scaled(ar, random_disk.x).plus(
            ar,
            self.v.scaled(ar, random_disk.y),
        );
        let ray_direction: V3 = self.lower_left_corner.plus(ar, self.horizontal.scaled(ar, s)).plus(
            ar,
            self.vertical.scaled(ar, t),
        ).minus(ar, self.origin).minus(ar, offset);
        Ray::new(self.origin.plus(ar, offset), ray_direction)
    }

    /// `ray` is a ray that the camera may send through the screen point
    /// `(s, t)`, with the lens point drawn from `source`.
    pub open spec fn may_send<A: Arithmetic, S: RandomSource>(
        self,
        ar: &A,
        source: &S,
        s: Scalar,
        t: Scalar,
        ray: Ray,
    ) -> bool {
        exists|disk: V3|
            may_draw_in_disk(source, disk) && ray == #[trigger] self.spec_ray_through(
                ar,
                s,
                t,
                disk,
            )
    }

    /// A ray through the screen point `(s, t)`, each coordinate a fraction of
    /// the screen from its lower left corner.
    pub fn get_ray<A: Arithmetic, S: RandomSource>(
        &self,
        ar: &A,
        source: &S,
        s: Scalar,
        t: Scalar,
    ) -> (r: Ray)
        requires
            exact(ar),
        ensures
            self.may_send(ar, source, s, t, r),
    {
        let disk: V3 = source.in_unit_disk();
        self.ray_through(ar, s, t, disk)
    }
}

} // verus!
