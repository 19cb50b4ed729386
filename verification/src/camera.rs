//! The camera: from a position on the image plane to a ray into the scene.
use crate::ray::Ray;
use crate::random::{spec_is_disk_draw, RandomSource};
use crate::scalar::Scalar;
use crate::vec3::{Point3D, Vec3};
use core::ops::{Add, Div, Mul, Sub};
use vstd::prelude::*;

verus! {

/// The extents of the image plane.
#[derive(Debug, Clone, Copy, PartialEq)]
pub struct Viewport<T> {
    pub height: T,
    pub width: T,
}

impl<T: Copy> Viewport<T> {
    pub fn new(width: T, height: T) -> (r: Self)
        ensures
            r.width == width,
            r.height == height,
    {
        Viewport { width, height }
    }

    pub fn width(&self) -> (r: T)
        ensures
            r == self.width,
    {
        self.width
    }

    pub fn height(&self) -> (r: T)
        ensures
            r == self.height,
    {
        self.height
    }
}

/// A camera with a thin lens. `u`, `v` and `w` span its frame: `w` points from
/// the target back to the camera, `u` to the right and `v` upwards.
#[derive(Debug, Clone, Copy, PartialEq)]
pub struct Camera<T> {
    pub aspect_ratio: T,
    pub viewport: Viewport<T>,
    pub origin: Point3D<T>,
    pub lower_left_corner: Point3D<T>,
    pub horizontal: Vec3<T>,
    pub vertical: Vec3<T>,
    pub lens_radius: T,
    pub u: Vec3<T>,
    pub v: Vec3<T>,
    pub w: Vec3<T>,
}

impl<T: Scalar> Camera<T> {
    /// The angle whose tangent sets the height of the image plane: half the
    /// vertical field of view, in radians.
    pub open spec fn spec_half_angle(vertical_fov: T) -> T {
        vertical_fov.radians().over(T::whole(2))
    }

    /// The camera at `origin` that looks at `target` with `up` upwards, when
    /// the tangent of half its vertical field of view is `tangent`.
    ///
    /// The image plane is `2 * tangent` high and `aspect_ratio` times as wide,
    /// both scaled by `focus_dist`, and lies `focus_dist` in front of the
    /// camera; the lens has the radius `apeture / 2`.
    pub open spec fn spec_with_tangent(
        aspect_ratio: T,
        tangent: T,
        origin: Point3D<T>,
        target: Point3D<T>,
        up: Vec3<T>,
        apeture: T,
        focus_dist: T,
    ) -> Self {
        let viewport_height = T::whole(2).times(tangent);
        let viewport = Viewport { width: aspect_ratio.times(viewport_height), height: viewport_height };
        let w = origin.spec_sub(target).spec_unit();
        let u = up.spec_cross(w).spec_unit();
        let v = w.spec_cross(u);
        let horizontal = u.spec_scale(focus_dist.times(viewport.width));
        let vertical = v.spec_scale(focus_dist.times(viewport.height));
        Camera {
            aspect_ratio,
            viewport,
            origin,
            lower_left_corner: origin.spec_sub(horizontal.spec_shrink(T::whole(2))).spec_sub(
                vertical.spec_shrink(T::whole(2)),
            ).spec_sub(w.spec_scale(focus_dist)),
            horizontal,
            vertical,
            lens_radius: apeture.over(T::whole(2)),
            u,
            v,
            w,
        }
    }

    /// Where on the lens a ray starts, relative to the camera's origin, for the
    /// point `disk` of the unit disk.
    pub open spec fn spec_lens_offset(self, disk: Vec3<T>) -> Vec3<T> {
        let rd = disk.spec_scale(self.lens_radius);
        self.u.spec_scale(rd.x).spec_add(self.v.spec_scale(rd.y))
    }

    /// The ray through the position `(s, t)` of the image plane that starts at
    /// the point of the lens given by `disk`.
    pub open spec fn spec_get_ray(self, s: T, t: T, disk: Vec3<T>) -> Ray<T> {
        let offset = self.spec_lens_offset(disk);
        Ray {
            origin: self.origin.spec_add(offset),
            direction: self.lower_left_corner.spec_add(self.horizontal.spec_scale(s)).spec_add(
                self.vertical.spec_scale(t),
            ).spec_sub(self.origin).spec_sub(offset),
        }
    }

    /// Half the vertical field of view, in radians.
    pub fn half_angle(vertical_fov: T) -> (r: T)
        ensures
            r == Self::spec_half_angle(vertical_fov),
    {
        vertical_fov.to_radians().div(T::from_int(2))
    }

    /// The camera for a vertical field of view of `vertical_fov` degrees: the
    /// camera for a tangent that `tan` may return for half that angle.
    pub fn new(
        aspect_ratio: T,
        vertical_fov: T,
        origin: Point3D<T>,
        target: Point3D<T>,
        up: Vec3<T>,
        apeture: T,
        focus_dist: T,
    ) -> (r: Self)
        ensures
            exists|tangent: T|
                Self::spec_half_angle(vertical_fov).may_be_tangent(tangent) && r
                    == #[trigger] Self::spec_with_tangent(
                    aspect_ratio,
                    tangent,
                    origin,
                    target,
                    up,
                    apeture,
                    focus_dist,
                ),
    {
        let tangent = Self::half_angle(vertical_fov).tan();
        Self::with_tangent(aspect_ratio, tangent, origin, target, up, apeture, focus_dist)
    }

    /// The camera whose half vertical field of view has the tangent `tangent`.
    pub fn with_tangent(
        aspect_ratio: T,
        tangent: T,
        origin: Point3D<T>,
        target: Point3D<T>,
        up: Vec3<T>,
        apeture: T,
        focus_dist: T,
    ) -> (r: Self)
        ensures
            r == Self::spec_with_tangent(
                aspect_ratio,
                tangent,
                origin,
                target,
                up,
                apeture,
                focus_dist,
            ),
    {
        let two = T::from_int(2);
        let viewport_height = two.mul(tangent);
        let viewport = Viewport::new(aspect_ratio.mul(viewport_height), viewport_height);

        let w = origin.sub(target).unit();
        let u = up.cross(&w).unit();
        let v = w.cross(&u);

        let horizontal = u.mul(focus_dist.mul(viewport.width()));
        let vertical = v.mul(focus_dist.mul(viewport.height()));

        Camera {
            viewport,
            aspect_ratio,
            origin,
            lower_left_corner: origin.sub(horizontal.div(two)).sub(vertical.div(two)).sub(
                w.mul(focus_dist),
            ),
            horizontal,
            vertical,
            lens_radius: apeture.div(two),
            u,
            v,
            w,
        }
    }

    /// The ray through `(u, v)` from a random point of the lens, given by a
    /// point drawn from the unit disk.
    pub fn get_ray<R: RandomSource<T>>(&self, u: T, v: T, rng: &mut R) -> (r: Ray<T>)
        ensures
            exists|disk: Vec3<T>|
                spec_is_disk_draw(disk) && r == #[trigger] self.spec_get_ray(u, v, disk),
    {
        let disk = rng.unit_disk();
        let r = self.get_ray_from(u, v, disk);
        assert(spec_is_disk_draw(disk) && r == self.spec_get_ray(u, v, disk));
        r
    }

    /// The ray through `(u, v)` from the point of the lens given by `disk`.
    pub fn get_ray_from(&self, u: T, v: T, disk: Vec3<T>) -> (r: Ray<T>)
        ensures
            r == self.spec_get_ray(u, v, disk),
    {
        let rd = disk.mul(self.lens_radius);
        let offset = self.u.mul(rd.x()).add(self.v.mul(rd.y()));
        Ray::new(
            self.origin.add(offset),
            self.lower_left_corner.add(self.horizontal.mul(u)).add(self.vertical.mul(v)).sub(
                self.origin,
            ).sub(offset),
        )
    }
}

} // verus!
