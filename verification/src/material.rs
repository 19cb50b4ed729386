//! Surface materials and how each of them scatters a ray.
use crate::objects::HitRecord;
use crate::ray::Ray;
use crate::random::{spec_is_ball_draw, Draw, RandomSource};
use crate::scalar::Scalar;
use crate::vec3::{Colour, Vec3};
use core::ops::{Add, Mul};
use vstd::prelude::*;

verus! {

/// A rule that turns a ray meeting a surface into the ray that leaves it and
/// the colour by which the light along it is weakened, or into nothing where
/// the surface swallows the ray.
pub trait Material<T: Scalar> {
    /// Whether `draw` holds random values that `scatter` may use: those the
    /// material draws lie where they are drawn from, the others are free.
    spec fn spec_may_draw(&self, hit_record: HitRecord<T>, ray: Ray<T>, draw: Draw<T>) -> bool;

    /// What `scatter` returns when its random values are those of `draw`.
    spec fn spec_scatter(&self, hit_record: HitRecord<T>, ray: Ray<T>, draw: Draw<T>) -> Option<
        (Ray<T>, Colour<T>),
    >;

    /// What the material does to `ray` at the surface of `hit_record`, for
    /// random values that it may use.
    fn scatter<R: RandomSource<T>>(&self, hit_record: &HitRecord<T>, ray: &Ray<T>, rng: &mut R) -> (r:
        Option<(Ray<T>, Colour<T>)>)
        ensures
            exists|draw: Draw<T>|
                self.spec_may_draw(*hit_record, *ray, draw) && r == #[trigger] self.spec_scatter(
                    *hit_record,
                    *ray,
                    draw,
                ),
    ;
}

/// A diffuse surface.
#[derive(Debug, Clone, Copy, PartialEq)]
pub struct Lambertian<T> {
    pub albedo: Colour<T>,
}

/// A reflecting surface; `fuzz` widens the reflection.
#[derive(Debug, Clone, Copy, PartialEq)]
pub struct Metal<T> {
    pub albedo: Colour<T>,
    pub fuzz: T,
}

/// A transparent surface that refracts.
#[derive(Debug, Clone, Copy, PartialEq)]
pub struct Dielectric<T> {
    pub refraction_index: T,
}

#[derive(Debug, Clone, Copy, PartialEq)]
pub enum Materials<T> {
    Lambertian(Lambertian<T>),
    Metal(Metal<T>),
    Dielectric(Dielectric<T>),
}

impl<T: Scalar> Lambertian<T> {
    pub fn new(albedo: Colour<T>) -> (r: Self)
        ensures
            r.albedo == albedo,
    {
        Lambertian { albedo }
    }
}

impl<T: Scalar> Metal<T> {
    /// The fuzziness a metal is built with: zero for what lies below zero,
    /// `fuzz` itself where it lies below one, and one for everything else.
    pub open spec fn spec_fuzz(fuzz: T) -> T {
        if fuzz.below(T::whole(0)) {
            T::whole(0)
        } else if fuzz.below(T::whole(1)) {
            fuzz
        } else {
            T::whole(1)
        }
    }

    pub fn new(albedo: Colour<T>, fuzz: T) -> (r: Self)
        ensures
            r.albedo == albedo,
            r.fuzz == Self::spec_fuzz(fuzz),
    {
        let limited = if fuzz.lt(T::from_int(0)) {
            T::from_int(0)
        } else if fuzz.lt(T::from_int(1)) {
            fuzz
        } else {
            T::from_int(1)
        };
        Metal { albedo, fuzz: limited }
    }
}

impl<T: Scalar> Dielectric<T> {
    pub fn new(refraction_index: T) -> (r: Self)
        ensures
            r.refraction_index == refraction_index,
    {
        Dielectric { refraction_index }
    }
}

impl<T: Scalar> Materials<T> {
    /// The material of a record that no surface has filled in yet: a diffuse
    /// surface that reflects no light.
    pub open spec fn spec_unlit() -> Self {
        Materials::Lambertian(Lambertian { albedo: Vec3::spec_zero() })
    }

    pub fn unlit() -> (r: Self)
        ensures
            r == Self::spec_unlit(),
    {
        Materials::Lambertian(Lambertian { albedo: Vec3::zero() })
    }
}

impl<T: Scalar> Lambertian<T> {
    /// The direction in which a diffuse surface with normal `normal` sends a
    /// ray, given a point of the unit ball: the normal plus the point brought to
    /// length one, or the normal alone where that sum vanishes.
    pub open spec fn spec_direction(normal: Vec3<T>, point: Vec3<T>) -> Vec3<T> {
        let scattered = normal.spec_add(point.spec_unit());
        if scattered.spec_near_zero() {
            normal
        } else {
            scattered
        }
    }

    /// The scattered ray, which starts where the surface was met, and the albedo.
    pub open spec fn spec_scatter_with(self, hit_record: HitRecord<T>, point: Vec3<T>) -> (
        Ray<T>,
        Colour<T>,
    ) {
        (
            Ray {
                origin: hit_record.point,
                direction: Self::spec_direction(hit_record.normal, point),
            },
            self.albedo,
        )
    }

    /// The scattered ray and the albedo, for a point of the unit ball.
    pub fn scatter_with(&self, hit_record: &HitRecord<T>, point: Vec3<T>) -> (r: (
        Ray<T>,
        Colour<T>,
    ))
        ensures
            r == self.spec_scatter_with(*hit_record, point),
    {
        let mut scattered_dir = hit_record.normal().add(point.unit());
        if scattered_dir.near_zero() {
            scattered_dir = hit_record.normal();
        }
        (Ray::new(hit_record.point(), scattered_dir), self.albedo)
    }
}

impl<T: Scalar> Material<T> for Lambertian<T> {
    /// A diffuse surface draws a point from the unit ball.
    open spec fn spec_may_draw(&self, hit_record: HitRecord<T>, ray: Ray<T>, draw: Draw<T>)
        -> bool {
        spec_is_ball_draw(draw.point)
    }

    open spec fn spec_scatter(&self, hit_record: HitRecord<T>, ray: Ray<T>, draw: Draw<T>)
        -> Option<(Ray<T>, Colour<T>)> {
        Some(self.spec_scatter_with(hit_record, draw.point))
    }

    /// A diffuse surface never swallows a ray.
    fn scatter<R: RandomSource<T>>(&self, hit_record: &HitRecord<T>, ray: &Ray<T>, rng: &mut R) -> (r:
        Option<(Ray<T>, Colour<T>)>)
        ensures
            r.is_some(),
    {
        let point = rng.unit_sphere();
        let r = Some(self.scatter_with(hit_record, point));
        let ghost draw = Draw { point, number: T::whole(0) };
        assert(self.spec_may_draw(*hit_record, *ray, draw) && r == self.spec_scatter(
            *hit_record,
            *ray,
            draw,
        ));
        r
    }
}

impl<T: Scalar> Metal<T> {
    /// The direction in which the metal sends `ray`, given a point of the unit
    /// ball: the mirror image of the ray's direction, brought to length one
    /// first, plus the point scaled by the fuzziness.
    pub open spec fn spec_direction(self, normal: Vec3<T>, ray: Ray<T>, point: Vec3<T>) -> Vec3<
        T,
    > {
        ray.direction.spec_unit().spec_reflect(normal).spec_add(point.spec_scale(self.fuzz))
    }

    /// Whether a ray sent in `direction` leaves the surface with normal
    /// `normal`: their dot product lies above zero.
    pub open spec fn spec_leaves(direction: Vec3<T>, normal: Vec3<T>) -> bool {
        T::whole(0).below(direction.spec_dot(normal))
    }

    /// The scattered ray, which starts where the surface was met, and the
    /// albedo; nothing where the scattered ray would not leave the surface.
    pub open spec fn spec_scatter_with(self, hit_record: HitRecord<T>, ray: Ray<T>, point: Vec3<T>)
        -> Option<(Ray<T>, Colour<T>)> {
        let direction = self.spec_direction(hit_record.normal, ray, point);
        if Self::spec_leaves(direction, hit_record.normal) {
            Some((Ray { origin: hit_record.point, direction }, self.albedo))
        } else {
            None
        }
    }

    /// The scattered ray and the albedo, for a point of the unit ball; nothing
    /// where the scattered ray would not leave the surface.
    pub fn scatter_with(&self, hit_record: &HitRecord<T>, ray: &Ray<T>, point: Vec3<T>) -> (r:
        Option<(Ray<T>, Colour<T>)>)
        ensures
            r == self.spec_scatter_with(*hit_record, *ray, point),
            r.is_some() <==> Self::spec_leaves(
                self.spec_direction(hit_record.normal, *ray, point),
                hit_record.normal,
            ),
    {
        let reflected_vec = ray.direction().unit().reflect(&hit_record.normal());
        let scattered_ray = Ray::new(hit_record.point(), reflected_vec.add(point.mul(self.fuzz)));
        if T::from_int(0).lt(scattered_ray.direction().dot(&hit_record.normal())) {
            Some((scattered_ray, self.albedo))
        } else {
            None
        }
    }
}

impl<T: Scalar> Material<T> for Metal<T> {
    /// A metal draws a point from the unit ball.
    open spec fn spec_may_draw(&self, hit_record: HitRecord<T>, ray: Ray<T>, draw: Draw<T>)
        -> bool {
        spec_is_ball_draw(draw.point)
    }

    open spec fn spec_scatter(&self, hit_record: HitRecord<T>, ray: Ray<T>, draw: Draw<T>)
        -> Option<(Ray<T>, Colour<T>)> {
        self.spec_scatter_with(hit_record, ray, draw.point)
    }

    fn scatter<R: RandomSource<T>>(&self, hit_record: &HitRecord<T>, ray: &Ray<T>, rng: &mut R) -> (r:
        Option<(Ray<T>, Colour<T>)>) {
        let point = rng.unit_sphere();
        let r = self.scatter_with(hit_record, ray, point);
        let ghost draw = Draw { point, number: T::whole(0) };
        assert(self.spec_may_draw(*hit_record, *ray, draw) && r == self.spec_scatter(
            *hit_record,
            *ray,
            draw,
        ));
        r
    }
}

impl<T: Scalar> Dielectric<T> {
    /// The ratio of the refractive indices before and behind the surface:
    /// the reciprocal of the material's index where the ray enters it, the
    /// index itself where the ray leaves it.
    pub open spec fn spec_refraction_ratio(self, front_face: bool) -> T {
        if front_face {
            T::whole(1).over(self.refraction_index)
        } else {
            self.refraction_index
        }
    }

    pub fn refraction_ratio(&self, front_face: bool) -> (r: T)
        ensures
            r == self.spec_refraction_ratio(front_face),
    {
        if front_face {
            T::from_int(1).div(self.refraction_index)
        } else {
            self.refraction_index
        }
    }

    /// The ray that leaves the surface, for the random number `number`, and
    /// white: glass does not tint.
    pub open spec fn spec_scatter_with(self, hit_record: HitRecord<T>, ray: Ray<T>, number: T) -> (
        Ray<T>,
        Colour<T>,
    ) {
        (
            ray.spec_interact(
                hit_record,
                self.spec_refraction_ratio(hit_record.front_face),
                number,
            ),
            Vec3::<T>::spec_splat(T::whole(1)),
        )
    }

    /// The ray that leaves the surface, for the random number `number`, and white.
    pub fn scatter_with(&self, hit_record: &HitRecord<T>, ray: &Ray<T>, number: T) -> (r: (
        Ray<T>,
        Colour<T>,
    ))
        ensures
            r == self.spec_scatter_with(*hit_record, *ray, number),
    {
        let refraction_ratio = self.refraction_ratio(hit_record.front_face());
        let refracted_ray = ray.interact_with(hit_record, refraction_ratio, number);
        let one = T::from_int(1);
        (refracted_ray, Vec3::new(one, one, one))
    }
}

impl<T: Scalar> Material<T> for Dielectric<T> {
    /// A transparent surface draws a number from the unit interval, and only
    /// where a refracted ray exists.
    open spec fn spec_may_draw(&self, hit_record: HitRecord<T>, ray: Ray<T>, draw: Draw<T>)
        -> bool {
        ray.spec_may_draw(
            hit_record,
            self.spec_refraction_ratio(hit_record.front_face),
            draw.number,
        )
    }

    open spec fn spec_scatter(&self, hit_record: HitRecord<T>, ray: Ray<T>, draw: Draw<T>)
        -> Option<(Ray<T>, Colour<T>)> {
        Some(self.spec_scatter_with(hit_record, ray, draw.number))
    }

    /// A transparent surface never swallows a ray.
    fn scatter<R: RandomSource<T>>(&self, hit_record: &HitRecord<T>, ray: &Ray<T>, rng: &mut R) -> (r:
        Option<(Ray<T>, Colour<T>)>)
        ensures
            r.is_some(),
    {
        let refraction_ratio = self.refraction_ratio(hit_record.front_face());
        let refracted_ray = ray.interact(hit_record, refraction_ratio, rng);
        let one = T::from_int(1);
        let r = Some((refracted_ray, Vec3::new(one, one, one)));
        proof {
            let number = choose|number: T|
                ray.spec_may_draw(*hit_record, refraction_ratio, number) && refracted_ray
                    == #[trigger] ray.spec_interact(*hit_record, refraction_ratio, number);
            let draw = Draw { point: Vec3::spec_zero(), number };
            assert(self.spec_may_draw(*hit_record, *ray, draw) && r == self.spec_scatter(
                *hit_record,
                *ray,
                draw,
            ));
        }
        r
    }
}

impl<T: Scalar> Materials<T> {
    /// What the material does to `ray` at the surface of `hit_record` when its
    /// random values are those of `draw`: a diffuse surface uses the point, a
    /// metal uses the point, a transparent surface uses the number.
    pub open spec fn spec_scatter_with(self, hit_record: HitRecord<T>, ray: Ray<T>, draw: Draw<T>)
        -> Option<(Ray<T>, Colour<T>)> {
        match self {
            Materials::Lambertian(lambertian) => Some(
                lambertian.spec_scatter_with(hit_record, draw.point),
            ),
            Materials::Metal(metal) => metal.spec_scatter_with(hit_record, ray, draw.point),
            Materials::Dielectric(dielectric) => Some(
                dielectric.spec_scatter_with(hit_record, ray, draw.number),
            ),
        }
    }

    /// Whether `draw` holds random values that the material may use: a
    /// diffuse surface and a metal draw a point from the unit ball, a
    /// transparent surface draws a number from the unit interval where a
    /// refracted ray exists.
    pub open spec fn spec_may_draw_with(self, hit_record: HitRecord<T>, ray: Ray<T>, draw: Draw<T>)
        -> bool {
        match self {
            Materials::Lambertian(_) => spec_is_ball_draw(draw.point),
            Materials::Metal(_) => spec_is_ball_draw(draw.point),
            Materials::Dielectric(dielectric) => ray.spec_may_draw(
                hit_record,
                dielectric.spec_refraction_ratio(hit_record.front_face),
                draw.number,
            ),
        }
    }

    /// What the material does to `ray` for the random values of `draw`.
    pub fn scatter_with(&self, hit_record: &HitRecord<T>, ray: &Ray<T>, draw: &Draw<T>) -> (r:
        Option<(Ray<T>, Colour<T>)>)
        ensures
            r == self.spec_scatter_with(*hit_record, *ray, *draw),
    {
        match self {
            Materials::Lambertian(lambertian) => Some(
                lambertian.scatter_with(hit_record, draw.point),
            ),
            Materials::Metal(metal) => metal.scatter_with(hit_record, ray, draw.point),
            Materials::Dielectric(dielectric) => Some(
                dielectric.scatter_with(hit_record, ray, draw.number),
            ),
        }
    }
}

impl<T: Scalar> Material<T> for Materials<T> {
    open spec fn spec_may_draw(&self, hit_record: HitRecord<T>, ray: Ray<T>, draw: Draw<T>)
        -> bool {
        self.spec_may_draw_with(hit_record, ray, draw)
    }

    open spec fn spec_scatter(&self, hit_record: HitRecord<T>, ray: Ray<T>, draw: Draw<T>)
        -> Option<(Ray<T>, Colour<T>)> {
        self.spec_scatter_with(hit_record, ray, draw)
    }

    /// Only a metal can swallow a ray.
    fn scatter<R: RandomSource<T>>(&self, hit_record: &HitRecord<T>, ray: &Ray<T>, rng: &mut R) -> (r:
        Option<(Ray<T>, Colour<T>)>)
        ensures
            r.is_none() ==> self is Metal,
    {
        match self {
            Materials::Lambertian(lambertian) => {
                let r = lambertian.scatter(hit_record, ray, rng);
                proof {
                    let draw = choose|draw: Draw<T>|
                        lambertian.spec_may_draw(*hit_record, *ray, draw) && r
                            == #[trigger] lambertian.spec_scatter(*hit_record, *ray, draw);
                    assert(self.spec_may_draw(*hit_record, *ray, draw) && r == self.spec_scatter(
                        *hit_record,
                        *ray,
                        draw,
                    ));
                }
                r
            },
            Materials::Metal(metal) => {
                let r = metal.scatter(hit_record, ray, rng);
                proof {
                    let draw = choose|draw: Draw<T>|
                        metal.spec_may_draw(*hit_record, *ray, draw) && r
                            == #[trigger] metal.spec_scatter(*hit_record, *ray, draw);
                    assert(self.spec_may_draw(*hit_record, *ray, draw) && r == self.spec_scatter(
                        *hit_record,
                        *ray,
                        draw,
                    ));
                }
                r
            },
            Materials::Dielectric(dielectric) => {
                let r = dielectric.scatter(hit_record, ray, rng);
                proof {
                    let draw = choose|draw: Draw<T>|
                        dielectric.spec_may_draw(*hit_record, *ray, draw) && r
                            == #[trigger] dielectric.spec_scatter(*hit_record, *ray, draw);
                    assert(self.spec_may_draw(*hit_record, *ray, draw) && r == self.spec_scatter(
                        *hit_record,
                        *ray,
                        draw,
                    ));
                }
                r
            },
        }
    }
}

} // verus!
