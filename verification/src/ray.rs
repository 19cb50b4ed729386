//! Rays: a point of departure and a direction.
use crate::objects::HitRecord;
use crate::random::{spec_is_unit_draw, RandomSource};
use crate::scalar::{min, spec_min, Scalar};
use crate::vec3::{Point3D, Vec3};
use core::ops::{Add, Mul, Neg};
use vstd::prelude::*;

verus! {

/// The half-line `origin + t * direction`. The direction need not have length one.
#[derive(Debug, Clone, Copy, PartialEq)]
pub struct Ray<T> {
    pub origin: Point3D<T>,
    pub direction: Vec3<T>,
}

impl<T: Scalar> Ray<T> {
    /// The point at parameter `t`.
    pub open spec fn spec_at(self, t: T) -> Point3D<T> {
        self.origin.spec_add(self.direction.spec_scale(t))
    }

    pub fn new(origin: Point3D<T>, direction: Vec3<T>) -> (r: Self)
        ensures
            r.origin == origin,
            r.direction == direction,
    {
        Ray { origin, direction }
    }

    pub fn at(&self, t: T) -> (r: Point3D<T>)
        ensures
            r == self.spec_at(t),
    {
        self.origin.add(self.direction.mul(t))
    }

    pub fn direction(&self) -> (r: Vec3<T>)
        ensures
            r == self.direction,
    {
        self.direction
    }

    pub fn origin(&self) -> (r: Point3D<T>)
        ensures
            r == self.origin,
    {
        self.origin
    }
}

/// Schlick's estimate of the share of light that a surface reflects when it is
/// met under the angle with cosine `cos` and the refractive indices on its two
/// sides have the ratio `refraction_ratio`: `r0 + (1 - r0) * (1 - cos)^5` with
/// `r0 = ((1 - ratio) / (1 + ratio))^2`. The fifth power is taken by squaring
/// twice and multiplying once.
pub open spec fn spec_schlick<T: Scalar>(cos: T, refraction_ratio: T) -> T {
    let one = T::whole(1);
    let base = one.minus(refraction_ratio).over(one.plus(refraction_ratio));
    let r0 = base.times(base);
    let away = one.minus(cos);
    let squared = away.times(away);
    r0.plus(one.minus(r0).times(squared.times(squared).times(away)))
}

/// Whether the ray is reflected rather than refracted, given the random number
/// `draw`: the estimated share of reflected light lies above the draw.
pub open spec fn spec_reflectance<T: Scalar>(cos: T, refraction_ratio: T, draw: T) -> bool {
    draw.below(spec_schlick(cos, refraction_ratio))
}

pub fn schlick<T: Scalar>(cos: T, refraction_ratio: T) -> (r: T)
    ensures
        r == spec_schlick(cos, refraction_ratio),
{
    let one = T::from_int(1);
    let base = one.sub(refraction_ratio).div(one.add(refraction_ratio));
    let r0 = base.mul(base);
    let away = one.sub(cos);
    let squared = away.mul(away);
    r0.add(one.sub(r0).mul(squared.mul(squared).mul(away)))
}

/// The reflect-or-refract decision for the random number `draw`.
pub fn reflectance<T: Scalar>(cos: T, refraction_ratio: T, draw: T) -> (r: bool)
    ensures
        r == spec_reflectance(cos, refraction_ratio, draw),
{
    draw.lt(schlick(cos, refraction_ratio))
}

impl<T: Scalar> Ray<T> {
    /// The cosine of the angle under which the ray meets the surface of
    /// `hit_record`, limited to one.
    pub open spec fn spec_cos_theta(self, hit_record: HitRecord<T>) -> T {
        spec_min(self.direction.spec_unit().spec_neg().spec_dot(hit_record.normal), T::whole(1))
    }

    /// Whether no refracted ray exists: `refraction_ratio * sin_theta` lies
    /// above one, with `sin_theta = sqrt(1 - cos_theta^2)`.
    pub open spec fn spec_totally_reflected(self, hit_record: HitRecord<T>, refraction_ratio: T)
        -> bool {
        let cos_theta = self.spec_cos_theta(hit_record);
        let sin_theta = T::whole(1).minus(cos_theta.times(cos_theta)).root();
        T::whole(1).below(refraction_ratio.times(sin_theta))
    }

    /// The ray that leaves a transparent surface at the point of `hit_record`,
    /// given the random number `draw`: reflected where no refracted ray exists
    /// or where the draw decides for reflection, refracted otherwise.
    pub open spec fn spec_interact(self, hit_record: HitRecord<T>, refraction_ratio: T, draw: T)
        -> Self {
        let unit_direction = self.direction.spec_unit();
        let reflects = self.spec_totally_reflected(hit_record, refraction_ratio)
            || spec_reflectance(self.spec_cos_theta(hit_record), refraction_ratio, draw);
        Ray {
            origin: hit_record.point,
            direction: if reflects {
                unit_direction.spec_reflect(hit_record.normal)
            } else {
                unit_direction.spec_refract(hit_record.normal, refraction_ratio)
            },
        }
    }

    /// Whether `draw` is a number that `interact` may have used: one drawn
    /// from the unit interval, or any number where no refracted ray exists and
    /// none is drawn.
    pub open spec fn spec_may_draw(self, hit_record: HitRecord<T>, refraction_ratio: T, draw: T)
        -> bool {
        self.spec_totally_reflected(hit_record, refraction_ratio) || spec_is_unit_draw(draw)
    }

    /// The ray that leaves a transparent surface. A random number is drawn only
    /// where a refracted ray exists.
    pub fn interact<R: RandomSource<T>>(
        &self,
        hit_record: &HitRecord<T>,
        refraction_ratio: T,
        rng: &mut R,
    ) -> (r: Self)
        ensures
            exists|draw: T|
                self.spec_may_draw(*hit_record, refraction_ratio, draw) && r
                    == #[trigger] self.spec_interact(*hit_record, refraction_ratio, draw),
            self.spec_totally_reflected(*hit_record, refraction_ratio) ==> forall|draw: T|
                r == self.spec_interact(*hit_record, refraction_ratio, draw),
    {
        let unit_direction = self.direction().unit();
        let cos_theta = min(unit_direction.neg().dot(&hit_record.normal()), T::from_int(1));
        let sin_theta = T::from_int(1).sub(cos_theta.mul(cos_theta)).sqrt();
        let ghost mut used = T::whole(0);
        let reflects = if T::from_int(1).lt(refraction_ratio.mul(sin_theta)) {
            true
        } else {
            let draw = rng.unit_interval();
            proof {
                used = draw;
            }
            reflectance(cos_theta, refraction_ratio, draw)
        };
        let direction = if reflects {
            unit_direction.reflect(&hit_record.normal())
        } else {
            unit_direction.refract(&hit_record.normal(), refraction_ratio)
        };
        let r = Ray::new(hit_record.point(), direction);
        assert(self.spec_may_draw(*hit_record, refraction_ratio, used) && r == self.spec_interact(
            *hit_record,
            refraction_ratio,
            used,
        ));
        r
    }

    /// The ray that leaves a transparent surface, for the random number `draw`.
    pub fn interact_with(&self, hit_record: &HitRecord<T>, refraction_ratio: T, draw: T) -> (r:
        Self)
        ensures
            r == self.spec_interact(*hit_record, refraction_ratio, draw),
    {
        let unit_direction = self.direction().unit();
        let cos_theta = min(unit_direction.neg().dot(&hit_record.normal()), T::from_int(1));
        let sin_theta = T::from_int(1).sub(cos_theta.mul(cos_theta)).sqrt();
        let reflects = T::from_int(1).lt(refraction_ratio.mul(sin_theta)) || reflectance(
            cos_theta,
            refraction_ratio,
            draw,
        );
        let direction = if reflects {
            unit_direction.reflect(&hit_record.normal())
        } else {
            unit_direction.refract(&hit_record.normal(), refraction_ratio)
        };
        Ray::new(hit_record.point(), direction)
    }
}

} // verus!
