//! What a ray can hit: spheres, and collections of objects.
use crate::material::Materials;
use crate::ray::Ray;
use crate::scalar::Scalar;
use crate::vec3::{Point3D, Vec3};
use core::ops::{Div, Neg, Sub};
use vstd::prelude::*;

verus! {

/// Where and how a ray met a surface.
///
/// `normal` is the surface normal turned against the ray, `front_face` tells
/// whether the ray came from outside, `t` is the ray parameter of `point`, and
/// `material` is the material of the surface that was met.
#[derive(Debug, Clone, Copy, PartialEq)]
pub struct HitRecord<T> {
    pub point: Point3D<T>,
    pub normal: Vec3<T>,
    pub t: T,
    pub front_face: bool,
    pub material: Materials<T>,
}

/// Whether `t` lies in the interval that is open at `t_min` and closed at `t_max`.
pub open spec fn spec_in_range<T: Scalar>(t: T, t_min: T, t_max: T) -> bool {
    t_min.below(t) && t.at_most(t_max)
}

pub fn in_range<T: Scalar>(t: T, t_min: T, t_max: T) -> (r: bool)
    ensures
        r == spec_in_range(t, t_min, t_max),
{
    t_min.lt(t) && t.le(t_max)
}

impl<T: Scalar> HitRecord<T> {
    /// The record before anything is known: all zero, not a front face, unlit.
    pub open spec fn spec_new() -> Self {
        HitRecord {
            point: Vec3::spec_zero(),
            normal: Vec3::spec_zero(),
            t: T::whole(0),
            front_face: false,
            material: Materials::spec_unlit(),
        }
    }

    /// Whether `ray` meets a surface with the outward normal `outward_normal`
    /// from outside: its direction points against the normal.
    pub open spec fn spec_faces(ray: Ray<T>, outward_normal: Vec3<T>) -> bool {
        ray.direction.spec_dot(outward_normal).below(T::whole(0))
    }

    /// The record with `front_face` and `normal` set for `ray`: the outward
    /// normal where the ray comes from outside, else its negation.
    pub open spec fn spec_set_face_normal(self, ray: Ray<T>, outward_normal: Vec3<T>) -> Self {
        let front_face = Self::spec_faces(ray, outward_normal);
        HitRecord {
            front_face,
            normal: if front_face {
                outward_normal
            } else {
                outward_normal.spec_neg()
            },
            ..self
        }
    }

    pub fn new() -> (r: Self)
        ensures
            r == Self::spec_new(),
    {
        HitRecord {
            point: Vec3::zero(),
            normal: Vec3::zero(),
            t: T::from_int(0),
            front_face: false,
            material: Materials::unlit(),
        }
    }

    pub fn set_point(self, point: Vec3<T>) -> (r: Self)
        ensures
            r == (HitRecord { point, ..self }),
    {
        let mut record = self;
        record.point = point;
        record
    }

    pub fn set_time(self, time: T) -> (r: Self)
        ensures
            r == (HitRecord { t: time, ..self }),
    {
        let mut record = self;
        record.t = time;
        record
    }

    pub fn set_material(self, material: Materials<T>) -> (r: Self)
        ensures
            r == (HitRecord { material, ..self }),
    {
        let mut record = self;
        record.material = material;
        record
    }

    pub fn set_face_normal(self, ray: &Ray<T>, outward_normal: &Vec3<T>) -> (r: Self)
        ensures
            r == self.spec_set_face_normal(*ray, *outward_normal),
    {
        let mut record = self;
        record.front_face = ray.direction().dot(outward_normal).lt(T::from_int(0));
        record.normal = if record.front_face {
            *outward_normal
        } else {
            (*outward_normal).neg()
        };
        record
    }

    pub fn normal(&self) -> (r: Vec3<T>)
        ensures
            r == self.normal,
    {
        self.normal
    }

    pub fn point(&self) -> (r: Point3D<T>)
        ensures
            r == self.point,
    {
        self.point
    }

    pub fn t(&self) -> (r: T)
        ensures
            r == self.t,
    {
        self.t
    }

    pub fn front_face(&self) -> (r: bool)
        ensures
            r == self.front_face,
    {
        self.front_face
    }

    pub fn material(&self) -> (r: Materials<T>)
        ensures
            r == self.material,
    {
        self.material
    }
}

/// Something a ray can meet.
pub trait Hit<T: Scalar> {
    /// The nearest meeting of `ray` with `self` whose parameter lies above
    /// `t_min` and not above `t_max`, if there is one.
    spec fn spec_hit(&self, ray: Ray<T>, t_min: T, t_max: T) -> Option<HitRecord<T>>;

    fn hit(&self, ray: &Ray<T>, t_min: T, t_max: T) -> (r: Option<HitRecord<T>>)
        ensures
            r == self.spec_hit(*ray, t_min, t_max),
    ;
}

/// A sphere; a negative radius turns its normals inward.
#[derive(Debug, Clone, Copy, PartialEq)]
pub struct Sphere<T> {
    pub center: Point3D<T>,
    pub radius: T,
    pub material: Materials<T>,
}

pub enum Object<T> {
    Sphere(Sphere<T>),
    SceneObjects(SceneObjects<T>),
}

/// Objects in the order in which they were added.
pub struct SceneObjects<T> {
    pub objects: Vec<Object<T>>,
}

impl<T: Scalar> Sphere<T> {
    /// The discriminant of `a t^2 + 2 half_b t + c = 0`, the equation of the
    /// parameters at which `ray` meets the sphere.
    pub open spec fn spec_discriminant(self, ray: Ray<T>) -> T {
        let oc = ray.origin.spec_sub(self.center);
        let a = ray.direction.spec_length_sqrd();
        let half_b = oc.spec_dot(ray.direction);
        let c = oc.spec_length_sqrd().minus(self.radius.times(self.radius));
        half_b.times(half_b).minus(a.times(c))
    }

    /// The smaller (`far` false) or larger (`far` true) solution of the equation.
    pub open spec fn spec_root(self, ray: Ray<T>, far: bool) -> T {
        let oc = ray.origin.spec_sub(self.center);
        let a = ray.direction.spec_length_sqrd();
        let half_b = oc.spec_dot(ray.direction);
        let root_of_discriminant = self.spec_discriminant(ray).root();
        if far {
            half_b.negated().plus(root_of_discriminant).over(a)
        } else {
            half_b.negated().minus(root_of_discriminant).over(a)
        }
    }

    /// The record of `ray` meeting the sphere at parameter `t`.
    pub open spec fn spec_record(self, ray: Ray<T>, t: T) -> HitRecord<T> {
        let point = ray.spec_at(t);
        let outward_normal = point.spec_sub(self.center).spec_shrink(self.radius);
        HitRecord::spec_new().spec_set_face_normal(ray, outward_normal).spec_fill(
            point,
            t,
            self.material,
        )
    }

    /// No meeting where the discriminant lies below zero; else the meeting at
    /// the smaller solution where that is in range, else at the larger one
    /// where that is in range, else none.
    pub open spec fn spec_hit_sphere(self, ray: Ray<T>, t_min: T, t_max: T) -> Option<
        HitRecord<T>,
    > {
        if self.spec_discriminant(ray).below(T::whole(0)) {
            None
        } else if spec_in_range(self.spec_root(ray, false), t_min, t_max) {
            Some(self.spec_record(ray, self.spec_root(ray, false)))
        } else if spec_in_range(self.spec_root(ray, true), t_min, t_max) {
            Some(self.spec_record(ray, self.spec_root(ray, true)))
        } else {
            None
        }
    }

    pub fn new(center: Point3D<T>, radius: T, material: Materials<T>) -> (r: Self)
        ensures
            r.center == center,
            r.radius == radius,
            r.material == material,
    {
        Sphere { center, radius, material }
    }

    pub fn center(&self) -> (r: Point3D<T>)
        ensures
            r == self.center,
    {
        self.center
    }

    pub fn radius(&self) -> (r: T)
        ensures
            r == self.radius,
    {
        self.radius
    }

    pub fn material(&self) -> (r: Materials<T>)
        ensures
            r == self.material,
    {
        self.material
    }
}

impl<T: Scalar> HitRecord<T> {
    /// The record with point, parameter and material set.
    pub open spec fn spec_fill(self, point: Point3D<T>, t: T, material: Materials<T>) -> Self {
        HitRecord { point, t, material, ..self }
    }
}

impl<T: Scalar> Hit<T> for Sphere<T> {
    open spec fn spec_hit(&self, ray: Ray<T>, t_min: T, t_max: T) -> Option<HitRecord<T>> {
        self.spec_hit_sphere(ray, t_min, t_max)
    }

    fn hit(&self, ray: &Ray<T>, t_min: T, t_max: T) -> (r: Option<HitRecord<T>>) {
        let oc = ray.origin().sub(self.center);
        let a = ray.direction().length_sqrd();
        let half_b = oc.dot(&ray.direction());
        let c = oc.length_sqrd().sub(self.radius.mul(self.radius));

        let discrim = half_b.mul(half_b).sub(a.mul(c));
        if discrim.lt(T::from_int(0)) {
            return None;
        }
        let discrim_sqrt = discrim.sqrt();

        let mut root = half_b.neg().sub(discrim_sqrt).div(a);
        if !in_range(root, t_min, t_max) {
            root = half_b.neg().add(discrim_sqrt).div(a);
            if !in_range(root, t_min, t_max) {
                return None;
            }
        }
        let point = ray.at(root);
        let outward_normal = point.sub(self.center).div(self.radius);
        let hit_record = HitRecord::new().set_time(root).set_point(point).set_material(
            self.material,
        ).set_face_normal(ray, &outward_normal);
        Some(hit_record)
    }
}

/// The nearest meeting among `objects`, found in one pass from the first to the
/// last: each object is asked for a meeting not above the nearest one found so
/// far (`t_max` while there is none), and a meeting it reports replaces that one.
pub open spec fn spec_scan<T: Scalar>(objects: Seq<Object<T>>, ray: Ray<T>, t_min: T, t_max: T)
    -> Option<HitRecord<T>>
    decreases objects, 0nat,
{
    if objects.len() == 0 {
        None
    } else {
        let earlier = spec_scan(objects.drop_last(), ray, t_min, t_max);
        let closest_so_far = match earlier {
            Some(record) => record.t,
            None => t_max,
        };
        match objects.last().spec_hit_object(ray, t_min, closest_so_far) {
            Some(record) => Some(record),
            None => earlier,
        }
    }
}

impl<T: Scalar> Object<T> {
    /// The meeting with the sphere, or the nearest meeting within the collection.
    pub open spec fn spec_hit_object(self, ray: Ray<T>, t_min: T, t_max: T) -> Option<
        HitRecord<T>,
    >
        decreases self, 1nat,
    {
        match self {
            Object::Sphere(sphere) => sphere.spec_hit_sphere(ray, t_min, t_max),
            Object::SceneObjects(scene_objects) => spec_scan(
                scene_objects.objects@,
                ray,
                t_min,
                t_max,
            ),
        }
    }

    fn hit_object(&self, ray: &Ray<T>, t_min: T, t_max: T) -> (r: Option<HitRecord<T>>)
        ensures
            r == self.spec_hit_object(*ray, t_min, t_max),
        decreases self, 1nat,
    {
        match self {
            Object::Sphere(sphere) => sphere.hit(ray, t_min, t_max),
            Object::SceneObjects(scene_objects) => scene_objects.hit_objects(ray, t_min, t_max),
        }
    }
}

impl<T: Scalar> Hit<T> for Object<T> {
    open spec fn spec_hit(&self, ray: Ray<T>, t_min: T, t_max: T) -> Option<HitRecord<T>> {
        self.spec_hit_object(ray, t_min, t_max)
    }

    fn hit(&self, ray: &Ray<T>, t_min: T, t_max: T) -> (r: Option<HitRecord<T>>) {
        self.hit_object(ray, t_min, t_max)
    }
}

impl<T: Scalar> SceneObjects<T> {
    pub fn new() -> (r: Self)
        ensures
            r.objects@ == Seq::<Object<T>>::empty(),
    {
        SceneObjects { objects: Vec::new() }
    }

    pub fn add(&mut self, object: Object<T>)
        ensures
            final(self).objects@ == old(self).objects@.push(object),
    {
        self.objects.push(object);
    }

    pub fn clear(&mut self)
        ensures
            final(self).objects@ == Seq::<Object<T>>::empty(),
    {
        self.objects.clear();
    }

    fn hit_objects(&self, ray: &Ray<T>, t_min: T, t_max: T) -> (r: Option<HitRecord<T>>)
        ensures
            r == spec_scan(self.objects@, *ray, t_min, t_max),
        decreases self, 0nat,
    {
        let mut closest_so_far = t_max;
        let mut hit_record: Option<HitRecord<T>> = None;
        let mut i: usize = 0;
        while i < self.objects.len()
            invariant
                i <= self.objects.len(),
                hit_record == spec_scan(self.objects@.take(i as int), *ray, t_min, t_max),
                closest_so_far == match hit_record {
                    Some(record) => record.t,
                    None => t_max,
                },
            decreases self.objects.len() - i,
        {
            assert(self.objects@.take(i + 1).drop_last() == self.objects@.take(i as int));
            assert(self.objects@.take(i + 1).last() == self.objects@[i as int]);
            if let Some(tmp_record) = self.objects[i].hit_object(ray, t_min, closest_so_far) {
                closest_so_far = tmp_record.t;
                hit_record = Some(tmp_record);
            }
            i += 1;
        }
        assert(self.objects@.take(i as int) == self.objects@);
        hit_record
    }
}

impl<T: Scalar> Hit<T> for SceneObjects<T> {
    open spec fn spec_hit(&self, ray: Ray<T>, t_min: T, t_max: T) -> Option<HitRecord<T>> {
        spec_scan(self.objects@, ray, t_min, t_max)
    }

    fn hit(&self, ray: &Ray<T>, t_min: T, t_max: T) -> (r: Option<HitRecord<T>>) {
        self.hit_objects(ray, t_min, t_max)
    }
}

} // verus!
