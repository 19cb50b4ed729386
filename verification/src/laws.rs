//! What holds of the tracer as a whole.
//!
//! The first statements hold of every scalar type. The tracer itself asks
//! nothing of the scalar's algebra; the statements after them name the laws
//! they rest on, so that they hold of every scalar type that obeys those laws
//! and say nothing of one that does not.
use crate::algebra::{
    lemma_at_most_chains, lemma_at_most_itself, lemma_at_most_then_below,
    lemma_below_is_positive_difference, lemma_below_one_way, lemma_difference_of_sums,
    lemma_difference_taken_back, lemma_distributes, lemma_distributes_over_difference,
    lemma_double_negative, lemma_factor_of_three, lemma_field_is_ring, lemma_minus,
    lemma_minus_of_difference, lemma_minus_of_sum, lemma_negated_three, lemma_negated_times,
    lemma_one_is_at_most, lemma_over_one, lemma_plus_associates, lemma_plus_commutes,
    lemma_plus_negative, lemma_plus_zero, lemma_reciprocal, lemma_root_of_one,
    lemma_root_of_square, lemma_scaled_component, lemma_scaled_square,
    lemma_square_is_not_negative, lemma_square_of_negative, lemma_square_of_root,
    lemma_square_of_sum, lemma_sum_negated, lemma_sum_of_pairs, lemma_times_associates,
    lemma_times_commutes, lemma_times_negated, lemma_times_one, lemma_times_zero, lemma_two,
    lemma_zero_below_one, spec_negation_mirrors, spec_ordered_field, spec_ring, spec_strict_order,
    spec_total_order,
};
use crate::material::{Material, Materials, Metal};
use crate::objects::{spec_in_range, spec_scan, HitRecord, Object, Sphere};
use crate::random::Draw;
use crate::ray::Ray;
use crate::scalar::Scalar;
use crate::scene::{spec_background, spec_is_radiance, spec_shade};
use crate::vec3::{Colour, Vec3};
use vstd::prelude::*;

verus! {

/// Only a metal swallows a ray, and it does so exactly where the direction in
/// which it would send the ray does not leave the surface. A diffuse surface
/// and a transparent surface scatter every ray.
pub proof fn lemma_absorption<T: Scalar>(
    material: Materials<T>,
    hit_record: HitRecord<T>,
    ray: Ray<T>,
    draw: Draw<T>,
)
    ensures
        material.spec_scatter_with(hit_record, ray, draw).is_none() <==> (material matches Materials::Metal(
            metal,
        ) && !Metal::spec_leaves(
            metal.spec_direction(hit_record.normal, ray, draw.point),
            hit_record.normal,
        )),
        material.spec_scatter(hit_record, ray, draw) == material.spec_scatter_with(
            hit_record,
            ray,
            draw,
        ),
{
}

/// With no bounce left, black is the one colour a ray can have, whatever the
/// ray and whatever the scene.
pub proof fn lemma_spent_budget<T: Scalar>(
    objects: Seq<Object<T>>,
    ray: Ray<T>,
    depth: int,
    colour: Colour<T>,
)
    requires
        depth <= 0,
    ensures
        spec_is_radiance(objects, ray, depth, colour) <==> colour == Vec3::<T>::spec_zero(),
{
}

/// A ray that meets nothing has the colour of the sky and no other, as long
/// as a bounce is left.
pub proof fn lemma_miss_shows_sky<T: Scalar>(
    objects: Seq<Object<T>>,
    ray: Ray<T>,
    depth: int,
    colour: Colour<T>,
)
    requires
        depth > 0,
        spec_scan(objects, ray, T::whole(0), T::unbounded()) is None,
    ensures
        spec_is_radiance(objects, ray, depth, colour) <==> colour == spec_background(ray),
{
}

/// In a ring, a ray that meets a surface with one bounce left is black: the
/// scattered ray is not followed, and a colour weakened from black is black.
pub proof fn lemma_last_bounce_is_black<T: Scalar>(
    objects: Seq<Object<T>>,
    ray: Ray<T>,
    colour: Colour<T>,
)
    requires
        spec_ring::<T>(),
        spec_scan(objects, ray, T::whole(0), T::unbounded()) is Some,
        spec_is_radiance(objects, ray, 1, colour),
    ensures
        colour == Vec3::<T>::spec_zero(),
{
    reveal_with_fuel(spec_is_radiance, 2);
    let hit_record = spec_scan(objects, ray, T::whole(0), T::unbounded())->0;
    let (draw, deeper) = choose|draw: Draw<T>, deeper: Colour<T>|
        {
            &&& hit_record.material.spec_may_draw_with(hit_record, ray, draw)
            &&& colour == #[trigger] spec_shade(ray, hit_record, draw, deeper)
            &&& match hit_record.material.spec_scatter_with(hit_record, ray, draw) {
                None => true,
                Some((scattered, _)) => spec_is_radiance(objects, scattered, 0, deeper),
            }
        };
    if let Some((_, attenuation)) = hit_record.material.spec_scatter_with(hit_record, ray, draw) {
        lemma_times_zero(attenuation.x);
        lemma_times_zero(attenuation.y);
        lemma_times_zero(attenuation.z);
    }
}

/// In a ring, a metal without fuzz sends a ray along the mirror image of its
/// direction, whatever point is drawn.
pub proof fn lemma_mirror_without_fuzz<T: Scalar>(
    metal: Metal<T>,
    normal: Vec3<T>,
    ray: Ray<T>,
    point: Vec3<T>,
)
    requires
        spec_ring::<T>(),
        metal.fuzz == T::whole(0),
    ensures
        metal.spec_direction(normal, ray, point) == ray.direction.spec_unit().spec_reflect(normal),
{
    let mirrored = ray.direction.spec_unit().spec_reflect(normal);
    lemma_times_zero(point.x);
    lemma_times_zero(point.y);
    lemma_times_zero(point.z);
    lemma_plus_zero(mirrored.x);
    lemma_plus_zero(mirrored.y);
    lemma_plus_zero(mirrored.z);
}

/// Where below and at most fit together, a metal swallows every ray whose
/// scattered direction points into the surface, sends on every ray whose
/// scattered direction points out of it, and swallows none but those whose
/// scattered direction does not point out of it.
pub proof fn lemma_metal_cases<T: Scalar>(
    metal: Metal<T>,
    hit_record: HitRecord<T>,
    ray: Ray<T>,
    point: Vec3<T>,
)
    requires
        spec_strict_order::<T>(),
    ensures
        ({
            let direction = metal.spec_direction(hit_record.normal, ray, point);
            let along = direction.spec_dot(hit_record.normal);
            let scattered = metal.spec_scatter_with(hit_record, ray, point);
            &&& along.below(T::whole(0)) ==> scattered is None
            &&& T::whole(0).below(along) ==> scattered == Some(
                (Ray { origin: hit_record.point, direction }, metal.albedo),
            )
            &&& scattered is None ==> along.at_most(T::whole(0))
        }),
{
}

/// A record whose normal was set for `ray` is a front face exactly where the
/// ray runs against the outward normal, and then it runs against the normal
/// of the record too; otherwise the record holds the outward normal negated.
pub proof fn lemma_face_normal<T: Scalar>(
    record: HitRecord<T>,
    ray: Ray<T>,
    outward_normal: Vec3<T>,
)
    ensures
        ({
            let set = record.spec_set_face_normal(ray, outward_normal);
            &&& set.front_face <==> ray.direction.spec_dot(outward_normal).below(T::whole(0))
            &&& set.front_face ==> ray.direction.spec_dot(set.normal).below(T::whole(0))
            &&& !set.front_face ==> set.normal == outward_normal.spec_neg()
            &&& set.point == record.point && set.t == record.t && set.material == record.material
        }),
{
}

/// Where negation mirrors, the dot product with a negated vector is the
/// negated dot product.
pub proof fn lemma_dot_negated<T: Scalar>(a: Vec3<T>, b: Vec3<T>)
    requires
        spec_negation_mirrors::<T>(),
    ensures
        a.spec_dot(b.spec_neg()) == a.spec_dot(b).negated(),
{
    let p = a.x.times(b.x);
    let q = a.y.times(b.y);
    let r = a.z.times(b.z);
    assert(a.x.times(b.x.negated()) == p.negated());
    assert(a.y.times(b.y.negated()) == q.negated());
    assert(a.z.times(b.z.negated()) == r.negated());
    assert(p.negated().plus(q.negated()) == p.plus(q).negated());
    assert(p.plus(q).negated().plus(r.negated()) == p.plus(q).plus(r).negated());
}

/// Where negation mirrors, the normal of a record that was set for `ray`
/// faces the ray: the dot product of the ray's direction with it is at most
/// zero.
pub proof fn lemma_normal_faces_ray<T: Scalar>(
    record: HitRecord<T>,
    ray: Ray<T>,
    outward_normal: Vec3<T>,
)
    requires
        spec_negation_mirrors::<T>(),
    ensures
        ray.direction.spec_dot(
            record.spec_set_face_normal(ray, outward_normal).normal,
        ).at_most(T::whole(0)),
{
    lemma_dot_negated(ray.direction, outward_normal);
}

/// Where negation mirrors, the normal of every record that a sphere returns
/// faces the ray.
pub proof fn lemma_sphere_faces_ray<T: Scalar>(sphere: Sphere<T>, ray: Ray<T>, t_min: T, t_max: T)
    requires
        spec_negation_mirrors::<T>(),
    ensures
        sphere.spec_hit_sphere(ray, t_min, t_max) matches Some(record)
            ==> ray.direction.spec_dot(record.normal).at_most(T::whole(0)),
{
    if let Some(record) = sphere.spec_hit_sphere(ray, t_min, t_max) {
        let t = record.t;
        let outward_normal = ray.spec_at(t).spec_sub(sphere.center).spec_shrink(sphere.radius);
        lemma_normal_faces_ray(HitRecord::spec_new(), ray, outward_normal);
    }
}

/// Where negation mirrors, the normal of every record that a scan of
/// `objects` returns faces the ray, however deep the collections are nested.
pub proof fn lemma_scan_faces_ray<T: Scalar>(
    objects: Seq<Object<T>>,
    ray: Ray<T>,
    t_min: T,
    t_max: T,
)
    requires
        spec_negation_mirrors::<T>(),
    ensures
        spec_scan(objects, ray, t_min, t_max) matches Some(record)
            ==> ray.direction.spec_dot(record.normal).at_most(T::whole(0)),
    decreases objects, 0nat,
{
    if objects.len() > 0 {
        lemma_scan_faces_ray(objects.drop_last(), ray, t_min, t_max);
        let closest_so_far = match spec_scan(objects.drop_last(), ray, t_min, t_max) {
            Some(record) => record.t,
            None => t_max,
        };
        lemma_object_faces_ray(objects.last(), ray, t_min, closest_so_far);
    }
}

/// Where negation mirrors, the normal of every record that an object returns
/// faces the ray.
pub proof fn lemma_object_faces_ray<T: Scalar>(object: Object<T>, ray: Ray<T>, t_min: T, t_max: T)
    requires
        spec_negation_mirrors::<T>(),
    ensures
        object.spec_hit_object(ray, t_min, t_max) matches Some(record)
            ==> ray.direction.spec_dot(record.normal).at_most(T::whole(0)),
    decreases object, 1nat,
{
    match object {
        Object::Sphere(sphere) => lemma_sphere_faces_ray(sphere, ray, t_min, t_max),
        Object::SceneObjects(scene_objects) => lemma_scan_faces_ray(
            scene_objects.objects@,
            ray,
            t_min,
            t_max,
        ),
    }
}

/// How what an object reports under the bound `bound` relates to what it
/// reports under a bound that is not lower: a meeting under `bound` lies in
/// range, it is not farther than the meeting under the other bound, and where
/// only the other bound gives a meeting, that meeting lies beyond `bound`.
pub open spec fn spec_tightens<T: Scalar>(
    loose: Option<HitRecord<T>>,
    tight: Option<HitRecord<T>>,
    t_min: T,
    bound: T,
) -> bool {
    &&& tight matches Some(near) ==> spec_in_range(near.t, t_min, bound)
    &&& tight matches Some(near) ==> (loose matches Some(far) ==> near.t.at_most(far.t))
    &&& tight is None ==> (loose matches Some(far) ==> !far.t.at_most(bound))
}

/// Under a total order, lowering the bound lets a sphere report a meeting
/// that is no farther, or none where the meeting lies beyond the bound.
pub proof fn lemma_sphere_tightens<T: Scalar>(
    sphere: Sphere<T>,
    ray: Ray<T>,
    t_min: T,
    bound: T,
    t_max: T,
)
    requires
        spec_total_order::<T>(),
        bound.at_most(t_max),
    ensures
        spec_tightens(
            sphere.spec_hit_sphere(ray, t_min, t_max),
            sphere.spec_hit_sphere(ray, t_min, bound),
            t_min,
            bound,
        ),
{
    let near = sphere.spec_root(ray, false);
    let far = sphere.spec_root(ray, true);
    lemma_at_most_itself(near);
    lemma_at_most_itself(far);
    lemma_one_is_at_most(near, bound);
    if near.at_most(bound) {
        lemma_at_most_chains(near, bound, t_max);
    }
    if far.at_most(bound) {
        lemma_at_most_chains(far, bound, t_max);
        if bound.at_most(near) {
            lemma_at_most_chains(far, bound, near);
        }
    }
}

/// Under a total order, lowering the bound lets a scan report a meeting that
/// is no farther, or none where the meeting lies beyond the bound.
pub proof fn lemma_scan_tightens<T: Scalar>(
    objects: Seq<Object<T>>,
    ray: Ray<T>,
    t_min: T,
    bound: T,
    t_max: T,
)
    requires
        spec_total_order::<T>(),
        bound.at_most(t_max),
    ensures
        spec_tightens(
            spec_scan(objects, ray, t_min, t_max),
            spec_scan(objects, ray, t_min, bound),
            t_min,
            bound,
        ),
    decreases objects, 0nat,
{
    if objects.len() > 0 {
        let earlier = objects.drop_last();
        lemma_scan_tightens(earlier, ray, t_min, bound, t_max);
        let loose = spec_scan(earlier, ray, t_min, t_max);
        let tight = spec_scan(earlier, ray, t_min, bound);
        let loose_bound = match loose {
            Some(record) => record.t,
            None => t_max,
        };
        let tight_bound = match tight {
            Some(record) => record.t,
            None => bound,
        };
        // The tighter scan never runs with the higher bound.
        if tight is None {
            if let Some(far) = loose {
                lemma_one_is_at_most(far.t, bound);
            }
        }
        if let Some(near) = tight {
            if loose is None {
                lemma_at_most_chains(near.t, bound, t_max);
            }
        }
        assert(tight_bound.at_most(loose_bound));
        lemma_object_tightens(objects.last(), ray, t_min, tight_bound, loose_bound);
        let next_loose = objects.last().spec_hit_object(ray, t_min, loose_bound);
        let next_tight = objects.last().spec_hit_object(ray, t_min, tight_bound);
        if let Some(near) = next_tight {
            // What is in range of the tighter bound is in range of `bound`.
            if let Some(record) = tight {
                lemma_at_most_chains(near.t, record.t, bound);
            }
            if next_loose is None {
                if let Some(far) = loose {
                    lemma_at_most_chains(near.t, tight_bound, far.t);
                }
            }
        } else {
            if let Some(far) = next_loose {
                lemma_one_is_at_most(far.t, tight_bound);
                if let Some(record) = tight {
                    if far.t.at_most(bound) {
                        lemma_one_is_at_most(far.t, record.t);
                        lemma_at_most_chains(record.t, far.t, bound);
                    }
                }
            }
        }
    }
}

/// Under a total order, lowering the bound lets an object report a meeting
/// that is no farther, or none where the meeting lies beyond the bound.
pub proof fn lemma_object_tightens<T: Scalar>(
    object: Object<T>,
    ray: Ray<T>,
    t_min: T,
    bound: T,
    t_max: T,
)
    requires
        spec_total_order::<T>(),
        bound.at_most(t_max),
    ensures
        spec_tightens(
            object.spec_hit_object(ray, t_min, t_max),
            object.spec_hit_object(ray, t_min, bound),
            t_min,
            bound,
        ),
    decreases object, 1nat,
{
    match object {
        Object::Sphere(sphere) => lemma_sphere_tightens(sphere, ray, t_min, bound, t_max),
        Object::SceneObjects(scene_objects) => lemma_scan_tightens(
            scene_objects.objects@,
            ray,
            t_min,
            bound,
            t_max,
        ),
    }
}

/// Under a total order, the meeting that a scan reports lies above `t_min`
/// and not above `t_max`.
pub proof fn lemma_scan_in_range<T: Scalar>(
    objects: Seq<Object<T>>,
    ray: Ray<T>,
    t_min: T,
    t_max: T,
)
    requires
        spec_total_order::<T>(),
    ensures
        spec_scan(objects, ray, t_min, t_max) matches Some(record) ==> spec_in_range(
            record.t,
            t_min,
            t_max,
        ),
{
    lemma_at_most_itself(t_max);
    lemma_scan_tightens(objects, ray, t_min, t_max, t_max);
}

/// Under a total order, a scan finds the nearest meeting: whatever object
/// `i` of the collection reports on its own for the same range, the scan
/// reports a meeting that is not farther, and it reports none only where no
/// object reports one.
pub proof fn lemma_scan_finds_nearest<T: Scalar>(
    objects: Seq<Object<T>>,
    ray: Ray<T>,
    t_min: T,
    t_max: T,
    i: int,
)
    requires
        spec_total_order::<T>(),
        0 <= i < objects.len(),
    ensures
        objects[i].spec_hit_object(ray, t_min, t_max) matches Some(own) ==> (spec_scan(
            objects,
            ray,
            t_min,
            t_max,
        ) matches Some(nearest) && nearest.t.at_most(own.t)),
    decreases objects.len(),
{
    let earlier = objects.drop_last();
    let before = spec_scan(earlier, ray, t_min, t_max);
    let closest_so_far = match before {
        Some(record) => record.t,
        None => t_max,
    };
    lemma_at_most_itself(t_max);
    lemma_scan_in_range(earlier, ray, t_min, t_max);
    let last = objects.last().spec_hit_object(ray, t_min, closest_so_far);
    lemma_object_tightens(objects.last(), ray, t_min, closest_so_far, t_max);
    if i < objects.len() - 1 {
        lemma_scan_finds_nearest(earlier, ray, t_min, t_max, i);
        assert(earlier[i] == objects[i]);
        if let Some(own) = objects[i].spec_hit_object(ray, t_min, t_max) {
            if let Some(near) = last {
                lemma_at_most_chains(near.t, closest_so_far, own.t);
            }
        }
    } else {
        if let Some(own) = objects[i].spec_hit_object(ray, t_min, t_max) {
            if last is None {
                lemma_one_is_at_most(own.t, closest_so_far);
            }
        }
    }
}

/// In a ring, one component of a mirrored vector times the same component of
/// the normal: `(v - n * k) * n = v * n + -((n * n) * k)`.
proof fn lemma_mirrored_component<T: Scalar>(v: T, n: T, k: T)
    requires
        spec_ring::<T>(),
    ensures
        v.minus(n.times(k)).times(n) == v.times(n).plus(n.times(n).times(k).negated()),
{
    let nk = n.times(k);
    lemma_minus(v, nk);
    lemma_times_commutes(v.plus(nk.negated()), n);
    lemma_distributes(n, v, nk.negated());
    lemma_times_commutes(n, v);
    lemma_times_negated(n, nk);
    lemma_times_associates(n, n, k);
}

/// In a ring, mirroring a vector at a plane whose normal has length one turns
/// the sign of its component along the normal and keeps its size:
/// `dot(reflect(v, n), n) = -dot(v, n)`.
pub proof fn lemma_reflection_flips_normal_component<T: Scalar>(v: Vec3<T>, n: Vec3<T>)
    requires
        spec_ring::<T>(),
        n.spec_dot(n) == T::whole(1),
    ensures
        v.spec_reflect(n).spec_dot(n) == v.spec_dot(n).negated(),
{
    let one = T::whole(1);
    let d = v.spec_dot(n);
    let k = T::whole(2).times(d);
    lemma_mirrored_component(v.x, n.x, k);
    lemma_mirrored_component(v.y, n.y, k);
    lemma_mirrored_component(v.z, n.z, k);
    let qx = n.x.times(n.x);
    let qy = n.y.times(n.y);
    let qz = n.z.times(n.z);
    let mx = qx.times(k);
    let my = qy.times(k);
    let mz = qz.times(k);
    lemma_sum_of_pairs(
        v.x.times(n.x),
        v.y.times(n.y),
        v.z.times(n.z),
        mx.negated(),
        my.negated(),
        mz.negated(),
    );
    // The negatives add up to the negative of (qx + qy + qz) * k = 1 * k = k.
    lemma_sum_negated(mx, my);
    lemma_sum_negated(mx.plus(my), mz);
    lemma_times_commutes(qx, k);
    lemma_times_commutes(qy, k);
    lemma_times_commutes(qz, k);
    lemma_distributes(k, qx, qy);
    lemma_distributes(k, qx.plus(qy), qz);
    lemma_times_one(k);
    assert(mx.plus(my).plus(mz) == k);
    assert(v.spec_reflect(n).spec_dot(n) == d.plus(k.negated()));
    // k = d * (1 + 1) = d + d, so d + -k = d + (-d + -d) = (d + -d) + -d = -d.
    lemma_two::<T>();
    lemma_times_commutes(T::whole(2), d);
    lemma_distributes(d, one, one);
    lemma_times_one(d);
    assert(k == d.plus(d));
    lemma_sum_negated(d, d);
    let nd = d.negated();
    lemma_plus_associates(d, nd, nd);
    lemma_plus_negative(d);
    lemma_plus_zero(nd);
}

/// In a ring, one component of a mirrored vector, squared:
/// `(v - n * k)^2 = (v^2 + -(k * (v * n) + k * (v * n))) + (k * k) * (n * n)`.
proof fn lemma_mirrored_component_squared<T: Scalar>(v: T, n: T, k: T)
    requires
        spec_ring::<T>(),
    ensures
        v.minus(n.times(k)).times(v.minus(n.times(k))) == v.times(v).plus(
            k.times(v.times(n)).plus(k.times(v.times(n))).negated(),
        ).plus(k.times(k).times(n.times(n))),
{
    let nk = n.times(k);
    let b = nk.negated();
    let e = k.times(v.times(n));
    lemma_minus(v, nk);
    lemma_square_of_sum(v, b);
    // v * -(n * k) = -((v * n) * k) = -(k * (v * n))
    lemma_times_negated(v, nk);
    lemma_times_associates(v, n, k);
    lemma_times_commutes(v.times(n), k);
    lemma_sum_negated(e, e);
    // -(n * k) * -(n * k) = (n * k) * (n * k) = (k * k) * (n * n)
    lemma_square_of_negative(nk);
    lemma_scaled_square(n, k);
}

/// In a ring, mirroring a vector at a plane whose normal has length one keeps
/// its length: the squared lengths are equal.
pub proof fn lemma_reflection_keeps_length<T: Scalar>(v: Vec3<T>, n: Vec3<T>)
    requires
        spec_ring::<T>(),
        n.spec_dot(n) == T::whole(1),
    ensures
        v.spec_reflect(n).spec_length_sqrd() == v.spec_length_sqrd(),
{
    let one = T::whole(1);
    let d = v.spec_dot(n);
    let k = T::whole(2).times(d);
    let kk = k.times(k);
    lemma_mirrored_component_squared(v.x, n.x, k);
    lemma_mirrored_component_squared(v.y, n.y, k);
    lemma_mirrored_component_squared(v.z, n.z, k);
    let ex = k.times(v.x.times(n.x));
    let ey = k.times(v.y.times(n.y));
    let ez = k.times(v.z.times(n.z));
    let cx = ex.plus(ex).negated();
    let cy = ey.plus(ey).negated();
    let cz = ez.plus(ez).negated();
    let bx = kk.times(n.x.times(n.x));
    let by = kk.times(n.y.times(n.y));
    let bz = kk.times(n.z.times(n.z));
    let ax = v.x.times(v.x);
    let ay = v.y.times(v.y);
    let az = v.z.times(v.z);
    // The three squares, summed part by part.
    lemma_sum_of_pairs(ax.plus(cx), ay.plus(cy), az.plus(cz), bx, by, bz);
    lemma_sum_of_pairs(ax, ay, az, cx, cy, cz);
    let squared = v.spec_length_sqrd();
    let middle = cx.plus(cy).plus(cz);
    let last = bx.plus(by).plus(bz);
    assert(v.spec_reflect(n).spec_length_sqrd() == squared.plus(middle).plus(last));
    // The last parts sum to (k * k) * 1.
    lemma_factor_of_three(kk, n.x.times(n.x), n.y.times(n.y), n.z.times(n.z));
    lemma_times_one(kk);
    assert(last == kk);
    // The middle parts sum to -(k * d + k * d).
    lemma_negated_three(ex.plus(ex), ey.plus(ey), ez.plus(ez));
    lemma_sum_of_pairs(ex, ey, ez, ex, ey, ez);
    lemma_factor_of_three(k, v.x.times(n.x), v.y.times(n.y), v.z.times(n.z));
    let kd = k.times(d);
    assert(middle == kd.plus(kd).negated());
    // k = d + d, so k * k = k * d + k * d, and the two cancel.
    lemma_two::<T>();
    lemma_times_commutes(T::whole(2), d);
    lemma_distributes(d, one, one);
    lemma_times_one(d);
    lemma_distributes(k, d, d);
    assert(kk == kd.plus(kd));
    lemma_plus_associates(squared, kk.negated(), kk);
    lemma_plus_negative(kk);
    lemma_plus_zero(squared);
}

/// In an ordered field, a vector whose length is positive has length one
/// once it is divided by its length.
pub proof fn lemma_unit_has_length_one<T: Scalar>(v: Vec3<T>)
    requires
        spec_ordered_field::<T>(),
        T::whole(0).below(v.spec_length()),
    ensures
        v.spec_unit().spec_length() == T::whole(1),
{
    lemma_field_is_ring::<T>();
    let one = T::whole(1);
    let length = v.spec_length();
    let k = one.over(length);
    let kk = k.times(k);
    let qx = v.x.times(v.x);
    let qy = v.y.times(v.y);
    let qz = v.z.times(v.z);
    // dot(unit, unit) = (k * k) * qx + (k * k) * qy + (k * k) * qz = (k * k) * dot(v, v)
    lemma_scaled_square(v.x, k);
    lemma_scaled_square(v.y, k);
    lemma_scaled_square(v.z, k);
    lemma_factor_of_three(kk, qx, qy, qz);
    let squared = v.spec_length_sqrd();
    assert(v.spec_unit().spec_length_sqrd() == kk.times(squared));
    // dot(v, v) = length * length, and (k * k) * (length * length) = (k * length)^2 = 1
    lemma_square_of_root(squared);
    lemma_reciprocal(length);
    lemma_times_associates(kk, length, length);
    lemma_times_associates(k, k, length);
    lemma_times_one(k);
    assert(kk.times(squared) == one);
    lemma_root_of_one::<T>();
}

/// The ray with the direction of `ray` turned round.
pub open spec fn spec_turned<T: Scalar>(ray: Ray<T>) -> Ray<T> {
    Ray { origin: ray.origin, direction: ray.direction.spec_neg() }
}

/// In an ordered field, for a sphere whose centre lies at the parameter `d`
/// of a ray with a direction of length one, and whose radius is not negative
/// and below `d`: the discriminant is the square of the radius, whether the
/// ray runs towards the centre or away from it, and half the linear
/// coefficient of the equation is `-d` towards the centre and `d` away from it.
proof fn lemma_sphere_on_the_ray<T: Scalar>(sphere: Sphere<T>, ray: Ray<T>, d: T)
    requires
        spec_ordered_field::<T>(),
        ray.direction.spec_dot(ray.direction) == T::whole(1),
        sphere.center == ray.spec_at(d),
    ensures
        ray.origin.spec_sub(sphere.center).spec_dot(ray.direction) == d.negated(),
        spec_turned(ray).origin.spec_sub(sphere.center).spec_dot(spec_turned(ray).direction) == d,
        spec_turned(ray).direction.spec_length_sqrd() == T::whole(1),
        sphere.spec_discriminant(ray) == sphere.radius.times(sphere.radius),
        sphere.spec_discriminant(spec_turned(ray)) == sphere.radius.times(sphere.radius),
{
    lemma_field_is_ring::<T>();
    let one = T::whole(1);
    let u = ray.direction;
    let r = sphere.radius;
    let oc = ray.origin.spec_sub(sphere.center);
    let wx = u.x.times(d);
    let wy = u.y.times(d);
    let wz = u.z.times(d);
    let qx = u.x.times(u.x);
    let qy = u.y.times(u.y);
    let qz = u.z.times(u.z);
    let dd = d.times(d);
    let rr = r.times(r);
    // The centre lies d along the ray, so oc = -(u * d).
    lemma_minus_of_sum(ray.origin.x, wx);
    lemma_minus_of_sum(ray.origin.y, wy);
    lemma_minus_of_sum(ray.origin.z, wz);
    assert(oc == (Vec3 { x: wx.negated(), y: wy.negated(), z: wz.negated() }));
    // dot(oc, u) = -(d * qx) + -(d * qy) + -(d * qz) = -(d * 1) = -d
    lemma_negated_times(wx, u.x);
    lemma_negated_times(wy, u.y);
    lemma_negated_times(wz, u.z);
    lemma_scaled_component(u.x, d);
    lemma_scaled_component(u.y, d);
    lemma_scaled_component(u.z, d);
    lemma_negated_three(d.times(qx), d.times(qy), d.times(qz));
    lemma_factor_of_three(d, qx, qy, qz);
    lemma_times_one(d);
    let half_b = oc.spec_dot(u);
    assert(half_b == d.negated());
    // dot(oc, oc) = (d * d) * qx + (d * d) * qy + (d * d) * qz = d * d
    lemma_square_of_negative(wx);
    lemma_square_of_negative(wy);
    lemma_square_of_negative(wz);
    lemma_scaled_square(u.x, d);
    lemma_scaled_square(u.y, d);
    lemma_scaled_square(u.z, d);
    lemma_factor_of_three(dd, qx, qy, qz);
    lemma_times_one(dd);
    assert(oc.spec_length_sqrd() == dd);
    // half_b * half_b - 1 * (d * d - r * r) = d * d - (d * d - r * r) = r * r
    let c = dd.minus(rr);
    lemma_square_of_negative(d);
    lemma_times_commutes(one, c);
    lemma_times_one(c);
    lemma_minus_of_difference(dd, rr);
    assert(sphere.spec_discriminant(ray) == rr);
    // Turned round, the direction keeps its length and the dot product its size.
    lemma_square_of_negative(u.x);
    lemma_square_of_negative(u.y);
    lemma_square_of_negative(u.z);
    let back = spec_turned(ray).direction;
    assert(back.spec_length_sqrd() == one);
    lemma_times_negated(oc.x, u.x);
    lemma_times_negated(oc.y, u.y);
    lemma_times_negated(oc.z, u.z);
    lemma_negated_three(oc.x.times(u.x), oc.y.times(u.y), oc.z.times(u.z));
    lemma_double_negative(d);
    assert(oc.spec_dot(back) == d);
    assert(sphere.spec_discriminant(spec_turned(ray)) == rr);
}

/// In an ordered field, a ray with a direction of length one that points
/// straight at the centre of a sphere, which lies at the distance `d`, meets
/// the sphere at the parameter `d - radius`, as long as that lies in range.
/// A lower bound of zero is in range where the radius is below `d`.
pub proof fn lemma_sphere_straight_ahead<T: Scalar>(
    sphere: Sphere<T>,
    ray: Ray<T>,
    d: T,
    t_min: T,
    t_max: T,
)
    requires
        spec_ordered_field::<T>(),
        ray.direction.spec_dot(ray.direction) == T::whole(1),
        sphere.center == ray.spec_at(d),
        T::whole(0).at_most(sphere.radius),
        t_min.below(d.minus(sphere.radius)) || (t_min == T::whole(0) && sphere.radius.below(d)),
        d.minus(sphere.radius).at_most(t_max),
    ensures
        sphere.spec_hit_sphere(ray, t_min, t_max) == Some(
            sphere.spec_record(ray, d.minus(sphere.radius)),
        ),
        sphere.spec_record(ray, d.minus(sphere.radius)).t == d.minus(sphere.radius),
        sphere.spec_record(ray, d.minus(sphere.radius)).point == ray.spec_at(
            d.minus(sphere.radius),
        ),
{
    lemma_field_is_ring::<T>();
    let r = sphere.radius;
    lemma_sphere_on_the_ray(sphere, ray, d);
    lemma_square_is_not_negative(r);
    lemma_root_of_square(r);
    lemma_double_negative(d);
    lemma_over_one(d.minus(r));
    assert(sphere.spec_root(ray, false) == d.minus(r));
    lemma_below_is_positive_difference(r, d);
}

/// In an ordered field, where a ray with a direction of length one meets a
/// sphere of positive radius straight ahead, it meets a front face, and the
/// normal there is the ray's direction turned round.
pub proof fn lemma_sphere_faces_straight_back<T: Scalar>(sphere: Sphere<T>, ray: Ray<T>, d: T)
    requires
        spec_ordered_field::<T>(),
        ray.direction.spec_dot(ray.direction) == T::whole(1),
        sphere.center == ray.spec_at(d),
        T::whole(0).below(sphere.radius),
    ensures
        sphere.spec_record(ray, d.minus(sphere.radius)).front_face,
        sphere.spec_record(ray, d.minus(sphere.radius)).normal == ray.direction.spec_neg(),
{
    lemma_field_is_ring::<T>();
    let zero = T::whole(0);
    let one = T::whole(1);
    let u = ray.direction;
    let o = ray.origin;
    let r = sphere.radius;
    let t = d.minus(r);
    let k = one.over(r);
    let point = ray.spec_at(t);
    // point - centre = u * t - u * d = u * ((d - r) - d) = -(u * r)
    lemma_difference_of_sums(o.x, u.x.times(t), u.x.times(d));
    lemma_difference_of_sums(o.y, u.y.times(t), u.y.times(d));
    lemma_difference_of_sums(o.z, u.z.times(t), u.z.times(d));
    lemma_distributes_over_difference(u.x, t, d);
    lemma_distributes_over_difference(u.y, t, d);
    lemma_distributes_over_difference(u.z, t, d);
    lemma_difference_taken_back(d, r);
    lemma_times_negated(u.x, r);
    lemma_times_negated(u.y, r);
    lemma_times_negated(u.z, r);
    // -(u * r) * (1 / r) = -(u * (r * (1 / r))) = -u
    lemma_negated_times(u.x.times(r), k);
    lemma_negated_times(u.y.times(r), k);
    lemma_negated_times(u.z.times(r), k);
    lemma_times_associates(u.x, r, k);
    lemma_times_associates(u.y, r, k);
    lemma_times_associates(u.z, r, k);
    lemma_times_commutes(r, k);
    lemma_reciprocal(r);
    lemma_times_one(u.x);
    lemma_times_one(u.y);
    lemma_times_one(u.z);
    let outward_normal = point.spec_sub(sphere.center).spec_shrink(r);
    assert(outward_normal == u.spec_neg());
    // dot(u, -u) = -1, which is below zero.
    lemma_times_negated(u.x, u.x);
    lemma_times_negated(u.y, u.y);
    lemma_times_negated(u.z, u.z);
    lemma_negated_three(u.x.times(u.x), u.y.times(u.y), u.z.times(u.z));
    assert(u.spec_dot(outward_normal) == one.negated());
    lemma_below_is_positive_difference(one.negated(), zero);
    lemma_minus(zero, one.negated());
    lemma_double_negative(one);
    lemma_plus_zero(one);
    lemma_zero_below_one::<T>();
}

/// In an ordered field, a ray with a direction of length one that points
/// straight away from the centre of a sphere, from a distance `d` that is
/// above the radius, does not meet the sphere, whatever range that is not
/// below zero it is asked for.
pub proof fn lemma_sphere_straight_behind<T: Scalar>(
    sphere: Sphere<T>,
    ray: Ray<T>,
    d: T,
    t_min: T,
    t_max: T,
)
    requires
        spec_ordered_field::<T>(),
        ray.direction.spec_dot(ray.direction) == T::whole(1),
        sphere.center == ray.spec_at(d),
        T::whole(0).at_most(sphere.radius),
        sphere.radius.below(d),
        T::whole(0).at_most(t_min),
    ensures
        sphere.spec_hit_sphere(spec_turned(ray), t_min, t_max) is None,
{
    lemma_field_is_ring::<T>();
    let zero = T::whole(0);
    let r = sphere.radius;
    let away = spec_turned(ray);
    lemma_sphere_on_the_ray(sphere, ray, d);
    lemma_root_of_square(r);
    let near = d.negated().minus(r);
    let far = d.negated().plus(r);
    lemma_over_one(near);
    lemma_over_one(far);
    assert(sphere.spec_root(away, false) == near);
    assert(sphere.spec_root(away, true) == far);
    // 0 <= r < d makes d positive, so -d is not.
    lemma_at_most_then_below(zero, r, d);
    lemma_below_one_way(zero, d);
    lemma_below_is_positive_difference(d, zero);
    lemma_minus(zero, d);
    lemma_plus_zero(d.negated());
    assert(!zero.below(d.negated()));
    // near = -d - r is positive only where r is below -d.
    lemma_below_is_positive_difference(r, d.negated());
    if r.below(d.negated()) {
        lemma_at_most_then_below(zero, r, d.negated());
    }
    assert(!zero.below(near));
    // far = -d + r = r - d is positive only where d is below r.
    lemma_plus_commutes(d.negated(), r);
    lemma_minus(r, d);
    lemma_below_is_positive_difference(d, r);
    lemma_below_one_way(r, d);
    assert(!zero.below(far));
    // What is not positive is not above a lower bound that is not negative.
    if t_min.below(near) {
        lemma_at_most_then_below(zero, t_min, near);
    }
    if t_min.below(far) {
        lemma_at_most_then_below(zero, t_min, far);
    }
}

} // verus!
