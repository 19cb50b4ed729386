//! Helpers: limiting a value, and drawing random directions.
use crate::random::{spec_is_ball_draw, RandomSource};
use crate::scalar::Scalar;
use crate::vec3::Vec3;
use core::cmp::Ordering;
use vstd::prelude::*;
use vstd::std_specs::cmp::PartialOrdSpec;

verus! {

/// `val` limited to the interval from `min` to `max`, as the partial order of `T`
/// sees it: `min` where `val` is less than `min`, else `max` where `val` is
/// greater than `max`, else `val` (so also where `val` compares with neither).
pub open spec fn spec_clamp<T: PartialOrd>(val: T, min: T, max: T) -> T {
    if val.partial_cmp_spec(&min) == Some(Ordering::Less) {
        min
    } else if val.partial_cmp_spec(&max) == Some(Ordering::Greater) {
        max
    } else {
        val
    }
}

pub fn clamp<T: PartialOrd>(val: T, min: T, max: T) -> (r: T)
    ensures
        r == val || r == min || r == max,
        T::obeys_partial_cmp_spec() ==> r == spec_clamp(val, min, max),
{
    if val < min {
        min
    } else if val > max {
        max
    } else {
        val
    }
}

/// Whether `point` is a candidate that the search for a point of the unit disk
/// keeps: it lies in the plane `z = 0` as drawn, and inside the unit ball.
pub open spec fn spec_inside_unit_disk<T: Scalar>(point: Vec3<T>) -> bool {
    point.z == T::whole(0) && point.spec_inside_unit_ball()
}

/// Up to `attempts` candidates with components drawn from minus one to one,
/// both included; the first that lies inside the unit ball, if any does.
///
/// Candidates are drawn one after the other, and drawing stops at the first
/// that is kept. Nothing is returned only where `attempts` candidates were
/// drawn and none was kept.
pub fn random_unit_sphere<T: Scalar, R: RandomSource<T>>(rng: &mut R, attempts: u64) -> (r: Option<
    Vec3<T>,
>)
    requires
        R::can_draw_range_inclusive(T::whole(-1i32), T::whole(1)),
    ensures
        attempts == 0 ==> r.is_none(),
        r matches Some(point) ==> point.spec_inside_unit_ball(),
        exists|candidates: Seq<Vec3<T>>| #[trigger] spec_is_ball_search(candidates, attempts, r),
{
    let mut left = attempts;
    let ghost mut rejected = Seq::<Vec3<T>>::empty();
    while left > 0
        invariant
            left <= attempts,
            R::can_draw_range_inclusive(T::whole(-1i32), T::whole(1)),
            rejected.len() == attempts - left,
            forall|i: int|
                0 <= i < rejected.len() ==> spec_is_ball_candidate(#[trigger] rejected[i])
                    && !rejected[i].spec_inside_unit_ball(),
        decreases left,
    {
        let point = Vec3::random_from_range(rng, T::from_int(-1), T::from_int(1));
        if point.inside_unit_ball() {
            assert(spec_is_ball_search(rejected.push(point), attempts, Some(point)));
            return Some(point);
        }
        proof {
            rejected = rejected.push(point);
        }
        left -= 1;
    }
    assert(spec_is_ball_search(rejected, attempts, None));
    None
}

/// A random direction of length one: a point drawn from the unit ball,
/// brought to length one.
pub fn random_unit_vec<T: Scalar, R: RandomSource<T>>(rng: &mut R) -> (r: Vec3<T>)
    ensures
        exists|point: Vec3<T>| #[trigger] spec_is_ball_draw(point) && r == point.spec_unit(),
{
    let point = rng.unit_sphere();
    let r = point.unit();
    assert(spec_is_ball_draw(point) && r == point.spec_unit());
    r
}

/// Up to `attempts` candidates in the plane `z = 0` with `x` and `y` drawn
/// from minus one to one, one left out; the first that lies inside the unit
/// disk, if any does.
///
/// Candidates are drawn one after the other, `x` before `y`, and drawing
/// stops at the first that is kept. Nothing is returned only where `attempts`
/// candidates were drawn and none was kept.
pub fn randon_unit_disk<T: Scalar, R: RandomSource<T>>(rng: &mut R, attempts: u64) -> (r: Option<
    Vec3<T>,
>)
    requires
        R::can_draw_range(T::whole(-1i32), T::whole(1)),
    ensures
        attempts == 0 ==> r.is_none(),
        r matches Some(point) ==> spec_inside_unit_disk(point),
        exists|candidates: Seq<Vec3<T>>| #[trigger] spec_is_disk_search(candidates, attempts, r),
{
    let mut left = attempts;
    let ghost mut rejected = Seq::<Vec3<T>>::empty();
    while left > 0
        invariant
            left <= attempts,
            R::can_draw_range(T::whole(-1i32), T::whole(1)),
            rejected.len() == attempts - left,
            forall|i: int|
                0 <= i < rejected.len() ==> spec_is_disk_candidate(#[trigger] rejected[i])
                    && !rejected[i].spec_inside_unit_ball(),
        decreases left,
    {
        let x = rng.range(T::from_int(-1), T::from_int(1));
        let y = rng.range(T::from_int(-1), T::from_int(1));
        let point = Vec3::new(x, y, T::from_int(0));
        if point.inside_unit_ball() {
            assert(spec_is_disk_search(rejected.push(point), attempts, Some(point)));
            return Some(point);
        }
        proof {
            rejected = rejected.push(point);
        }
        left -= 1;
    }
    assert(spec_is_disk_search(rejected, attempts, None));
    None
}

/// Whether `r` is what a search through `candidates` gives when it may draw
/// `attempts` of them: every candidate but the last is not inside the unit
/// ball; the last is the result where it is inside; and where it is not, or
/// where there is no candidate, all `attempts` were drawn and there is no
/// result.
pub open spec fn spec_is_search<T: Scalar>(
    candidates: Seq<Vec3<T>>,
    attempts: u64,
    r: Option<Vec3<T>>,
) -> bool {
    &&& candidates.len() <= attempts
    &&& forall|i: int|
        0 <= i < candidates.len() - 1 ==> !(#[trigger] candidates[i]).spec_inside_unit_ball()
    &&& r == if candidates.len() > 0 && candidates.last().spec_inside_unit_ball() {
        Some(candidates.last())
    } else {
        None
    }
    &&& r is None ==> candidates.len() == attempts
}

/// Whether `point` can be a candidate for a point of the unit ball: each of
/// its components lies from minus one to one, both included.
pub open spec fn spec_is_ball_candidate<T: Scalar>(point: Vec3<T>) -> bool {
    point.spec_within(T::whole(-1i32), T::whole(1))
}

/// Whether `point` can be a candidate for a point of the unit disk: `x` and
/// `y` lie from minus one to one, one left out, and `z` is zero.
pub open spec fn spec_is_disk_candidate<T: Scalar>(point: Vec3<T>) -> bool {
    &&& T::whole(-1i32).at_most(point.x) && point.x.below(T::whole(1))
    &&& T::whole(-1i32).at_most(point.y) && point.y.below(T::whole(1))
    &&& point.z == T::whole(0)
}

/// Whether `r` is what a search for a point of the unit ball gives when the
/// candidates it draws are `candidates`.
pub open spec fn spec_is_ball_search<T: Scalar>(
    candidates: Seq<Vec3<T>>,
    attempts: u64,
    r: Option<Vec3<T>>,
) -> bool {
    &&& spec_is_search(candidates, attempts, r)
    &&& forall|i: int|
        0 <= i < candidates.len() ==> spec_is_ball_candidate(#[trigger] candidates[i])
}

/// Whether `r` is what a search for a point of the unit disk gives when the
/// candidates it draws are `candidates`.
pub open spec fn spec_is_disk_search<T: Scalar>(
    candidates: Seq<Vec3<T>>,
    attempts: u64,
    r: Option<Vec3<T>>,
) -> bool {
    &&& spec_is_search(candidates, attempts, r)
    &&& forall|i: int|
        0 <= i < candidates.len() ==> spec_is_disk_candidate(#[trigger] candidates[i])
}

} // verus!
