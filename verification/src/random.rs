//! Where the tracer's random values come from.
use crate::scalar::Scalar;
use crate::utils::{spec_inside_unit_disk, spec_is_ball_candidate, spec_is_disk_candidate};
use crate::vec3::Vec3;
use vstd::prelude::*;

verus! {

/// The random values one scattering event may use.
#[derive(Debug, Clone, Copy, PartialEq)]
pub struct Draw<T> {
    /// A point taken from the unit ball.
    pub point: Vec3<T>,
    /// A number taken from the unit interval.
    pub number: T,
}

/// Whether `number` can be drawn from the unit interval: it lies from zero to
/// one, one left out.
pub open spec fn spec_is_unit_draw<T: Scalar>(number: T) -> bool {
    T::whole(0).at_most(number) && number.below(T::whole(1))
}

/// Whether `point` can be drawn from the unit ball: its components lie from
/// minus one to one, and it lies inside the ball.
pub open spec fn spec_is_ball_draw<T: Scalar>(point: Vec3<T>) -> bool {
    spec_is_ball_candidate(point) && point.spec_inside_unit_ball()
}

/// Whether `point` can be drawn from the unit disk of the plane `z = 0`: `x`
/// and `y` lie from minus one to one, one left out, `z` is zero, and the
/// point lies inside the ball.
pub open spec fn spec_is_disk_draw<T: Scalar>(point: Vec3<T>) -> bool {
    spec_is_disk_candidate(point) && spec_inside_unit_disk(point)
}

/// A stream of random draws.
///
/// A draw lies where it is drawn from, as the order of the scalar sees it;
/// that is all an implementation owes. Nothing else is promised about the
/// values: every function that draws is verified for whatever comes back.
pub trait RandomSource<T: Scalar> {
    /// Whether `range(min, max)` may be called.
    spec fn can_draw_range(min: T, max: T) -> bool;

    /// Whether `range_inclusive(min, max)` may be called.
    spec fn can_draw_range_inclusive(min: T, max: T) -> bool;

    /// A draw meant to be uniform from zero to one, one left out.
    fn unit_interval(&mut self) -> (r: T)
        ensures
            spec_is_unit_draw(r),
    ;

    /// A draw meant to be uniform from `min` to `max`, `max` left out.
    fn range(&mut self, min: T, max: T) -> (r: T)
        requires
            Self::can_draw_range(min, max),
        ensures
            min.at_most(r),
            r.below(max),
    ;

    /// A draw meant to be uniform from `min` to `max`, both included.
    fn range_inclusive(&mut self, min: T, max: T) -> (r: T)
        requires
            Self::can_draw_range_inclusive(min, max),
        ensures
            min.at_most(r),
            r.at_most(max),
    ;

    /// A draw meant to be uniform inside the unit ball: the first candidate
    /// that `random_unit_sphere` keeps, however many it takes.
    fn unit_sphere(&mut self) -> (r: Vec3<T>)
        ensures
            spec_is_ball_draw(r),
    ;

    /// A draw meant to be uniform inside the unit disk of the plane `z = 0`:
    /// the first candidate that `randon_unit_disk` keeps, however many it takes.
    fn unit_disk(&mut self) -> (r: Vec3<T>)
        ensures
            spec_is_disk_draw(r),
    ;
}

} // verus!
