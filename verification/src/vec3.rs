//! Vectors of three scalars, used as directions, points and colours.
use crate::random::RandomSource;
use crate::scalar::{
    abs, limit, min, ratio, spec_abs, spec_limit, spec_min, spec_ratio, Scalar,
};
use core::ops::{Add, AddAssign, Div, DivAssign, Mul, MulAssign, Neg, Sub, SubAssign};
use vstd::prelude::*;
use vstd::std_specs::ops::{AddSpecImpl, DivSpecImpl, MulSpecImpl, NegSpecImpl, SubSpecImpl};

verus! {

/// Three components of one number type.
#[derive(Debug, Clone, Copy, PartialEq)]
pub struct Vec3<T> {
    pub x: T,
    pub y: T,
    pub z: T,
}

pub type Point3D<T> = Vec3<T>;

pub type Colour<T> = Vec3<T>;

impl<T> Vec3<T> {
    pub fn new(x: T, y: T, z: T) -> (r: Self)
        ensures
            r.x == x,
            r.y == y,
            r.z == z,
    {
        Vec3 { x, y, z }
    }
}

impl<T: Scalar> Vec3<T> {
    /// The vector whose three components are `k`.
    pub open spec fn spec_splat(k: T) -> Self {
        Vec3 { x: k, y: k, z: k }
    }

    pub open spec fn spec_zero() -> Self {
        Self::spec_splat(T::whole(0))
    }

    pub open spec fn spec_add(self, other: Self) -> Self {
        Vec3 { x: self.x.plus(other.x), y: self.y.plus(other.y), z: self.z.plus(other.z) }
    }

    pub open spec fn spec_sub(self, other: Self) -> Self {
        Vec3 { x: self.x.minus(other.x), y: self.y.minus(other.y), z: self.z.minus(other.z) }
    }

    /// The component-wise product.
    pub open spec fn spec_mul(self, other: Self) -> Self {
        Vec3 { x: self.x.times(other.x), y: self.y.times(other.y), z: self.z.times(other.z) }
    }

    /// The component-wise quotient.
    pub open spec fn spec_div(self, other: Self) -> Self {
        Vec3 { x: self.x.over(other.x), y: self.y.over(other.y), z: self.z.over(other.z) }
    }

    /// Every component increased by `k`.
    pub open spec fn spec_shift(self, k: T) -> Self {
        Vec3 { x: self.x.plus(k), y: self.y.plus(k), z: self.z.plus(k) }
    }

    /// Every component multiplied by `k`.
    pub open spec fn spec_scale(self, k: T) -> Self {
        Vec3 { x: self.x.times(k), y: self.y.times(k), z: self.z.times(k) }
    }

    /// The vector scaled by the reciprocal of `k`.
    pub open spec fn spec_shrink(self, k: T) -> Self {
        self.spec_scale(T::whole(1).over(k))
    }

    pub open spec fn spec_neg(self) -> Self {
        Vec3 { x: self.x.negated(), y: self.y.negated(), z: self.z.negated() }
    }

    pub open spec fn spec_dot(self, other: Self) -> T {
        self.x.times(other.x).plus(self.y.times(other.y)).plus(self.z.times(other.z))
    }

    /// The right-handed cross product.
    pub open spec fn spec_cross(self, rhs: Self) -> Self {
        Vec3 {
            x: self.y.times(rhs.z).minus(self.z.times(rhs.y)),
            y: self.z.times(rhs.x).minus(self.x.times(rhs.z)),
            z: self.x.times(rhs.y).minus(self.y.times(rhs.x)),
        }
    }

    pub open spec fn spec_length_sqrd(self) -> T {
        self.spec_dot(self)
    }

    pub open spec fn spec_length(self) -> T {
        self.spec_length_sqrd().root()
    }

    /// The vector shrunk by its own length.
    pub open spec fn spec_unit(self) -> Self {
        self.spec_shrink(self.spec_length())
    }

    /// The mirror image of `self` at the plane with normal `n`:
    /// `self - 2 * dot(self, n) * n`.
    pub open spec fn spec_reflect(self, n: Self) -> Self {
        self.spec_sub(n.spec_scale(T::whole(2).times(self.spec_dot(n))))
    }

    /// The part of the refracted direction that is perpendicular to `n`:
    /// `eta_ratio * (self + cos_theta * n)`, with `cos_theta` the smaller of
    /// `dot(-self, n)` and one.
    pub open spec fn spec_refract_perpendicular(self, n: Self, eta_ratio: T) -> Self {
        let cos_theta = spec_min(self.spec_neg().spec_dot(n), T::whole(1));
        self.spec_add(n.spec_scale(cos_theta)).spec_scale(eta_ratio)
    }

    /// The direction of `self` after it passes a surface with normal `n` between
    /// two media whose refractive indices have the ratio `eta_ratio`: the
    /// perpendicular part plus the parallel part
    /// `-sqrt(|1 - |perpendicular|^2|) * n`.
    pub open spec fn spec_refract(self, n: Self, eta_ratio: T) -> Self {
        let perpendicular = self.spec_refract_perpendicular(n, eta_ratio);
        let parallel = n.spec_scale(
            spec_abs(T::whole(1).minus(perpendicular.spec_length_sqrd())).root().negated(),
        );
        perpendicular.spec_add(parallel)
    }

    /// The bound under which a component counts as vanished: `1 / 100000000`.
    pub open spec fn spec_epsilon() -> T {
        spec_ratio::<T>(1, 100_000_000)
    }

    /// Whether every component, sign dropped, lies below the bound.
    pub open spec fn spec_near_zero(self) -> bool {
        &&& spec_abs(self.x).below(Self::spec_epsilon())
        &&& spec_abs(self.y).below(Self::spec_epsilon())
        &&& spec_abs(self.z).below(Self::spec_epsilon())
    }

    /// Whether the squared length is not at least one, the test by which
    /// a candidate for a point inside the unit ball is kept.
    pub open spec fn spec_inside_unit_ball(self) -> bool {
        !T::whole(1).at_most(self.spec_length_sqrd())
    }

    /// The sum of `items`, taken from the first to the last, starting at zero.
    pub open spec fn spec_sum(items: Seq<Self>) -> Self
        decreases items.len(),
    {
        if items.len() == 0 {
            Self::spec_zero()
        } else {
            Self::spec_sum(items.drop_last()).spec_add(items.last())
        }
    }

    /// One channel of a displayed colour: the square root of the channel,
    /// held between zero and `999 / 1000`.
    pub open spec fn spec_tone(channel: T) -> T {
        spec_limit(channel.root(), T::whole(0), spec_ratio::<T>(999, 1000))
    }

    /// The colour to display for the sum of `sample_per_pixel` samples: the
    /// mean of the samples, gamma-corrected with gamma two and limited, channel
    /// by channel.
    pub open spec fn spec_write_colour(self, sample_per_pixel: i16) -> Self {
        let scaled = self.spec_scale(T::whole(1).over(T::whole(sample_per_pixel as i32)));
        Vec3 {
            x: Self::spec_tone(scaled.x),
            y: Self::spec_tone(scaled.y),
            z: Self::spec_tone(scaled.z),
        }
    }

    /// The three integers a colour is stored as: each channel times 256, cut
    /// down to an integer.
    pub open spec fn spec_to_rgb(self) -> (i16, i16, i16) {
        (
            T::whole(256).times(self.x).truncated(),
            T::whole(256).times(self.y).truncated(),
            T::whole(256).times(self.z).truncated(),
        )
    }

    pub fn x(&self) -> (r: T)
        ensures
            r == self.x,
    {
        self.x
    }

    pub fn y(&self) -> (r: T)
        ensures
            r == self.y,
    {
        self.y
    }

    pub fn z(&self) -> (r: T)
        ensures
            r == self.z,
    {
        self.z
    }

    pub fn zero() -> (r: Self)
        ensures
            r == Self::spec_zero(),
    {
        let k = T::from_int(0);
        Vec3 { x: k, y: k, z: k }
    }

    pub fn length(&self) -> (r: T)
        ensures
            r == self.spec_length(),
    {
        self.length_sqrd().sqrt()
    }

    pub fn length_sqrd(&self) -> (r: T)
        ensures
            r == self.spec_length_sqrd(),
    {
        self.x.mul(self.x).add(self.y.mul(self.y)).add(self.z.mul(self.z))
    }

    pub fn unit(&self) -> (r: Self)
        ensures
            r == self.spec_unit(),
    {
        (*self).div(self.length())
    }

    pub fn dot(&self, other: &Self) -> (r: T)
        ensures
            r == self.spec_dot(*other),
    {
        self.x.mul(other.x).add(self.y.mul(other.y)).add(self.z.mul(other.z))
    }

    pub fn cross(&self, rhs: &Self) -> (r: Self)
        ensures
            r == self.spec_cross(*rhs),
    {
        Vec3 {
            x: self.y.mul(rhs.z).sub(self.z.mul(rhs.y)),
            y: self.z.mul(rhs.x).sub(self.x.mul(rhs.z)),
            z: self.x.mul(rhs.y).sub(self.y.mul(rhs.x)),
        }
    }

    pub fn reflect(&self, n: &Self) -> (r: Self)
        ensures
            r == self.spec_reflect(*n),
    {
        let twice = T::from_int(2).mul(self.dot(n));
        (*self).sub((*n).mul(twice))
    }

    pub fn refract(&self, n: &Self, eta_ratio: T) -> (r: Self)
        ensures
            r == self.spec_refract(*n, eta_ratio),
    {
        let cos_theta = min((*self).neg().dot(n), T::from_int(1));
        let perpendicular = (*self).add((*n).mul(cos_theta)).mul(eta_ratio);
        let parallel = (*n).mul(abs(T::from_int(1).sub(perpendicular.length_sqrd())).sqrt().neg());
        perpendicular.add(parallel)
    }

    pub fn near_zero(&self) -> (r: bool)
        ensures
            r == self.spec_near_zero(),
    {
        let epsilon: T = ratio(1, 100_000_000);
        abs(self.x).lt(epsilon) && abs(self.y).lt(epsilon) && abs(self.z).lt(epsilon)
    }

    /// Whether a rejection sampler of the unit ball keeps this point.
    pub fn inside_unit_ball(&self) -> (r: bool)
        ensures
            r == self.spec_inside_unit_ball(),
    {
        !T::from_int(1).le(self.length_sqrd())
    }

    pub fn sum(items: &Vec<Self>) -> (r: Self)
        ensures
            r == Self::spec_sum(items@),
    {
        let mut total = Self::zero();
        let mut i: usize = 0;
        while i < items.len()
            invariant
                i <= items.len(),
                total == Self::spec_sum(items@.take(i as int)),
            decreases items.len() - i,
        {
            assert(items@.take(i + 1).drop_last() == items@.take(i as int));
            total = total.add(items[i]);
            i += 1;
        }
        assert(items@.take(i as int) == items@);
        total
    }

    pub fn write_colour(&self, sample_per_pixel: i16) -> (r: Self)
        ensures
            r == self.spec_write_colour(sample_per_pixel),
    {
        let scale = T::from_int(1).div(T::from_int(sample_per_pixel as i32));
        let scaled_colour = (*self).mul(scale);
        let low = T::from_int(0);
        let high: T = ratio(999, 1000);
        Vec3 {
            x: limit(scaled_colour.x().sqrt(), low, high),
            y: limit(scaled_colour.y().sqrt(), low, high),
            z: limit(scaled_colour.z().sqrt(), low, high),
        }
    }

    /// The three integers a displayed colour is stored as.
    pub fn to_rgb(&self) -> (r: (i16, i16, i16))
        ensures
            r == self.spec_to_rgb(),
    {
        let scale = T::from_int(256);
        (scale.mul(self.x).to_i16(), scale.mul(self.y).to_i16(), scale.mul(self.z).to_i16())
    }

    /// Three draws from `min` to `max`, in the order `x`, `y`, `z`: every
    /// component lies from `min` to `max`, both included.
    pub fn random_from_range<R: RandomSource<T>>(rng: &mut R, min: T, max: T) -> (r: Self)
        requires
            R::can_draw_range_inclusive(min, max),
        ensures
            r.spec_within(min, max),
    {
        let x = rng.range_inclusive(min, max);
        let y = rng.range_inclusive(min, max);
        let z = rng.range_inclusive(min, max);
        Vec3 { x, y, z }
    }

    /// Three draws from zero to one, in the order `x`, `y`, `z`: every
    /// component lies from zero to one, both included.
    pub fn random<R: RandomSource<T>>(rng: &mut R) -> (r: Self)
        requires
            R::can_draw_range_inclusive(T::whole(0), T::whole(1)),
        ensures
            r.spec_within(T::whole(0), T::whole(1)),
    {
        Self::random_from_range(rng, T::from_int(0), T::from_int(1))
    }

    /// Whether every component lies from `min` to `max`, both included.
    pub open spec fn spec_within(self, min: T, max: T) -> bool {
        &&& min.at_most(self.x) && self.x.at_most(max)
        &&& min.at_most(self.y) && self.y.at_most(max)
        &&& min.at_most(self.z) && self.z.at_most(max)
    }
}

impl<T: Scalar> AddSpecImpl for Vec3<T> {
    open spec fn obeys_add_spec() -> bool {
        true
    }

    open spec fn add_req(self, other: Self) -> bool {
        true
    }

    open spec fn add_spec(self, other: Self) -> Self {
        self.spec_add(other)
    }
}

impl<T: Scalar> Add for Vec3<T> {
    type Output = Self;

    fn add(self, other: Self) -> (r: Self)
        ensures
            r == self.spec_add(other),
    {
        Vec3 { x: self.x.add(other.x), y: self.y.add(other.y), z: self.z.add(other.z) }
    }
}

impl<T: Scalar> AddSpecImpl<T> for Vec3<T> {
    open spec fn obeys_add_spec() -> bool {
        true
    }

    open spec fn add_req(self, other: T) -> bool {
        true
    }

    open spec fn add_spec(self, other: T) -> Self {
        self.spec_shift(other)
    }
}

impl<T: Scalar> Add<T> for Vec3<T> {
    type Output = Self;

    fn add(self, other: T) -> (r: Self)
        ensures
            r == self.spec_shift(other),
    {
        Vec3 { x: self.x.add(other), y: self.y.add(other), z: self.z.add(other) }
    }
}

impl<T: Scalar> SubSpecImpl for Vec3<T> {
    open spec fn obeys_sub_spec() -> bool {
        true
    }

    open spec fn sub_req(self, other: Self) -> bool {
        true
    }

    open spec fn sub_spec(self, other: Self) -> Self {
        self.spec_sub(other)
    }
}

impl<T: Scalar> Sub for Vec3<T> {
    type Output = Self;

    fn sub(self, other: Self) -> (r: Self)
        ensures
            r == self.spec_sub(other),
    {
        Vec3 { x: self.x.sub(other.x), y: self.y.sub(other.y), z: self.z.sub(other.z) }
    }
}

impl<'a, T: Scalar> SubSpecImpl<&'a Vec3<T>> for Vec3<T> {
    open spec fn obeys_sub_spec() -> bool {
        true
    }

    open spec fn sub_req(self, other: &'a Vec3<T>) -> bool {
        true
    }

    open spec fn sub_spec(self, other: &'a Vec3<T>) -> Self {
        self.spec_sub(*other)
    }
}

impl<'a, T: Scalar> Sub<&'a Vec3<T>> for Vec3<T> {
    type Output = Self;

    fn sub(self, other: &'a Vec3<T>) -> (r: Self)
        ensures
            r == self.spec_sub(*other),
    {
        Vec3 { x: self.x.sub(other.x), y: self.y.sub(other.y), z: self.z.sub(other.z) }
    }
}

impl<T: Scalar> MulSpecImpl<T> for Vec3<T> {
    open spec fn obeys_mul_spec() -> bool {
        true
    }

    open spec fn mul_req(self, rhs: T) -> bool {
        true
    }

    open spec fn mul_spec(self, rhs: T) -> Self {
        self.spec_scale(rhs)
    }
}

impl<T: Scalar> Mul<T> for Vec3<T> {
    type Output = Self;

    fn mul(self, rhs: T) -> (r: Self)
        ensures
            r == self.spec_scale(rhs),
    {
        Vec3 { x: self.x.mul(rhs), y: self.y.mul(rhs), z: self.z.mul(rhs) }
    }
}

impl<T: Scalar> MulSpecImpl for Vec3<T> {
    open spec fn obeys_mul_spec() -> bool {
        true
    }

    open spec fn mul_req(self, rhs: Self) -> bool {
        true
    }

    open spec fn mul_spec(self, rhs: Self) -> Self {
        self.spec_mul(rhs)
    }
}

impl<T: Scalar> Mul for Vec3<T> {
    type Output = Self;

    fn mul(self, rhs: Self) -> (r: Self)
        ensures
            r == self.spec_mul(rhs),
    {
        Vec3 { x: self.x.mul(rhs.x), y: self.y.mul(rhs.y), z: self.z.mul(rhs.z) }
    }
}

impl<T: Scalar> DivSpecImpl<T> for Vec3<T> {
    open spec fn obeys_div_spec() -> bool {
        true
    }

    open spec fn div_req(self, rhs: T) -> bool {
        true
    }

    open spec fn div_spec(self, rhs: T) -> Self {
        self.spec_shrink(rhs)
    }
}

impl<T: Scalar> Div<T> for Vec3<T> {
    type Output = Self;

    fn div(self, rhs: T) -> (r: Self)
        ensures
            r == self.spec_shrink(rhs),
    {
        self.mul(T::from_int(1).div(rhs))
    }
}

impl<T: Scalar> NegSpecImpl for Vec3<T> {
    open spec fn obeys_neg_spec() -> bool {
        true
    }

    open spec fn neg_req(self) -> bool {
        true
    }

    open spec fn neg_spec(self) -> Self {
        self.spec_neg()
    }
}

impl<T: Scalar> Neg for Vec3<T> {
    type Output = Self;

    fn neg(self) -> (r: Self)
        ensures
            r == self.spec_neg(),
    {
        Vec3 { x: self.x.neg(), y: self.y.neg(), z: self.z.neg() }
    }
}

impl<T: Scalar> AddAssign for Vec3<T> {
    fn add_assign(&mut self, other: Self)
        ensures
            *final(self) == old(self).spec_add(other),
    {
        *self = Vec3 { x: self.x.add(other.x), y: self.y.add(other.y), z: self.z.add(other.z) };
    }
}

impl<T: Scalar> SubAssign for Vec3<T> {
    fn sub_assign(&mut self, other: Self)
        ensures
            *final(self) == old(self).spec_sub(other),
    {
        *self = Vec3 { x: self.x.sub(other.x), y: self.y.sub(other.y), z: self.z.sub(other.z) };
    }
}

impl<T: Scalar> MulAssign for Vec3<T> {
    fn mul_assign(&mut self, other: Self)
        ensures
            *final(self) == old(self).spec_mul(other),
    {
        *self = Vec3 { x: self.x.mul(other.x), y: self.y.mul(other.y), z: self.z.mul(other.z) };
    }
}

impl<T: Scalar> DivAssign for Vec3<T> {
    fn div_assign(&mut self, other: Self)
        ensures
            *final(self) == old(self).spec_div(other),
    {
        *self = Vec3 { x: self.x.div(other.x), y: self.y.div(other.y), z: self.z.div(other.z) };
    }
}

/// Rows turned into columns.
pub trait Transpose: Sized {
    /// Whether `self` can be transposed.
    spec fn spec_can_transpose(&self) -> bool;

    /// Whether `self` is `grid` with rows and columns exchanged.
    spec fn spec_is_transpose_of(&self, grid: &Self) -> bool;

    fn transpose(self) -> (r: Self)
        requires
            self.spec_can_transpose(),
        ensures
            r.spec_is_transpose_of(&self),
    ;
}

impl<T: Copy> Transpose for Vec<Vec<Vec3<T>>> {
    /// There is a row, and no row is shorter than the first.
    open spec fn spec_can_transpose(&self) -> bool {
        &&& self@.len() > 0
        &&& forall|j: int| 0 <= j < self@.len() ==> (#[trigger] self@[j])@.len() >= self@[0]@.len()
    }

    /// `self` has as many rows as the first row of `grid` has entries, each
    /// as long as `grid` has rows, and entry `j` of row `i` is entry `i` of
    /// row `j` of `grid`.
    open spec fn spec_is_transpose_of(&self, grid: &Self) -> bool {
        &&& grid@.len() > 0
        &&& self@.len() == grid@[0]@.len()
        &&& forall|i: int| 0 <= i < self@.len() ==> (#[trigger] self@[i])@.len() == grid@.len()
        &&& forall|i: int, j: int|
            0 <= i < self@.len() && 0 <= j < grid@.len() ==> self@[i]@[j] == grid@[j]@[i]
    }

    fn transpose(self) -> (r: Self) {
        let width = self[0].len();
        let mut columns: Vec<Vec<Vec3<T>>> = Vec::new();
        let mut i: usize = 0;
        while i < width
            invariant
                self.spec_can_transpose(),
                width == self@[0]@.len(),
                i <= width,
                columns@.len() == i,
                forall|a: int| 0 <= a < i ==> (#[trigger] columns@[a])@.len() == self@.len(),
                forall|a: int, b: int|
                    0 <= a < i && 0 <= b < self@.len() ==> columns@[a]@[b] == self@[b]@[a],
            decreases width - i,
        {
            let mut column: Vec<Vec3<T>> = Vec::new();
            let mut j: usize = 0;
            while j < self.len()
                invariant
                    self.spec_can_transpose(),
                    width == self@[0]@.len(),
                    i < width,
                    j <= self@.len(),
                    column@.len() == j,
                    forall|b: int| 0 <= b < j ==> column@[b] == self@[b]@[i as int],
                decreases self@.len() - j,
            {
                assert(self@[j as int]@.len() >= self@[0]@.len());
                column.push(self[j][i]);
                j += 1;
            }
            columns.push(column);
            i += 1;
        }
        columns
    }
}

} // verus!
