use rand::rngs::StdRng;
use rand::{Rng, SeedableRng};
use rust_rt::camera::{Camera, Viewport};
use rust_rt::ray::{reflectance, schlick, Ray};
use rust_rt::random::RandomSource;
use rust_rt::scalar::{abs, limit, min, ratio, Scalar};
use rust_rt::objects::HitRecord;
use rust_rt::utils::{clamp, random_unit_sphere, random_unit_vec, randon_unit_disk};
use rust_rt::vec3::{Transpose, Vec3};

#[derive(Debug, Clone, Copy, PartialEq)]
struct F(f64);

impl Scalar for F {
    fn whole(n: i32) -> Self {
        Self::from_int(n)
    }
    fn unbounded() -> Self {
        Self::infinity()
    }
    fn plus(self, rhs: Self) -> Self {
        self.add(rhs)
    }
    fn minus(self, rhs: Self) -> Self {
        self.sub(rhs)
    }
    fn times(self, rhs: Self) -> Self {
        self.mul(rhs)
    }
    fn over(self, rhs: Self) -> Self {
        self.div(rhs)
    }
    fn negated(self) -> Self {
        self.neg()
    }
    fn root(self) -> Self {
        self.sqrt()
    }
    fn radians(self) -> Self {
        self.to_radians()
    }
    fn below(self, rhs: Self) -> bool {
        self.lt(rhs)
    }
    fn at_most(self, rhs: Self) -> bool {
        self.le(rhs)
    }
    fn truncated(self) -> i16 {
        self.to_i16()
    }
    fn may_be_tangent(self, tangent: Self) -> bool {
        let exact = self.0.tan();
        tangent.0 == exact
            || (tangent.0.is_nan() && exact.is_nan())
            || (tangent.0 - exact).abs() <= 4.0 * f64::EPSILON * exact.abs()
    }
    fn from_int(n: i32) -> Self {
        F(f64::from(n))
    }
    fn infinity() -> Self {
        F(f64::INFINITY)
    }
    fn add(self, rhs: Self) -> Self {
        F(self.0 + rhs.0)
    }
    fn sub(self, rhs: Self) -> Self {
        F(self.0 - rhs.0)
    }
    fn mul(self, rhs: Self) -> Self {
        F(self.0 * rhs.0)
    }
    fn div(self, rhs: Self) -> Self {
        F(self.0 / rhs.0)
    }
    fn neg(self) -> Self {
        F(-self.0)
    }
    fn sqrt(self) -> Self {
        F(self.0.sqrt())
    }
    fn to_radians(self) -> Self {
        F(self.0.to_radians())
    }
    fn tan(self) -> Self {
        F(self.0.tan())
    }
    fn lt(self, rhs: Self) -> bool {
        self.0 < rhs.0
    }
    fn le(self, rhs: Self) -> bool {
        self.0 <= rhs.0
    }
    fn to_i16(self) -> i16 {
        self.0 as i16
    }
}

/// Draws from a seeded generator.
struct Seeded(StdRng);

impl Seeded {
    fn new(seed: u64) -> Self {
        Seeded(StdRng::seed_from_u64(seed))
    }
}

impl RandomSource<F> for Seeded {
    fn can_draw_range(min: F, max: F) -> bool {
        min.0 < max.0 && (max.0 - min.0).is_finite()
    }
    fn can_draw_range_inclusive(min: F, max: F) -> bool {
        min.0 <= max.0 && (max.0 - min.0).is_finite()
    }
    fn unit_interval(&mut self) -> F {
        F(self.0.gen::<f64>())
    }
    fn range(&mut self, min: F, max: F) -> F {
        F(self.0.gen_range(min.0..max.0))
    }
    fn range_inclusive(&mut self, min: F, max: F) -> F {
        F(self.0.gen_range(min.0..=max.0))
    }
    fn unit_sphere(&mut self) -> Vec3<F> {
        loop {
            if let Some(point) = random_unit_sphere(self, u64::MAX) {
                return point;
            }
        }
    }
    fn unit_disk(&mut self) -> Vec3<F> {
        loop {
            if let Some(point) = randon_unit_disk(self, u64::MAX) {
                return point;
            }
        }
    }
}

/// Always the same draws. A draw from a range lies `number` of the way from
/// its lower to its upper end.
struct Fixed {
    number: f64,
    point: Vec3<F>,
    disk: Vec3<F>,
}

impl RandomSource<F> for Fixed {
    fn can_draw_range(min: F, max: F) -> bool {
        min.0 < max.0
    }
    fn can_draw_range_inclusive(min: F, max: F) -> bool {
        min.0 <= max.0
    }
    fn unit_interval(&mut self) -> F {
        F(self.number)
    }
    fn range(&mut self, min: F, max: F) -> F {
        F(min.0 + (max.0 - min.0) * self.number)
    }
    fn range_inclusive(&mut self, min: F, max: F) -> F {
        F(min.0 + (max.0 - min.0) * self.number)
    }
    fn unit_sphere(&mut self) -> Vec3<F> {
        self.point
    }
    fn unit_disk(&mut self) -> Vec3<F> {
        self.disk
    }
}

fn v(x: f64, y: f64, z: f64) -> Vec3<F> {
    Vec3::new(F(x), F(y), F(z))
}

fn close(a: F, b: f64) -> bool {
    (a.0 - b).abs() < 1e-12
}

fn close_vec(a: Vec3<F>, b: Vec3<F>) -> bool {
    close(a.x(), b.x().0) && close(a.y(), b.y().0) && close(a.z(), b.z().0)
}

#[test]
fn new_keeps_the_components() {
    let a = Vec3::new(1, 2, 3);
    assert_eq!(a, Vec3 { x: 1, y: 2, z: 3 });
    let b = v(1.5, -2.0, 0.25);
    assert_eq!(b.x(), F(1.5));
    assert_eq!(b.y(), F(-2.0));
    assert_eq!(b.z(), F(0.25));
}

#[test]
fn zero_is_three_zeros() {
    assert_eq!(Vec3::<F>::zero(), v(0.0, 0.0, 0.0));
}

#[test]
fn vectors_add_and_subtract_by_component() {
    let a = v(1.0, 2.0, 3.0);
    let b = v(4.0, 6.0, 8.0);
    assert_eq!(a + b, v(5.0, 8.0, 11.0));
    assert_eq!(b - a, v(3.0, 4.0, 5.0));
    assert_eq!(b - &a, v(3.0, 4.0, 5.0));
    assert_eq!(-a, v(-1.0, -2.0, -3.0));
}

#[test]
fn a_scalar_shifts_and_scales() {
    let a = v(1.0, 2.0, 3.0);
    assert_eq!(a + F(0.5), v(1.5, 2.5, 3.5));
    assert_eq!(a * F(2.0), v(2.0, 4.0, 6.0));
}

#[test]
fn vectors_multiply_by_component() {
    assert_eq!(v(1.0, 2.0, 3.0) * v(4.0, 5.0, 6.0), v(4.0, 10.0, 18.0));
}

#[test]
fn division_multiplies_by_the_reciprocal() {
    let a = v(1.0, 2.0, 3.0);
    assert_eq!(a / F(4.0), v(0.25, 0.5, 0.75));
    // 1/3 is rounded before it is multiplied, so 3 * (1/3) is exact here while
    // 5 * (1/3) differs from 5/3 in the last place.
    let third = 1.0 / 3.0;
    assert_eq!(v(3.0, 5.0, 0.0) / F(3.0), v(3.0 * third, 5.0 * third, 0.0));
    assert_ne!((v(3.0, 5.0, 0.0) / F(3.0)).y(), F(5.0 / 3.0));
}

#[test]
fn division_by_zero_length_is_not_a_number() {
    let unit = v(0.0, 0.0, 0.0).unit();
    assert!(unit.x().0.is_nan() && unit.y().0.is_nan() && unit.z().0.is_nan());
}

#[test]
fn assignments_update_in_place() {
    let mut a = v(1.0, 2.0, 3.0);
    a += v(1.0, 1.0, 1.0);
    assert_eq!(a, v(2.0, 3.0, 4.0));
    a -= v(0.5, 0.5, 0.5);
    assert_eq!(a, v(1.5, 2.5, 3.5));
    a *= v(2.0, 4.0, 0.0);
    assert_eq!(a, v(3.0, 10.0, 0.0));
    a /= v(2.0, 4.0, 1.0);
    assert_eq!(a, v(1.5, 2.5, 0.0));
}

#[test]
fn dot_sums_the_products() {
    assert_eq!(v(1.0, 2.0, 3.0).dot(&v(4.0, 5.0, 6.0)), F(32.0));
    assert_eq!(v(1.0, 0.0, 0.0).dot(&v(0.0, 1.0, 0.0)), F(0.0));
}

#[test]
fn cross_is_right_handed() {
    let x = v(1.0, 0.0, 0.0);
    let y = v(0.0, 1.0, 0.0);
    let z = v(0.0, 0.0, 1.0);
    assert_eq!(x.cross(&y), z);
    assert_eq!(y.cross(&z), x);
    assert_eq!(z.cross(&x), y);
    assert_eq!(y.cross(&x), v(0.0, 0.0, -1.0));
    assert_eq!(v(1.0, 2.0, 3.0).cross(&v(4.0, 5.0, 6.0)), v(-3.0, 6.0, -3.0));
}

#[test]
fn length_is_the_root_of_the_squared_length() {
    let a = v(2.0, 3.0, 6.0);
    assert_eq!(a.length_sqrd(), F(49.0));
    assert_eq!(a.length(), F(7.0));
    assert_eq!(v(0.0, 0.0, 0.0).length(), F(0.0));
}

#[test]
fn unit_has_length_one() {
    assert_eq!(v(0.0, 3.0, 4.0).unit(), v(0.0, 3.0 * (1.0 / 5.0), 4.0 * (1.0 / 5.0)));
    for a in [v(1.0, 2.0, 3.0), v(-4.0, 0.5, 1e-3), v(1e6, -2e5, 3.0), v(0.0, 0.0, 1e-9)] {
        assert!((a.unit().length().0 - 1.0).abs() < 1e-12);
    }
}

#[test]
fn reflection_mirrors_at_the_normal() {
    assert_eq!(v(1.0, -1.0, 0.0).reflect(&v(0.0, 1.0, 0.0)), v(1.0, 1.0, 0.0));
    assert_eq!(v(0.0, 0.0, -2.0).reflect(&v(0.0, 0.0, 1.0)), v(0.0, 0.0, 2.0));
}

#[test]
fn reflection_flips_the_normal_component() {
    let mut source = Seeded::new(7);
    for _ in 0..200 {
        let n = random_unit_vec(&mut source);
        let a = Vec3::random_from_range(&mut source, F(-10.0), F(10.0));
        let before = a.dot(&n).0;
        let after = a.reflect(&n).dot(&n).0;
        assert!((after + before).abs() < 1e-9);
    }
}

#[test]
fn reflection_keeps_the_length() {
    let mut source = Seeded::new(19);
    for _ in 0..200 {
        let n = random_unit_vec(&mut source);
        let a = Vec3::random_from_range(&mut source, F(-10.0), F(10.0));
        assert!((a.reflect(&n).length().0 - a.length().0).abs() < 1e-9);
    }
    assert_eq!(v(3.0, -4.0, 12.0).reflect(&v(0.0, 1.0, 0.0)).length_sqrd(), F(169.0));
}

#[test]
fn rounding_moves_the_last_places() {
    // Exact arithmetic would give -0.22 and 1; numbers that round come close.
    let n = v(0.6, 0.8, 0.0);
    let a = v(0.1, 0.2, 0.3);
    assert_eq!(n.dot(&n), F(1.0));
    assert_eq!(a.reflect(&n).dot(&n), F(-0.22000000000000008));
    assert_eq!(a.dot(&n), F(0.22000000000000003));
    assert_eq!(a.unit().length(), F(0.9999999999999999));
}

#[test]
fn refraction_keeps_a_ray_along_the_normal() {
    let incoming = v(0.0, -1.0, 0.0);
    let normal = v(0.0, 1.0, 0.0);
    assert_eq!(incoming.refract(&normal, F(1.0)), v(0.0, -1.0, 0.0));
    assert_eq!(incoming.refract(&normal, F(1.0 / 1.5)), v(0.0, -1.0, 0.0));
}

#[test]
fn refraction_follows_snell() {
    // sin(incoming) = 0.6 and a ratio of 0.5 give sin(outgoing) = 0.3.
    let incoming = v(0.6, -0.8, 0.0);
    let normal = v(0.0, 1.0, 0.0);
    let out = incoming.refract(&normal, F(0.5));
    assert!(close(out.x(), 0.3));
    assert!(close(out.y(), -(1.0f64 - 0.09).sqrt()));
    assert!(close(out.z(), 0.0));
    assert!(close(out.length(), 1.0));
}

#[test]
fn near_zero_compares_every_component() {
    assert!(v(0.0, 0.0, 0.0).near_zero());
    assert!(v(9e-9, -9e-9, 1e-12).near_zero());
    assert!(!v(1e-8, 0.0, 0.0).near_zero());
    assert!(!v(0.0, -2e-8, 0.0).near_zero());
    assert!(!v(0.0, 0.0, 1.0).near_zero());
}

#[test]
fn the_unit_ball_is_open() {
    assert!(v(0.0, 0.0, 0.0).inside_unit_ball());
    assert!(v(0.5, 0.5, 0.5).inside_unit_ball());
    assert!(!v(1.0, 0.0, 0.0).inside_unit_ball());
    assert!(!v(0.6, 0.8, 0.1).inside_unit_ball());
}

#[test]
fn sum_adds_from_the_first() {
    assert_eq!(Vec3::<F>::sum(&vec![]), v(0.0, 0.0, 0.0));
    assert_eq!(
        Vec3::sum(&vec![v(1.0, 2.0, 3.0), v(10.0, 20.0, 30.0), v(0.5, 0.5, 0.5)]),
        v(11.5, 22.5, 33.5)
    );
    // Addition that rounds is not associative: the order is part of the result.
    let items = vec![v(1e16, 0.0, 0.0), v(1.0, 0.0, 0.0), v(1.0, 0.0, 0.0)];
    assert_eq!(Vec3::sum(&items).x(), F((1e16 + 1.0) + 1.0));
}

#[test]
fn write_colour_averages_and_takes_the_root() {
    assert_eq!(v(4.0, 1.0, 0.0).write_colour(4), v(0.999, 0.5, 0.0));
    assert_eq!(v(0.25, 0.81, 0.0625).write_colour(1), v(0.5, 0.9, 0.25));
    assert_eq!(v(100.0, 50.0, 18.0).write_colour(200), v((0.5f64).sqrt(), 0.5, 0.3));
}

#[test]
fn write_colour_limits_each_channel() {
    assert_eq!(v(9.0, 1.0, 0.998001).write_colour(1), v(0.999, 0.999, 0.999));
    let dark = v(-1.0, 0.0, 0.0).write_colour(1);
    // The root of a negative channel is not a number and is left as it is.
    assert!(dark.x().0.is_nan());
    assert_eq!(dark.y(), F(0.0));
}

#[test]
fn to_rgb_scales_by_256_and_cuts() {
    assert_eq!(v(0.999, 0.5, 0.0).to_rgb(), (255, 128, 0));
    assert_eq!(v(0.25, 0.9, 0.3).to_rgb(), (64, 230, 76));
    assert_eq!(v(1.0, 200.0, -200.0).to_rgb(), (256, i16::MAX, i16::MIN));
}

#[test]
fn tone_mapped_channels_fit_a_byte() {
    let mut source = Seeded::new(11);
    for _ in 0..500 {
        let colour = Vec3::random_from_range(&mut source, F(0.0), F(40.0)).write_colour(10);
        let (r, g, b) = colour.to_rgb();
        assert!((0..=255).contains(&r) && (0..=255).contains(&g) && (0..=255).contains(&b));
    }
}

#[test]
fn transpose_exchanges_rows_and_columns() {
    let rows = vec![
        vec![v(1.0, 0.0, 0.0), v(2.0, 0.0, 0.0), v(3.0, 0.0, 0.0)],
        vec![v(4.0, 0.0, 0.0), v(5.0, 0.0, 0.0), v(6.0, 0.0, 0.0)],
    ];
    let columns = rows.transpose();
    assert_eq!(
        columns,
        vec![
            vec![v(1.0, 0.0, 0.0), v(4.0, 0.0, 0.0)],
            vec![v(2.0, 0.0, 0.0), v(5.0, 0.0, 0.0)],
            vec![v(3.0, 0.0, 0.0), v(6.0, 0.0, 0.0)],
        ]
    );
}

#[test]
fn transpose_goes_by_the_first_row() {
    let rows = vec![vec![v(1.0, 0.0, 0.0)], vec![v(2.0, 0.0, 0.0), v(3.0, 0.0, 0.0)]];
    assert_eq!(rows.transpose(), vec![vec![v(1.0, 0.0, 0.0), v(2.0, 0.0, 0.0)]]);
    let empty_rows: Vec<Vec<Vec3<F>>> = vec![vec![], vec![]];
    assert_eq!(empty_rows.transpose(), Vec::<Vec<Vec3<F>>>::new());
}

#[test]
fn transposing_twice_gives_the_rows_back() {
    let rows = vec![
        vec![v(1.0, 2.0, 3.0), v(4.0, 5.0, 6.0)],
        vec![v(7.0, 8.0, 9.0), v(0.0, 1.0, 2.0)],
        vec![v(3.0, 4.0, 5.0), v(6.0, 7.0, 8.0)],
    ];
    assert_eq!(rows.clone().transpose().transpose(), rows);
}

#[test]
fn clamp_limits_to_the_interval() {
    assert_eq!(clamp(5, 0, 10), 5);
    assert_eq!(clamp(-5, 0, 10), 0);
    assert_eq!(clamp(50, 0, 10), 10);
    assert_eq!(clamp(0, 0, 10), 0);
    assert_eq!(clamp(10, 0, 10), 10);
    assert_eq!(clamp(1.5, 0.0, 0.999), 0.999);
    assert_eq!(clamp(-0.5, 0.0, 0.999), 0.0);
    assert_eq!(clamp(0.25, 0.0, 0.999), 0.25);
    assert_eq!(clamp("m", "a", "f"), "f");
}

#[test]
fn clamp_leaves_what_does_not_compare() {
    assert!(clamp(f64::NAN, 0.0, 1.0).is_nan());
}

#[test]
fn scalar_helpers() {
    assert_eq!(ratio::<F>(999, 1000), F(0.999));
    assert_eq!(ratio::<F>(7, 10), F(0.7));
    assert_eq!(ratio::<F>(1, 100_000_000), F(1e-8));
    assert_eq!(abs(F(-2.5)), F(2.5));
    assert_eq!(abs(F(2.5)), F(2.5));
    assert_eq!(min(F(1.0), F(2.0)), F(1.0));
    assert_eq!(min(F(3.0), F(2.0)), F(2.0));
    assert_eq!(min(F(f64::NAN), F(1.0)), F(1.0));
    assert_eq!(limit(F(0.5), F(0.0), F(1.0)), F(0.5));
    assert_eq!(limit(F(-0.5), F(0.0), F(1.0)), F(0.0));
    assert_eq!(limit(F(1.5), F(0.0), F(1.0)), F(1.0));
}

#[test]
fn random_vectors_stay_in_their_range() {
    let mut source = Seeded::new(3);
    for _ in 0..200 {
        let a = Vec3::random(&mut source);
        for c in [a.x().0, a.y().0, a.z().0] {
            assert!((0.0..=1.0).contains(&c));
        }
        let b = Vec3::random_from_range(&mut source, F(-2.0), F(5.0));
        for c in [b.x().0, b.y().0, b.z().0] {
            assert!((-2.0..=5.0).contains(&c));
        }
    }
}

#[test]
fn random_vectors_draw_three_times_in_order() {
    let mut a = Seeded::new(5);
    let mut b = Seeded::new(5);
    let drawn = Vec3::random_from_range(&mut a, F(-1.0), F(1.0));
    let x = b.range_inclusive(F(-1.0), F(1.0));
    let y = b.range_inclusive(F(-1.0), F(1.0));
    let z = b.range_inclusive(F(-1.0), F(1.0));
    assert_eq!(drawn, Vec3::new(x, y, z));
}

#[test]
fn rejection_keeps_only_points_inside() {
    let mut source = Seeded::new(1);
    assert_eq!(random_unit_sphere(&mut source, 0), None);
    assert_eq!(randon_unit_disk(&mut source, 0), None);
    for _ in 0..500 {
        if let Some(point) = random_unit_sphere(&mut source, 1) {
            assert!(point.length_sqrd().0 < 1.0);
        }
        let point = random_unit_sphere(&mut source, 1000).unwrap();
        assert!(point.length_sqrd().0 < 1.0);
        let disk = randon_unit_disk(&mut source, 1000).unwrap();
        assert!(disk.length_sqrd().0 < 1.0);
        assert_eq!(disk.z(), F(0.0));
    }
}

#[test]
fn rejection_gives_up_after_its_attempts() {
    // Every candidate is the corner (1, 1, 1), which lies outside.
    let mut corner = Fixed { number: 1.0, point: v(0.0, 0.0, 0.0), disk: v(0.0, 0.0, 0.0) };
    assert_eq!(random_unit_sphere(&mut corner, 3), None);
    // Every candidate is (0.75, 0.75, 0), which lies outside.
    let mut outside = Fixed { number: 0.875, point: v(0.0, 0.0, 0.0), disk: v(0.0, 0.0, 0.0) };
    assert_eq!(randon_unit_disk(&mut outside, 3), None);
    // Every candidate is the centre, which is kept at once.
    let mut centre = Fixed { number: 0.5, point: v(0.0, 0.0, 0.0), disk: v(0.0, 0.0, 0.0) };
    assert_eq!(random_unit_sphere(&mut centre, 1), Some(v(0.0, 0.0, 0.0)));
    assert_eq!(randon_unit_disk(&mut centre, 1), Some(v(0.0, 0.0, 0.0)));
}

#[test]
fn rejection_returns_the_first_candidate_that_is_kept() {
    for seed in 0..200 {
        let mut searching = Seeded::new(seed);
        let mut replayed = Seeded::new(seed);
        let found = random_unit_sphere(&mut searching, 4);
        let mut expected = None;
        for _ in 0..4 {
            let candidate = Vec3::random_from_range(&mut replayed, F(-1.0), F(1.0));
            assert!(candidate.x().0.abs() <= 1.0);
            assert!(candidate.y().0.abs() <= 1.0);
            assert!(candidate.z().0.abs() <= 1.0);
            if candidate.length_sqrd().0 < 1.0 {
                expected = Some(candidate);
                break;
            }
        }
        assert_eq!(found, expected);
        // The search drew no more than it needed.
        assert_eq!(searching.unit_interval(), replayed.unit_interval());
    }
}

#[test]
fn rejection_in_the_disk_returns_the_first_candidate_that_is_kept() {
    for seed in 0..200 {
        let mut searching = Seeded::new(seed);
        let mut replayed = Seeded::new(seed);
        let found = randon_unit_disk(&mut searching, 4);
        let mut expected = None;
        for _ in 0..4 {
            let x = replayed.range(F(-1.0), F(1.0));
            let y = replayed.range(F(-1.0), F(1.0));
            assert!(-1.0 <= x.0 && x.0 < 1.0 && -1.0 <= y.0 && y.0 < 1.0);
            if x.0 * x.0 + y.0 * y.0 < 1.0 {
                expected = Some(Vec3::new(x, y, F(0.0)));
                break;
            }
        }
        assert_eq!(found, expected);
        assert_eq!(searching.unit_interval(), replayed.unit_interval());
    }
}

#[test]
fn random_unit_vectors_have_length_one() {
    let mut source = Seeded::new(2);
    for _ in 0..200 {
        assert!((random_unit_vec(&mut source).length().0 - 1.0).abs() < 1e-12);
    }
    let mut fixed = Fixed { number: 0.0, point: v(0.0, 0.3, 0.4), disk: v(0.0, 0.0, 0.0) };
    assert_eq!(random_unit_vec(&mut fixed), v(0.0, 0.3, 0.4).unit());
}

#[test]
fn a_ray_runs_along_its_direction() {
    let ray = Ray::new(v(1.0, 2.0, 3.0), v(0.5, 0.0, -2.0));
    assert_eq!(ray.origin(), v(1.0, 2.0, 3.0));
    assert_eq!(ray.direction(), v(0.5, 0.0, -2.0));
    assert_eq!(ray.at(F(0.0)), v(1.0, 2.0, 3.0));
    assert_eq!(ray.at(F(2.0)), v(2.0, 2.0, -1.0));
    assert_eq!(ray.at(F(-1.0)), v(0.5, 2.0, 5.0));
}

#[test]
fn schlick_at_the_ends() {
    // r0 = ((1 - 1.5) / (1 + 1.5))^2 = 0.04
    assert!(close(schlick(F(1.0), F(1.5)), 0.04));
    assert!(close(schlick(F(0.0), F(1.5)), 1.0));
    assert!(close(schlick(F(0.5), F(1.5)), 0.04 + 0.96 * 0.03125));
    assert_eq!(schlick(F(0.5), F(1.0)), F(0.03125));
}

#[test]
fn reflectance_compares_with_the_draw() {
    assert!(reflectance(F(0.5), F(1.0), F(0.03)));
    assert!(!reflectance(F(0.5), F(1.0), F(0.03125)));
    assert!(!reflectance(F(0.5), F(1.0), F(0.9)));
}

fn surface(normal: Vec3<F>, front_face: bool) -> HitRecord<F> {
    let mut record = HitRecord::new().set_point(v(1.0, 0.0, 0.0)).set_time(F(1.0));
    record.normal = normal;
    record.front_face = front_face;
    record
}

#[test]
fn glass_reflects_where_it_cannot_refract() {
    // Leaving glass at a flat angle: 1.5 * sin(theta) > 1.
    let ray = Ray::new(v(0.0, 0.0, 0.0), v(0.8, -0.6, 0.0));
    let record = surface(v(0.0, 1.0, 0.0), false);
    for draw in [0.0, 0.5, 0.999] {
        let out = ray.interact_with(&record, F(1.5), F(draw));
        assert_eq!(out.origin(), v(1.0, 0.0, 0.0));
        assert!(close_vec(out.direction(), v(0.8, 0.6, 0.0)));
    }
    let mut source = Seeded::new(9);
    assert!(close_vec(ray.interact(&record, F(1.5), &mut source).direction(), v(0.8, 0.6, 0.0)));
}

#[test]
fn glass_refracts_or_reflects_by_the_draw() {
    let ray = Ray::new(v(0.0, 1.0, 0.0), v(0.0, -2.0, 0.0));
    let record = surface(v(0.0, 1.0, 0.0), true);
    // Along the normal the reflected share is r0 = 0.04.
    let refracted = ray.interact_with(&record, F(1.0 / 1.5), F(0.5));
    assert!(close_vec(refracted.direction(), v(0.0, -1.0, 0.0)));
    let reflected = ray.interact_with(&record, F(1.0 / 1.5), F(0.01));
    assert!(close_vec(reflected.direction(), v(0.0, 1.0, 0.0)));
    let mut low = Fixed { number: 0.01, point: v(0.0, 0.0, 0.0), disk: v(0.0, 0.0, 0.0) };
    assert_eq!(ray.interact(&record, F(1.0 / 1.5), &mut low), reflected);
    let mut high = Fixed { number: 0.5, point: v(0.0, 0.0, 0.0), disk: v(0.0, 0.0, 0.0) };
    assert_eq!(ray.interact(&record, F(1.0 / 1.5), &mut high), refracted);
}

#[test]
fn viewport_keeps_its_extents() {
    let viewport = Viewport::new(16, 9);
    assert_eq!(viewport.width(), 16);
    assert_eq!(viewport.height(), 9);
}

fn plain_camera() -> Camera<F> {
    Camera::with_tangent(
        F(2.0),
        F(1.0),
        v(0.0, 0.0, 0.0),
        v(0.0, 0.0, -1.0),
        v(0.0, 1.0, 0.0),
        F(0.0),
        F(1.0),
    )
}

#[test]
fn camera_frame_is_orthonormal() {
    let camera = plain_camera();
    assert_eq!(camera.w, v(0.0, 0.0, 1.0));
    assert_eq!(camera.u, v(1.0, 0.0, 0.0));
    assert_eq!(camera.v, v(0.0, 1.0, 0.0));
    assert_eq!(camera.viewport, Viewport::new(F(4.0), F(2.0)));
    assert_eq!(camera.horizontal, v(4.0, 0.0, 0.0));
    assert_eq!(camera.vertical, v(0.0, 2.0, 0.0));
    assert_eq!(camera.lower_left_corner, v(-2.0, -1.0, -1.0));
    assert_eq!(camera.lens_radius, F(0.0));
    assert_eq!(camera.origin, v(0.0, 0.0, 0.0));
    assert_eq!(camera.aspect_ratio, F(2.0));
}

#[test]
fn camera_scales_with_the_focus_distance() {
    let camera = Camera::with_tangent(
        F(1.5),
        F(0.5),
        v(0.0, 0.0, 4.0),
        v(0.0, 0.0, 0.0),
        v(0.0, 1.0, 0.0),
        F(0.5),
        F(4.0),
    );
    assert_eq!(camera.viewport, Viewport::new(F(1.5), F(1.0)));
    assert_eq!(camera.horizontal, v(6.0, 0.0, 0.0));
    assert_eq!(camera.vertical, v(0.0, 4.0, 0.0));
    assert_eq!(camera.lower_left_corner, v(-3.0, -2.0, 0.0));
    assert_eq!(camera.lens_radius, F(0.25));
}

#[test]
fn camera_takes_the_tangent_of_half_the_field_of_view() {
    let by_angle = Camera::new(
        F(2.0),
        F(90.0),
        v(0.0, 0.0, 0.0),
        v(0.0, 0.0, -1.0),
        v(0.0, 1.0, 0.0),
        F(0.0),
        F(1.0),
    );
    let tangent = (90.0f64.to_radians() / 2.0).tan();
    let by_tangent = Camera::with_tangent(
        F(2.0),
        F(tangent),
        v(0.0, 0.0, 0.0),
        v(0.0, 0.0, -1.0),
        v(0.0, 1.0, 0.0),
        F(0.0),
        F(1.0),
    );
    assert_eq!(by_angle, by_tangent);
    assert!(close(by_angle.viewport.height(), 2.0));
    assert!(close(by_angle.viewport.width(), 4.0));
}

#[test]
fn the_half_angle_is_in_radians() {
    assert_eq!(Camera::<F>::half_angle(F(90.0)), F(90.0f64.to_radians() / 2.0));
    assert_eq!(Camera::<F>::half_angle(F(0.0)), F(0.0));
    assert!(close(Camera::<F>::half_angle(F(180.0)), std::f64::consts::FRAC_PI_2));
    assert!(Camera::<F>::half_angle(F(20.0)).may_be_tangent(F((10.0f64).to_radians().tan())));
    assert!(!Camera::<F>::half_angle(F(20.0)).may_be_tangent(F(1.0)));
}

#[test]
fn rays_leave_through_the_image_plane() {
    let camera = plain_camera();
    let disk = v(0.3, -0.2, 0.0);
    let centre = camera.get_ray_from(F(0.5), F(0.5), disk);
    assert_eq!(centre, Ray::new(v(0.0, 0.0, 0.0), v(0.0, 0.0, -1.0)));
    let corner = camera.get_ray_from(F(0.0), F(0.0), disk);
    assert_eq!(corner, Ray::new(v(0.0, 0.0, 0.0), v(-2.0, -1.0, -1.0)));
    let top_right = camera.get_ray_from(F(1.0), F(1.0), disk);
    assert_eq!(top_right, Ray::new(v(0.0, 0.0, 0.0), v(2.0, 1.0, -1.0)));
}

#[test]
fn an_open_lens_moves_the_origin() {
    let camera = Camera::with_tangent(
        F(2.0),
        F(1.0),
        v(0.0, 0.0, 0.0),
        v(0.0, 0.0, -1.0),
        v(0.0, 1.0, 0.0),
        F(2.0),
        F(1.0),
    );
    let ray = camera.get_ray_from(F(0.5), F(0.5), v(0.5, -0.25, 0.0));
    assert_eq!(ray.origin(), v(0.5, -0.25, 0.0));
    assert_eq!(ray.direction(), v(-0.5, 0.25, -1.0));
    // Every ray through one position meets the same point of the focus plane.
    assert_eq!(ray.at(F(1.0)), v(0.0, 0.0, -1.0));
}

#[test]
fn get_ray_draws_its_lens_point() {
    let camera = plain_camera();
    let mut fixed = Fixed { number: 0.0, point: v(0.0, 0.0, 0.0), disk: v(0.5, 0.5, 0.0) };
    assert_eq!(
        camera.get_ray(F(0.25), F(0.75), &mut fixed),
        camera.get_ray_from(F(0.25), F(0.75), v(0.5, 0.5, 0.0))
    );
}
