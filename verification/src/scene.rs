//! The scene and how its image is sampled.
use crate::camera::Camera;
use crate::material::Material;
use crate::objects::{spec_scan, Hit, HitRecord, Object, SceneObjects};
use crate::ray::Ray;
use crate::random::{spec_is_disk_draw, spec_is_unit_draw, Draw, RandomSource};
use crate::scalar::{ratio, spec_ratio, Scalar};
use crate::vec3::{Colour, Transpose, Vec3};
use core::ops::{Add, Mul};
use vstd::arithmetic::div_mod::lemma_fundamental_div_mod_converse;
use vstd::prelude::*;

verus! {

/// The colour of the sky along `ray`: white blended into sky blue
/// `(1/2, 7/10, 1)` as `t = 1/2 * (y + 1)` goes from zero to one, `y` being the
/// height of the ray's direction once brought to length one.
pub open spec fn spec_background<T: Scalar>(ray: Ray<T>) -> Colour<T> {
    let unit_direction = ray.direction.spec_unit();
    let t = spec_ratio::<T>(1, 2).times(unit_direction.y.plus(T::whole(1)));
    let white = Vec3::<T>::spec_splat(T::whole(1));
    let blue = Vec3 { x: spec_ratio::<T>(1, 2), y: spec_ratio::<T>(7, 10), z: T::whole(1) };
    white.spec_scale(T::whole(1).minus(t)).spec_add(blue.spec_scale(t))
}

/// The colour of a ray that met the surface of `hit_record`, when the material
/// scatters with the random values of `draw` and the scattered ray has the
/// colour `deeper`: black where the ray is swallowed, else `deeper` weakened,
/// channel by channel, by the material.
pub open spec fn spec_shade<T: Scalar>(
    ray: Ray<T>,
    hit_record: HitRecord<T>,
    draw: Draw<T>,
    deeper: Colour<T>,
) -> Colour<T> {
    match hit_record.material.spec_scatter_with(hit_record, ray, draw) {
        None => Vec3::<T>::spec_zero(),
        Some((_, attenuation)) => attenuation.spec_mul(deeper),
    }
}

/// Whether `colour` is a value that tracing `ray` through `objects` with a
/// budget of `depth` bounces can give.
///
/// With no budget left it is black. A ray that meets nothing has the colour of
/// the sky. A ray that meets a surface is shaded for some random values that
/// the material may use and some colour of the scattered ray; where the ray is
/// sent on, that colour is one that tracing the scattered ray with one bounce
/// less can give.
pub open spec fn spec_is_radiance<T: Scalar>(
    objects: Seq<Object<T>>,
    ray: Ray<T>,
    depth: int,
    colour: Colour<T>,
) -> bool
    decreases depth,
{
    if depth <= 0 {
        colour == Vec3::<T>::spec_zero()
    } else {
        match spec_scan(objects, ray, T::whole(0), T::unbounded()) {
            None => colour == spec_background(ray),
            Some(hit_record) => exists|draw: Draw<T>, deeper: Colour<T>|
                {
                    &&& hit_record.material.spec_may_draw_with(hit_record, ray, draw)
                    &&& colour == #[trigger] spec_shade(ray, hit_record, draw, deeper)
                    &&& match hit_record.material.spec_scatter_with(hit_record, ray, draw) {
                        None => true,
                        Some((scattered, _)) => spec_is_radiance(
                            objects,
                            scattered,
                            depth - 1,
                            deeper,
                        ),
                    }
                },
        }
    }
}

pub fn background<T: Scalar>(ray: &Ray<T>) -> (r: Colour<T>)
    ensures
        r == spec_background(*ray),
{
    let unit_direction = ray.direction().unit();
    let one = T::from_int(1);
    let t = ratio::<T>(1, 2).mul(unit_direction.y().add(one));
    let white = Vec3::new(one, one, one);
    let blue = Vec3::new(ratio::<T>(1, 2), ratio::<T>(7, 10), one);
    white.mul(one.sub(t)).add(blue.mul(t))
}

/// The colour that arrives along `ray`, following at most `depth` bounces.
pub fn ray_colour<T: Scalar, R: RandomSource<T>>(
    ray: &Ray<T>,
    world: &SceneObjects<T>,
    depth: i16,
    rng: &mut R,
) -> (r: Colour<T>)
    ensures
        spec_is_radiance(world.objects@, *ray, depth as int, r),
        depth <= 0 ==> r == Vec3::<T>::spec_zero(),
    decreases depth,
{
    if depth <= 0 {
        return Vec3::zero();
    }
    match world.hit(ray, T::from_int(0), T::infinity()) {
        None => background(ray),
        Some(hit_record) => {
            let scattered = hit_record.material().scatter(&hit_record, ray, rng);
            let ghost draw = choose|draw: Draw<T>|
                hit_record.material.spec_may_draw(hit_record, *ray, draw) && scattered
                    == #[trigger] hit_record.material.spec_scatter(hit_record, *ray, draw);
            match scattered {
                None => {
                    let r = Vec3::zero();
                    assert(r == spec_shade(*ray, hit_record, draw, r));
                    r
                },
                Some((scattered_ray, attenuation)) => {
                    let deeper = ray_colour(&scattered_ray, world, depth - 1, rng);
                    let r = attenuation.mul(deeper);
                    assert(r == spec_shade(*ray, hit_record, draw, deeper));
                    r
                },
            }
        },
    }
}

/// What the images in `samples` hold for pixel `k`, image by image.
pub open spec fn spec_column<T>(samples: Seq<Vec<Colour<T>>>, k: int) -> Seq<Colour<T>> {
    Seq::new(samples.len(), |s: int| samples[s]@[k])
}

/// The sum, pixel by pixel, of images of one size, each image added in the
/// order in which it stands in `samples`.
pub fn accumulate<T: Scalar>(samples: Vec<Vec<Colour<T>>>) -> (r: Vec<Colour<T>>)
    requires
        samples.spec_can_transpose(),
    ensures
        r@.len() == samples@[0]@.len(),
        forall|k: int|
            0 <= k < r@.len() ==> #[trigger] r@[k] == Vec3::spec_sum(spec_column(samples@, k)),
{
    let columns = samples.transpose();
    let mut image: Vec<Colour<T>> = Vec::new();
    let mut k: usize = 0;
    while k < columns.len()
        invariant
            columns.spec_is_transpose_of(&samples),
            k <= columns@.len(),
            image@.len() == k,
            forall|a: int|
                0 <= a < k ==> #[trigger] image@[a] == Vec3::spec_sum(spec_column(samples@, a)),
        decreases columns@.len() - k,
    {
        assert(columns@[k as int]@ =~= spec_column(samples@, k as int));
        image.push(Vec3::sum(&columns[k]));
        k += 1;
    }
    image
}

/// The integers of every pixel of an image that sums `samples_per_pixel`
/// samples: each pixel tone-mapped, then cut down to integers.
pub fn to_pixels<T: Scalar>(image: &Vec<Colour<T>>, samples_per_pixel: i16) -> (r: Vec<
    (i16, i16, i16),
>)
    ensures
        r@.len() == image@.len(),
        forall|k: int|
            0 <= k < r@.len() ==> #[trigger] r@[k] == image@[k].spec_write_colour(
                samples_per_pixel,
            ).spec_to_rgb(),
{
    let mut pixels: Vec<(i16, i16, i16)> = Vec::new();
    let mut k: usize = 0;
    while k < image.len()
        invariant
            k <= image@.len(),
            pixels@.len() == k,
            forall|a: int|
                0 <= a < k ==> #[trigger] pixels@[a] == image@[a].spec_write_colour(
                    samples_per_pixel,
                ).spec_to_rgb(),
        decreases image@.len() - k,
    {
        pixels.push(image[k].write_colour(samples_per_pixel).to_rgb());
        k += 1;
    }
    pixels
}

/// A world and the camera that looks at it.
pub struct Scene<T> {
    pub world: SceneObjects<T>,
    pub camera: Camera<T>,
}

impl<T: Scalar> Scene<T> {
    /// Where along one axis of the image plane a sample lies, from zero at one
    /// edge to one at the other: the pixel's index plus the jitter, over the
    /// number of pixels along that axis. A jitter from the unit interval keeps
    /// the sample inside the cell of its pixel.
    pub open spec fn spec_coordinate(index: i32, jitter: T, extent: i32) -> T {
        T::whole(index).plus(jitter).over(T::whole(extent))
    }

    /// Whether `colour` is what the pixel in column `i` and row `j` (rows
    /// counted from the bottom) can get for the jitters `du` and `dv` and the
    /// point `disk` of the lens: the jitters are draws from the unit interval,
    /// the point is a draw from the unit disk, and the colour is one that
    /// tracing the ray through the jittered position can give.
    pub open spec fn spec_is_sample_for(
        self,
        max_depth: i16,
        img_width: i32,
        img_height: i32,
        i: i32,
        j: i32,
        du: T,
        dv: T,
        disk: Vec3<T>,
        colour: Colour<T>,
    ) -> bool {
        &&& spec_is_unit_draw(du)
        &&& spec_is_unit_draw(dv)
        &&& spec_is_disk_draw(disk)
        &&& spec_is_radiance(
            self.world.objects@,
            self.camera.spec_get_ray(
                Self::spec_coordinate(i, du, img_width),
                Self::spec_coordinate(j, dv, img_height),
                disk,
            ),
            max_depth as int,
            colour,
        )
    }

    /// Whether `colour` is a value that one sample of the pixel in column `i`
    /// and row `j` can give.
    pub open spec fn spec_is_sample(
        self,
        max_depth: i16,
        img_width: i32,
        img_height: i32,
        i: i32,
        j: i32,
        colour: Colour<T>,
    ) -> bool {
        exists|du: T, dv: T, disk: Vec3<T>| #[trigger]
            self.spec_is_sample_for(max_depth, img_width, img_height, i, j, du, dv, disk, colour)
    }

    /// The number of pixels of an image: none unless both extents are positive.
    pub open spec fn spec_pixels(img_width: i32, img_height: i32) -> int {
        if img_width > 0 && img_height > 0 {
            img_height * img_width
        } else {
            0
        }
    }

    pub fn new(world: SceneObjects<T>, camera: Camera<T>) -> (r: Self)
        ensures
            r.world == world,
            r.camera == camera,
    {
        Scene { world, camera }
    }

    /// One sample of the pixel in column `i` and row `j`: two numbers are
    /// drawn from the unit interval, the first for the column and the second
    /// for the row, and the ray through that place of the pixel's cell is
    /// traced.
    pub fn sample<R: RandomSource<T>>(
        &self,
        max_depth: i16,
        img_width: i32,
        img_height: i32,
        i: i32,
        j: i32,
        rng: &mut R,
    ) -> (r: Colour<T>)
        requires
            0 <= i < img_width,
            0 <= j < img_height,
        ensures
            self.spec_is_sample(max_depth, img_width, img_height, i, j, r),
    {
        let du = rng.unit_interval();
        let u = T::from_int(i).add(du).div(T::from_int(img_width));
        let dv = rng.unit_interval();
        let v = T::from_int(j).add(dv).div(T::from_int(img_height));
        let ray = self.camera.get_ray(u, v, rng);
        let r = ray_colour(&ray, &self.world, max_depth, rng);
        proof {
            let disk = choose|disk: Vec3<T>|
                spec_is_disk_draw(disk) && ray == #[trigger] self.camera.spec_get_ray(u, v, disk);
            assert(self.spec_is_sample_for(
                max_depth,
                img_width,
                img_height,
                i,
                j,
                du,
                dv,
                disk,
                r,
            ));
        }
        r
    }

    /// One sample of every pixel, row by row from the top row to the bottom
    /// row, each row from left to right.
    pub fn render<R: RandomSource<T>>(
        &self,
        max_depth: i16,
        img_width: i32,
        img_height: i32,
        rng: &mut R,
    ) -> (r: Vec<Colour<T>>)
        ensures
            r@.len() == Self::spec_pixels(img_width, img_height),
            forall|k: int|
                0 <= k < r@.len() ==> self.spec_is_sample(
                    max_depth,
                    img_width,
                    img_height,
                    (k % (img_width as int)) as i32,
                    (img_height - 1 - k / (img_width as int)) as i32,
                    #[trigger] r@[k],
                ),
    {
        let mut image: Vec<Colour<T>> = Vec::new();
        if img_width <= 0 || img_height <= 0 {
            return image;
        }
        let mut j: i32 = img_height;
        while j > 0
            invariant
                img_width > 0,
                0 <= j <= img_height,
                image@.len() == (img_height - j) * img_width,
                forall|k: int|
                    0 <= k < image@.len() ==> self.spec_is_sample(
                        max_depth,
                        img_width,
                        img_height,
                        (k % (img_width as int)) as i32,
                        (img_height - 1 - k / (img_width as int)) as i32,
                        #[trigger] image@[k],
                    ),
            decreases j,
        {
            j -= 1;
            let mut i: i32 = 0;
            while i < img_width
                invariant
                    img_width > 0,
                    0 <= j < img_height,
                    0 <= i <= img_width,
                    image@.len() == (img_height - 1 - j) * img_width + i,
                    forall|k: int|
                        0 <= k < image@.len() ==> self.spec_is_sample(
                            max_depth,
                            img_width,
                            img_height,
                            (k % (img_width as int)) as i32,
                            (img_height - 1 - k / (img_width as int)) as i32,
                            #[trigger] image@[k],
                        ),
                decreases img_width - i,
            {
                let colour = self.sample(max_depth, img_width, img_height, i, j, rng);
                proof {
                    lemma_fundamental_div_mod_converse(
                        image@.len() as int,
                        img_width as int,
                        img_height - 1 - j,
                        i as int,
                    );
                }
                image.push(colour);
                i += 1;
            }
            assert((img_height - 1 - j) * img_width + img_width == (img_height - j) * img_width)
                by (nonlinear_arith);
        }
        image
    }

    /// Whether `colour` is what pixel `k` of the finished image can show when
    /// its samples are `samples`: each is a sample of that pixel, and the
    /// colour is their sum, tone-mapped.
    pub open spec fn spec_is_pixel_for(
        self,
        samples_per_pixel: i16,
        max_depth: i16,
        img_width: i32,
        img_height: i32,
        k: int,
        samples: Seq<Colour<T>>,
        colour: Colour<T>,
    ) -> bool {
        &&& samples.len() == samples_per_pixel
        &&& forall|s: int|
            0 <= s < samples.len() ==> self.spec_is_sample(
                max_depth,
                img_width,
                img_height,
                (k % (img_width as int)) as i32,
                (img_height - 1 - k / (img_width as int)) as i32,
                #[trigger] samples[s],
            )
        &&& colour == Vec3::spec_sum(samples).spec_write_colour(samples_per_pixel)
    }

    /// Whether `colour` is a value that pixel `k` of the finished image can show.
    pub open spec fn spec_is_pixel(
        self,
        samples_per_pixel: i16,
        max_depth: i16,
        img_width: i32,
        img_height: i32,
        k: int,
        colour: Colour<T>,
    ) -> bool {
        exists|samples: Seq<Colour<T>>| #[trigger]
            self.spec_is_pixel_for(
                samples_per_pixel,
                max_depth,
                img_width,
                img_height,
                k,
                samples,
                colour,
            )
    }

    /// The finished image: `samples_per_pixel` renderings, summed pixel by
    /// pixel and tone-mapped. Pixels stand row by row from the top row to the
    /// bottom row, each row from left to right.
    pub fn draw<R: RandomSource<T>>(
        &self,
        samples_per_pixel: i16,
        max_depth: i16,
        img_width: i32,
        img_height: i32,
        rng: &mut R,
    ) -> (r: Vec<Colour<T>>)
        requires
            samples_per_pixel > 0,
        ensures
            r@.len() == Self::spec_pixels(img_width, img_height),
            forall|k: int|
                0 <= k < r@.len() ==> self.spec_is_pixel(
                    samples_per_pixel,
                    max_depth,
                    img_width,
                    img_height,
                    k,
                    #[trigger] r@[k],
                ),
    {
        let mut images: Vec<Vec<Colour<T>>> = Vec::new();
        let mut s: i16 = 0;
        while s < samples_per_pixel
            invariant
                0 <= s <= samples_per_pixel,
                images@.len() == s,
                forall|a: int|
                    0 <= a < s ==> (#[trigger] images@[a])@.len() == Self::spec_pixels(
                        img_width,
                        img_height,
                    ),
                forall|a: int, k: int|
                    0 <= a < s && 0 <= k < Self::spec_pixels(img_width, img_height)
                        ==> self.spec_is_sample(
                        max_depth,
                        img_width,
                        img_height,
                        (k % (img_width as int)) as i32,
                        (img_height - 1 - k / (img_width as int)) as i32,
                        #[trigger] images@[a]@[k],
                    ),
            decreases samples_per_pixel - s,
        {
            let image = self.render(max_depth, img_width, img_height, rng);
            images.push(image);
            s += 1;
        }
        let ghost taken = images@;
        let summed = accumulate(images);
        let mut finished: Vec<Colour<T>> = Vec::new();
        let mut k: usize = 0;
        while k < summed.len()
            invariant
                samples_per_pixel > 0,
                taken.len() == samples_per_pixel,
                summed@.len() == Self::spec_pixels(img_width, img_height),
                forall|a: int|
                    0 <= a < taken.len() ==> (#[trigger] taken[a])@.len() == summed@.len(),
                forall|a: int, k: int|
                    0 <= a < taken.len() && 0 <= k < summed@.len() ==> self.spec_is_sample(
                        max_depth,
                        img_width,
                        img_height,
                        (k % (img_width as int)) as i32,
                        (img_height - 1 - k / (img_width as int)) as i32,
                        #[trigger] taken[a]@[k],
                    ),
                forall|a: int|
                    0 <= a < summed@.len() ==> #[trigger] summed@[a] == Vec3::spec_sum(
                        spec_column(taken, a),
                    ),
                k <= summed@.len(),
                finished@.len() == k,
                forall|a: int|
                    0 <= a < k ==> self.spec_is_pixel(
                        samples_per_pixel,
                        max_depth,
                        img_width,
                        img_height,
                        a,
                        #[trigger] finished@[a],
                    ),
            decreases summed@.len() - k,
        {
            let colour = summed[k].write_colour(samples_per_pixel);
            assert(self.spec_is_pixel_for(
                samples_per_pixel,
                max_depth,
                img_width,
                img_height,
                k as int,
                spec_column(taken, k as int),
                colour,
            ));
            finished.push(colour);
            k += 1;
        }
        finished
    }
}

} // verus!
