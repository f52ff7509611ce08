//! The camera: the sampling schedule, the path integrator and the combining
//! of partial renders.
use vstd::prelude::*;
use crate::background::Background;
use crate::color::Color;
use crate::hit::{Hit, HitResult};
use crate::image::{same_dimensions, Image, ImageError};
use crate::material::Material;
use crate::math::interval::Interval;
use crate::scalar::{Scalar, INFINITY, ONE, ZERO};
use crate::vec::Vec3;

verus! {

/// The key of 0.001: the ray parameter below which a hit is not counted, so
/// that a scattered ray does not hit the surface that it leaves.
pub const BIAS: Scalar = 0x3F50_624D_D2F1_A9FC;

/// Why a render failed.
#[derive(Debug, PartialEq, Eq)]
pub enum CameraError {
    /// Reading or writing failed; the text is the system's message.
    IOError(String),
    /// The partial images could not be averaged.
    Averaging(ImageError),
}

/// The window of ray parameters in which the integrator looks for hits: from
/// the bias to infinity.
pub open spec fn sight() -> Interval {
    Interval { start: BIAS, end: INFINITY }
}

/// The side of the grid of strata that one worker samples in every pixel,
/// where `total_samples` per pixel are shared among `thread_count` workers:
/// the largest `n` with `n * n * thread_count <= total_samples`, which is the
/// square root of a worker's share, rounded down.
pub open spec fn is_grid_side(n: int, total_samples: int, thread_count: int) -> bool {
    &&& 0 <= n
    &&& n * n * thread_count <= total_samples
    &&& total_samples < (n + 1) * (n + 1) * thread_count
}

/// The side of the grid of strata for one worker; see [`is_grid_side`].
/// Without a worker there is no partial image to average later, and the
/// schedule fails as the averaging would.
pub fn grid_side(total_samples: u32, thread_count: u32) -> (r: Result<u32, CameraError>)
    ensures
        thread_count == 0 ==> r == Err::<u32, CameraError>(
            CameraError::Averaging(ImageError::AveragingZeroImages),
        ),
        thread_count > 0 ==> (r matches Ok(n) && is_grid_side(
            n as int,
            total_samples as int,
            thread_count as int,
        )),
{
    if thread_count == 0 {
        return Err(CameraError::Averaging(ImageError::AveragingZeroImages));
    }
    let total: u64 = total_samples as u64;
    let threads: u64 = thread_count as u64;
    let mut n: u64 = 0;
    assert(n * n * threads == 0) by (nonlinear_arith)
        requires
            n == 0,
    ;
    loop
        invariant
            total == total_samples,
            threads == thread_count,
            threads >= 1,
            n * n * threads <= total,
            n <= 0xFFFF,
        ensures
            total < (n + 1) * (n + 1) * threads,
        decreases 0x1_0000 - n,
    {
        assert((n + 1) * (n + 1) <= 0x1_0000_0000) by (nonlinear_arith)
            requires
                n <= 0xFFFF,
        ;
        assert((n + 1) * (n + 1) * threads <= 0x1_0000_0000 * 0xFFFF_FFFF) by (nonlinear_arith)
            requires
                (n + 1) * (n + 1) <= 0x1_0000_0000,
                threads <= 0xFFFF_FFFF,
        ;
        let next: u64 = (n + 1) * (n + 1) * threads;
        if next > total {
            break;
        }
        assert(n + 1 <= 0xFFFF) by (nonlinear_arith)
            requires
                (n + 1) * (n + 1) * threads <= total,
                total <= 0xFFFF_FFFF,
                threads >= 1,
                n >= 0,
        ;
        n = n + 1;
    }
    Ok(n as u32)
}

/// Every stratum of a worker's grid lies inside the pixel: the far edge of
/// stratum `s`, which is `s + 1` strata of width one over the square root of
/// the worker's share away from the pixel's corner, does not pass the
/// pixel's far edge.
pub proof fn lemma_strata_inside_pixel(total_samples: int, thread_count: int, n: int, s: int)
    requires
        thread_count > 0,
        is_grid_side(n, total_samples, thread_count),
        0 <= s < n,
    ensures
        (s + 1) * (s + 1) * thread_count <= total_samples,
{
    assert((s + 1) * (s + 1) * thread_count <= n * n * thread_count) by (nonlinear_arith)
        requires
            0 <= s + 1 <= n,
            thread_count > 0,
    ;
}

/// There is one grid side for a budget and a number of workers.
pub proof fn lemma_grid_side_unique(total_samples: int, thread_count: int, n: int, m: int)
    requires
        thread_count > 0,
        is_grid_side(n, total_samples, thread_count),
        is_grid_side(m, total_samples, thread_count),
    ensures
        n == m,
{
    if n < m {
        assert((n + 1) * (n + 1) * thread_count <= m * m * thread_count) by (nonlinear_arith)
            requires
                0 <= n + 1 <= m,
                thread_count > 0,
        ;
    }
    if m < n {
        assert((m + 1) * (m + 1) * thread_count <= n * n * thread_count) by (nonlinear_arith)
            requires
                0 <= m + 1 <= n,
                thread_count > 0,
        ;
    }
}

/// Whether `outcome` is what the material of the surface hit at `h` can make
/// of `ray`: the scattered ray with its attenuation, or nothing where the ray
/// is absorbed.
pub open spec fn scatters<R, M: Material<R>>(
    ray: &R,
    h: HitResult<M>,
    outcome: Option<(R, Color)>,
) -> bool {
    call_ensures(M::scatter, (&h.material, ray, &h), outcome)
}

/// Whether `c` is the radiance that leaves the surface hit at `h` against
/// the ray: what the surface emits there, alone where the ray was absorbed,
/// and else blended by `blend` with the attenuation of the scattered ray and
/// the radiance `incoming` along it.
pub open spec fn shaded<R, M: Material<R>, F: Fn(Color, Color, Color) -> Color>(
    blend: &F,
    h: HitResult<M>,
    outcome: Option<(R, Color)>,
    incoming: Color,
    c: Color,
) -> bool {
    let emitted = h.material.glow(h.u, h.v, h.point);
    match outcome {
        None => c == emitted,
        Some(next) => blend.ensures((emitted, next.1, incoming), c),
    }
}

/// What the integrator and the sampling schedule need of a camera.
#[derive(Clone, Debug)]
pub struct Camera<B> {
    /// The number of samples per pixel.
    pub samples: u32,
    /// The number of times a path may be scattered.
    pub max_bounces: u32,
    /// What a ray sees that leaves the scene.
    pub background: B,
}

impl<B> Camera<B> {
    /// Whether `c` can be the radiance along `ray`, which has been scattered
    /// `bounces` times before. With the bounce budget used up it is black.
    /// Where the ray hits nothing in sight, it is the background's radiance.
    /// Where it hits a surface, the surface's material scatters it, and the
    /// radiance is what the surface emits there: alone where the ray is
    /// absorbed, and else blended by `blend` with the attenuation and the
    /// radiance along the scattered ray, which has been scattered once more.
    pub open spec fn traced<T, F>(&self, root: &T, ray: &T::Ray, bounces: u32, blend: &F, c: Color) -> bool where
        T: Hit,
        T::Material: Material<T::Ray>,
        B: Background<T::Ray>,
        F: Fn(Color, Color, Color) -> Color,

        decreases self.max_bounces - bounces,
    {
        if bounces >= self.max_bounces {
            c == Color(Vec3(ZERO, ZERO, ZERO))
        } else {
            match root.first_hit(ray, sight()) {
                None => c == self.background.radiance(ray),
                Some(h) => exists|outcome: Option<(T::Ray, Color)>, incoming: Color|
                    {
                        &&& scatters(ray, h, outcome)
                        &&& #[trigger] shaded(blend, h, outcome, incoming, c)
                        &&& outcome matches Some(next) ==> self.traced(
                            root,
                            &next.0,
                            (bounces + 1) as u32,
                            blend,
                            incoming,
                        )
                    },
            }
        }
    }

    /// The radiance that arrives along `ray`, which has been scattered
    /// `bounces` times before; see [`Camera::traced`]. `blend` is given what
    /// a surface emits, the attenuation of the scattered ray and the radiance
    /// that comes in along it, and returns the first plus the product of the
    /// other two.
    pub fn ray_color<T, F>(&self, root: &T, ray: T::Ray, bounces: u32, blend: &F) -> (c: Color) where
        T: Hit,
        T::Material: Material<T::Ray>,
        B: Background<T::Ray>,
        F: Fn(Color, Color, Color) -> Color,

        requires
            forall|e: Color, a: Color, i: Color| blend.requires((e, a, i)),
        ensures
            self.traced(root, &ray, bounces, blend, c),
            bounces >= self.max_bounces ==> c == Color(Vec3(ZERO, ZERO, ZERO)),
        decreases self.max_bounces - bounces,
    {
        if bounces >= self.max_bounces {
            return Color::black();
        }
        match root.hit(&ray, Interval::new(BIAS, INFINITY)) {
            Some(hit) => {
                let emitted = hit.material.emitted(hit.u, hit.v, &hit.point);
                let outcome = hit.material.scatter(&ray, &hit);
                let ghost scattering = outcome;
                assert(scatters(&ray, hit, scattering));
                match outcome {
                    Some((scattered, attenuation)) => {
                        let incoming = self.ray_color(root, scattered, bounces + 1, blend);
                        let c = blend(emitted, attenuation, incoming);
                        assert(shaded(blend, hit, scattering, incoming, c));
                        c
                    },
                    None => {
                        assert(shaded(blend, hit, scattering, emitted, emitted));
                        emitted
                    },
                }
            },
            None => self.background.background(&ray),
        }
    }
}

impl<B> Camera<B> {
    /// Whether `c` can be the radiance of the sample of pixel (`x`, `y`) in
    /// stratum (`sx`, `sy`): the radiance along a primary ray that `emit`
    /// gives for that stratum, not scattered before.
    pub open spec fn sampled<T, E, F>(
        &self,
        root: &T,
        emit: &E,
        blend: &F,
        x: u32,
        y: u32,
        sx: u32,
        sy: u32,
        c: Color,
    ) -> bool where
        T: Hit,
        T::Material: Material<T::Ray>,
        B: Background<T::Ray>,
        E: Fn(u32, u32, u32, u32) -> T::Ray,
        F: Fn(Color, Color, Color) -> Color,
     {
        exists|ray: T::Ray| emit.ensures((x, y, sx, sy), ray) && self.traced(root, &ray, 0, blend, c)
    }

    /// Whether `radiances` can be the samples of pixel (`x`, `y`): one for
    /// each stratum of the grid, row by row.
    pub open spec fn sampled_all<T, E, F>(
        &self,
        root: &T,
        grid: u32,
        emit: &E,
        blend: &F,
        x: u32,
        y: u32,
        radiances: Seq<Color>,
    ) -> bool where
        T: Hit,
        T::Material: Material<T::Ray>,
        B: Background<T::Ray>,
        E: Fn(u32, u32, u32, u32) -> T::Ray,
        F: Fn(Color, Color, Color) -> Color,
     {
        &&& radiances.len() == grid * grid
        &&& forall|j: int|
            0 <= j < radiances.len() ==> self.sampled(
                root,
                emit,
                blend,
                x,
                y,
                (j % grid as int) as u32,
                (j / grid as int) as u32,
                #[trigger] radiances[j],
            )
    }

    /// Whether `pixel` can be what the render puts at (`x`, `y`): the mean
    /// of the samples of that pixel, clamped.
    pub open spec fn rendered<T, E, F, M>(
        &self,
        root: &T,
        grid: u32,
        emit: &E,
        blend: &F,
        mean: &M,
        x: u32,
        y: u32,
        pixel: Color,
    ) -> bool where
        T: Hit,
        T::Material: Material<T::Ray>,
        B: Background<T::Ray>,
        E: Fn(u32, u32, u32, u32) -> T::Ray,
        F: Fn(Color, Color, Color) -> Color,
        M: Fn(Vec<Color>) -> Color,
     {
        exists|radiances: Vec<Color>, m: Color|
            #![trigger mean.ensures((radiances,), m)]
            self.sampled_all(root, grid, emit, blend, x, y, radiances@) && mean.ensures(
                (radiances,),
                m,
            ) && pixel == m.limited()
    }

    /// Renders one image: every pixel of `target` becomes the clamped mean
    /// of the radiances of its samples, one sample in each stratum of a grid
    /// of `grid` by `grid` strata. `emit` gives the primary ray of a sample
    /// from the pixel's column and row and the stratum's column and row;
    /// `blend` is as in [`Camera::ray_color`]; `mean` averages the radiances
    /// of a pixel.
    pub fn render<T, E, F, M>(
        &self,
        root: &T,
        grid: u32,
        target: Image,
        emit: &E,
        blend: &F,
        mean: &M,
    ) -> (r: Image) where
        T: Hit,
        T::Material: Material<T::Ray>,
        B: Background<T::Ray>,
        E: Fn(u32, u32, u32, u32) -> T::Ray,
        F: Fn(Color, Color, Color) -> Color,
        M: Fn(Vec<Color>) -> Color,

        requires
            target.wf(),
            grid * grid <= usize::MAX,
            forall|x: u32, y: u32, sx: u32, sy: u32|
                x < target.cols() && y < target.rows() && sx < grid && sy < grid ==> emit.requires(
                    (x, y, sx, sy),
                ),
            forall|e: Color, a: Color, i: Color| blend.requires((e, a, i)),
            forall|radiances: Vec<Color>|
                radiances@.len() == grid * grid ==> mean.requires((radiances,)),
        ensures
            r.wf(),
            r.cols() == target.cols(),
            r.rows() == target.rows(),
            forall|x: u32, y: u32|
                x < r.cols() && y < r.rows() ==> self.rendered(
                    root,
                    grid,
                    emit,
                    blend,
                    mean,
                    x,
                    y,
                    #[trigger] r.pixel(x as int, y as int),
                ),
    {
        let mut image = target;
        let width: u32 = image.width();
        let height: u32 = image.height();
        let count: usize = (grid as usize) * (grid as usize);
        let mut y: u32 = 0;
        while y < height
            invariant
                y <= height,
                image.wf(),
                image.cols() == target.cols() == width,
                image.rows() == target.rows() == height,
                count == grid * grid,
                forall|x: u32, y: u32, sx: u32, sy: u32|
                    x < target.cols() && y < target.rows() && sx < grid && sy < grid
                        ==> emit.requires((x, y, sx, sy)),
                forall|e: Color, a: Color, i: Color| blend.requires((e, a, i)),
                forall|radiances: Vec<Color>|
                    radiances@.len() == grid * grid ==> mean.requires((radiances,)),
                forall|px: u32, py: u32|
                    px < width && py < y ==> self.rendered(
                        root,
                        grid,
                        emit,
                        blend,
                        mean,
                        px,
                        py,
                        #[trigger] image.pixel(px as int, py as int),
                    ),
            decreases height - y,
        {
            let mut x: u32 = 0;
            while x < width
                invariant
                    x <= width,
                    y < height,
                    image.wf(),
                    image.cols() == target.cols() == width,
                    image.rows() == target.rows() == height,
                    count == grid * grid,
                    forall|x: u32, y: u32, sx: u32, sy: u32|
                        x < target.cols() && y < target.rows() && sx < grid && sy < grid
                            ==> emit.requires((x, y, sx, sy)),
                    forall|e: Color, a: Color, i: Color| blend.requires((e, a, i)),
                    forall|radiances: Vec<Color>|
                        radiances@.len() == grid * grid ==> mean.requires((radiances,)),
                    forall|px: u32, py: u32|
                        px < width && (py < y || (py == y && px < x)) ==> self.rendered(
                            root,
                            grid,
                            emit,
                            blend,
                            mean,
                            px,
                            py,
                            #[trigger] image.pixel(px as int, py as int),
                        ),
                decreases width - x,
            {
                let mut radiances: Vec<Color> = Vec::new();
                let mut j: usize = 0;
                while j < count
                    invariant
                        j <= count,
                        count == grid * grid,
                        x < target.cols(),
                        y < target.rows(),
                        radiances@.len() == j,
                        forall|x: u32, y: u32, sx: u32, sy: u32|
                            x < target.cols() && y < target.rows() && sx < grid && sy < grid
                                ==> emit.requires((x, y, sx, sy)),
                        forall|e: Color, a: Color, i: Color| blend.requires((e, a, i)),
                        forall|k: int|
                            0 <= k < j ==> self.sampled(
                                root,
                                emit,
                                blend,
                                x,
                                y,
                                (k % grid as int) as u32,
                                (k / grid as int) as u32,
                                #[trigger] radiances@[k],
                            ),
                    decreases count - j,
                {
                    assert(grid > 0) by (nonlinear_arith)
                        requires
                            j < grid * grid,
                    ;
                    assert((j as int) / (grid as int) < grid) by (nonlinear_arith)
                        requires
                            j < grid * grid,
                            grid > 0,
                    ;
                    let sx: u32 = (j % (grid as usize)) as u32;
                    let sy: u32 = (j / (grid as usize)) as u32;
                    let ray = emit(x, y, sx, sy);
                    let radiance = self.ray_color(root, ray, 0, blend);
                    radiances.push(radiance);
                    j = j + 1;
                }
                let ghost sampled = radiances;
                let m = mean(radiances);
                let ghost before = image;
                image.set_pixel(x, y, m.clamped());
                proof {
                    assert(self.sampled_all(root, grid, emit, blend, x, y, sampled@));
                    assert(mean.ensures((sampled,), m));
                    assert(image.pixel(x as int, y as int) == m.limited());
                    assert forall|px: u32, py: u32|
                        px < width && (py < y || (py == y && px < x + 1)) implies self.rendered(
                        root,
                        grid,
                        emit,
                        blend,
                        mean,
                        px,
                        py,
                        #[trigger] image.pixel(px as int, py as int),
                    ) by {
                        if px != x || py != y {
                            assert(image.pixel(px as int, py as int) == before.pixel(
                                px as int,
                                py as int,
                            ));
                        }
                    }
                }
                x = x + 1;
            }
            y = y + 1;
        }
        image
    }
}

/// Averages the partial images of the workers into the final image; see
/// [`Image::average`]. Fails with `Averaging` where the averaging fails.
pub fn combine_results<F: Fn(Vec<Color>) -> Color>(partials: &Vec<Image>, mean: F) -> (r: Result<
    Image,
    CameraError,
>)
    requires
        forall|i: int| 0 <= i < partials@.len() ==> (#[trigger] partials@[i]).wf(),
        forall|pixels: Vec<Color>|
            pixels@.len() == partials@.len() > 0 ==> mean.requires((pixels,)),
    ensures
        partials@.len() == 0 ==> r == Err::<Image, CameraError>(
            CameraError::Averaging(ImageError::AveragingZeroImages),
        ),
        partials@.len() > 0 && !same_dimensions(partials@) ==> r == Err::<
            Image,
            CameraError,
        >(CameraError::Averaging(ImageError::DimensionsMismatch)),
        partials@.len() > 0 && same_dimensions(partials@) ==> (r matches Ok(
            image,
        ) && {
            &&& image.wf()
            &&& image.cols() == partials@[0].cols()
            &&& image.rows() == partials@[0].rows()
            &&& forall|at: int|
                0 <= at < image.pixels().len() ==> crate::image::averaged(
                    partials@,
                    mean,
                    at,
                    #[trigger] image.pixels()[at],
                )
        }),
{
    match Image::average(partials, mean) {
        Ok(image) => Ok(image),
        Err(error) => Err(CameraError::Averaging(error)),
    }
}

} // verus!
