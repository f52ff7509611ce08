//! Pixel buffers and their averaging.
use vstd::prelude::*;
use crate::color::Color;

verus! {

/// Why an image could not be produced.
#[derive(Debug, PartialEq, Eq)]
pub enum ImageError {
    /// Reading or writing failed; the text is the system's message.
    IOError(String),
    /// The image could not be encoded; the text is the encoder's message.
    SaveError(String),
    /// No image was given to average.
    AveragingZeroImages,
    /// The images to average do not all have the same width and height.
    DimensionsMismatch,
}

/// A rectangle of pixels, stored row by row from the top. It is at least one
/// pixel wide and one pixel high. Every image that this module hands out is
/// well-formed ([`Image::wf`]), and its methods keep it so.
#[derive(Debug, Clone)]
pub struct Image {
    width: u32,
    height: u32,
    data: Vec<Color>,
}

/// The pixels that `images` hold at place `at`, one per image.
pub open spec fn column(images: Seq<Image>, at: int) -> Seq<Color> {
    Seq::new(images.len(), |i: int| images[i].pixels()[at])
}

/// The height of an image of width `width` whose width is to its height as
/// `aspect_ratio.0` is to `aspect_ratio.1`: the width divided by the ratio,
/// rounded down.
pub open spec fn height_for(width: u32, aspect_ratio: (u32, u32)) -> int {
    (width * aspect_ratio.1) / (aspect_ratio.0 as int)
}

/// `n`, or one where `n` is zero.
pub open spec fn at_least_one(n: int) -> int {
    if n == 0 {
        1
    } else {
        n
    }
}

/// Whether every one of `images` has the width and the height of the first.
pub open spec fn same_dimensions(images: Seq<Image>) -> bool {
    forall|i: int|
        0 <= i < images.len() ==> (#[trigger] images[i]).cols() == images[0].cols()
            && images[i].rows() == images[0].rows()
}

/// Whether every one of `images` has `count` pixels.
pub open spec fn same_size(images: Seq<Image>, count: nat) -> bool {
    forall|i: int| 0 <= i < images.len() ==> (#[trigger] images[i]).pixels().len() == count
}

impl Image {
    /// The width in pixels.
    pub closed spec fn cols(&self) -> nat {
        self.width as nat
    }

    /// The height in pixels.
    pub closed spec fn rows(&self) -> nat {
        self.height as nat
    }

    /// The pixels, row by row.
    pub closed spec fn pixels(&self) -> Seq<Color> {
        self.data@
    }

    /// The pixel in column `x` of row `y`.
    pub open spec fn pixel(&self, x: int, y: int) -> Color {
        self.pixels()[y * self.cols() + x]
    }

    /// What holds of every image: it has a row and a column, and as many
    /// pixels as its width and height give.
    pub open spec fn wf(&self) -> bool {
        &&& self.cols() >= 1
        &&& self.rows() >= 1
        &&& self.pixels().len() == self.cols() * self.rows()
        &&& self.cols() * self.rows() <= u32::MAX
    }

    /// An image of one colour with the given width and aspect ratio. The
    /// ratio of width to height is given by two numbers, as in 16 to 9. The
    /// height is the width divided by the ratio, rounded down; a width or
    /// height of zero is raised to one. The ratio must not be zero, and the
    /// number of pixels must fit in 32 bits.
    pub fn with_aspect_ratio(width: u32, aspect_ratio: (u32, u32), color: Color) -> (r: Image)
        requires
            aspect_ratio.0 > 0,
            at_least_one(width as int) * at_least_one(height_for(width, aspect_ratio))
                <= u32::MAX,
        ensures
            r.wf(),
            r.cols() == at_least_one(width as int),
            r.rows() == at_least_one(height_for(width, aspect_ratio)),
            forall|i: int| 0 <= i < r.pixels().len() ==> r.pixels()[i] == color,
    {
        assert(width * aspect_ratio.1 <= 0xFFFF_FFFF * 0xFFFF_FFFF) by (nonlinear_arith)
            requires
                width <= 0xFFFF_FFFF,
                aspect_ratio.1 <= 0xFFFF_FFFF,
        ;
        let height: u64 = (width as u64) * (aspect_ratio.1 as u64) / (aspect_ratio.0 as u64);
        assert(height <= u32::MAX) by (nonlinear_arith)
            requires
                at_least_one(width as int) * at_least_one(height as int) <= u32::MAX,
                at_least_one(width as int) >= 1,
                at_least_one(height as int) >= height,
        ;
        Image::with_dimensions(width, height as u32, color)
    }

    /// An image of one colour. A width or height of zero is raised to one.
    /// The number of pixels must fit in 32 bits.
    pub fn with_dimensions(width: u32, height: u32, color: Color) -> (r: Image)
        requires
            (if width == 0 { 1 } else { width as int })
                * (if height == 0 { 1 } else { height as int }) <= u32::MAX,
        ensures
            r.wf(),
            r.cols() == if width == 0 {
                1
            } else {
                width as nat
            },
            r.rows() == if height == 0 {
                1
            } else {
                height as nat
            },
            forall|i: int| 0 <= i < r.pixels().len() ==> r.pixels()[i] == color,
    {
        let height: u32 = if height == 0 {
            1
        } else {
            height
        };
        let width: u32 = if width == 0 {
            1
        } else {
            width
        };
        let count: u32 = width * height;
        let mut data: Vec<Color> = Vec::new();
        let mut i: u32 = 0;
        while i < count
            invariant
                i <= count,
                data@.len() == i,
                forall|j: int| 0 <= j < i ==> data@[j] == color,
            decreases count - i,
        {
            data.push(color);
            i = i + 1;
        }
        Image { width, height, data }
    }

    /// The width in pixels.
    pub fn width(&self) -> (r: u32)
        ensures
            r == self.cols(),
    {
        self.width
    }

    /// The height in pixels.
    pub fn height(&self) -> (r: u32)
        ensures
            r == self.rows(),
    {
        self.height
    }

    /// The number of pixels.
    pub fn pixel_count(&self) -> (r: usize)
        ensures
            r == self.pixels().len(),
    {
        self.data.len()
    }

    /// Width and height.
    pub fn resolution(&self) -> (r: (u32, u32))
        ensures
            r.0 == self.cols(),
            r.1 == self.rows(),
    {
        (self.width, self.height)
    }

    /// The place of pixel (`x`, `y`) among the pixels.
    fn index(&self, x: u32, y: u32) -> (i: usize)
        requires
            self.wf(),
            x < self.cols(),
            y < self.rows(),
        ensures
            i == y * self.cols() + x,
            i < self.pixels().len(),
    {
        assert(y * self.width + x < self.width * self.height) by (nonlinear_arith)
            requires
                x < self.width,
                y < self.height,
        ;
        (y as usize) * (self.width as usize) + (x as usize)
    }

    /// Sets the pixel in column `x` of row `y`.
    pub fn set_pixel(&mut self, x: u32, y: u32, value: Color)
        requires
            old(self).wf(),
            x < old(self).cols(),
            y < old(self).rows(),
        ensures
            final(self).wf(),
            final(self).cols() == old(self).cols(),
            final(self).rows() == old(self).rows(),
            final(self).pixels() == old(self).pixels().update(y * old(self).cols() + x, value),
            final(self).pixel(x as int, y as int) == value,
            forall|px: int, py: int|
                0 <= px < old(self).cols() && 0 <= py < old(self).rows() && (px != x || py != y)
                    ==> #[trigger] final(self).pixel(px, py) == old(self).pixel(px, py),
    {
        let i: usize = self.index(x, y);
        self.data.set(i, value);
        proof {
            let cols = self.cols() as int;
            let rows = self.rows() as int;
            assert forall|px: int, py: int|
                0 <= px < cols && 0 <= py < rows && (px != x || py != y) implies #[trigger] self.pixel(
                px,
                py,
            ) == old(self).pixel(px, py) by {
                lemma_places_differ(cols, x as int, y as int, px, py);
                assert(0 <= py * cols + px < cols * rows) by (nonlinear_arith)
                    requires
                        0 <= px < cols,
                        0 <= py < rows,
                ;
            }
        }
    }

    /// The pixel in column `x` of row `y`.
    pub fn get_pixel(&self, x: u32, y: u32) -> (r: Color)
        requires
            self.wf(),
            x < self.cols(),
            y < self.rows(),
        ensures
            r == self.pixel(x as int, y as int),
    {
        let i: usize = self.index(x, y);
        self.data[i]
    }

    /// Averages images pixel by pixel. `mean` is given, for each place, the
    /// pixels that the images hold there, in the order of the images, and
    /// returns their average.
    ///
    /// Fails with `AveragingZeroImages` where there is no image, and with
    /// `DimensionsMismatch` where an image has another width or another
    /// height than the first. Else the result has the width and height of
    /// the images, and each of its pixels is what `mean` made of the pixels
    /// at that place.
    pub fn average<F: Fn(Vec<Color>) -> Color>(images: &Vec<Image>, mean: F) -> (r: Result<
        Image,
        ImageError,
    >)
        requires
            forall|i: int| 0 <= i < images@.len() ==> (#[trigger] images@[i]).wf(),
            forall|pixels: Vec<Color>|
                pixels@.len() == images@.len() > 0 ==> mean.requires((pixels,)),
        ensures
            images@.len() == 0 ==> r == Err::<Image, ImageError>(ImageError::AveragingZeroImages),
            images@.len() > 0 && !same_dimensions(images@) ==> r == Err::<Image, ImageError>(
                ImageError::DimensionsMismatch,
            ),
            images@.len() > 0 && same_dimensions(images@) ==> (r matches Ok(image) && {
                &&& image.wf()
                &&& image.cols() == images@[0].cols()
                &&& image.rows() == images@[0].rows()
                &&& forall|at: int|
                    0 <= at < image.pixels().len() ==> averaged(images@, mean, at, #[trigger] image.pixels()[at])
            }),
    {
        if images.len() == 0 {
            return Err(ImageError::AveragingZeroImages);
        }
        let first: &Image = &images[0];
        let pixel_count: usize = first.data.len();
        let mut i: usize = 0;
        while i < images.len()
            invariant
                i <= images@.len(),
                images@.len() > 0,
                *first == images@[0],
                forall|j: int|
                    0 <= j < i ==> (#[trigger] images@[j]).cols() == images@[0].cols()
                        && images@[j].rows() == images@[0].rows(),
            decreases images@.len() - i,
        {
            if images[i].width != first.width || images[i].height != first.height {
                assert(images@[i as int].cols() != images@[0].cols() || images@[i as int].rows()
                    != images@[0].rows());
                return Err(ImageError::DimensionsMismatch);
            }
            i = i + 1;
        }
        assert(same_dimensions(images@));
        assert(same_size(images@, pixel_count as nat)) by {
            assert forall|j: int| 0 <= j < images@.len() implies (#[trigger] images@[j]).pixels().len()
                == pixel_count by {
                assert(images@[j].wf() && images@[0].wf());
            }
        }
        let mut data: Vec<Color> = Vec::new();
        let mut at: usize = 0;
        while at < pixel_count
            invariant
                at <= pixel_count,
                data@.len() == at,
                images@.len() > 0,
                same_size(images@, pixel_count as nat),
                forall|pixels: Vec<Color>|
                    pixels@.len() == images@.len() > 0 ==> mean.requires((pixels,)),
                forall|p: int| 0 <= p < at ==> averaged(images@, mean, p, #[trigger] data@[p]),
            decreases pixel_count - at,
        {
            let mut pixels: Vec<Color> = Vec::new();
            let mut k: usize = 0;
            while k < images.len()
                invariant
                    k <= images@.len(),
                    at < pixel_count,
                    same_size(images@, pixel_count as nat),
                    pixels@.len() == k,
                    forall|j: int| 0 <= j < k ==> pixels@[j] == images@[j].pixels()[at as int],
                decreases images@.len() - k,
            {
                assert(images@[k as int].pixels().len() == pixel_count);
                pixels.push(images[k].data[at]);
                k = k + 1;
            }
            assert(pixels@ =~= column(images@, at as int));
            let pixel = mean(pixels);
            data.push(pixel);
            at = at + 1;
        }
        Ok(Image { width: first.width, height: first.height, data })
    }
}

/// Two pixels of an image of width `cols` stand at different places.
proof fn lemma_places_differ(cols: int, x: int, y: int, px: int, py: int)
    requires
        0 <= x < cols,
        0 <= px < cols,
        0 <= y,
        0 <= py,
        x != px || y != py,
    ensures
        y * cols + x != py * cols + px,
{
    if py < y {
        assert((py + 1) * cols <= y * cols) by (nonlinear_arith)
            requires
                py + 1 <= y,
                cols > 0,
        ;
        assert((py + 1) * cols == py * cols + cols) by (nonlinear_arith);
    } else if y < py {
        assert((y + 1) * cols <= py * cols) by (nonlinear_arith)
            requires
                y + 1 <= py,
                cols > 0,
        ;
        assert((y + 1) * cols == y * cols + cols) by (nonlinear_arith);
    }
}

/// Whether `pixel` is what `mean` made of the pixels of `images` at place
/// `at`.
pub open spec fn averaged<F: Fn(Vec<Color>) -> Color>(
    images: Seq<Image>,
    mean: F,
    at: int,
    pixel: Color,
) -> bool {
    exists|pixels: Vec<Color>| pixels@ == column(images, at) && mean.ensures((pixels,), pixel)
}

/// Whether all of `pixels` are the same, and there is at least one.
pub open spec fn uniform(pixels: Seq<Color>) -> bool {
    pixels.len() > 0 && forall|i: int| 0 <= i < pixels.len() ==> #[trigger] pixels[i] == pixels[0]
}

/// Averaging copies of an image gives the image back, pixel by pixel, with
/// every `mean` that makes of equal pixels that same pixel.
pub proof fn lemma_average_of_copies<F: Fn(Vec<Color>) -> Color>(
    images: Seq<Image>,
    mean: F,
    at: int,
    pixel: Color,
)
    requires
        images.len() > 0,
        averaged(images, mean, at, pixel),
        forall|i: int| 0 <= i < images.len() ==> (#[trigger] images[i]).pixels()[at]
            == images[0].pixels()[at],
        forall|pixels: Vec<Color>, out: Color|
            uniform(pixels@) && #[trigger] mean.ensures((pixels,), out) ==> out == pixels@[0],
    ensures
        pixel == images[0].pixels()[at],
{
    let pixels = choose|pixels: Vec<Color>|
        pixels@ == column(images, at) && mean.ensures((pixels,), pixel);
    assert(pixels@[0] == images[0].pixels()[at]);
    assert forall|i: int| 0 <= i < pixels@.len() implies #[trigger] pixels@[i] == pixels@[0] by {
        assert(images[i].pixels()[at] == images[0].pixels()[at]);
    }
    assert(uniform(pixels@));
}

} // verus!
