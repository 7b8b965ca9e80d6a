//! Colours and the two rasters the sampler works on: the decoded source image
//! and the RGB canvas that is filled from it.
//!
//! Both rasters are values of the `image` crate. Their pixels are modelled as
//! rows of colours; the functions trusted to agree with that crate are marked
//! as such in their documentation.

use crate::error::ConfigError;
use vstd::prelude::*;

verus! {

/// An RGB colour with eight bits per channel.
#[derive(Clone, Copy, Debug, PartialEq, Eq, Structural)]
pub struct Color {
    pub r: u8,
    pub g: u8,
    pub b: u8,
}

/// Every row of `rows` holds `width` pixels.
pub open spec fn rows_have_width(rows: Seq<Seq<Color>>, width: int) -> bool {
    forall|r: int| 0 <= r < rows.len() ==> (#[trigger] rows[r]).len() == width
}

/// The raster has no pixel: it has no row, or its rows are empty.
pub open spec fn is_empty_raster(rows: Seq<Seq<Color>>) -> bool {
    rows.len() == 0 || rows[0].len() == 0
}

/// A raster of `height` rows of `width` black pixels.
pub open spec fn blank_rows(width: int, height: int) -> Seq<Seq<Color>> {
    Seq::new(height as nat, |r: int| Seq::new(width as nat, |c: int| Color { r: 0, g: 0, b: 0 }))
}

/// A canvas of `width` by `height` RGB pixels fits in one buffer.
pub open spec fn canvas_fits(width: int, height: int) -> bool {
    3 * width * height <= isize::MAX as int
}

/// The pixel count of a raster with 32-bit sides fits in 64 bits.
pub proof fn lemma_area_is_bounded(width: u32, height: u32)
    ensures
        0 <= width * height <= 0xFFFF_FFFF * 0xFFFF_FFFF,
{
    assert(0 <= width * height <= 0xFFFF_FFFF * 0xFFFF_FFFF) by (nonlinear_arith)
        requires
            0 <= width <= 0xFFFF_FFFF,
            0 <= height <= 0xFFFF_FFFF,
    ;
}

/// Declares `image::DynamicImage`, a decoded image of any pixel format, as a
/// type whose inside is not looked at.
#[verifier::external_type_specification]
#[verifier::external_body]
pub struct ExDynamicImage(image::DynamicImage);

/// The pixels of a decoded image as 8-bit RGB, row by row from the top, each
/// row from the left.
pub uninterp spec fn source_rows(img: image::DynamicImage) -> Seq<Seq<Color>>;

/// Trusted: `image::GenericImageView::dimensions` on a `DynamicImage` returns
/// its width and height, which are the length of every row and the number of
/// rows.
#[verifier::external_body]
pub(crate) fn source_dimensions(img: &image::DynamicImage) -> (dims: (u32, u32))
    ensures
        dims.1 == source_rows(*img).len(),
        rows_have_width(source_rows(*img), dims.0 as int),
{
    image::GenericImageView::dimensions(img)
}

/// Trusted: the red, green and blue channels of what
/// `image::GenericImageView::get_pixel` returns for a `DynamicImage` are the
/// pixel in column `x` of row `y`. The call panics outside the image, which
/// the precondition excludes.
#[verifier::external_body]
pub(crate) fn source_pixel(img: &image::DynamicImage, x: u32, y: u32) -> (c: Color)
    requires
        y < source_rows(*img).len(),
        x < source_rows(*img)[y as int].len(),
    ensures
        c == source_rows(*img)[y as int][x as int],
{
    let p = image::GenericImageView::get_pixel(img, x, y);
    Color { r: p.0[0], g: p.0[1], b: p.0[2] }
}

/// An RGB canvas of fixed size, held as an `image::RgbImage`. Its inside is
/// not looked at: what it holds is known through `canvas_rows` alone.
#[verifier::external_body]
pub struct Canvas {
    inner: image::RgbImage,
}

/// The pixels of a canvas, row by row from the top, each row from the left.
pub uninterp spec fn canvas_rows(canvas: Canvas) -> Seq<Seq<Color>>;

impl View for Canvas {
    type V = Seq<Seq<Color>>;

    open spec fn view(&self) -> Seq<Seq<Color>> {
        canvas_rows(*self)
    }
}

/// Trusted: `image::ImageBuffer::new` makes a canvas of the given size whose
/// samples are all zero. The call panics when the sample count exceeds what a
/// vector can hold, which the precondition excludes.
#[verifier::external_body]
fn canvas_blank(width: u32, height: u32) -> (canvas: Canvas)
    requires
        canvas_fits(width as int, height as int),
    ensures
        canvas_rows(canvas) == blank_rows(width as int, height as int),
{
    Canvas { inner: image::RgbImage::new(width, height) }
}

/// Trusted: `image::ImageBuffer::dimensions` returns the canvas's width and
/// height, which are the length of every row and the number of rows.
#[verifier::external_body]
fn canvas_dimensions(canvas: &Canvas) -> (dims: (u32, u32))
    ensures
        dims.1 == canvas_rows(*canvas).len(),
        rows_have_width(canvas_rows(*canvas), dims.0 as int),
{
    canvas.inner.dimensions()
}

/// Trusted: `image::ImageBuffer::get_pixel` is the pixel in column `x` of row
/// `y`. The call panics outside the canvas, which the precondition excludes.
#[verifier::external_body]
fn canvas_get_pixel(canvas: &Canvas, x: u32, y: u32) -> (c: Color)
    requires
        y < canvas_rows(*canvas).len(),
        x < canvas_rows(*canvas)[y as int].len(),
    ensures
        c == canvas_rows(*canvas)[y as int][x as int],
{
    let p = canvas.inner.get_pixel(x, y);
    Color { r: p.0[0], g: p.0[1], b: p.0[2] }
}

/// Trusted: `image::ImageBuffer::put_pixel` replaces the pixel in column `x`
/// of row `y` and leaves every other pixel as it was. The call panics outside
/// the canvas, which the precondition excludes.
#[verifier::external_body]
pub(crate) fn canvas_put_pixel(canvas: &mut Canvas, x: u32, y: u32, c: Color)
    requires
        y < canvas_rows(*old(canvas)).len(),
        x < canvas_rows(*old(canvas))[y as int].len(),
    ensures
        canvas_rows(*final(canvas)) == canvas_rows(*old(canvas)).update(
            y as int,
            canvas_rows(*old(canvas))[y as int].update(x as int, c),
        ),
{
    canvas.inner.put_pixel(x, y, image::Rgb([c.r, c.g, c.b]));
}

impl Canvas {
    /// A black canvas of `width` by `height` pixels. A canvas without pixels
    /// is refused, and so is one too large for a buffer.
    pub fn new(width: u32, height: u32) -> (made: Result<Canvas, ConfigError>)
        ensures
            made is Ok <==> width >= 1 && height >= 1 && canvas_fits(width as int, height as int),
            made is Ok ==> made->Ok_0@ == blank_rows(width as int, height as int),
            made == Err::<Canvas, ConfigError>(ConfigError::EmptyCanvas) <==> width == 0 || height
                == 0,
            made == Err::<Canvas, ConfigError>(ConfigError::CanvasTooLarge) <==> width >= 1
                && height >= 1 && !canvas_fits(width as int, height as int),
    {
        if width == 0 || height == 0 {
            return Err(ConfigError::EmptyCanvas);
        }
        proof {
            lemma_area_is_bounded(width, height);
        }
        let pixels: u64 = (width as u64) * (height as u64);
        let samples: u128 = 3 * (pixels as u128);
        assert(samples == 3 * width * height) by (nonlinear_arith)
            requires
                samples == 3 * (width * height),
        ;
        if samples > isize::MAX as u128 {
            return Err(ConfigError::CanvasTooLarge);
        }
        Ok(canvas_blank(width, height))
    }

    /// The canvas's width and height: the length of its rows and their number.
    pub fn dimensions(&self) -> (dims: (u32, u32))
        ensures
            dims.1 == self@.len(),
            rows_have_width(self@, dims.0 as int),
    {
        canvas_dimensions(self)
    }

    /// The pixel in column `x` of row `y`, or `None` outside the canvas.
    pub fn pixel(&self, x: u32, y: u32) -> (found: Option<Color>)
        ensures
            found == (if y < self@.len() && x < self@[y as int].len() {
                Some(self@[y as int][x as int])
            } else {
                None
            }),
    {
        let (width, height) = canvas_dimensions(self);
        if x < width && y < height {
            Some(canvas_get_pixel(self, x, y))
        } else {
            None
        }
    }
}

} // verus!
