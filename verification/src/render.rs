//! Filling a canvas from a field of source positions.
//!
//! The field holds one position per canvas pixel, row by row. Each canvas
//! pixel is the source sampled at its own position and depends on nothing
//! else, so the pixels can be computed in any order.

use crate::error::ConfigError;
use crate::raster::{
    canvas_fits, canvas_put_pixel, is_empty_raster, lemma_area_is_bounded, rows_have_width,
    source_dimensions, source_rows, Canvas, Color,
};
use crate::sampling::{lemma_sample_of_uniform_image, sample, sample_source, SourcePoint};
use vstd::prelude::*;

verus! {

/// The colour that belongs in column `c` of row `r` of a canvas `width` pixels
/// wide: the source sampled at that pixel's position in the field.
pub open spec fn rendered_pixel(
    source: Seq<Seq<Color>>,
    field: Seq<SourcePoint>,
    width: int,
    c: int,
    r: int,
) -> Color {
    sample(source, field[r * width + c].x as int, field[r * width + c].y as int)
}

/// The canvas of `width` by `height` pixels rendered from `source` through
/// `field`.
pub open spec fn rendered_rows(
    source: Seq<Seq<Color>>,
    field: Seq<SourcePoint>,
    width: int,
    height: int,
) -> Seq<Seq<Color>> {
    Seq::new(
        height as nat,
        |r: int| Seq::new(width as nat, |c: int| rendered_pixel(source, field, width, c, r)),
    )
}

/// `canvas` has the given size and each of its pixels holds the colour that
/// belongs there, however the pixels came to be written.
pub open spec fn is_rendering(
    canvas: Seq<Seq<Color>>,
    source: Seq<Seq<Color>>,
    field: Seq<SourcePoint>,
    width: int,
    height: int,
) -> bool {
    &&& canvas.len() == height
    &&& rows_have_width(canvas, width)
    &&& forall|r: int, c: int|
        0 <= r < height && 0 <= c < width ==> (#[trigger] canvas[r][c]) == rendered_pixel(
            source,
            field,
            width,
            c,
            r,
        )
}

/// The error, if any, for an image and a canvas of the given sizes: an empty
/// image is reported before an empty canvas.
pub open spec fn sizes_refusal(image_size: (u32, u32), canvas_size: (u32, u32)) -> Option<
    ConfigError,
> {
    if image_size.0 == 0 || image_size.1 == 0 {
        Some(ConfigError::EmptySource)
    } else if canvas_size.0 == 0 || canvas_size.1 == 0 {
        Some(ConfigError::EmptyCanvas)
    } else {
        None
    }
}

/// The error, if any, that keeps `field` from being rendered onto `canvas`.
pub open spec fn fill_refusal(
    source: Seq<Seq<Color>>,
    canvas: Seq<Seq<Color>>,
    points: int,
) -> Option<ConfigError> {
    if is_empty_raster(source) {
        Some(ConfigError::EmptySource)
    } else if is_empty_raster(canvas) {
        Some(ConfigError::EmptyCanvas)
    } else if points != canvas[0].len() * canvas.len() {
        Some(ConfigError::FieldMismatch)
    } else {
        None
    }
}

/// The error, if any, that keeps a new canvas of `width` by `height` pixels
/// from being rendered.
pub open spec fn render_refusal(
    source: Seq<Seq<Color>>,
    points: int,
    width: int,
    height: int,
) -> Option<ConfigError> {
    if is_empty_raster(source) {
        Some(ConfigError::EmptySource)
    } else if width == 0 || height == 0 {
        Some(ConfigError::EmptyCanvas)
    } else if !canvas_fits(width, height) {
        Some(ConfigError::CanvasTooLarge)
    } else if points != width * height {
        Some(ConfigError::FieldMismatch)
    } else {
        None
    }
}

/// Checks that the image and the canvas both have pixels, each size given as
/// width and height.
pub fn validate_sizes(
    image_size: (u32, u32),
    canvas_size: (u32, u32),
) -> (checked: Result<(), ConfigError>)
    ensures
        checked == (match sizes_refusal(image_size, canvas_size) {
            Some(e) => Err::<(), ConfigError>(e),
            None => Ok::<(), ConfigError>(()),
        }),
{
    if image_size.0 == 0 || image_size.1 == 0 {
        Err(ConfigError::EmptySource)
    } else if canvas_size.0 == 0 || canvas_size.1 == 0 {
        Err(ConfigError::EmptyCanvas)
    } else {
        Ok(())
    }
}

/// Fills every pixel of `out` with the image sampled at that pixel's position
/// in `field`, which holds one position per canvas pixel, row by row. Where
/// the image or the canvas is empty, or the field has another length, nothing
/// is written.
pub fn stereographic_projection(
    img: &image::DynamicImage,
    out: &mut Canvas,
    field: &Vec<SourcePoint>,
) -> (done: Result<(), ConfigError>)
    ensures
        done == (match fill_refusal(source_rows(*img), old(out)@, field@.len() as int) {
            Some(e) => Err::<(), ConfigError>(e),
            None => Ok::<(), ConfigError>(()),
        }),
        done is Ok ==> final(out)@ == rendered_rows(
            source_rows(*img),
            field@,
            old(out)@[0].len() as int,
            old(out)@.len() as int,
        ),
        done is Err ==> final(out)@ == old(out)@,
{
    let (image_width, image_height) = source_dimensions(img);
    let (width, height) = out.dimensions();
    match validate_sizes((image_width, image_height), (width, height)) {
        Err(e) => {
            return Err(e);
        },
        Ok(()) => {},
    }
    proof {
        lemma_area_is_bounded(width, height);
    }
    let pixels: u64 = (width as u64) * (height as u64);
    if field.len() as u64 != pixels {
        return Err(ConfigError::FieldMismatch);
    }
    let ghost source = source_rows(*img);
    let mut index: usize = 0;
    let mut y: u32 = 0;
    while y < height
        invariant
            y <= height,
            index == y * width,
            width >= 1,
            image_width >= 1,
            image_height >= 1,
            field@.len() == width * height,
            source == source_rows(*img),
            source.len() == image_height,
            rows_have_width(source, image_width as int),
            out@.len() == height,
            rows_have_width(out@, width as int),
            forall|r: int, c: int|
                0 <= r < y && 0 <= c < width ==> (#[trigger] out@[r][c]) == rendered_pixel(
                    source,
                    field@,
                    width as int,
                    c,
                    r,
                ),
        decreases height - y,
    {
        let mut x: u32 = 0;
        while x < width
            invariant
                y < height,
                x <= width,
                index == y * width + x,
                image_width >= 1,
                image_height >= 1,
                field@.len() == width * height,
                source == source_rows(*img),
                source.len() == image_height,
                rows_have_width(source, image_width as int),
                out@.len() == height,
                rows_have_width(out@, width as int),
                forall|r: int, c: int|
                    0 <= r < y && 0 <= c < width ==> (#[trigger] out@[r][c]) == rendered_pixel(
                        source,
                        field@,
                        width as int,
                        c,
                        r,
                    ),
                forall|c: int|
                    0 <= c < x ==> (#[trigger] out@[y as int][c]) == rendered_pixel(
                        source,
                        field@,
                        width as int,
                        c,
                        y as int,
                    ),
            decreases width - x,
        {
            assert(y * width + x < width * height) by (nonlinear_arith)
                requires
                    0 <= y < height,
                    0 <= x < width,
            ;
            assert(index < field.len());
            let point = field[index];
            let color = sample_source(img, image_width, image_height, point.x, point.y);
            canvas_put_pixel(out, x, y, color);
            x += 1;
            index += 1;
        }
        assert(y * width + width == (y + 1) * width) by (nonlinear_arith);
        y += 1;
    }
    proof {
        let wanted = rendered_rows(source, field@, width as int, height as int);
        assert forall|r: int| 0 <= r < height implies out@[r] =~= wanted[r] by {
            assert forall|c: int| 0 <= c < width implies out@[r][c] == wanted[r][c] by {}
        }
        assert(out@ =~= wanted);
    }
    Ok(())
}

/// Renders a new canvas of `width` by `height` pixels: each pixel is the image
/// sampled at that pixel's position in `field`.
pub fn render(
    img: &image::DynamicImage,
    field: &Vec<SourcePoint>,
    width: u32,
    height: u32,
) -> (rendered: Result<Canvas, ConfigError>)
    ensures
        match render_refusal(
            source_rows(*img),
            field@.len() as int,
            width as int,
            height as int,
        ) {
            Some(e) => rendered == Err::<Canvas, ConfigError>(e),
            None => rendered is Ok && rendered->Ok_0@ == rendered_rows(
                source_rows(*img),
                field@,
                width as int,
                height as int,
            ),
        },
{
    match validate_sizes(source_dimensions(img), (width, height)) {
        Err(e) => {
            return Err(e);
        },
        Ok(()) => {},
    }
    let mut canvas = match Canvas::new(width, height) {
        Err(e) => {
            return Err(e);
        },
        Ok(canvas) => canvas,
    };
    match stereographic_projection(img, &mut canvas, field) {
        Err(e) => Err(e),
        Ok(()) => Ok(canvas),
    }
}

/// The canvas that `rendered_rows` describes is a rendering.
pub proof fn lemma_rendered_rows_is_rendering(
    source: Seq<Seq<Color>>,
    field: Seq<SourcePoint>,
    width: int,
    height: int,
)
    requires
        0 <= width,
        0 <= height,
    ensures
        is_rendering(rendered_rows(source, field, width, height), source, field, width, height),
{
}

/// Rendering is deterministic: two canvases that each hold, pixel by pixel,
/// the colour that belongs there are equal, in whatever order either was
/// filled, and both are the canvas that `rendered_rows` describes.
pub proof fn lemma_rendering_is_unique(
    first: Seq<Seq<Color>>,
    second: Seq<Seq<Color>>,
    source: Seq<Seq<Color>>,
    field: Seq<SourcePoint>,
    width: int,
    height: int,
)
    requires
        is_rendering(first, source, field, width, height),
        is_rendering(second, source, field, width, height),
    ensures
        first == second,
        first == rendered_rows(source, field, width, height),
{
    let wanted = rendered_rows(source, field, width, height);
    assert forall|r: int| 0 <= r < height implies first[r] =~= wanted[r] && second[r]
        =~= wanted[r] by {
        assert forall|c: int| 0 <= c < width implies first[r][c] == wanted[r][c] && second[r][c]
            == wanted[r][c] by {}
    }
    assert(first =~= wanted);
    assert(second =~= wanted);
}

/// A source of a single colour renders to that colour at every canvas pixel,
/// whatever positions the field holds.
pub proof fn lemma_uniform_source_renders_uniform(
    source: Seq<Seq<Color>>,
    color: Color,
    field: Seq<SourcePoint>,
    width: int,
    height: int,
    r: int,
    c: int,
)
    requires
        !is_empty_raster(source),
        rows_have_width(source, source[0].len() as int),
        forall|i: int, j: int|
            0 <= i < source.len() && 0 <= j < source[0].len() ==> (#[trigger] source[i][j])
                == color,
        0 <= r < height,
        0 <= c < width,
    ensures
        rendered_rows(source, field, width, height)[r][c] == color,
{
    let point = field[r * width + c];
    lemma_sample_of_uniform_image(source, color, point.x as int, point.y as int);
}

} // verus!
