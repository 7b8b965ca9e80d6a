//! Bilinear sampling of a raster at fixed-point positions.
//!
//! A position counts in units of `1 / SUBPIXELS` of a pixel, so the weights of
//! the four neighbouring pixels are integers and every blend is exact.

use crate::raster::{
    is_empty_raster, rows_have_width, source_dimensions, source_pixel, source_rows, Color,
};
use vstd::prelude::*;

verus! {

/// Fixed-point units per pixel.
pub const SUBPIXELS: i64 = 65536;

/// A position in the source image, in units of `1 / SUBPIXELS` of a pixel.
/// `x` grows to the right and `y` downwards; pixel `(i, j)` lies at
/// `(i * SUBPIXELS, j * SUBPIXELS)`.
#[derive(Clone, Copy, Debug, PartialEq, Eq, Structural)]
pub struct SourcePoint {
    pub x: i64,
    pub y: i64,
}

/// The coordinate `c` with negative values taken as zero.
pub open spec fn held_at_zero(c: int) -> int {
    if c < 0 {
        0
    } else {
        c
    }
}

/// The coordinate `c` held within an axis of `n` pixels: between zero and the
/// position of the last pixel.
pub open spec fn held_within(c: int, n: int) -> int {
    if c < 0 {
        0
    } else if c > (n - 1) * SUBPIXELS {
        (n - 1) * SUBPIXELS
    } else {
        c
    }
}

/// Index of the nearer neighbour along an axis of `n` pixels: the whole part of
/// the coordinate, with negative coordinates taken as zero, held at `n - 1`.
pub open spec fn near_index(c: int, n: int) -> int {
    let whole = held_at_zero(c) / (SUBPIXELS as int);
    if whole < n - 1 {
        whole
    } else {
        n - 1
    }
}

/// Index of the farther neighbour: one past the nearer one, held at `n - 1`.
pub open spec fn far_index(c: int, n: int) -> int {
    if near_index(c, n) + 1 < n - 1 {
        near_index(c, n) + 1
    } else {
        n - 1
    }
}

/// `v` held within the range of a colour channel.
pub open spec fn saturate(v: int) -> int {
    if v <= 0 {
        0
    } else if v >= 255 {
        255
    } else {
        v
    }
}

/// The weighted average `(q1 * w1 + q2 * w2) / (w1 + w2)` of two channel
/// values, rounded down and held within the channel range. Where the weights
/// cancel, the first value is returned.
pub open spec fn blend(q1: int, w1: int, q2: int, w2: int) -> int {
    let total = w1 + w2;
    let sum = q1 * w1 + q2 * w2;
    if total == 0 {
        q1
    } else if total > 0 {
        saturate(sum / total)
    } else {
        saturate((-sum) / (-total))
    }
}

/// The channel-wise blend of two colours.
pub open spec fn mix(q1: Color, w1: int, q2: Color, w2: int) -> Color {
    Color {
        r: blend(q1.r as int, w1, q2.r as int, w2) as u8,
        g: blend(q1.g as int, w1, q2.g as int, w2) as u8,
        b: blend(q1.b as int, w1, q2.b as int, w2) as u8,
    }
}

/// The colour of a non-empty raster at the position `(x, y)`: the four
/// neighbouring pixels blended first along each row, then between the rows,
/// with weights equal to the distance to the opposite neighbour. A negative
/// coordinate counts as zero, and past the last pixel of an axis both
/// neighbours are that pixel, so a position outside the raster has the colour
/// of the nearest position inside.
pub open spec fn sample(rows: Seq<Seq<Color>>, x: int, y: int) -> Color {
    let one = SUBPIXELS as int;
    let x1 = near_index(x, rows[0].len() as int);
    let x2 = far_index(x, rows[0].len() as int);
    let y1 = near_index(y, rows.len() as int);
    let y2 = far_index(y, rows.len() as int);
    let left = x2 * one - held_at_zero(x);
    let right = held_at_zero(x) - x1 * one;
    let upper = mix(rows[y1][x1], left, rows[y1][x2], right);
    let lower = mix(rows[y2][x1], left, rows[y2][x2], right);
    mix(upper, y2 * one - held_at_zero(y), lower, held_at_zero(y) - y1 * one)
}

/// `v` lies between `a` and `b`, in either order.
pub open spec fn between(v: int, a: int, b: int) -> bool {
    (a <= v <= b) || (b <= v <= a)
}

/// Each channel of `q` lies between the same channel of `a` and of `b`.
pub open spec fn color_between(q: Color, a: Color, b: Color) -> bool {
    &&& between(q.r as int, a.r as int, b.r as int)
    &&& between(q.g as int, a.g as int, b.g as int)
    &&& between(q.b as int, a.b as int, b.b as int)
}

/// `v` is at least the least and at most the greatest of the four values.
pub open spec fn within_four(v: int, a: int, b: int, c: int, d: int) -> bool {
    &&& (a <= v || b <= v || c <= v || d <= v)
    &&& (v <= a || v <= b || v <= c || v <= d)
}

/// Each channel of `q` lies between the least and the greatest of the same
/// channel of the four colours.
pub open spec fn color_within_four(q: Color, a: Color, b: Color, c: Color, d: Color) -> bool {
    &&& within_four(q.r as int, a.r as int, b.r as int, c.r as int, d.r as int)
    &&& within_four(q.g as int, a.g as int, b.g as int, c.g as int, d.g as int)
    &&& within_four(q.b as int, a.b as int, b.b as int, c.b as int, d.b as int)
}

/// The largest weight, in absolute value, that the blend is computed for.
spec fn weight_limit() -> int {
    0x1_0000_0000_0000_0000
}

fn blend_channel(q1: u8, w1: i128, q2: u8, w2: i128) -> (v: u8)
    requires
        -weight_limit() <= w1 <= weight_limit(),
        -weight_limit() <= w2 <= weight_limit(),
    ensures
        v == blend(q1 as int, w1 as int, q2 as int, w2 as int),
{
    let total: i128 = w1 + w2;
    if total == 0 {
        return q1;
    }
    assert(-255 * weight_limit() <= q1 * w1 <= 255 * weight_limit()) by (nonlinear_arith)
        requires
            0 <= q1 <= 255,
            -weight_limit() <= w1 <= weight_limit(),
    ;
    assert(-255 * weight_limit() <= q2 * w2 <= 255 * weight_limit()) by (nonlinear_arith)
        requires
            0 <= q2 <= 255,
            -weight_limit() <= w2 <= weight_limit(),
    ;
    let sum: i128 = (q1 as i128) * w1 + (q2 as i128) * w2;
    let num: i128 = if total > 0 {
        sum
    } else {
        -sum
    };
    let den: i128 = if total > 0 {
        total
    } else {
        -total
    };
    if num <= 0 {
        assert(num / den <= 0) by (nonlinear_arith)
            requires
                num <= 0,
                den > 0,
        ;
        return 0;
    }
    let quotient: u128 = (num as u128) / (den as u128);
    assert(quotient == num / den);
    assert(num / den >= 0) by (nonlinear_arith)
        requires
            num > 0,
            den > 0,
    ;
    if quotient >= 255 {
        255
    } else {
        quotient as u8
    }
}

fn mix_colors(q1: Color, w1: i128, q2: Color, w2: i128) -> (q: Color)
    requires
        -weight_limit() <= w1 <= weight_limit(),
        -weight_limit() <= w2 <= weight_limit(),
    ensures
        q == mix(q1, w1 as int, q2, w2 as int),
{
    Color {
        r: blend_channel(q1.r, w1, q2.r, w2),
        g: blend_channel(q1.g, w1, q2.g, w2),
        b: blend_channel(q1.b, w1, q2.b, w2),
    }
}

/// Blends two colours channel by channel with the weights `w1` and `w2`: the
/// weighted average, rounded down and held within the channel range, or `q1`
/// where the weights cancel.
pub fn interpolation(q1: Color, w1: i64, q2: Color, w2: i64) -> (q: Color)
    ensures
        q == mix(q1, w1 as int, q2, w2 as int),
{
    mix_colors(q1, w1 as i128, q2, w2 as i128)
}

fn hold_at_zero(c: i64) -> (held: i64)
    ensures
        held == held_at_zero(c as int),
{
    if c < 0 {
        0
    } else {
        c
    }
}

fn nearer_neighbour(c: i64, n: u32) -> (i: u32)
    requires
        n >= 1,
    ensures
        i == near_index(c as int, n as int),
        i < n,
{
    let whole: u64 = (hold_at_zero(c) as u64) / (SUBPIXELS as u64);
    if whole < (n - 1) as u64 {
        whole as u32
    } else {
        n - 1
    }
}

fn farther_neighbour(near: u32, n: u32) -> (i: u32)
    requires
        near < n,
    ensures
        i == (if near + 1 < n - 1 {
            near + 1
        } else {
            n - 1
        }),
        i < n,
{
    if near + 1 < n - 1 {
        near + 1
    } else {
        n - 1
    }
}

/// Samples an image whose size is known to be `width` by `height`.
pub(crate) fn sample_source(
    img: &image::DynamicImage,
    width: u32,
    height: u32,
    x: i64,
    y: i64,
) -> (c: Color)
    requires
        width >= 1,
        height >= 1,
        source_rows(*img).len() == height,
        rows_have_width(source_rows(*img), width as int),
    ensures
        c == sample(source_rows(*img), x as int, y as int),
{
    let x1 = nearer_neighbour(x, width);
    let y1 = nearer_neighbour(y, height);
    let x2 = farther_neighbour(x1, width);
    let y2 = farther_neighbour(y1, height);

    let q11 = source_pixel(img, x1, y1);
    let q21 = source_pixel(img, x2, y1);
    let q12 = source_pixel(img, x1, y2);
    let q22 = source_pixel(img, x2, y2);

    let one: i128 = SUBPIXELS as i128;
    let held_x: i128 = hold_at_zero(x) as i128;
    let held_y: i128 = hold_at_zero(y) as i128;
    let left: i128 = (x2 as i128) * one - held_x;
    let right: i128 = held_x - (x1 as i128) * one;
    let above: i128 = (y2 as i128) * one - held_y;
    let below: i128 = held_y - (y1 as i128) * one;

    let upper = mix_colors(q11, left, q21, right);
    let lower = mix_colors(q12, left, q22, right);
    mix_colors(upper, above, lower, below)
}

/// Samples the image at the fixed-point position `(x, y)` by bilinear
/// interpolation. A position outside the image has the colour of the nearest
/// position inside it. An image without pixels has no colour to give.
pub fn bilinear_interpolation(img: &image::DynamicImage, x: i64, y: i64) -> (c: Option<Color>)
    ensures
        c == (if is_empty_raster(source_rows(*img)) {
            None
        } else {
            Some(sample(source_rows(*img), x as int, y as int))
        }),
{
    let (width, height) = source_dimensions(img);
    if width == 0 || height == 0 {
        None
    } else {
        Some(sample_source(img, width, height, x, y))
    }
}

/// Both neighbours along an axis of `n` pixels are indices of that axis, and
/// the farther one is the nearer one or the next.
pub proof fn lemma_neighbours_in_range(c: int, n: int)
    requires
        n >= 1,
    ensures
        0 <= near_index(c, n) <= far_index(c, n) < n,
        far_index(c, n) <= near_index(c, n) + 1,
{
}

/// Where the weights cancel, the blend of two colours is the first colour.
pub proof fn lemma_mix_with_cancelling_weights(q1: Color, w1: int, q2: Color, w2: int)
    requires
        w1 + w2 == 0,
    ensures
        mix(q1, w1, q2, w2) == q1,
{
}

/// A colour that carries all the weight is returned unchanged.
pub proof fn lemma_mix_with_all_weight_on_first(q1: Color, w1: int, q2: Color)
    requires
        w1 > 0,
    ensures
        mix(q1, w1, q2, 0) == q1,
{
    assert forall|a: int, b: int| 0 <= a <= 255 implies #[trigger] blend(a, w1, b, 0) == a by {
        assert((a * w1 + b * 0) / w1 == a) by (nonlinear_arith)
            requires
                w1 > 0,
        ;
    }
}

/// Blending a colour with itself returns it, whatever the weights.
pub proof fn lemma_mix_of_equal_colors(q: Color, w1: int, w2: int)
    ensures
        mix(q, w1, q, w2) == q,
{
    assert forall|a: int| 0 <= a <= 255 implies #[trigger] blend(a, w1, a, w2) == a by {
        let total = w1 + w2;
        if total > 0 {
            assert((a * w1 + a * w2) / total == a) by (nonlinear_arith)
                requires
                    total == w1 + w2,
                    total > 0,
            ;
        } else if total < 0 {
            assert((-(a * w1 + a * w2)) / (-total) == a) by (nonlinear_arith)
                requires
                    total == w1 + w2,
                    total < 0,
            ;
        }
    }
}

/// With weights that are not negative and do not cancel, the blend lies
/// between the two values.
pub proof fn lemma_blend_between_values(q1: int, w1: int, q2: int, w2: int)
    requires
        0 <= q1 <= 255,
        0 <= q2 <= 255,
        w1 >= 0,
        w2 >= 0,
        w1 + w2 > 0,
    ensures
        q1 <= q2 ==> q1 <= blend(q1, w1, q2, w2) <= q2,
        q2 <= q1 ==> q2 <= blend(q1, w1, q2, w2) <= q1,
{
    let total = w1 + w2;
    let sum = q1 * w1 + q2 * w2;
    if q1 <= q2 {
        assert(q1 * total <= sum <= q2 * total) by (nonlinear_arith)
            requires
                q1 <= q2,
                w1 >= 0,
                w2 >= 0,
                total == w1 + w2,
                sum == q1 * w1 + q2 * w2,
        ;
        assert(q1 <= sum / total <= q2) by (nonlinear_arith)
            requires
                q1 * total <= sum <= q2 * total,
                total > 0,
        ;
    } else {
        assert(q2 * total <= sum <= q1 * total) by (nonlinear_arith)
            requires
                q2 <= q1,
                w1 >= 0,
                w2 >= 0,
                total == w1 + w2,
                sum == q1 * w1 + q2 * w2,
        ;
        assert(q2 <= sum / total <= q1) by (nonlinear_arith)
            requires
                q2 * total <= sum <= q1 * total,
                total > 0,
        ;
    }
}

/// Where the weights cancel, or neither is negative, each channel of the blend
/// lies between the two colours.
pub proof fn lemma_mix_between_colors(q1: Color, w1: int, q2: Color, w2: int)
    requires
        w1 + w2 == 0 || (w1 >= 0 && w2 >= 0),
    ensures
        color_between(mix(q1, w1, q2, w2), q1, q2),
{
    if w1 + w2 != 0 {
        lemma_blend_between_values(q1.r as int, w1, q2.r as int, w2);
        lemma_blend_between_values(q1.g as int, w1, q2.g as int, w2);
        lemma_blend_between_values(q1.b as int, w1, q2.b as int, w2);
    }
}

/// Along an axis of `n` pixels the two neighbours are the same pixel and the
/// weights cancel, or the neighbours are next to each other and neither weight
/// is negative.
pub proof fn lemma_weights_of_axis(c: int, n: int)
    requires
        n >= 1,
    ensures
        (far_index(c, n) * SUBPIXELS - held_at_zero(c)) + (held_at_zero(c) - near_index(c, n)
            * SUBPIXELS) == 0 || {
            &&& far_index(c, n) * SUBPIXELS - held_at_zero(c) >= 0
            &&& held_at_zero(c) - near_index(c, n) * SUBPIXELS >= 0
        },
{
}

/// Sampling exactly at a pixel returns that pixel.
pub proof fn lemma_sample_at_pixel(rows: Seq<Seq<Color>>, i: int, j: int)
    requires
        0 <= j < rows.len(),
        0 <= i < rows[0].len(),
    ensures
        sample(rows, i * SUBPIXELS, j * SUBPIXELS) == rows[j][i],
{
    let one = SUBPIXELS as int;
    let x = i * one;
    let y = j * one;
    let x2 = far_index(x, rows[0].len() as int);
    let y2 = far_index(y, rows.len() as int);
    assert(near_index(x, rows[0].len() as int) == i);
    assert(near_index(y, rows.len() as int) == j);
    let upper = mix(rows[j][i], x2 * one - x, rows[j][x2], x - i * one);
    let lower = mix(rows[y2][i], x2 * one - x, rows[y2][x2], x - i * one);
    if x2 == i {
        lemma_mix_with_cancelling_weights(rows[j][i], 0, rows[j][x2], 0);
        lemma_mix_with_cancelling_weights(rows[y2][i], 0, rows[y2][x2], 0);
    } else {
        lemma_mix_with_all_weight_on_first(rows[j][i], one, rows[j][x2]);
        lemma_mix_with_all_weight_on_first(rows[y2][i], one, rows[y2][x2]);
    }
    assert(upper == rows[j][i]);
    if y2 == j {
        lemma_mix_with_cancelling_weights(upper, 0, lower, 0);
    } else {
        lemma_mix_with_all_weight_on_first(upper, one, lower);
    }
}

/// A position at or past the last column samples as the last column does.
pub proof fn lemma_sample_past_last_column(rows: Seq<Seq<Color>>, x: int, y: int)
    requires
        !is_empty_raster(rows),
        x >= (rows[0].len() - 1) * SUBPIXELS,
    ensures
        sample(rows, x, y) == sample(rows, (rows[0].len() - 1) * SUBPIXELS, y),
{
    let one = SUBPIXELS as int;
    let last = rows[0].len() - 1;
    let y1 = near_index(y, rows.len() as int);
    let y2 = far_index(y, rows.len() as int);
    assert(near_index(x, rows[0].len() as int) == last);
    assert(near_index(last * one, rows[0].len() as int) == last);
    lemma_mix_with_cancelling_weights(rows[y1][last], last * one - x, rows[y1][last], x - last * one);
    lemma_mix_with_cancelling_weights(rows[y2][last], last * one - x, rows[y2][last], x - last * one);
    lemma_mix_with_cancelling_weights(rows[y1][last], 0, rows[y1][last], 0);
    lemma_mix_with_cancelling_weights(rows[y2][last], 0, rows[y2][last], 0);
}

/// A position at or past the last row samples as the last row does.
pub proof fn lemma_sample_past_last_row(rows: Seq<Seq<Color>>, x: int, y: int)
    requires
        !is_empty_raster(rows),
        y >= (rows.len() - 1) * SUBPIXELS,
    ensures
        sample(rows, x, y) == sample(rows, x, (rows.len() - 1) * SUBPIXELS),
{
    let one = SUBPIXELS as int;
    let last = rows.len() - 1;
    let x1 = near_index(x, rows[0].len() as int);
    let x2 = far_index(x, rows[0].len() as int);
    assert(near_index(y, rows.len() as int) == last);
    assert(near_index(last * one, rows.len() as int) == last);
    let blended = mix(
        rows[last][x1],
        x2 * one - held_at_zero(x),
        rows[last][x2],
        held_at_zero(x) - x1 * one,
    );
    lemma_mix_with_cancelling_weights(blended, last * one - y, blended, y - last * one);
    lemma_mix_with_cancelling_weights(blended, 0, blended, 0);
}

/// A position before the first column samples as the first column does.
pub proof fn lemma_sample_before_first_column(rows: Seq<Seq<Color>>, x: int, y: int)
    requires
        x <= 0,
    ensures
        sample(rows, x, y) == sample(rows, 0, y),
{
}

/// A position above the first row samples as the first row does.
pub proof fn lemma_sample_before_first_row(rows: Seq<Seq<Color>>, x: int, y: int)
    requires
        y <= 0,
    ensures
        sample(rows, x, y) == sample(rows, x, 0),
{
}

/// A position outside the image samples as the nearest position inside it:
/// each coordinate may be held between zero and the last pixel of its axis.
pub proof fn lemma_sample_holds_position(rows: Seq<Seq<Color>>, x: int, y: int)
    requires
        !is_empty_raster(rows),
    ensures
        sample(rows, x, y) == sample(
            rows,
            held_within(x, rows[0].len() as int),
            held_within(y, rows.len() as int),
        ),
{
    let inside_x = held_within(x, rows[0].len() as int);
    let inside_y = held_within(y, rows.len() as int);
    if x < 0 {
        lemma_sample_before_first_column(rows, x, y);
    } else if x > (rows[0].len() - 1) * SUBPIXELS {
        lemma_sample_past_last_column(rows, x, y);
    }
    assert(sample(rows, x, y) == sample(rows, inside_x, y));
    if y < 0 {
        lemma_sample_before_first_row(rows, inside_x, y);
    } else if y > (rows.len() - 1) * SUBPIXELS {
        lemma_sample_past_last_row(rows, inside_x, y);
    }
}

/// At every position, each channel of the sample lies between the least and
/// the greatest of that channel among the four neighbouring pixels.
pub proof fn lemma_sample_within_neighbours(rows: Seq<Seq<Color>>, x: int, y: int)
    requires
        !is_empty_raster(rows),
    ensures
        color_within_four(
            sample(rows, x, y),
            rows[near_index(y, rows.len() as int)][near_index(x, rows[0].len() as int)],
            rows[near_index(y, rows.len() as int)][far_index(x, rows[0].len() as int)],
            rows[far_index(y, rows.len() as int)][near_index(x, rows[0].len() as int)],
            rows[far_index(y, rows.len() as int)][far_index(x, rows[0].len() as int)],
        ),
{
    let one = SUBPIXELS as int;
    let x1 = near_index(x, rows[0].len() as int);
    let x2 = far_index(x, rows[0].len() as int);
    let y1 = near_index(y, rows.len() as int);
    let y2 = far_index(y, rows.len() as int);
    let left = x2 * one - held_at_zero(x);
    let right = held_at_zero(x) - x1 * one;
    let upper = mix(rows[y1][x1], left, rows[y1][x2], right);
    let lower = mix(rows[y2][x1], left, rows[y2][x2], right);
    lemma_weights_of_axis(x, rows[0].len() as int);
    lemma_weights_of_axis(y, rows.len() as int);
    lemma_mix_between_colors(rows[y1][x1], left, rows[y1][x2], right);
    lemma_mix_between_colors(rows[y2][x1], left, rows[y2][x2], right);
    lemma_mix_between_colors(upper, y2 * one - held_at_zero(y), lower, held_at_zero(y) - y1 * one);
}

/// An image of a single colour has that colour at every position.
pub proof fn lemma_sample_of_uniform_image(rows: Seq<Seq<Color>>, color: Color, x: int, y: int)
    requires
        !is_empty_raster(rows),
        rows_have_width(rows, rows[0].len() as int),
        forall|r: int, c: int|
            0 <= r < rows.len() && 0 <= c < rows[0].len() ==> (#[trigger] rows[r][c]) == color,
    ensures
        sample(rows, x, y) == color,
{
    let one = SUBPIXELS as int;
    let x1 = near_index(x, rows[0].len() as int);
    let x2 = far_index(x, rows[0].len() as int);
    let y1 = near_index(y, rows.len() as int);
    let y2 = far_index(y, rows.len() as int);
    lemma_neighbours_in_range(x, rows[0].len() as int);
    lemma_neighbours_in_range(y, rows.len() as int);
    assert(rows[y1][x1] == color && rows[y1][x2] == color);
    assert(rows[y2][x1] == color && rows[y2][x2] == color);
    lemma_mix_of_equal_colors(color, x2 * one - held_at_zero(x), held_at_zero(x) - x1 * one);
    lemma_mix_of_equal_colors(color, y2 * one - held_at_zero(y), held_at_zero(y) - y1 * one);
}

} // verus!
