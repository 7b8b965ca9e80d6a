//! The planar half of the projection: a canvas pixel is recentred on the
//! tangent plane and lifted onto the projection sphere by the inverse
//! stereographic map.
//!
//! Offsets and the scale count in units of `1 / SUBPIXELS`. Plane coordinates
//! and the radius count in units of `1 / (10 * SUBPIXELS)` of a pixel, in
//! which the radius `min(width, height) / 10 * scale` is a whole number. The
//! point on the sphere is given by three numerators over a common denominator,
//! so nothing is rounded.

use crate::error::ConfigError;
use crate::render::{sizes_refusal, validate_sizes};
use crate::sampling::SUBPIXELS;
use vstd::prelude::*;

verus! {

/// The offset that leaves the canvas where it is: one half.
pub const CENTERED: i32 = 32768;

/// The largest shift of the canvas, in units of `1 / SUBPIXELS` of a pixel,
/// that a projection accepts.
pub const SHIFT_LIMIT: i128 = 0x100_0000_0000_0000;

/// The largest radius, in units of `1 / (10 * SUBPIXELS)` of a pixel, that a
/// projection accepts.
pub const RADIUS_LIMIT: i64 = 0x1000_0000_0000_0000;

/// The smaller side of a canvas.
pub open spec fn shorter_side(size: (u32, u32)) -> int {
    if size.0 < size.1 {
        size.0 as int
    } else {
        size.1 as int
    }
}

/// The radius of the projection sphere, `min(width, height) / 10 * scale`, in
/// units of `1 / (10 * SUBPIXELS)` of a pixel.
pub open spec fn radius_of(proj_size: (u32, u32), scale: int) -> int {
    shorter_side(proj_size) * scale
}

/// The shift of the canvas along one axis, `(offset - 1/2) * side`, in units
/// of `1 / SUBPIXELS` of a pixel.
pub open spec fn shift_of(offset: int, side: int) -> int {
    (offset - CENTERED) * side
}

/// The offset and the radius are within what the projection computes exactly.
pub open spec fn within_reach(proj_size: (u32, u32), offset: (i32, i32), scale: int) -> bool {
    &&& -SHIFT_LIMIT <= shift_of(offset.0 as int, proj_size.0 as int) <= SHIFT_LIMIT
    &&& -SHIFT_LIMIT <= shift_of(offset.1 as int, proj_size.1 as int) <= SHIFT_LIMIT
    &&& radius_of(proj_size, scale) <= RADIUS_LIMIT
}

/// The error, if any, that keeps a projection from being built: sizes are
/// checked first, then the scale, then the reach.
pub open spec fn projection_refusal(
    image_size: (u32, u32),
    proj_size: (u32, u32),
    offset: (i32, i32),
    scale: i32,
) -> Option<ConfigError> {
    if sizes_refusal(image_size, proj_size) is Some {
        sizes_refusal(image_size, proj_size)
    } else if scale <= 0 {
        Some(ConfigError::DegenerateRadius)
    } else if !within_reach(proj_size, offset, scale as int) {
        Some(ConfigError::ParametersTooLarge)
    } else {
        None
    }
}

/// A point of the tangent plane, in units of `1 / (10 * SUBPIXELS)` of a
/// pixel.
pub struct PlanePoint {
    pub x: int,
    pub y: int,
}

/// A direction in space, `(x, y, z) / norm`.
pub struct Direction {
    pub x: int,
    pub y: int,
    pub z: int,
    pub norm: int,
}

/// The canvas pixel `p` moved by `(offset - 1/2) * proj_size` along each axis.
pub open spec fn recentered(p: (u32, u32), offset: (i32, i32), proj_size: (u32, u32)) -> PlanePoint {
    PlanePoint {
        x: 10 * (p.0 * SUBPIXELS + shift_of(offset.0 as int, proj_size.0 as int)),
        y: 10 * (p.1 * SUBPIXELS + shift_of(offset.1 as int, proj_size.1 as int)),
    }
}

/// The inverse stereographic map: with `k = 2 r^2 / (|p|^2 + r^2)`, the plane
/// point `p` goes to the direction of `(k p.x, k p.y, (k - 1) r)`. That vector
/// has length `r`, so the unit vector is
/// `(2 r p.x, 2 r p.y, r^2 - |p|^2) / (|p|^2 + r^2)`.
pub open spec fn lifted(p: PlanePoint, radius: int) -> Direction {
    Direction {
        x: 2 * radius * p.x,
        y: 2 * radius * p.y,
        z: radius * radius - (p.x * p.x + p.y * p.y),
        norm: p.x * p.x + p.y * p.y + radius * radius,
    }
}

/// A direction on the unit sphere: three numerators over the denominator
/// `norm`.
#[derive(Clone, Copy, Debug, PartialEq, Eq, Structural)]
pub struct SpherePoint {
    pub x: i128,
    pub y: i128,
    pub z: i128,
    pub norm: i128,
}

impl View for SpherePoint {
    type V = Direction;

    open spec fn view(&self) -> Direction {
        Direction { x: self.x as int, y: self.y as int, z: self.z as int, norm: self.norm as int }
    }
}

/// What a projection holds.
pub struct Parameters {
    /// The radius of the projection sphere, in units of
    /// `1 / (10 * SUBPIXELS)` of a pixel.
    pub radius: int,
    /// Width and height of the source image.
    pub image_size: (u32, u32),
    /// Width and height of the canvas.
    pub proj_size: (u32, u32),
    /// The offset of the canvas, in units of `1 / SUBPIXELS`.
    pub offset: (i32, i32),
}

/// The immutable parameters of one rendering pass, without the rotation.
pub struct Projection {
    radius: i64,
    image_size: (u32, u32),
    proj_size: (u32, u32),
    offset: (i32, i32),
}

impl View for Projection {
    type V = Parameters;

    closed spec fn view(&self) -> Parameters {
        Parameters {
            radius: self.radius as int,
            image_size: self.image_size,
            proj_size: self.proj_size,
            offset: self.offset,
        }
    }
}

impl Projection {
    #[verifier::type_invariant]
    spec fn well_formed(self) -> bool {
        &&& 0 < self.radius <= RADIUS_LIMIT
        &&& -SHIFT_LIMIT <= shift_of(self.offset.0 as int, self.proj_size.0 as int)
            <= SHIFT_LIMIT
        &&& -SHIFT_LIMIT <= shift_of(self.offset.1 as int, self.proj_size.1 as int)
            <= SHIFT_LIMIT
    }

    /// Builds the projection for an image and a canvas of the given sizes.
    /// `offset` and `scale` count in units of `1 / SUBPIXELS`. Empty sizes, a
    /// scale that is not positive and parameters out of reach are refused.
    pub fn new(
        image_size: (u32, u32),
        proj_size: (u32, u32),
        offset: (i32, i32),
        scale: i32,
    ) -> (made: Result<Projection, ConfigError>)
        ensures
            match projection_refusal(image_size, proj_size, offset, scale) {
                Some(e) => made == Err::<Projection, ConfigError>(e),
                None => {
                    &&& made is Ok
                    &&& made->Ok_0@ == (Parameters {
                        radius: radius_of(proj_size, scale as int),
                        image_size,
                        proj_size,
                        offset,
                    })
                    &&& made->Ok_0@.radius > 0
                },
            },
    {
        match validate_sizes(image_size, proj_size) {
            Err(e) => {
                return Err(e);
            },
            Ok(()) => {},
        }
        if scale <= 0 {
            return Err(ConfigError::DegenerateRadius);
        }
        let shorter: u32 = if proj_size.0 < proj_size.1 {
            proj_size.0
        } else {
            proj_size.1
        };
        assert(0 < shorter * scale <= 0xFFFF_FFFF * 0x7FFF_FFFF) by (nonlinear_arith)
            requires
                0 < shorter <= 0xFFFF_FFFF,
                0 < scale <= 0x7FFF_FFFF,
        ;
        let radius: i64 = (shorter as i64) * (scale as i64);
        if radius > RADIUS_LIMIT {
            return Err(ConfigError::ParametersTooLarge);
        }
        let shift_x = axis_shift(offset.0, proj_size.0);
        let shift_y = axis_shift(offset.1, proj_size.1);
        if shift_x < -SHIFT_LIMIT || shift_x > SHIFT_LIMIT {
            return Err(ConfigError::ParametersTooLarge);
        }
        if shift_y < -SHIFT_LIMIT || shift_y > SHIFT_LIMIT {
            return Err(ConfigError::ParametersTooLarge);
        }
        Ok(Projection { radius, image_size, proj_size, offset })
    }

    /// The radius of the projection sphere, in units of
    /// `1 / (10 * SUBPIXELS)` of a pixel. It is positive.
    pub fn radius(&self) -> (radius: i64)
        ensures
            radius == self@.radius,
            radius > 0,
    {
        proof {
            use_type_invariant(self);
        }
        self.radius
    }

    /// Width and height of the source image.
    pub fn image_size(&self) -> (size: (u32, u32))
        ensures
            size == self@.image_size,
    {
        self.image_size
    }

    /// Width and height of the canvas.
    pub fn proj_size(&self) -> (size: (u32, u32))
        ensures
            size == self@.proj_size,
    {
        self.proj_size
    }

    /// The offset of the canvas, in units of `1 / SUBPIXELS`.
    pub fn offset(&self) -> (offset: (i32, i32))
        ensures
            offset == self@.offset,
    {
        self.offset
    }

    /// The point of the unit sphere that the canvas pixel `p` is lifted to:
    /// `p` is recentred by the offset, then mapped by the inverse
    /// stereographic projection for this radius. The denominator is positive
    /// and the three numerators have its length.
    pub fn image_to_sphere(&self, p: (u32, u32)) -> (d: SpherePoint)
        ensures
            d@ == lifted(recentered(p, self@.offset, self@.proj_size), self@.radius),
            d.norm > 0,
            d.x * d.x + d.y * d.y + d.z * d.z == d.norm * d.norm,
    {
        proof {
            use_type_invariant(self);
        }
        let r: i128 = self.radius as i128;
        let shift_x = axis_shift(self.offset.0, self.proj_size.0);
        let shift_y = axis_shift(self.offset.1, self.proj_size.1);
        let one: i128 = SUBPIXELS as i128;
        let x: i128 = 10 * ((p.0 as i128) * one + shift_x);
        let y: i128 = 10 * ((p.1 as i128) * one + shift_y);
        let ghost bound: int = 0x2000_0000_0000_0000;
        assert(0 <= x * x <= bound * bound && 0 <= y * y <= bound * bound && 0 < r * r <= bound
            * bound && -bound * bound <= r * x <= bound * bound && -bound * bound <= r * y <= bound
            * bound) by (nonlinear_arith)
            requires
                -bound <= x <= bound,
                -bound <= y <= bound,
                0 < r <= bound,
        ;
        assert(bound * bound == 0x400_0000_0000_0000_0000_0000_0000_0000);
        let squared: i128 = x * x + y * y;
        let rr: i128 = r * r;
        let rx: i128 = r * x;
        let ry: i128 = r * y;
        assert(2 * r * x == 2 * (r * x) && 2 * r * y == 2 * (r * y)) by (nonlinear_arith);
        proof {
            lemma_lifted_is_unit(PlanePoint { x: x as int, y: y as int }, r as int);
        }
        SpherePoint { x: 2 * rx, y: 2 * ry, z: rr - squared, norm: squared + rr }
    }
}

/// The shift of the canvas along one axis, `(offset - 1/2) * side`.
fn axis_shift(offset: i32, side: u32) -> (shift: i128)
    ensures
        shift == shift_of(offset as int, side as int),
{
    let lever: i128 = (offset as i128) - (CENTERED as i128);
    assert(-0x8000_8000 * 0xFFFF_FFFF <= lever * side <= 0x8000_8000 * 0xFFFF_FFFF)
        by (nonlinear_arith)
        requires
            -0x8000_8000 <= lever <= 0x8000_8000,
            0 <= side <= 0xFFFF_FFFF,
    ;
    lever * (side as i128)
}

/// The radius is positive whenever the scale is positive and the canvas has
/// pixels.
pub proof fn lemma_radius_is_positive(proj_size: (u32, u32), scale: int)
    requires
        proj_size.0 >= 1,
        proj_size.1 >= 1,
        scale > 0,
    ensures
        radius_of(proj_size, scale) > 0,
{
    assert(shorter_side(proj_size) * scale > 0) by (nonlinear_arith)
        requires
            shorter_side(proj_size) >= 1,
            scale > 0,
    ;
}

/// With the offset at one half, recentring leaves every pixel where it is.
pub proof fn lemma_centered_offset_keeps_pixel(p: (u32, u32), proj_size: (u32, u32))
    ensures
        recentered(p, (CENTERED, CENTERED), proj_size) == (PlanePoint {
            x: 10 * (p.0 * SUBPIXELS),
            y: 10 * (p.1 * SUBPIXELS),
        }),
{
    assert(shift_of(CENTERED as int, proj_size.0 as int) == 0) by (nonlinear_arith);
    assert(shift_of(CENTERED as int, proj_size.1 as int) == 0) by (nonlinear_arith);
}

/// The lifted point lies on the unit sphere: its three numerators have the
/// length of the denominator, which is positive.
pub proof fn lemma_lifted_is_unit(p: PlanePoint, radius: int)
    requires
        radius != 0,
    ensures
        lifted(p, radius).norm > 0,
        lifted(p, radius).x * lifted(p, radius).x + lifted(p, radius).y * lifted(p, radius).y
            + lifted(p, radius).z * lifted(p, radius).z == lifted(p, radius).norm * lifted(
            p,
            radius,
        ).norm,
{
    let d = lifted(p, radius);
    let s = p.x * p.x + p.y * p.y;
    let rr = radius * radius;
    assert(rr > 0 && s >= 0) by (nonlinear_arith)
        requires
            radius != 0,
            rr == radius * radius,
            s == p.x * p.x + p.y * p.y,
    ;
    assert(d.x * d.x + d.y * d.y == 4 * rr * s) by (nonlinear_arith)
        requires
            d.x == 2 * radius * p.x,
            d.y == 2 * radius * p.y,
            rr == radius * radius,
            s == p.x * p.x + p.y * p.y,
    ;
    assert((rr - s) * (rr - s) + 4 * rr * s == (s + rr) * (s + rr)) by (nonlinear_arith);
}

/// The origin of the plane is lifted to the pole `(0, 0, 1)`.
pub proof fn lemma_origin_lifts_to_pole(radius: int)
    ensures
        lifted(PlanePoint { x: 0, y: 0 }, radius).x == 0,
        lifted(PlanePoint { x: 0, y: 0 }, radius).y == 0,
        lifted(PlanePoint { x: 0, y: 0 }, radius).z == lifted(
            PlanePoint { x: 0, y: 0 },
            radius,
        ).norm,
{
}

/// A plane point lies inside the circle of the sphere's radius exactly if it
/// is lifted to the hemisphere of the pole, and on the circle exactly if it is
/// lifted to the equator.
pub proof fn lemma_lifted_hemisphere(p: PlanePoint, radius: int)
    ensures
        lifted(p, radius).z > 0 <==> p.x * p.x + p.y * p.y < radius * radius,
        lifted(p, radius).z == 0 <==> p.x * p.x + p.y * p.y == radius * radius,
{
}

} // verus!
