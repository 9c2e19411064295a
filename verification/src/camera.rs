//! Camera projection: from pixel coordinates to the film plane.
//!
//! The camera sits at the origin and looks down the negative z axis; the
//! film is the plane `z = -1`.  A pixel `(x, y)` of an image of `x_max` by
//! `y_max` pixels is sampled at its centre:
//!
//! 1. normalised device coordinates, `ndc = (coord + 1/2) / max`;
//! 2. screen coordinates in `[-1, 1]`, `x_screen = 2 x_ndc - 1` and
//!    `y_screen = 1 - 2 y_ndc` (rows grow downwards, the camera's y axis
//!    points up);
//! 3. camera coordinates, `x_cam = x_screen * (x_max / y_max) * tan(fov / 2)`
//!    and `y_cam = y_screen * tan(fov / 2)`.
//!
//! Multiplied out, `x_cam = (2x + 1 - x_max) / y_max * tan(fov / 2)` and
//! `y_cam = (y_max - 2y - 1) / y_max * tan(fov / 2)`: both are a whole
//! number over `y_max`, times the one factor that depends on the field of
//! view.  The whole numbers are computed here, exactly; the caller scales
//! them by `tan(fov / 2) / y_max`.  Because the map is affine in `(x, y)`
//! it can also be held as a matrix that is applied to `(x, y, 1)`.

use crate::error::ConfigError;
use crate::scalar::{Number, Scalar};
use vstd::prelude::*;

verus! {

/// Encoding of the double nearest to pi.
pub const PI_BITS: u64 = 0x4009_21FB_5444_2D18;

/// Largest size of a matrix entry that multiplies a pixel coordinate.
pub const LINEAR_LIMIT: i64 = 0x2000_0000;

/// Largest size of a matrix entry that is added.
pub const OFFSET_LIMIT: i64 = 0x2_0000_0000;

/// A point `(x / scale, y / scale, -1)` of the film plane, in units of
/// `tan(fov / 2)`.  The primary ray through it has the direction
/// `(x * k, y * k, -1)` with `k = tan(fov / 2) / scale`.
#[derive(Clone, Copy, Debug, PartialEq, Eq, Structural)]
pub struct FilmPoint {
    pub x: i64,
    pub y: i64,
    pub scale: i64,
}

/// The affine map from pixels to film points as an augmented matrix: the
/// film point of the pixel `(px, py)` has `x = xx px + xy py + xw` and
/// `y = yx px + yy py + yw`.
#[derive(Clone, Copy, Debug, PartialEq, Eq, Structural)]
pub struct PixelMatrix {
    pub xx: i64,
    pub xy: i64,
    pub xw: i64,
    pub yx: i64,
    pub yy: i64,
    pub yw: i64,
    pub scale: i64,
}

/// The film point of the pixel `(x, y)` in an image of `x_max` by `y_max`
/// pixels.
pub open spec fn film_point(x_max: u32, y_max: u32, x: u32, y: u32) -> FilmPoint {
    FilmPoint {
        x: (2 * x + 1 - x_max) as i64,
        y: (y_max - 2 * y - 1) as i64,
        scale: y_max as i64,
    }
}

/// The matrix of the projection for an image of `x_max` by `y_max` pixels.
pub open spec fn pixel_matrix(x_max: u32, y_max: u32) -> PixelMatrix {
    PixelMatrix {
        xx: 2,
        xy: 0,
        xw: (1 - x_max) as i64,
        yx: 0,
        yy: (-2) as i64,
        yw: (y_max - 1) as i64,
        scale: y_max as i64,
    }
}

/// An exact fraction `num / den` with `den > 0`.
pub struct Ratio {
    pub num: int,
    pub den: int,
}

impl Ratio {
    /// The whole number `n`.
    pub open spec fn of(n: int) -> Ratio {
        Ratio { num: n, den: 1 }
    }

    /// The sum of two fractions.
    pub open spec fn plus(self, other: Ratio) -> Ratio {
        Ratio { num: self.num * other.den + other.num * self.den, den: self.den * other.den }
    }

    /// The difference of two fractions.
    pub open spec fn minus(self, other: Ratio) -> Ratio {
        Ratio { num: self.num * other.den - other.num * self.den, den: self.den * other.den }
    }

    /// The product of two fractions.
    pub open spec fn times(self, other: Ratio) -> Ratio {
        Ratio { num: self.num * other.num, den: self.den * other.den }
    }

    /// The quotient of two fractions, the second above zero.
    pub open spec fn over(self, other: Ratio) -> Ratio {
        Ratio { num: self.num * other.den, den: self.den * other.num }
    }

    /// Whether two fractions are the same number.
    pub open spec fn equals(self, other: Ratio) -> bool {
        self.num * other.den == other.num * self.den
    }
}

/// Normalised device coordinate of a pixel coordinate: `(coord + 1/2) / max`.
pub open spec fn device(coord: int, max: int) -> Ratio {
    Ratio::of(coord).plus(Ratio { num: 1, den: 2 }).over(Ratio::of(max))
}

/// Screen coordinate of a column: `2 ndc - 1`.
pub open spec fn screen_x(ndc: Ratio) -> Ratio {
    Ratio::of(2).times(ndc).minus(Ratio::of(1))
}

/// Screen coordinate of a row: `1 - 2 ndc`.
pub open spec fn screen_y(ndc: Ratio) -> Ratio {
    Ratio::of(1).minus(Ratio::of(2).times(ndc))
}

/// Camera x of a pixel column in units of `tan(fov / 2)`: the screen
/// coordinate stretched by the aspect ratio `x_max / y_max`.
pub open spec fn camera_x(x_max: int, y_max: int, x: int) -> Ratio {
    screen_x(device(x, x_max)).times(Ratio::of(x_max).over(Ratio::of(y_max)))
}

/// Camera y of a pixel row in units of `tan(fov / 2)`: the screen
/// coordinate.
pub open spec fn camera_y(y_max: int, y: int) -> Ratio {
    screen_y(device(y, y_max))
}

/// A field of view that a camera can have: strictly between zero and pi.
pub open spec fn valid_field_of_view(fov: Number) -> bool {
    Number::zero().lt(fov) && fov.lt((Scalar { bits: PI_BITS })@)
}

impl PixelMatrix {
    /// Whether every entry is small enough for the matrix to be applied to
    /// any pixel in 64-bit arithmetic.
    pub open spec fn is_small(&self) -> bool {
        &&& -LINEAR_LIMIT <= self.xx <= LINEAR_LIMIT
        &&& -LINEAR_LIMIT <= self.xy <= LINEAR_LIMIT
        &&& -LINEAR_LIMIT <= self.yx <= LINEAR_LIMIT
        &&& -LINEAR_LIMIT <= self.yy <= LINEAR_LIMIT
        &&& -OFFSET_LIMIT <= self.xw <= OFFSET_LIMIT
        &&& -OFFSET_LIMIT <= self.yw <= OFFSET_LIMIT
    }

    /// The matrix times `(x, y, 1)`.
    pub open spec fn applied(&self, x: u32, y: u32) -> FilmPoint {
        FilmPoint {
            x: (self.xx * x + self.xy * y + self.xw) as i64,
            y: (self.yx * x + self.yy * y + self.yw) as i64,
            scale: self.scale,
        }
    }

    /// Whether the matrix can be applied to any pixel.
    pub fn fits_pixels(&self) -> (r: bool)
        ensures
            r == self.is_small(),
    {
        -LINEAR_LIMIT <= self.xx && self.xx <= LINEAR_LIMIT && -LINEAR_LIMIT <= self.xy
            && self.xy <= LINEAR_LIMIT && -LINEAR_LIMIT <= self.yx && self.yx <= LINEAR_LIMIT
            && -LINEAR_LIMIT <= self.yy && self.yy <= LINEAR_LIMIT && -OFFSET_LIMIT <= self.xw
            && self.xw <= OFFSET_LIMIT && -OFFSET_LIMIT <= self.yw && self.yw <= OFFSET_LIMIT
    }

    /// The film point of the pixel `(x, y)`: the matrix times `(x, y, 1)`.
    pub fn apply(&self, x: u32, y: u32) -> (p: FilmPoint)
        requires
            self.is_small(),
        ensures
            p == self.applied(x, y),
            p.x == self.xx * x + self.xy * y + self.xw,
            p.y == self.yx * x + self.yy * y + self.yw,
            p.scale == self.scale,
    {
        let px: i64 = x as i64;
        let py: i64 = y as i64;
        proof {
            lemma_product_is_small(self.xx as int, px as int);
            lemma_product_is_small(self.xy as int, py as int);
            lemma_product_is_small(self.yx as int, px as int);
            lemma_product_is_small(self.yy as int, py as int);
        }
        FilmPoint {
            x: self.xx * px + self.xy * py + self.xw,
            y: self.yx * px + self.yy * py + self.yw,
            scale: self.scale,
        }
    }
}

/// A small entry times a pixel coordinate stays far inside 64 bits.
proof fn lemma_product_is_small(entry: int, coordinate: int)
    by (nonlinear_arith)
    requires
        -LINEAR_LIMIT <= entry <= LINEAR_LIMIT,
        0 <= coordinate <= 0xFFFF_FFFF,
    ensures
        -0x2000_0000_0000_0000 <= entry * coordinate <= 0x2000_0000_0000_0000,
{
}

/// Accepts an image with at least one row and one column and a field of
/// view strictly between zero and pi.  The dimensions are looked at first.
pub fn check_viewport(fov: Scalar, x_max: u32, y_max: u32) -> (r: Result<(), ConfigError>)
    ensures
        x_max == 0 || y_max == 0 ==> r == Err::<(), ConfigError>(ConfigError::ZeroDimension),
        x_max > 0 && y_max > 0 && !valid_field_of_view(fov@) ==> r == Err::<(), ConfigError>(
            ConfigError::InvalidFieldOfView,
        ),
        x_max > 0 && y_max > 0 && valid_field_of_view(fov@) ==> r is Ok,
{
    if x_max == 0 || y_max == 0 {
        Err(ConfigError::ZeroDimension)
    } else if Scalar::zero().lt(fov) && fov.lt(Scalar::from_bits(PI_BITS)) {
        Ok(())
    } else {
        Err(ConfigError::InvalidFieldOfView)
    }
}

/// The film point through which the primary ray of the pixel `(x, y)`
/// passes.
pub fn projection_function(x_max: u32, y_max: u32, x: u32, y: u32) -> (p: FilmPoint)
    requires
        0 < x_max,
        0 < y_max,
        x < x_max,
        y < y_max,
    ensures
        p == film_point(x_max, y_max, x, y),
        p.x == 2 * x + 1 - x_max,
        p.y == y_max - 2 * y - 1,
        p.scale == y_max,
        -p.scale < p.y < p.scale,
        -(x_max as int) < p.x < x_max,
{
    let width: i64 = x_max as i64;
    let height: i64 = y_max as i64;
    FilmPoint { x: 2 * (x as i64) + 1 - width, y: height - 2 * (y as i64) - 1, scale: height }
}

/// The projection condensed into a matrix: applied to `(x, y, 1)` it gives
/// the film point of every pixel.
pub fn projection_matrix(x_max: u32, y_max: u32) -> (m: PixelMatrix)
    requires
        0 < x_max,
        0 < y_max,
    ensures
        m == pixel_matrix(x_max, y_max),
        m.is_small(),
        forall|x: u32, y: u32| #[trigger] m.applied(x, y) == film_point(x_max, y_max, x, y),
{
    let m = PixelMatrix {
        xx: 2,
        xy: 0,
        xw: 1 - (x_max as i64),
        yx: 0,
        yy: -2,
        yw: (y_max as i64) - 1,
        scale: y_max as i64,
    };
    assert forall|x: u32, y: u32| #[trigger] m.applied(x, y) == film_point(x_max, y_max, x, y) by {
        lemma_matrix_agrees_with_function(x_max, y_max, x, y);
    }
    m
}

/// The film point is what the three steps from pixel to device, screen
/// and camera coordinates give, as exact fractions.
pub proof fn lemma_film_point_follows_the_steps(x_max: u32, y_max: u32, x: u32, y: u32)
    requires
        0 < x_max,
        0 < y_max,
    ensures
        camera_x(x_max as int, y_max as int, x as int).den > 0,
        camera_y(y_max as int, y as int).den > 0,
        camera_x(x_max as int, y_max as int, x as int).equals(
            Ratio {
                num: film_point(x_max, y_max, x, y).x as int,
                den: film_point(x_max, y_max, x, y).scale as int,
            },
        ),
        camera_y(y_max as int, y as int).equals(
            Ratio {
                num: film_point(x_max, y_max, x, y).y as int,
                den: film_point(x_max, y_max, x, y).scale as int,
            },
        ),
{
    let w = x_max as int;
    let h = y_max as int;
    let px = 2 * x + 1 - w;
    let py = h - 2 * y - 1;

    let sx = screen_x(device(x as int, w));
    assert(sx.num == 2 * px && sx.den == 2 * w);
    let cx = camera_x(w, h, x as int);
    assert(cx.num == sx.num * (w * 1) && cx.den == sx.den * (1 * h));
    assert(cx.den > 0 && cx.num * h == px * cx.den) by (nonlinear_arith)
        requires
            cx.num == (2 * px) * (w * 1),
            cx.den == (2 * w) * (1 * h),
            w > 0,
            h > 0,
    ;

    let cy = camera_y(h, y as int);
    assert(cy.num == 2 * py && cy.den == 2 * h);
    assert(cy.num * h == py * cy.den) by (nonlinear_arith)
        requires
            cy.num == 2 * py,
            cy.den == 2 * h,
    ;
}

/// The matrix form and the per-pixel form of the projection agree on every
/// pixel: the matrix times `(x, y, 1)` is the film point of `(x, y)`.
pub proof fn lemma_matrix_agrees_with_function(x_max: u32, y_max: u32, x: u32, y: u32)
    ensures
        pixel_matrix(x_max, y_max).applied(x, y) == film_point(x_max, y_max, x, y),
{
    let m = pixel_matrix(x_max, y_max);
    assert(m.xx * x == 2 * x && m.xy * y == 0 && m.yx * x == 0 && m.yy * y == -2 * y)
        by (nonlinear_arith)
        requires
            m.xx == 2,
            m.xy == 0,
            m.yx == 0,
            m.yy == -2,
    ;
}

} // verus!
