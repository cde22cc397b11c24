//! Fixed-point geometry of the editor: points, rectangles, colors and
//! 2D affine transforms.
//!
//! Positions and lengths are fixed-point integers with `UNIT` steps per
//! world unit. The linear part of a transform uses the same scale, so a
//! transform with `m00 == m11 == UNIT` and `m01 == m10 == 0` is a pure
//! translation.

use vstd::prelude::*;

verus! {

/// Fixed-point steps per world unit.
pub const UNIT: i64 = 256;

/// Half of `UNIT`.
pub const HALF_UNIT: i64 = 128;

/// A position in world space.
#[derive(Debug, Clone, Copy, PartialEq, Eq, Structural)]
pub struct Point {
    pub x: i32,
    pub y: i32,
}

/// An axis-aligned rectangle, given by its corners.
///
/// A rectangle whose minimum exceeds its maximum on an axis is accepted
/// as it is; it contains no point.
#[derive(Debug, Clone, Copy, PartialEq, Eq, Structural)]
pub struct Rect {
    pub min_x: i64,
    pub min_y: i64,
    pub max_x: i64,
    pub max_y: i64,
}

/// A color with straight alpha, one byte per channel.
#[derive(Debug, Clone, Copy, PartialEq, Eq, Structural)]
pub struct Rgba {
    pub r: u8,
    pub g: u8,
    pub b: u8,
    pub a: u8,
}

/// A 2D affine transform with a depth.
///
/// A local point `p` lands at
/// `((m00 * p.x + m01 * p.y) / UNIT + tx, (m10 * p.x + m11 * p.y) / UNIT + ty)`;
/// `tz` is the depth along the camera axis.
#[derive(Debug, Clone, Copy, PartialEq, Eq, Structural)]
pub struct Affine {
    pub m00: i32,
    pub m01: i32,
    pub m10: i32,
    pub m11: i32,
    pub tx: i32,
    pub ty: i32,
    pub tz: i32,
}

impl Rect {
    pub fn new(min_x: i64, min_y: i64, max_x: i64, max_y: i64) -> (r: Rect)
        ensures
            r == (Rect { min_x, min_y, max_x, max_y }),
    {
        Rect { min_x, min_y, max_x, max_y }
    }

    /// The rectangle of no extent at the origin.
    pub fn zero() -> (r: Rect)
        ensures
            r == (Rect { min_x: 0, min_y: 0, max_x: 0, max_y: 0 }),
    {
        Rect { min_x: 0, min_y: 0, max_x: 0, max_y: 0 }
    }

    /// The unit square centred on the origin.
    pub fn unit_square() -> (r: Rect)
        ensures
            r.min_x == -HALF_UNIT && r.min_y == -HALF_UNIT,
            r.max_x == HALF_UNIT && r.max_y == HALF_UNIT,
    {
        Rect { min_x: -HALF_UNIT, min_y: -HALF_UNIT, max_x: HALF_UNIT, max_y: HALF_UNIT }
    }
}

impl Rgba {
    /// Fully transparent black.
    pub open spec fn none_spec() -> Rgba {
        Rgba { r: 0, g: 0, b: 0, a: 0 }
    }

    /// Opaque pink, the color of highlights.
    pub open spec fn pink_spec() -> Rgba {
        Rgba { r: 255, g: 20, b: 148, a: 255 }
    }

    pub fn none() -> (r: Rgba)
        ensures
            r == Rgba::none_spec(),
    {
        Rgba { r: 0, g: 0, b: 0, a: 0 }
    }

    pub fn pink() -> (r: Rgba)
        ensures
            r == Rgba::pink_spec(),
    {
        Rgba { r: 255, g: 20, b: 148, a: 255 }
    }

    pub open spec fn with_alpha_spec(self, a: u8) -> Rgba {
        Rgba { a, ..self }
    }

    /// The same color with another alpha.
    pub fn with_alpha(self, a: u8) -> (r: Rgba)
        ensures
            r == self.with_alpha_spec(a),
    {
        Rgba { a, ..self }
    }
}

impl Affine {
    pub open spec fn identity_spec() -> Affine {
        Affine { m00: 256, m01: 0, m10: 0, m11: 256, tx: 0, ty: 0, tz: 0 }
    }

    /// The transform that moves nothing.
    pub fn identity() -> (r: Affine)
        ensures
            r == Affine::identity_spec(),
    {
        Affine { m00: UNIT as i32, m01: 0, m10: 0, m11: UNIT as i32, tx: 0, ty: 0, tz: 0 }
    }

    /// The transform followed by a move of `(dx, dy)`.
    pub open spec fn shifted(self, dx: int, dy: int) -> Affine {
        Affine { tx: (self.tx + dx) as i32, ty: (self.ty + dy) as i32, ..self }
    }

    /// The determinant of the linear part.
    pub open spec fn det(self) -> int {
        self.m00 * self.m11 - self.m01 * self.m10
    }

    /// `det` times the local x coordinate of world point `c`.
    pub open spec fn local_x_scaled(self, c: Point) -> int {
        UNIT * (self.m11 * (c.x - self.tx) - self.m01 * (c.y - self.ty))
    }

    /// `det` times the local y coordinate of world point `c`.
    pub open spec fn local_y_scaled(self, c: Point) -> int {
        UNIT * (self.m00 * (c.y - self.ty) - self.m10 * (c.x - self.tx))
    }
}

/// Whether `lo <= v / d <= hi`, for `d != 0`, written without division.
pub open spec fn between_scaled(d: int, lo: int, v: int, hi: int) -> bool {
    if d > 0 {
        d * lo <= v && v <= d * hi
    } else {
        d * lo >= v && v >= d * hi
    }
}

/// Whether world point `c` lies in rectangle `r` given in the local space
/// of `xf`: the inverse of `xf` takes `c` into `r`.
///
/// The linear part is scaled by `UNIT`, so its inverse is `UNIT` times its
/// adjugate over its determinant, and
/// the local coordinates of `c` are `local_x_scaled / det` and
/// `local_y_scaled / det`; the bounds are compared against them
/// multiplied through by the determinant. A transform that cannot be
/// inverted covers nothing.
pub open spec fn covers(xf: Affine, r: Rect, c: Point) -> bool {
    let d = xf.det();
    d != 0
        && between_scaled(d, r.min_x as int, xf.local_x_scaled(c), r.max_x as int)
        && between_scaled(d, r.min_y as int, xf.local_y_scaled(c), r.max_y as int)
}

/// A product of bounded factors is bounded by the product of the bounds.
pub proof fn lemma_mul_bound(a: int, b: int, ba: int, bb: int)
    requires
        -ba <= a <= ba,
        -bb <= b <= bb,
    ensures
        -(ba * bb) <= a * b <= ba * bb,
{
    assert(-(ba * bb) <= a * b <= ba * bb) by (nonlinear_arith)
        requires
            -ba <= a <= ba,
            -bb <= b <= bb,
    ;
}

fn between_scaled_exec(d: i128, lo: i64, v: i128, hi: i64) -> (r: bool)
    requires
        -0x8000_0000_0000_0000 <= d <= 0x8000_0000_0000_0000,
    ensures
        r == between_scaled(d as int, lo as int, v as int, hi as int),
{
    proof {
        lemma_mul_bound(d as int, lo as int, 0x8000_0000_0000_0000, 0x8000_0000_0000_0000);
        lemma_mul_bound(d as int, hi as int, 0x8000_0000_0000_0000, 0x8000_0000_0000_0000);
    }
    let a = d * (lo as i128);
    let b = d * (hi as i128);
    if d > 0 {
        a <= v && v <= b
    } else {
        a >= v && v >= b
    }
}

/// Tests whether world point `c` lies in rectangle `r` in the local space
/// of `xf`.
pub fn hit(xf: &Affine, r: &Rect, c: Point) -> (h: bool)
    ensures
        h == covers(*xf, *r, c),
{
    let ghost b31: int = 0x8000_0000int;
    proof {
        lemma_mul_bound(xf.m00 as int, xf.m11 as int, b31, b31);
        lemma_mul_bound(xf.m01 as int, xf.m10 as int, b31, b31);
    }
    let det: i128 = (xf.m00 as i128) * (xf.m11 as i128) - (xf.m01 as i128) * (xf.m10 as i128);
    if det == 0 {
        return false;
    }
    let dx: i128 = c.x as i128 - xf.tx as i128;
    let dy: i128 = c.y as i128 - xf.ty as i128;
    proof {
        lemma_mul_bound(xf.m11 as int, dx as int, b31, 2 * b31);
        lemma_mul_bound(xf.m01 as int, dy as int, b31, 2 * b31);
        lemma_mul_bound(xf.m00 as int, dy as int, b31, 2 * b31);
        lemma_mul_bound(xf.m10 as int, dx as int, b31, 2 * b31);
    }
    let u: i128 = 256 * ((xf.m11 as i128) * dx - (xf.m01 as i128) * dy);
    let v: i128 = 256 * ((xf.m00 as i128) * dy - (xf.m10 as i128) * dx);
    between_scaled_exec(det, r.min_x, u, r.max_x) && between_scaled_exec(det, r.min_y, v, r.max_y)
}

} // verus!
