//! Vectors of the plane.

use vstd::prelude::*;
use crate::scalar::{
    answers, cosine, difference, is_arithmetic, power, product, quotient, sine, spec_cosine,
    spec_difference, spec_magnitude, spec_power, spec_product, spec_quotient, spec_sine,
    spec_square_root, spec_sum, square_root, sum, Arithmetic, Op,
};

verus! {

/// A point or displacement in the plane. Each coordinate is the bit pattern
/// of an IEEE 754 binary64 number; two vectors are equal when their
/// coordinates agree bit for bit. A vector is a value: every operation
/// gives a new one.
#[derive(Clone, Copy, PartialEq, Eq, Structural, Debug)]
pub struct Vector2 {
    pub x: u64,
    pub y: u64,
}

impl Vector2 {
    /// The sum, coordinate by coordinate.
    pub open spec fn spec_add(self, other: Vector2, reals: Arithmetic) -> Vector2 {
        Vector2 { x: spec_sum(reals, self.x, other.x), y: spec_sum(reals, self.y, other.y) }
    }

    /// The difference, coordinate by coordinate.
    pub open spec fn spec_subtract(
        self,
        other: Vector2,
        reals: Arithmetic,
    ) -> Vector2 {
        Vector2 {
            x: spec_difference(reals, self.x, other.x),
            y: spec_difference(reals, self.y, other.y),
        }
    }

    /// The product, coordinate by coordinate.
    pub open spec fn spec_multiply(
        self,
        other: Vector2,
        reals: Arithmetic,
    ) -> Vector2 {
        Vector2 { x: spec_product(reals, self.x, other.x), y: spec_product(reals, self.y, other.y) }
    }

    /// The quotient, coordinate by coordinate.
    pub open spec fn spec_divide(
        self,
        other: Vector2,
        reals: Arithmetic,
    ) -> Vector2 {
        Vector2 {
            x: spec_quotient(reals, self.x, other.x),
            y: spec_quotient(reals, self.y, other.y),
        }
    }

    /// The root of `x * x + y * y`.
    pub open spec fn spec_norm(self, reals: Arithmetic) -> u64 {
        spec_square_root(
            reals,
            spec_sum(
                reals,
                spec_product(reals, self.x, self.x),
                spec_product(reals, self.y, self.y),
            ),
        )
    }

    /// The norm is one of the two zeros.
    pub open spec fn is_null(self, reals: Arithmetic) -> bool {
        spec_magnitude(self.spec_norm(reals)) == 0
    }

    /// Each coordinate divided by the norm.
    pub open spec fn spec_normalize(self, reals: Arithmetic) -> Vector2 {
        Vector2 {
            x: spec_quotient(reals, self.x, self.spec_norm(reals)),
            y: spec_quotient(reals, self.y, self.spec_norm(reals)),
        }
    }

    /// `x1 * x2 + y1 * y2`.
    pub open spec fn spec_dot(self, other: Vector2, reals: Arithmetic) -> u64 {
        spec_sum(
            reals,
            spec_product(reals, self.x, other.x),
            spec_product(reals, self.y, other.y),
        )
    }

    /// `x1 * y2 - y1 * x2`.
    pub open spec fn spec_cross(self, other: Vector2, reals: Arithmetic) -> u64 {
        spec_difference(
            reals,
            spec_product(reals, self.x, other.y),
            spec_product(reals, self.y, other.x),
        )
    }

    /// The root of `(x1 - x2)^2 + (y1 - y2)^2`.
    pub open spec fn spec_distance(
        self,
        other: Vector2,
        reals: Arithmetic,
    ) -> u64 {
        spec_square_root(
            reals,
            spec_sum(
                reals,
                spec_power(reals, spec_difference(reals, self.x, other.x), 2),
                spec_power(reals, spec_difference(reals, self.y, other.y), 2),
            ),
        )
    }

    /// The scalar product divided by the product of the norms.
    pub open spec fn spec_angle(self, other: Vector2, reals: Arithmetic) -> u64 {
        spec_quotient(
            reals,
            self.spec_dot(other, reals),
            spec_product(reals, self.spec_norm(reals), other.spec_norm(reals)),
        )
    }

    /// `(x * cos(angle) - y * sin(angle), x * sin(angle) + y * cos(angle))`.
    pub open spec fn spec_rotate(self, angle: u64, reals: Arithmetic) -> Vector2 {
        Vector2 {
            x: spec_difference(
                reals,
                spec_product(reals, self.x, spec_cosine(reals, angle)),
                spec_product(reals, self.y, spec_sine(reals, angle)),
            ),
            y: spec_sum(
                reals,
                spec_product(reals, self.x, spec_sine(reals, angle)),
                spec_product(reals, self.y, spec_cosine(reals, angle)),
            ),
        }
    }

    /// Both coordinates multiplied by `scalar`.
    pub open spec fn spec_scale(self, scalar: u64, reals: Arithmetic) -> Vector2 {
        Vector2 { x: spec_product(reals, self.x, scalar), y: spec_product(reals, self.y, scalar) }
    }

    /// `self + (other - self) * t`, coordinate by coordinate.
    pub open spec fn spec_lerp(
        self,
        other: Vector2,
        t: u64,
        reals: Arithmetic,
    ) -> Vector2 {
        Vector2 {
            x: spec_sum(
                reals,
                self.x,
                spec_product(reals, spec_difference(reals, other.x, self.x), t),
            ),
            y: spec_sum(
                reals,
                self.y,
                spec_product(reals, spec_difference(reals, other.y, self.y), t),
            ),
        }
    }

    /// The vector with the given coordinate patterns.
    pub fn new(x: u64, y: u64) -> (r: Vector2)
        ensures
            r == (Vector2 { x, y }),
    {
        Vector2 { x, y }
    }

    /// The sum, coordinate by coordinate.
    pub fn add<R: Fn(Op, u64, u64) -> u64>(&self, other: &Vector2, reals: &R) -> (r: Vector2)
        requires
            is_arithmetic(*reals),
        ensures
            r == self.spec_add(*other, answers(*reals)),
    {
        Vector2 { x: sum(reals, self.x, other.x), y: sum(reals, self.y, other.y) }
    }

    /// The difference, coordinate by coordinate.
    pub fn subtract<R: Fn(Op, u64, u64) -> u64>(&self, other: &Vector2, reals: &R) -> (r: Vector2)
        requires
            is_arithmetic(*reals),
        ensures
            r == self.spec_subtract(*other, answers(*reals)),
    {
        Vector2 { x: difference(reals, self.x, other.x), y: difference(reals, self.y, other.y) }
    }

    /// The product, coordinate by coordinate.
    pub fn multiply<R: Fn(Op, u64, u64) -> u64>(&self, other: &Vector2, reals: &R) -> (r: Vector2)
        requires
            is_arithmetic(*reals),
        ensures
            r == self.spec_multiply(*other, answers(*reals)),
    {
        Vector2 { x: product(reals, self.x, other.x), y: product(reals, self.y, other.y) }
    }

    /// The quotient, coordinate by coordinate.
    pub fn divide<R: Fn(Op, u64, u64) -> u64>(&self, other: &Vector2, reals: &R) -> (r: Vector2)
        requires
            is_arithmetic(*reals),
        ensures
            r == self.spec_divide(*other, answers(*reals)),
    {
        Vector2 { x: quotient(reals, self.x, other.x), y: quotient(reals, self.y, other.y) }
    }

    /// The Euclidean norm.
    pub fn magnitude<R: Fn(Op, u64, u64) -> u64>(&self, reals: &R) -> (r: u64)
        requires
            is_arithmetic(*reals),
        ensures
            r == self.spec_norm(answers(*reals)),
    {
        let xx: u64 = product(reals, self.x, self.x);
        let yy: u64 = product(reals, self.y, self.y);
        square_root(reals, sum(reals, xx, yy))
    }

    /// The vector of norm 1 in the same direction. There is none for a
    /// vector whose norm is zero.
    pub fn normalize<R: Fn(Op, u64, u64) -> u64>(&self, reals: &R) -> (r: Vector2)
        requires
            is_arithmetic(*reals),
            !self.is_null(answers(*reals)),
        ensures
            r == self.spec_normalize(answers(*reals)),
    {
        let magnitude: u64 = self.magnitude(reals);
        Vector2 { x: quotient(reals, self.x, magnitude), y: quotient(reals, self.y, magnitude) }
    }

    /// The scalar product.
    pub fn dot<R: Fn(Op, u64, u64) -> u64>(&self, other: &Vector2, reals: &R) -> (r: u64)
        requires
            is_arithmetic(*reals),
        ensures
            r == self.spec_dot(*other, answers(*reals)),
    {
        let xx: u64 = product(reals, self.x, other.x);
        let yy: u64 = product(reals, self.y, other.y);
        sum(reals, xx, yy)
    }

    /// The cross product of the plane, a scalar.
    pub fn cross<R: Fn(Op, u64, u64) -> u64>(&self, other: &Vector2, reals: &R) -> (r: u64)
        requires
            is_arithmetic(*reals),
        ensures
            r == self.spec_cross(*other, answers(*reals)),
    {
        let xy: u64 = product(reals, self.x, other.y);
        let yx: u64 = product(reals, self.y, other.x);
        difference(reals, xy, yx)
    }

    /// The Euclidean distance between the two points.
    pub fn distance<R: Fn(Op, u64, u64) -> u64>(&self, other: &Vector2, reals: &R) -> (r: u64)
        requires
            is_arithmetic(*reals),
        ensures
            r == self.spec_distance(*other, answers(*reals)),
    {
        let dx: u64 = power(reals, difference(reals, self.x, other.x), 2);
        let dy: u64 = power(reals, difference(reals, self.y, other.y), 2);
        square_root(reals, sum(reals, dx, dy))
    }

    /// The cosine of the angle between the two vectors, not the angle
    /// itself. There is none when either vector has the norm zero.
    pub fn angle<R: Fn(Op, u64, u64) -> u64>(&self, other: &Vector2, reals: &R) -> (r: u64)
        requires
            is_arithmetic(*reals),
            !self.is_null(answers(*reals)),
            !other.is_null(answers(*reals)),
        ensures
            r == self.spec_angle(*other, answers(*reals)),
    {
        let dot: u64 = self.dot(other, reals);
        let norms: u64 = product(reals, self.magnitude(reals), other.magnitude(reals));
        quotient(reals, dot, norms)
    }

    /// The vector turned by `angle` radians.
    pub fn rotate<R: Fn(Op, u64, u64) -> u64>(&self, angle: u64, reals: &R) -> (r: Vector2)
        requires
            is_arithmetic(*reals),
        ensures
            r == self.spec_rotate(angle, answers(*reals)),
    {
        let cos: u64 = cosine(reals, angle);
        let sin: u64 = sine(reals, angle);
        Vector2 {
            x: difference(reals, product(reals, self.x, cos), product(reals, self.y, sin)),
            y: sum(reals, product(reals, self.x, sin), product(reals, self.y, cos)),
        }
    }

    /// The vector with both coordinates multiplied by `scalar`.
    pub fn scale<R: Fn(Op, u64, u64) -> u64>(&self, scalar: u64, reals: &R) -> (r: Vector2)
        requires
            is_arithmetic(*reals),
        ensures
            r == self.spec_scale(scalar, answers(*reals)),
    {
        Vector2 { x: product(reals, self.x, scalar), y: product(reals, self.y, scalar) }
    }

    /// The point that lies the fraction `t` of the way from `self` to
    /// `other`.
    pub fn lerp<R: Fn(Op, u64, u64) -> u64>(&self, other: &Vector2, t: u64, reals: &R) -> (r:
        Vector2)
        requires
            is_arithmetic(*reals),
        ensures
            r == self.spec_lerp(*other, t, answers(*reals)),
    {
        Vector2 {
            x: sum(reals, self.x, product(reals, difference(reals, other.x, self.x), t)),
            y: sum(reals, self.y, product(reals, difference(reals, other.y, self.y), t)),
        }
    }
}

} // verus!
