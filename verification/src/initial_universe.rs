//! Orbits to start a universe with.

use vstd::prelude::*;
use crate::scalar::{
    answers, difference, is_arithmetic, magnitude, product, quotient, spec_difference,
    spec_magnitude, spec_product, spec_quotient, spec_square_root, spec_sum, square_root, sum,
    Arithmetic, Op, ONE,
};
use crate::vector2::Vector2;

verus! {

/// The speed at the periapsis of an orbit around a body of mass
/// `center_mass`: for a circular orbit the root of `G * M / r`, for an
/// eccentric one the root of `G * M * (1 + e) / (r * (1 - e))`.
pub open spec fn spec_orbital_speed(
    reals: Arithmetic,
    center_mass: u64,
    radius: u64,
    eccentricity: u64,
    big_gravity: u64,
) -> u64 {
    if spec_magnitude(eccentricity) == 0 {
        spec_square_root(
            reals,
            spec_quotient(reals, spec_product(reals, big_gravity, center_mass), radius),
        )
    } else {
        spec_square_root(
            reals,
            spec_quotient(
                reals,
                spec_product(
                    reals,
                    spec_product(reals, big_gravity, center_mass),
                    spec_sum(reals, ONE, eccentricity),
                ),
                spec_product(reals, radius, spec_difference(reals, ONE, eccentricity)),
            ),
        )
    }
}

/// Position and velocity of a body on a stable orbit around a centre body,
/// as it passes its periapsis: it starts at the distance `radius` to the
/// right of the centre and moves with the centre, and at the orbital speed
/// at a right angle to the radius.
pub fn calculate_stable_orbit<R: Fn(Op, u64, u64) -> u64>(
    center_position: Vector2,
    center_velocity: Vector2,
    center_mass: u64,
    radius: u64,
    eccentricity: u64,
    big_gravity: u64,
    reals: &R,
) -> (r: (Vector2, Vector2))
    requires
        is_arithmetic(*reals),
    ensures
        r.0 == (Vector2 {
            x: spec_sum(answers(*reals), center_position.x, radius),
            y: center_position.y,
        }),
        r.1 == (Vector2 {
            x: center_velocity.x,
            y: spec_sum(
                answers(*reals),
                center_velocity.y,
                spec_orbital_speed(answers(*reals), center_mass, radius, eccentricity, big_gravity),
            ),
        }),
{
    let orbital_speed: u64 = if magnitude(eccentricity) == 0 {
        square_root(reals, quotient(reals, product(reals, big_gravity, center_mass), radius))
    } else {
        square_root(
            reals,
            quotient(
                reals,
                product(
                    reals,
                    product(reals, big_gravity, center_mass),
                    sum(reals, ONE, eccentricity),
                ),
                product(reals, radius, difference(reals, ONE, eccentricity)),
            ),
        )
    };
    let position = Vector2 { x: sum(reals, center_position.x, radius), y: center_position.y };
    let velocity = Vector2 {
        x: center_velocity.x,
        y: sum(reals, center_velocity.y, orbital_speed),
    };
    (position, velocity)
}

} // verus!
