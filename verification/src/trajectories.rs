//! Drawing of the predicted trajectories.
//!
//! A trajectory is drawn as the lines that join its cached positions, one
//! after the other, as the camera shows them: either where they are, or
//! where they are relative to the body that pulls hardest at what moves.

use vstd::prelude::*;
use std::collections::VecDeque;
use crate::game::{CachedTrajectories, Game};
use crate::planet::Planet;
use crate::render::{
    dim_color, draw_line, find_dominant_planet, is_dominant, law_dominant_is_unique, pulls_at,
    spec_dim_color, with_line, Pull, Segment, MAX_SIDE,
};
use crate::scalar::{
    answers, difference, is_arithmetic, product, spec_difference, spec_product, spec_to_signed,
    to_signed, Arithmetic, Op,
};
use crate::vector2::Vector2;

verus! {

/// The colour of the player's trajectory.
pub const PLAYER_TRAIL: u32 = 0x800000;

/// Where the camera is, how much it enlarges, and the pixel that shows the
/// place where it is. `x`, `y` and `scale` are binary64 bit patterns.
#[derive(Clone, Copy, PartialEq, Eq, Structural, Debug)]
pub struct Camera {
    pub x: u64,
    pub y: u64,
    pub scale: u64,
    pub center_x: usize,
    pub center_y: usize,
}

/// The integer kept within the least and the largest `i32`.
pub open spec fn spec_clamped(n: int) -> int {
    if n < -0x8000_0000 {
        -0x8000_0000
    } else if n > 0x7FFF_FFFF {
        0x7FFF_FFFF
    } else {
        n
    }
}

/// The integer kept within the least and the largest `i32`.
pub fn clamped(n: i64) -> (r: i32)
    ensures
        r == spec_clamped(n as int),
{
    if n < -0x8000_0000 {
        -0x8000_0000
    } else if n > 0x7FFF_FFFF {
        0x7FFF_FFFF
    } else {
        n as i32
    }
}

/// The column or row of the pixel that shows a coordinate which lies
/// `offset` from the camera: `offset * scale`, cut to an integer, counted
/// from the centre of the screen.
pub open spec fn spec_on_screen(reals: Arithmetic, offset: u64, scale: u64, center: int) -> int {
    spec_clamped(spec_to_signed(reals, spec_product(reals, offset, scale)) + center)
}

/// The column or row of the pixel that shows a coordinate which lies
/// `offset` from the camera.
pub fn on_screen<R: Fn(Op, u64, u64) -> u64>(
    reals: &R,
    offset: u64,
    scale: u64,
    center: usize,
) -> (r: i32)
    requires
        is_arithmetic(*reals),
        center <= MAX_SIDE,
    ensures
        r == spec_on_screen(answers(*reals), offset, scale, center as int),
{
    clamped(to_signed(reals, product(reals, offset, scale)) as i64 + center as i64)
}

impl Camera {
    /// The centre of the screen lies on a screen that can be drawn on.
    pub open spec fn wf(self) -> bool {
        self.center_x <= MAX_SIDE && self.center_y <= MAX_SIDE
    }

    /// The pixel that shows the point `p`: `(p - camera) * scale`, counted
    /// from the centre of the screen.
    pub open spec fn spec_project(self, reals: Arithmetic, p: Vector2) -> (int, int) {
        (
            spec_on_screen(
                reals,
                spec_difference(reals, p.x, self.x),
                self.scale,
                self.center_x as int,
            ),
            spec_on_screen(
                reals,
                spec_difference(reals, p.y, self.y),
                self.scale,
                self.center_y as int,
            ),
        )
    }

    /// The pixel that shows the point `p`.
    pub fn project<R: Fn(Op, u64, u64) -> u64>(&self, p: &Vector2, reals: &R) -> (r: (i32, i32))
        requires
            is_arithmetic(*reals),
            self.wf(),
        ensures
            (r.0 as int, r.1 as int) == self.spec_project(answers(*reals), *p),
    {
        (
            on_screen(reals, difference(reals, p.x, self.x), self.scale, self.center_x),
            on_screen(reals, difference(reals, p.y, self.y), self.scale, self.center_y),
        )
    }

    /// The pixel that shows the point `p` relative to a body: `p` is taken
    /// relative to where the body is at the same tick, `then`, and shown
    /// where the body is `now`: `((p - then) - (camera - now)) * scale`,
    /// counted from the centre of the screen.
    pub open spec fn spec_project_relative(
        self,
        reals: Arithmetic,
        p: Vector2,
        then: Vector2,
        now: Vector2,
    ) -> (int, int) {
        (
            spec_on_screen(
                reals,
                spec_difference(
                    reals,
                    spec_difference(reals, p.x, then.x),
                    spec_difference(reals, self.x, now.x),
                ),
                self.scale,
                self.center_x as int,
            ),
            spec_on_screen(
                reals,
                spec_difference(
                    reals,
                    spec_difference(reals, p.y, then.y),
                    spec_difference(reals, self.y, now.y),
                ),
                self.scale,
                self.center_y as int,
            ),
        )
    }

    /// The pixel that shows the point `p` relative to a body.
    pub fn project_relative<R: Fn(Op, u64, u64) -> u64>(
        &self,
        p: &Vector2,
        then: &Vector2,
        now: &Vector2,
        reals: &R,
    ) -> (r: (i32, i32))
        requires
            is_arithmetic(*reals),
            self.wf(),
        ensures
            (r.0 as int, r.1 as int) == self.spec_project_relative(
                answers(*reals),
                *p,
                *then,
                *now,
            ),
    {
        let rel_x: u64 = difference(reals, p.x, then.x);
        let rel_y: u64 = difference(reals, p.y, then.y);
        (
            on_screen(
                reals,
                difference(reals, rel_x, difference(reals, self.x, now.x)),
                self.scale,
                self.center_x,
            ),
            on_screen(
                reals,
                difference(reals, rel_y, difference(reals, self.y, now.y)),
                self.scale,
                self.center_y,
            ),
        )
    }
}

/// The buffer with the first `segments` lines of a polyline drawn into it,
/// one after the other: the line from the first point to the second, from
/// the second to the third, and so on.
pub open spec fn with_polyline(
    before: Seq<u32>,
    width: int,
    height: int,
    points: Seq<(int, int)>,
    color: u32,
    segments: nat,
) -> Seq<u32>
    decreases segments,
{
    if segments == 0 {
        before
    } else {
        with_line(
            with_polyline(before, width, height, points, color, (segments - 1) as nat),
            width,
            height,
            Segment {
                x0: points[segments - 1].0,
                y0: points[segments - 1].1,
                x1: points[segments as int].0,
                y1: points[segments as int].1,
            },
            color,
        )
    }
}

/// The buffer with the whole polyline through `points` drawn into it. One
/// point alone leaves no mark.
pub open spec fn with_trail(
    before: Seq<u32>,
    width: int,
    height: int,
    points: Seq<(int, int)>,
    color: u32,
) -> Seq<u32> {
    with_polyline(
        before,
        width,
        height,
        points,
        color,
        if points.len() == 0 {
            0
        } else {
            (points.len() - 1) as nat
        },
    )
}

/// The pixels that show the positions of a trajectory where they are.
pub open spec fn absolute_points(
    reals: Arithmetic,
    camera: Camera,
    positions: Seq<Vector2>,
) -> Seq<(int, int)> {
    Seq::new(positions.len(), |i: int| camera.spec_project(reals, positions[i]))
}

/// The pixels that show the positions of a trajectory relative to a body
/// that is at `then[i]` at tick `i` and at `now` at present.
pub open spec fn relative_points(
    reals: Arithmetic,
    camera: Camera,
    positions: Seq<Vector2>,
    then: Seq<Vector2>,
    now: Vector2,
) -> Seq<(int, int)> {
    Seq::new(
        positions.len(),
        |i: int| camera.spec_project_relative(reals, positions[i], then[i], now),
    )
}

/// The pixels that show the positions of a trajectory: relative to the body
/// of `reference` where there is one, and where they are where there is
/// none. The reference is a body's cached positions and its present one.
pub open spec fn trail_points(
    reals: Arithmetic,
    camera: Camera,
    positions: Seq<Vector2>,
    reference: Option<(Seq<Vector2>, Vector2)>,
) -> Seq<(int, int)> {
    match reference {
        Some((then, now)) => relative_points(reals, camera, positions, then, now),
        None => absolute_points(reals, camera, positions),
    }
}

/// Draws the trajectory through the cached `positions`, relative to the
/// body of `reference` where there is one.
pub fn draw_trail<R: Fn(Op, u64, u64) -> u64>(
    buffer: &mut [u32],
    width: usize,
    height: usize,
    positions: &VecDeque<Vector2>,
    reference: Option<(&VecDeque<Vector2>, Vector2)>,
    camera: &Camera,
    color: u32,
    reals: &R,
)
    requires
        is_arithmetic(*reals),
        camera.wf(),
        width <= MAX_SIDE,
        height <= MAX_SIDE,
        width * height <= old(buffer)@.len(),
        reference matches Some((then, now)) ==> then@.len() == positions@.len(),
    ensures
        final(buffer)@.len() == old(buffer)@.len(),
        final(buffer)@ == with_trail(
            old(buffer)@,
            width as int,
            height as int,
            trail_points(
                answers(*reals),
                *camera,
                positions@,
                match reference {
                    Some((then, now)) => Some((then@, now)),
                    None => None,
                },
            ),
            color,
        ),
{
    let ghost points = trail_points(
        answers(*reals),
        *camera,
        positions@,
        match reference {
            Some((then, now)) => Some((then@, now)),
            None => None,
        },
    );
    let mut last_pos: Option<(i32, i32)> = None;
    let mut idx: usize = 0;
    while idx < positions.len()
        invariant
            is_arithmetic(*reals),
            camera.wf(),
            width <= MAX_SIDE,
            height <= MAX_SIDE,
            width * height <= buffer@.len(),
            buffer@.len() == old(buffer)@.len(),
            reference matches Some((then, now)) ==> then@.len() == positions@.len(),
            idx <= positions@.len(),
            points == trail_points(
                answers(*reals),
                *camera,
                positions@,
                match reference {
                    Some((then, now)) => Some((then@, now)),
                    None => None,
                },
            ),
            points.len() == positions@.len(),
            idx == 0 ==> last_pos is None,
            idx > 0 ==> last_pos == Some(
                (points[idx - 1].0 as i32, points[idx - 1].1 as i32),
            ) && points[idx - 1].0 == points[idx - 1].0 as i32 && points[idx - 1].1 == points[idx
                - 1].1 as i32,
            buffer@ == with_polyline(
                old(buffer)@,
                width as int,
                height as int,
                points,
                color,
                if idx == 0 {
                    0
                } else {
                    (idx - 1) as nat
                },
            ),
        decreases positions@.len() - idx,
    {
        let screen: (i32, i32) = match reference {
            Some((then, now)) => camera.project_relative(&positions[idx], &then[idx], &now, reals),
            None => camera.project(&positions[idx], reals),
        };
        assert(points[idx as int] == (screen.0 as int, screen.1 as int));
        match last_pos {
            Some((last_x, last_y)) => {
                draw_line(buffer, width, height, last_x, last_y, screen.0, screen.1, color);
            },
            None => {},
        }
        last_pos = Some(screen);
        idx += 1;
    }
}

/// The buffer with the trajectories of the player and of the first
/// `bodies` passive bodies but the very first drawn into it where they are:
/// the player's first, in `PLAYER_TRAIL`, then each body's in its own colour
/// at half its brightness. The very first body is the one that the others
/// circle; its trajectory is not drawn.
pub open spec fn with_absolute_trails(
    before: Seq<u32>,
    width: int,
    height: int,
    reals: Arithmetic,
    planets: Seq<Planet>,
    cache: CachedTrajectories,
    camera: Camera,
    bodies: int,
) -> Seq<u32>
    decreases bodies,
{
    if bodies <= 1 {
        with_trail(
            before,
            width,
            height,
            absolute_points(reals, camera, cache.player_positions@),
            PLAYER_TRAIL,
        )
    } else {
        with_trail(
            with_absolute_trails(before, width, height, reals, planets, cache, camera, bodies - 1),
            width,
            height,
            absolute_points(reals, camera, cache.planet_positions@[bodies - 1]@),
            spec_dim_color(planets[bodies - 1].color),
        )
    }
}

/// Draws the trajectories of the player and of the passive bodies where
/// they are.
pub fn draw_absolute_trajectories<R: Fn(Op, u64, u64) -> u64>(
    buffer: &mut [u32],
    width: usize,
    height: usize,
    game: &Game<R>,
    camera: &Camera,
)
    requires
        game.wf(),
        camera.wf(),
        width <= MAX_SIDE,
        height <= MAX_SIDE,
        width * height <= old(buffer)@.len(),
    ensures
        final(buffer)@.len() == old(buffer)@.len(),
        final(buffer)@ == with_absolute_trails(
            old(buffer)@,
            width as int,
            height as int,
            answers(game@.reals),
            game@.planets,
            game@.cache,
            *camera,
            game@.planets.len() as int,
        ),
{
    let cache = game.cached_trajectories();
    let planets = game.planets();
    let reals = game.reals();
    draw_trail(buffer, width, height, &cache.player_positions, None, camera, PLAYER_TRAIL, reals);
    let mut i: usize = 1;
    while i < planets.len()
        invariant
            game.wf(),
            camera.wf(),
            *cache == game@.cache,
            planets@ == game@.planets,
            *reals == game@.reals,
            width <= MAX_SIDE,
            height <= MAX_SIDE,
            width * height <= buffer@.len(),
            buffer@.len() == old(buffer)@.len(),
            1 <= i,
            planets@.len() == 0 ==> i == 1,
            planets@.len() > 0 ==> i <= planets@.len(),
            buffer@ == with_absolute_trails(
                old(buffer)@,
                width as int,
                height as int,
                answers(game@.reals),
                game@.planets,
                game@.cache,
                *camera,
                i as int,
            ),
        decreases planets@.len() - i,
    {
        let color: u32 = dim_color(planets[i].color);
        draw_trail(buffer, width, height, &cache.planet_positions[i], None, camera, color, reals);
        i += 1;
    }
    proof {
        if planets@.len() == 0 {
            assert(with_absolute_trails(
                old(buffer)@,
                width as int,
                height as int,
                answers(game@.reals),
                game@.planets,
                game@.cache,
                *camera,
                0,
            ) == with_absolute_trails(
                old(buffer)@,
                width as int,
                height as int,
                answers(game@.reals),
                game@.planets,
                game@.cache,
                *camera,
                1,
            ));
        }
    }
}

/// The body that pulls hardest among `pulls`.
pub open spec fn spec_dominant(pulls: Seq<Pull>) -> int {
    choose|index: int| is_dominant(pulls, index)
}

/// The buffer with the trajectories of the player and of the first
/// `bodies` passive bodies but the very first drawn into it, each relative
/// to the body that pulls hardest at it now: the player's first, in
/// `PLAYER_TRAIL`, then each body's in its own colour at half its
/// brightness.
pub open spec fn with_relative_trails(
    before: Seq<u32>,
    width: int,
    height: int,
    reals: Arithmetic,
    big_gravity: u64,
    player_position: Vector2,
    planets: Seq<Planet>,
    cache: CachedTrajectories,
    camera: Camera,
    bodies: int,
) -> Seq<u32>
    decreases bodies,
{
    if bodies <= 1 {
        let dominant = spec_dominant(pulls_at(reals, big_gravity, planets, player_position));
        with_trail(
            before,
            width,
            height,
            relative_points(
                reals,
                camera,
                cache.player_positions@,
                cache.planet_positions@[dominant]@,
                planets[dominant].position,
            ),
            PLAYER_TRAIL,
        )
    } else {
        let dominant = spec_dominant(
            pulls_at(reals, big_gravity, planets, planets[bodies - 1].position),
        );
        with_trail(
            with_relative_trails(
                before,
                width,
                height,
                reals,
                big_gravity,
                player_position,
                planets,
                cache,
                camera,
                bodies - 1,
            ),
            width,
            height,
            relative_points(
                reals,
                camera,
                cache.planet_positions@[bodies - 1]@,
                cache.planet_positions@[dominant]@,
                planets[dominant].position,
            ),
            spec_dim_color(planets[bodies - 1].color),
        )
    }
}

/// Draws the trajectories of the player and of the passive bodies, each
/// relative to the body that pulls hardest at it now. There has to be a
/// passive body.
pub fn draw_relative_trajectories<R: Fn(Op, u64, u64) -> u64>(
    buffer: &mut [u32],
    width: usize,
    height: usize,
    game: &Game<R>,
    camera: &Camera,
)
    requires
        game.wf(),
        game@.planets.len() > 0,
        camera.wf(),
        width <= MAX_SIDE,
        height <= MAX_SIDE,
        width * height <= old(buffer)@.len(),
    ensures
        final(buffer)@.len() == old(buffer)@.len(),
        final(buffer)@ == with_relative_trails(
            old(buffer)@,
            width as int,
            height as int,
            answers(game@.reals),
            game@.big_gravity,
            game@.player.position,
            game@.planets,
            game@.cache,
            *camera,
            game@.planets.len() as int,
        ),
{
    let cache = game.cached_trajectories();
    let planets = game.planets();
    let reals = game.reals();
    let player_dominant: usize = find_dominant_planet(game, &game.player().position);
    proof {
        lemma_dominant_found(
            pulls_at(answers(game@.reals), game@.big_gravity, game@.planets, game@.player.position),
            player_dominant as int,
        );
    }
    draw_trail(
        buffer,
        width,
        height,
        &cache.player_positions,
        Some((&cache.planet_positions[player_dominant], planets[player_dominant].position)),
        camera,
        PLAYER_TRAIL,
        reals,
    );
    let mut i: usize = 1;
    while i < planets.len()
        invariant
            game.wf(),
            game@.planets.len() > 0,
            camera.wf(),
            *cache == game@.cache,
            planets@ == game@.planets,
            *reals == game@.reals,
            width <= MAX_SIDE,
            height <= MAX_SIDE,
            width * height <= buffer@.len(),
            buffer@.len() == old(buffer)@.len(),
            1 <= i <= planets@.len(),
            buffer@ == with_relative_trails(
                old(buffer)@,
                width as int,
                height as int,
                answers(game@.reals),
                game@.big_gravity,
                game@.player.position,
                game@.planets,
                game@.cache,
                *camera,
                i as int,
            ),
        decreases planets@.len() - i,
    {
        let color: u32 = dim_color(planets[i].color);
        let planet_dominant: usize = find_dominant_planet(game, &planets[i].position);
        proof {
            lemma_dominant_found(
                pulls_at(
                    answers(game@.reals),
                    game@.big_gravity,
                    game@.planets,
                    game@.planets[i as int].position,
                ),
                planet_dominant as int,
            );
        }
        draw_trail(
            buffer,
            width,
            height,
            &cache.planet_positions[i],
            Some((&cache.planet_positions[planet_dominant], planets[planet_dominant].position)),
            camera,
            color,
            reals,
        );
        i += 1;
    }
}

/// The dominant body that was found is the dominant body, and it is one of
/// the bodies where there is a body.
pub proof fn lemma_dominant_found(pulls: Seq<Pull>, found: int)
    requires
        is_dominant(pulls, found),
    ensures
        spec_dominant(pulls) == found,
        pulls.len() > 0 ==> 0 <= found < pulls.len(),
{
    law_dominant_is_unique(pulls, found, spec_dominant(pulls));
}

/// Draws the predicted trajectories, where they are or relative to the
/// dominant bodies. Nothing is drawn while the cache is not valid.
pub fn draw_orbital_predictions<R: Fn(Op, u64, u64) -> u64>(
    buffer: &mut [u32],
    width: usize,
    height: usize,
    game: &Game<R>,
    camera: &Camera,
    show_absolute: bool,
)
    requires
        game.wf(),
        !show_absolute ==> game@.planets.len() > 0,
        camera.wf(),
        width <= MAX_SIDE,
        height <= MAX_SIDE,
        width * height <= old(buffer)@.len(),
    ensures
        final(buffer)@.len() == old(buffer)@.len(),
        final(buffer)@ == if show_absolute {
            with_absolute_trails(
                old(buffer)@,
                width as int,
                height as int,
                answers(game@.reals),
                game@.planets,
                game@.cache,
                *camera,
                game@.planets.len() as int,
            )
        } else {
            with_relative_trails(
                old(buffer)@,
                width as int,
                height as int,
                answers(game@.reals),
                game@.big_gravity,
                game@.player.position,
                game@.planets,
                game@.cache,
                *camera,
                game@.planets.len() as int,
            )
        },
{
    if !game.cached_trajectories().is_valid {
        return ;
    }
    if show_absolute {
        draw_absolute_trajectories(buffer, width, height, game, camera);
    } else {
        draw_relative_trajectories(buffer, width, height, game, camera);
    }
}

} // verus!
