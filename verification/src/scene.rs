//! The picture of a session: trajectories, bodies, the player and its flame.

use vstd::prelude::*;
use crate::game::{CachedTrajectories, Game};
use crate::planet::Planet;
use crate::player::Player;
use crate::render::{draw_circle, in_disc, MAX_SIDE};
use crate::scalar::{
    answers, at_least, product, spec_at_least, spec_product, spec_to_signed, to_signed,
    Arithmetic, Op, ONE,
};
use crate::shapes::{
    cells, draw_rotated_triangle, draw_thrust_flame, flame_strokes, painted, triangle_strokes,
};
use crate::sprite_renderer::{draw_circular_sprite, sprite_pixel};
use crate::texture::Texture;
use crate::trajectories::{
    draw_orbital_predictions, with_absolute_trails, with_relative_trails, Camera,
};

verus! {

/// The colour of empty space.
pub const SPACE: u32 = 0x000000;

/// The colour of the player's marker.
pub const PLAYER_COLOR: u32 = 0xFF0000;

/// Distance from the centre of the player's marker to its tip, in pixels.
pub const PLAYER_LENGTH: i32 = 8;

/// Half the width of the base of the player's marker, in pixels.
pub const PLAYER_HALF_BASE: i32 = 6;

/// Length of the flame of the thruster, in pixels.
pub const FLAME_LENGTH: i32 = 12;

/// The least radius that a body is drawn with: the pattern of 5.
pub const LEAST_RADIUS: u64 = 0x4014_0000_0000_0000;

/// The buffer with a disc filled in `color`.
pub open spec fn with_disc(
    before: Seq<u32>,
    width: int,
    height: int,
    cx: int,
    cy: int,
    radius: int,
    color: u32,
) -> Seq<u32> {
    Seq::new(
        before.len(),
        |i: int|
            if i < width * height && in_disc(i % width - cx, i / width - cy, radius) {
                color
            } else {
                before[i]
            },
    )
}

/// The buffer with a texture drawn onto a disc.
pub open spec fn with_sprite(
    before: Seq<u32>,
    width: int,
    height: int,
    cx: int,
    cy: int,
    radius: int,
    texture: Texture,
    reals: Arithmetic,
) -> Seq<u32> {
    Seq::new(
        before.len(),
        |i: int|
            if i < width * height && in_disc(i % width - cx, i / width - cy, radius) {
                sprite_pixel(reals, texture, radius, i % width - cx, i / width - cy, before[i])
            } else {
                before[i]
            },
    )
}

/// The radius in pixels that a body of the given radius is drawn with:
/// `radius * scale`, but `LEAST_RADIUS` at least, cut to an integer.
pub open spec fn spec_screen_radius(reals: Arithmetic, radius: u64, scale: u64) -> int {
    spec_to_signed(reals, spec_at_least(spec_product(reals, radius, scale), LEAST_RADIUS))
}

/// The radius in pixels that a body of the given radius is drawn with.
pub fn screen_radius<R: Fn(Op, u64, u64) -> u64>(reals: &R, radius: u64, scale: u64) -> (r: i32)
    requires
        crate::scalar::is_arithmetic(*reals),
    ensures
        r == spec_screen_radius(answers(*reals), radius, scale),
{
    to_signed(reals, at_least(product(reals, radius, scale), LEAST_RADIUS))
}

/// The camera that follows the player: it is where the player is, enlarges
/// by `1 * zoom_level`, and shows the player in the middle of the screen.
pub open spec fn spec_camera(
    reals: Arithmetic,
    player: Player,
    zoom_level: u64,
    width: int,
    height: int,
) -> Camera {
    Camera {
        x: player.position.x,
        y: player.position.y,
        scale: spec_product(reals, ONE, zoom_level),
        center_x: (width / 2) as usize,
        center_y: (height / 2) as usize,
    }
}

/// The buffer with the first `count` passive bodies drawn into it, one
/// after the other: each as a disc around the pixel that shows its
/// position, with its texture where it has one and in its colour where it
/// has none.
pub open spec fn with_planets(
    before: Seq<u32>,
    width: int,
    height: int,
    reals: Arithmetic,
    planets: Seq<Planet>,
    camera: Camera,
    count: int,
) -> Seq<u32>
    decreases count,
{
    if count <= 0 {
        before
    } else {
        let planet = planets[count - 1];
        let so_far = with_planets(before, width, height, reals, planets, camera, count - 1);
        let at = camera.spec_project(reals, planet.position);
        let radius = spec_screen_radius(reals, planet.radius, camera.scale);
        match planet.texture {
            Some(texture) => with_sprite(so_far, width, height, at.0, at.1, radius, texture, reals),
            None => with_disc(so_far, width, height, at.0, at.1, radius, planet.color),
        }
    }
}

/// The buffer with the predicted trajectories drawn into it: where they are
/// where `show_absolute` is set, relative to the dominant bodies where it is
/// not. Relative trajectories need a passive body; without one none are
/// drawn.
pub open spec fn with_predictions(
    before: Seq<u32>,
    width: int,
    height: int,
    reals: Arithmetic,
    big_gravity: u64,
    player: Player,
    planets: Seq<Planet>,
    cache: CachedTrajectories,
    camera: Camera,
    show_absolute: bool,
) -> Seq<u32> {
    if show_absolute {
        with_absolute_trails(
            before,
            width,
            height,
            reals,
            planets,
            cache,
            camera,
            planets.len() as int,
        )
    } else if planets.len() > 0 {
        with_relative_trails(
            before,
            width,
            height,
            reals,
            big_gravity,
            player.position,
            planets,
            cache,
            camera,
            planets.len() as int,
        )
    } else {
        before
    }
}

/// The picture of a session on a screen of the given size: empty space, on
/// it the predicted trajectories, on them the passive bodies, in the middle
/// the player's marker, and behind the player the flame while it thrusts.
pub open spec fn picture(
    length: nat,
    width: int,
    height: int,
    reals: Arithmetic,
    big_gravity: u64,
    player: Player,
    planets: Seq<Planet>,
    cache: CachedTrajectories,
    is_thrusting: bool,
    zoom_level: u64,
    show_absolute: bool,
) -> Seq<u32> {
    let camera = spec_camera(reals, player, zoom_level, width, height);
    let space = Seq::new(length, |i: int| SPACE);
    let predicted = with_predictions(
        space,
        width,
        height,
        reals,
        big_gravity,
        player,
        planets,
        cache,
        camera,
        show_absolute,
    );
    let bodies = with_planets(
        predicted,
        width,
        height,
        reals,
        planets,
        camera,
        planets.len() as int,
    );
    let marked = painted(
        bodies,
        width,
        height,
        triangle_strokes(
            reals,
            camera.center_x as int,
            camera.center_y as int,
            PLAYER_LENGTH as int,
            PLAYER_HALF_BASE as int,
            player.rotation,
            PLAYER_COLOR,
        ),
        cells(PLAYER_LENGTH as int, PLAYER_HALF_BASE as int),
    );
    if is_thrusting {
        painted(
            marked,
            width,
            height,
            flame_strokes(
                reals,
                camera.center_x as int,
                camera.center_y as int,
                player.rotation,
                FLAME_LENGTH as int,
            ),
            (5 * FLAME_LENGTH) as nat,
        )
    } else {
        marked
    }
}

/// Every texture of the passive bodies holds one pixel for every place.
pub open spec fn textures_wf(planets: Seq<Planet>) -> bool {
    forall|i: int|
        0 <= i < planets.len() ==> ((#[trigger] planets[i]).texture matches Some(texture)
            ==> texture.wf())
}

/// Draws the picture of a session over whatever the buffer held.
pub fn draw_scene<R: Fn(Op, u64, u64) -> u64>(
    buffer: &mut [u32],
    width: usize,
    height: usize,
    game: &Game<R>,
    is_thrusting: bool,
    zoom_level: u64,
    show_absolute_trajectories: bool,
)
    requires
        game.wf(),
        textures_wf(game@.planets),
        width <= MAX_SIDE,
        height <= MAX_SIDE,
        width * height <= old(buffer)@.len(),
    ensures
        final(buffer)@ == picture(
            old(buffer)@.len(),
            width as int,
            height as int,
            answers(game@.reals),
            game@.big_gravity,
            game@.player,
            game@.planets,
            game@.cache,
            is_thrusting,
            zoom_level,
            show_absolute_trajectories,
        ),
{
    let reals = game.reals();
    let planets = game.planets();
    let player = game.player();
    let length: usize = buffer.len();
    let mut i: usize = 0;
    while i < length
        invariant
            length == buffer@.len(),
            buffer@.len() == old(buffer)@.len(),
            i <= length,
            forall|k: int| 0 <= k < i ==> #[trigger] buffer@[k] == SPACE,
        decreases length - i,
    {
        buffer[i] = SPACE;
        i += 1;
    }
    let ghost space = Seq::new(old(buffer)@.len(), |i: int| SPACE);
    assert(buffer@ =~= space);

    let camera = Camera {
        x: player.position.x,
        y: player.position.y,
        scale: product(reals, ONE, zoom_level),
        center_x: width / 2,
        center_y: height / 2,
    };
    assert(camera == spec_camera(
        answers(game@.reals),
        game@.player,
        zoom_level,
        width as int,
        height as int,
    ));

    if show_absolute_trajectories || planets.len() > 0 {
        draw_orbital_predictions(buffer, width, height, game, &camera, show_absolute_trajectories);
    }
    let ghost predicted = buffer@;

    let mut j: usize = 0;
    while j < planets.len()
        invariant
            game.wf(),
            textures_wf(game@.planets),
            *reals == game@.reals,
            planets@ == game@.planets,
            camera.wf(),
            width <= MAX_SIDE,
            height <= MAX_SIDE,
            width * height <= buffer@.len(),
            buffer@.len() == old(buffer)@.len(),
            predicted.len() == old(buffer)@.len(),
            j <= planets@.len(),
            buffer@ == with_planets(
                predicted,
                width as int,
                height as int,
                answers(game@.reals),
                game@.planets,
                camera,
                j as int,
            ),
        decreases planets@.len() - j,
    {
        let ghost so_far = buffer@;
        let planet = &planets[j];
        let (screen_x, screen_y) = camera.project(&planet.position, reals);
        let radius: i32 = screen_radius(reals, planet.radius, camera.scale);
        match &planet.texture {
            Some(texture) => {
                draw_circular_sprite(
                    buffer,
                    width,
                    height,
                    screen_x,
                    screen_y,
                    radius,
                    texture,
                    reals,
                );
                assert(buffer@ =~= with_sprite(
                    so_far,
                    width as int,
                    height as int,
                    screen_x as int,
                    screen_y as int,
                    radius as int,
                    *texture,
                    answers(game@.reals),
                ));
            },
            None => {
                draw_circle(buffer, width, height, screen_x, screen_y, radius, planet.color);
                assert(buffer@ =~= with_disc(
                    so_far,
                    width as int,
                    height as int,
                    screen_x as int,
                    screen_y as int,
                    radius as int,
                    planet.color,
                ));
            },
        }
        j += 1;
    }

    draw_rotated_triangle(
        buffer,
        width,
        height,
        camera.center_x as i32,
        camera.center_y as i32,
        PLAYER_LENGTH,
        PLAYER_HALF_BASE,
        player.rotation,
        PLAYER_COLOR,
        reals,
    );
    if is_thrusting {
        draw_thrust_flame(
            buffer,
            width,
            height,
            camera.center_x as i32,
            camera.center_y as i32,
            player.rotation,
            FLAME_LENGTH,
            reals,
        );
    }
}

} // verus!
