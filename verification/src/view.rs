//! What the user looks at and how they change it: zoom, time warp, the way
//! the trajectories are shown, and the body whose information is open.

use vstd::prelude::*;
use crate::frame::{run_frame, spec_accumulated, spec_left_over};
use crate::game::Game;
use crate::keyboard_input::{same_text, InputState};
use crate::planet::Planet;
use crate::scalar::{
    answers, at_least, at_most, difference, greater, is_arithmetic, negate, not_less, product,
    quotient, raised, spec_at_least, spec_at_most, spec_difference, spec_greater, spec_negate,
    spec_not_less, spec_product, spec_quotient, spec_raised, spec_sum, sum, Arithmetic, Op, ONE,
    TWO, ZERO,
};
use crate::scene::LEAST_RADIUS;
use crate::vector2::Vector2;

verus! {

/// The factor of one step of the zoom keys: the pattern of 1.2.
pub const ZOOM_STEP: u64 = 0x3FF3_3333_3333_3333;

/// The largest time warp: the pattern of 256.
pub const MAX_TIME_WARP: u64 = 0x4070_0000_0000_0000;

/// The factor by which one line of the wheel zooms in: the pattern of 1.1.
pub const WHEEL_IN: u64 = 0x3FF1_9999_9999_999A;

/// The factor by which one line of the wheel zooms out: the pattern of 0.9.
pub const WHEEL_OUT: u64 = 0x3FEC_CCCC_CCCC_CCCD;

/// The pixels of the wheel that double the zoom: the pattern of 100.
pub const WHEEL_PIXELS: u64 = 0x4059_0000_0000_0000;

/// The left edge of the button that closes the information window: the
/// pattern of 330.
pub const CLOSE_LEFT: u64 = 0x4074_A000_0000_0000;

/// The right edge of that button: the pattern of 345.
pub const CLOSE_RIGHT: u64 = 0x4075_9000_0000_0000;

/// The upper edge of that button: the pattern of 55.
pub const CLOSE_TOP: u64 = 0x404B_8000_0000_0000;

/// The lower edge of that button: the pattern of 70.
pub const CLOSE_BOTTOM: u64 = 0x4051_8000_0000_0000;

/// The keys that change the view.
#[derive(Clone, Copy, PartialEq, Eq, Structural, Debug)]
pub enum ViewKey {
    ZoomIn,
    ZoomOut,
    FasterTime,
    SlowerTime,
    ToggleTrajectories,
}

/// The state of the view. `time_accumulator`, `zoom_level`, `time_warp` and
/// the coordinates of the mouse are binary64 bit patterns.
#[derive(Clone, Copy, PartialEq, Eq, Debug)]
pub struct ViewState {
    pub time_accumulator: u64,
    pub zoom_level: u64,
    pub time_warp: u64,
    pub show_absolute_trajectories: bool,
    pub selected_planet: Option<usize>,
    pub mouse_pos: (u64, u64),
}

impl ViewKey {
    /// The view key that a physical key code names, if it names one.
    pub open spec fn spec_from_code(code: Seq<char>) -> Option<ViewKey> {
        if code == "Equal"@ || code == "NumpadAdd"@ {
            Some(ViewKey::ZoomIn)
        } else if code == "Minus"@ || code == "NumpadSubtract"@ {
            Some(ViewKey::ZoomOut)
        } else if code == "Period"@ {
            Some(ViewKey::FasterTime)
        } else if code == "Comma"@ {
            Some(ViewKey::SlowerTime)
        } else if code == "Tab"@ {
            Some(ViewKey::ToggleTrajectories)
        } else {
            None
        }
    }

    /// The view key that a physical key code names, if it names one.
    pub fn from_code(code: &str) -> (r: Option<ViewKey>)
        ensures
            r == ViewKey::spec_from_code(code@),
    {
        if same_text(code, "Equal") || same_text(code, "NumpadAdd") {
            Some(ViewKey::ZoomIn)
        } else if same_text(code, "Minus") || same_text(code, "NumpadSubtract") {
            Some(ViewKey::ZoomOut)
        } else if same_text(code, "Period") {
            Some(ViewKey::FasterTime)
        } else if same_text(code, "Comma") {
            Some(ViewKey::SlowerTime)
        } else if same_text(code, "Tab") {
            Some(ViewKey::ToggleTrajectories)
        } else {
            None
        }
    }
}

/// The mouse at `(x, y)` is on the button that closes the information
/// window.
pub open spec fn spec_on_close_button(x: u64, y: u64) -> bool {
    spec_not_less(x, CLOSE_LEFT) && spec_not_less(CLOSE_RIGHT, x) && spec_not_less(y, CLOSE_TOP)
        && spec_not_less(CLOSE_BOTTOM, y)
}

/// The mouse at `mouse` is on the disc that shows `planet`, when the camera
/// is at `camera`, enlarges by `scale` and shows the place where it is at
/// `center`: the square of the distance from the mouse to the centre of the
/// disc is no more than the square of its radius.
pub open spec fn spec_hits(
    reals: Arithmetic,
    planet: Planet,
    camera: Vector2,
    scale: u64,
    center: (u64, u64),
    mouse: (u64, u64),
) -> bool {
    let screen_x = spec_sum(
        reals,
        spec_product(reals, spec_difference(reals, planet.position.x, camera.x), scale),
        center.0,
    );
    let screen_y = spec_sum(
        reals,
        spec_product(reals, spec_difference(reals, planet.position.y, camera.y), scale),
        center.1,
    );
    let radius = spec_at_least(spec_product(reals, planet.radius, scale), LEAST_RADIUS);
    let dx = spec_difference(reals, mouse.0, screen_x);
    let dy = spec_difference(reals, mouse.1, screen_y);
    let dist_sq = spec_sum(reals, spec_product(reals, dx, dx), spec_product(reals, dy, dy));
    spec_not_less(spec_product(reals, radius, radius), dist_sq)
}

/// The body that a click selects: the first whose disc the mouse is on, if
/// it is on one.
pub open spec fn clicked(
    reals: Arithmetic,
    planets: Seq<Planet>,
    camera: Vector2,
    scale: u64,
    center: (u64, u64),
    mouse: (u64, u64),
    selected: Option<usize>,
) -> bool {
    match selected {
        Some(index) => {
            &&& index < planets.len()
            &&& spec_hits(reals, planets[index as int], camera, scale, center, mouse)
            &&& forall|j: int|
                0 <= j < index ==> !spec_hits(
                    reals,
                    #[trigger] planets[j],
                    camera,
                    scale,
                    center,
                    mouse,
                )
        },
        None => forall|j: int|
            0 <= j < planets.len() ==> !spec_hits(
                reals,
                #[trigger] planets[j],
                camera,
                scale,
                center,
                mouse,
            ),
    }
}

impl ViewState {
    /// The view at the start: no time accumulated, no zoom, no time warp,
    /// trajectories relative to the dominant bodies, no body selected.
    pub fn new() -> (r: ViewState)
        ensures
            r == (ViewState {
                time_accumulator: ZERO,
                zoom_level: ONE,
                time_warp: ONE,
                show_absolute_trajectories: false,
                selected_planet: None,
                mouse_pos: (ZERO, ZERO),
            }),
    {
        ViewState {
            time_accumulator: ZERO,
            zoom_level: ONE,
            time_warp: ONE,
            show_absolute_trajectories: false,
            selected_planet: None,
            mouse_pos: (ZERO, ZERO),
        }
    }

    /// The view after a view key has gone down: the zoom keys multiply and
    /// divide the zoom by `ZOOM_STEP`; the time keys double the time warp,
    /// up to `MAX_TIME_WARP`, and halve it, down to 1; the last key changes
    /// the way the trajectories are shown.
    pub open spec fn spec_handle_key(self, reals: Arithmetic, key: ViewKey) -> ViewState {
        match key {
            ViewKey::ZoomIn => ViewState {
                zoom_level: spec_product(reals, self.zoom_level, ZOOM_STEP),
                ..self
            },
            ViewKey::ZoomOut => ViewState {
                zoom_level: spec_quotient(reals, self.zoom_level, ZOOM_STEP),
                ..self
            },
            ViewKey::FasterTime => ViewState {
                time_warp: spec_at_most(spec_product(reals, self.time_warp, TWO), MAX_TIME_WARP),
                ..self
            },
            ViewKey::SlowerTime => ViewState {
                time_warp: spec_at_least(spec_quotient(reals, self.time_warp, TWO), ONE),
                ..self
            },
            ViewKey::ToggleTrajectories => ViewState {
                show_absolute_trajectories: !self.show_absolute_trajectories,
                ..self
            },
        }
    }

    /// Takes note that a view key has gone down.
    pub fn handle_key<R: Fn(Op, u64, u64) -> u64>(&mut self, key: ViewKey, reals: &R)
        requires
            is_arithmetic(*reals),
        ensures
            *final(self) == old(self).spec_handle_key(answers(*reals), key),
    {
        match key {
            ViewKey::ZoomIn => {
                self.zoom_level = product(reals, self.zoom_level, ZOOM_STEP);
            },
            ViewKey::ZoomOut => {
                self.zoom_level = quotient(reals, self.zoom_level, ZOOM_STEP);
            },
            ViewKey::FasterTime => {
                self.time_warp = at_most(product(reals, self.time_warp, TWO), MAX_TIME_WARP);
            },
            ViewKey::SlowerTime => {
                self.time_warp = at_least(quotient(reals, self.time_warp, TWO), ONE);
            },
            ViewKey::ToggleTrajectories => {
                self.show_absolute_trajectories = !self.show_absolute_trajectories;
            },
        }
    }

    /// The factor by which `lines` lines of a wheel change the zoom:
    /// `WHEEL_IN` to the power of the lines where the wheel goes up, and
    /// `WHEEL_OUT` to the power of their opposite where it does not.
    pub open spec fn spec_line_factor(reals: Arithmetic, lines: u64) -> u64 {
        if spec_greater(lines, ZERO) {
            spec_raised(reals, WHEEL_IN, lines)
        } else {
            spec_raised(reals, WHEEL_OUT, spec_negate(lines))
        }
    }

    /// Zooms by `lines` lines of a wheel.
    pub fn scroll_lines<R: Fn(Op, u64, u64) -> u64>(&mut self, lines: u64, reals: &R)
        requires
            is_arithmetic(*reals),
        ensures
            *final(self) == (ViewState {
                zoom_level: spec_product(
                    answers(*reals),
                    old(self).zoom_level,
                    Self::spec_line_factor(answers(*reals), lines),
                ),
                ..*old(self)
            }),
    {
        let zoom_factor: u64 = if greater(lines, ZERO) {
            raised(reals, WHEEL_IN, lines)
        } else {
            raised(reals, WHEEL_OUT, negate(lines))
        };
        self.zoom_level = product(reals, self.zoom_level, zoom_factor);
    }

    /// The factor by which `pixels` pixels of a wheel change the zoom:
    /// `1 + pixels / 100` where the wheel goes up, and
    /// `1 / (1 - pixels / 100)` where it does not.
    pub open spec fn spec_pixel_factor(reals: Arithmetic, pixels: u64) -> u64 {
        if spec_greater(pixels, ZERO) {
            spec_sum(reals, ONE, spec_quotient(reals, pixels, WHEEL_PIXELS))
        } else {
            spec_quotient(
                reals,
                ONE,
                spec_difference(reals, ONE, spec_quotient(reals, pixels, WHEEL_PIXELS)),
            )
        }
    }

    /// Zooms by `pixels` pixels of a wheel.
    pub fn scroll_pixels<R: Fn(Op, u64, u64) -> u64>(&mut self, pixels: u64, reals: &R)
        requires
            is_arithmetic(*reals),
        ensures
            *final(self) == (ViewState {
                zoom_level: spec_product(
                    answers(*reals),
                    old(self).zoom_level,
                    Self::spec_pixel_factor(answers(*reals), pixels),
                ),
                ..*old(self)
            }),
    {
        let zoom_factor: u64 = if greater(pixels, ZERO) {
            sum(reals, ONE, quotient(reals, pixels, WHEEL_PIXELS))
        } else {
            quotient(reals, ONE, difference(reals, ONE, quotient(reals, pixels, WHEEL_PIXELS)))
        };
        self.zoom_level = product(reals, self.zoom_level, zoom_factor);
    }

    /// Zooms by one step of a wheel that tells its direction only: in by
    /// `WHEEL_IN` where `delta` is less than zero, out by `WHEEL_OUT` where
    /// it is not.
    pub fn scroll_step<R: Fn(Op, u64, u64) -> u64>(&mut self, delta: u64, reals: &R)
        requires
            is_arithmetic(*reals),
        ensures
            *final(self) == (ViewState {
                zoom_level: spec_product(
                    answers(*reals),
                    old(self).zoom_level,
                    if spec_greater(ZERO, delta) {
                        WHEEL_IN
                    } else {
                        WHEEL_OUT
                    },
                ),
                ..*old(self)
            }),
    {
        let zoom_factor: u64 = if greater(ZERO, delta) {
            WHEEL_IN
        } else {
            WHEEL_OUT
        };
        self.zoom_level = product(reals, self.zoom_level, zoom_factor);
    }

    /// A click of the mouse where it is, on a screen of the given width and
    /// height. On the close button of an open information window it closes
    /// the window. Else it opens the window of the first body under the
    /// mouse, and closes the window where there is no body under it.
    pub fn click<R: Fn(Op, u64, u64) -> u64>(&mut self, game: &Game<R>, width: u64, height: u64)
        requires
            game.wf(),
        ensures
            final(self).time_accumulator == old(self).time_accumulator,
            final(self).zoom_level == old(self).zoom_level,
            final(self).time_warp == old(self).time_warp,
            final(self).show_absolute_trajectories == old(self).show_absolute_trajectories,
            final(self).mouse_pos == old(self).mouse_pos,
            old(self).selected_planet is Some && spec_on_close_button(
                old(self).mouse_pos.0,
                old(self).mouse_pos.1,
            ) ==> final(self).selected_planet is None,
            !(old(self).selected_planet is Some && spec_on_close_button(
                old(self).mouse_pos.0,
                old(self).mouse_pos.1,
            )) ==> clicked(
                answers(game@.reals),
                game@.planets,
                game@.player.position,
                old(self).zoom_level,
                (
                    spec_quotient(answers(game@.reals), width, TWO),
                    spec_quotient(answers(game@.reals), height, TWO),
                ),
                old(self).mouse_pos,
                final(self).selected_planet,
            ),
    {
        let (x, y) = self.mouse_pos;
        if self.selected_planet.is_some() {
            if not_less(x, CLOSE_LEFT) && not_less(CLOSE_RIGHT, x) && not_less(y, CLOSE_TOP)
                && not_less(CLOSE_BOTTOM, y) {
                self.selected_planet = None;
                return ;
            }
        }
        let reals = game.reals();
        let planets = game.planets();
        let center_x: u64 = quotient(reals, width, TWO);
        let center_y: u64 = quotient(reals, height, TWO);
        let camera = game.player().position;
        let scale: u64 = self.zoom_level;
        let mut i: usize = 0;
        while i < planets.len()
            invariant
                is_arithmetic(*reals),
                *reals == game@.reals,
                planets@ == game@.planets,
                camera == game@.player.position,
                center_x == spec_quotient(answers(game@.reals), width, TWO),
                center_y == spec_quotient(answers(game@.reals), height, TWO),
                scale == old(self).zoom_level,
                (x, y) == old(self).mouse_pos,
                *self == *old(self),
                !(old(self).selected_planet is Some && spec_on_close_button(x, y)),
                i <= planets@.len(),
                forall|j: int|
                    0 <= j < i ==> !spec_hits(
                        answers(game@.reals),
                        #[trigger] planets@[j],
                        camera,
                        scale,
                        (center_x, center_y),
                        (x, y),
                    ),
            decreases planets@.len() - i,
        {
            let planet = &planets[i];
            let screen_x: u64 = sum(
                reals,
                product(reals, difference(reals, planet.position.x, camera.x), scale),
                center_x,
            );
            let screen_y: u64 = sum(
                reals,
                product(reals, difference(reals, planet.position.y, camera.y), scale),
                center_y,
            );
            let radius: u64 = at_least(product(reals, planet.radius, scale), LEAST_RADIUS);
            let dx: u64 = difference(reals, x, screen_x);
            let dy: u64 = difference(reals, y, screen_y);
            let dist_sq: u64 = sum(reals, product(reals, dx, dx), product(reals, dy, dy));
            if not_less(product(reals, radius, radius), dist_sq) {
                self.selected_planet = Some(i);
                return ;
            }
            i += 1;
        }
        self.selected_planet = None;
    }

    /// A frame in which `dt` seconds of real time have passed: the time is
    /// added to the accumulator at the time warp of the view, and the
    /// session runs the frame.
    pub fn elapse<R: Fn(Op, u64, u64) -> u64>(
        &mut self,
        game: &mut Game<R>,
        input: &InputState,
        dt: u64,
    )
        requires
            old(game).wf(),
        ensures
            final(game).wf(),
            *final(self) == (ViewState {
                time_accumulator: spec_left_over(
                    answers(old(game)@.reals),
                    spec_accumulated(
                        answers(old(game)@.reals),
                        old(self).time_accumulator,
                        dt,
                        old(self).time_warp,
                    ),
                ),
                ..*old(self)
            }),
            crate::frame::frame_run(
                old(game)@,
                *input,
                old(self).time_accumulator,
                dt,
                old(self).time_warp,
                final(game)@,
            ),
    {
        self.time_accumulator = run_frame(game, input, self.time_accumulator, dt, self.time_warp);
    }
}

} // verus!
