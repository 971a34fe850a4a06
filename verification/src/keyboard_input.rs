//! Held keys, and what they do to a session.

use vstd::prelude::*;
use crate::game::{spec_thrust, Game, GameView};
use crate::player::Player;
use crate::prediction::prediction;
use crate::scalar::{answers, negate, product, spec_negate, spec_product, spec_sum, Arithmetic, Op};

verus! {

/// Radians per second that a held rotation key turns the player by: the
/// pattern of 3.
pub const ROTATION_SPEED: u64 = 0x4008_0000_0000_0000;

/// The keys that steer the player. `Other` stands for every key that does
/// not.
#[derive(Clone, Copy, PartialEq, Eq, Structural, Debug)]
pub enum Key {
    KeyA,
    KeyD,
    KeyW,
    ArrowLeft,
    ArrowRight,
    ArrowUp,
    Space,
    Other,
}

/// What a held key asks of the player.
#[derive(Clone, Copy, PartialEq, Eq, Structural, Debug)]
pub enum Control {
    RotateLeft,
    RotateRight,
    Thrust,
}

/// Which controls are held down.
#[derive(Clone, Copy, PartialEq, Eq, Structural, Debug)]
pub struct InputState {
    pub rotate_left: bool,
    pub rotate_right: bool,
    pub thrust: bool,
}

/// `==` on `str`. Claimed: it tells whether the two strings hold the same
/// characters in the same order.
#[verifier::external_body]
pub(crate) fn same_text(a: &str, b: &str) -> (r: bool)
    ensures
        r == (a@ == b@),
{
    a == b
}

impl Key {
    /// The key that a physical key code names.
    pub open spec fn spec_from_code(code: Seq<char>) -> Key {
        if code == "KeyA"@ {
            Key::KeyA
        } else if code == "KeyD"@ {
            Key::KeyD
        } else if code == "KeyW"@ {
            Key::KeyW
        } else if code == "ArrowLeft"@ {
            Key::ArrowLeft
        } else if code == "ArrowRight"@ {
            Key::ArrowRight
        } else if code == "ArrowUp"@ {
            Key::ArrowUp
        } else if code == "Space"@ {
            Key::Space
        } else {
            Key::Other
        }
    }

    /// The key that a physical key code names.
    pub fn from_code(code: &str) -> (r: Key)
        ensures
            r == Key::spec_from_code(code@),
    {
        if same_text(code, "KeyA") {
            Key::KeyA
        } else if same_text(code, "KeyD") {
            Key::KeyD
        } else if same_text(code, "KeyW") {
            Key::KeyW
        } else if same_text(code, "ArrowLeft") {
            Key::ArrowLeft
        } else if same_text(code, "ArrowRight") {
            Key::ArrowRight
        } else if same_text(code, "ArrowUp") {
            Key::ArrowUp
        } else if same_text(code, "Space") {
            Key::Space
        } else {
            Key::Other
        }
    }

    /// The control that the key is bound to, if it is bound to one.
    pub open spec fn spec_control(self) -> Option<Control> {
        match self {
            Key::KeyA | Key::ArrowLeft => Some(Control::RotateLeft),
            Key::KeyD | Key::ArrowRight => Some(Control::RotateRight),
            Key::Space | Key::KeyW | Key::ArrowUp => Some(Control::Thrust),
            Key::Other => None,
        }
    }

    /// The control that the key is bound to, if it is bound to one.
    #[verifier::when_used_as_spec(spec_control)]
    pub fn control(self) -> (r: Option<Control>)
        ensures
            r == self.spec_control(),
    {
        match self {
            Key::KeyA | Key::ArrowLeft => Some(Control::RotateLeft),
            Key::KeyD | Key::ArrowRight => Some(Control::RotateRight),
            Key::Space | Key::KeyW | Key::ArrowUp => Some(Control::Thrust),
            Key::Other => None,
        }
    }
}

impl InputState {
    /// No control is held.
    pub fn new() -> (r: InputState)
        ensures
            r == (InputState { rotate_left: false, rotate_right: false, thrust: false }),
    {
        InputState { rotate_left: false, rotate_right: false, thrust: false }
    }

    /// Takes note that `key` went down (`pressed`) or up. A key that is
    /// bound to no control changes nothing.
    pub fn handle_key_event(&mut self, key: Key, pressed: bool)
        ensures
            *final(self) == match key.spec_control() {
                Some(Control::RotateLeft) => InputState { rotate_left: pressed, ..*old(self) },
                Some(Control::RotateRight) => InputState { rotate_right: pressed, ..*old(self) },
                Some(Control::Thrust) => InputState { thrust: pressed, ..*old(self) },
                None => *old(self),
            },
    {
        match key.control() {
            Some(Control::RotateLeft) => {
                self.rotate_left = pressed;
            },
            Some(Control::RotateRight) => {
                self.rotate_right = pressed;
            },
            Some(Control::Thrust) => {
                self.thrust = pressed;
            },
            None => {},
        }
    }

    /// The player's rotation after the held rotation keys have acted for
    /// `dt`: the left key turns by `-ROTATION_SPEED * dt`, then the right key
    /// by `ROTATION_SPEED * dt`.
    pub open spec fn spec_turned(
        self,
        reals: Arithmetic,
        rotation: u64,
        dt: u64,
    ) -> u64 {
        let left = if self.rotate_left {
            spec_sum(reals, rotation, spec_negate(spec_product(reals, ROTATION_SPEED, dt)))
        } else {
            rotation
        };
        if self.rotate_right {
            spec_sum(reals, left, spec_product(reals, ROTATION_SPEED, dt))
        } else {
            left
        }
    }

    /// The player after the held keys have acted for `dt`: the rotation
    /// keys first, then the thruster with the rotation so reached.
    pub open spec fn spec_steered(
        self,
        reals: Arithmetic,
        player: Player,
        dt: u64,
    ) -> Player {
        let turned = Player { rotation: self.spec_turned(reals, player.rotation, dt), ..player };
        if self.thrust {
            Player { velocity: spec_thrust(reals, turned, dt), ..turned }
        } else {
            turned
        }
    }

    /// Applies the held controls to the present state of `game` for a frame
    /// that lasted `dt`. Rotation never touches the cache. Thrust has the
    /// whole cache recomputed, whatever it did to the velocity.
    pub fn apply_to_game<R: Fn(Op, u64, u64) -> u64>(&self, game: &mut Game<R>, dt: u64)
        requires
            old(game).wf(),
        ensures
            final(game).wf(),
            final(game)@ == (GameView {
                player: self.spec_steered(answers(old(game)@.reals), old(game)@.player, dt),
                cache: final(game)@.cache,
                ..old(game)@
            }),
            !self.thrust ==> final(game)@.cache == old(game)@.cache,
            self.thrust ==> final(game)@.frames() == prediction(
                answers(old(game)@.reals),
                final(game)@.present(),
                old(game)@.horizon as nat,
            ),
    {
        if self.rotate_left {
            let delta: u64 = negate(product(game.reals(), ROTATION_SPEED, dt));
            game.apply_rotation(delta);
        }
        if self.rotate_right {
            let delta: u64 = product(game.reals(), ROTATION_SPEED, dt);
            game.apply_rotation(delta);
        }
        if self.thrust {
            game.apply_thrust(dt);
        }
    }
}

} // verus!
