//! The state of a system and the integrator that advances it.
//!
//! One step looks at every pair of passive bodies and at the player with
//! every passive body, lets each pull the other by Newton's law, and then
//! moves everything by the same length of time: velocities first, positions
//! after, with the velocities just found.

use vstd::prelude::*;
use crate::player::Player;
use crate::scalar::{
    answers, greater, is_arithmetic, negate, product, quotient, spec_greater, spec_is_positive,
    spec_negate, spec_product, spec_quotient, Arithmetic, Op, ONE, ZERO,
};
use crate::vector2::Vector2;

verus! {

/// Length of one tick of simulated time: the pattern of 0.016.
pub const TRAJECTORY_DT: u64 = 0x3F90_624D_D2F1_A9FC;

/// Number of sub-steps that make up one tick.
pub const TRAJECTORY_SUBSTEPS: usize = 5;

/// The number of sub-steps as a real number: the pattern of 5.
pub const SUBSTEPS_REAL: u64 = 0x4014_0000_0000_0000;

/// What the integrator sees of a passive body.
#[derive(Clone, Copy, PartialEq, Eq, Structural, Debug)]
pub struct Body {
    pub mass: u64,
    pub position: Vector2,
    pub velocity: Vector2,
}

/// A whole system at one instant: the gravitational constant, the player and
/// the passive bodies in their fixed order.
#[derive(Debug)]
pub struct SystemState {
    pub big_gravity: u64,
    pub player: Player,
    pub bodies: Vec<Body>,
}

/// The mathematical content of a `SystemState`.
pub struct SystemStateView {
    pub big_gravity: u64,
    pub player: Player,
    pub bodies: Seq<Body>,
}

impl View for SystemState {
    type V = SystemStateView;

    open spec fn view(&self) -> SystemStateView {
        SystemStateView { big_gravity: self.big_gravity, player: self.player, bodies: self.bodies@ }
    }
}

/// Where a body is and how it moves.
pub struct Motion {
    pub position: Vector2,
    pub velocity: Vector2,
}

/// The part of a system state that changes with time: what one tick of a
/// prediction records.
pub struct Frame {
    pub player_position: Vector2,
    pub player_velocity: Vector2,
    pub player_rotation: u64,
    pub bodies: Seq<Motion>,
}

/// The part of a system state that never changes.
pub struct Constants {
    pub big_gravity: u64,
    pub player_mass: u64,
    pub masses: Seq<u64>,
}

impl Constants {
    /// Every mass is greater than zero.
    pub open spec fn masses_positive(self) -> bool {
        &&& spec_is_positive(self.player_mass)
        &&& forall|j: int|
            0 <= j < self.masses.len() ==> spec_is_positive(#[trigger] self.masses[j])
    }

    /// The state that has these constants and moves as `frame` says.
    pub open spec fn compose(self, frame: Frame) -> SystemStateView {
        SystemStateView {
            big_gravity: self.big_gravity,
            player: Player {
                position: frame.player_position,
                velocity: frame.player_velocity,
                mass: self.player_mass,
                rotation: frame.player_rotation,
            },
            bodies: Seq::new(
                self.masses.len(),
                |j: int|
                    Body {
                        mass: self.masses[j],
                        position: frame.bodies[j].position,
                        velocity: frame.bodies[j].velocity,
                    },
            ),
        }
    }
}

impl SystemStateView {
    pub open spec fn constants(self) -> Constants {
        Constants {
            big_gravity: self.big_gravity,
            player_mass: self.player.mass,
            masses: Seq::new(self.bodies.len(), |j: int| self.bodies[j].mass),
        }
    }

    pub open spec fn frame(self) -> Frame {
        Frame {
            player_position: self.player.position,
            player_velocity: self.player.velocity,
            player_rotation: self.player.rotation,
            bodies: Seq::new(
                self.bodies.len(),
                |j: int|
                    Motion { position: self.bodies[j].position, velocity: self.bodies[j].velocity },
            ),
        }
    }
}

/// A state is its constants composed with its frame.
pub proof fn lemma_compose_split(s: SystemStateView)
    ensures
        s.constants().compose(s.frame()) == s,
{
    assert(s.constants().compose(s.frame()).bodies =~= s.bodies);
}

/// Composing with a frame of the right size, and taking the parts again,
/// gives the constants and the frame back.
pub proof fn lemma_split_compose(c: Constants, frame: Frame)
    requires
        frame.bodies.len() == c.masses.len(),
    ensures
        c.compose(frame).constants() == c,
        c.compose(frame).frame() == frame,
{
    assert(c.compose(frame).constants().masses =~= c.masses);
    assert(c.compose(frame).frame().bodies =~= frame.bodies);
}

/// The vector of no length.
pub open spec fn spec_origin() -> Vector2 {
    Vector2 { x: ZERO, y: ZERO }
}

/// The accelerations of the passive bodies, once the bodies `i` and `j` have
/// pulled at each other. With `diff` the way from `i` to `j` and `d` its
/// length, body `i` gains `G / d^2 * m_j` along `diff / d`, and body `j`
/// gains `-G / d^2 * m_i` along it. Bodies at no distance do not pull.
pub open spec fn pair_pull(
    reals: Arithmetic,
    big_gravity: u64,
    bodies: Seq<Body>,
    accelerations: Seq<Vector2>,
    i: int,
    j: int,
) -> Seq<Vector2> {
    let diff = bodies[j].position.spec_subtract(bodies[i].position, reals);
    let distance = diff.spec_norm(reals);
    if spec_greater(distance, ZERO) {
        let force = spec_quotient(reals, big_gravity, spec_product(reals, distance, distance));
        let direction = diff.spec_scale(spec_quotient(reals, ONE, distance), reals);
        let accel_i = direction.spec_scale(spec_product(reals, force, bodies[j].mass), reals);
        let accel_j = direction.spec_scale(
            spec_product(reals, spec_negate(force), bodies[i].mass),
            reals,
        );
        let first = accelerations.update(i, accelerations[i].spec_add(accel_i, reals));
        first.update(j, first[j].spec_add(accel_j, reals))
    } else {
        accelerations
    }
}

/// The accelerations once body `i` and each of the bodies behind it, up to
/// but without `upto`, have pulled at each other, in that order.
pub open spec fn row_pulls(
    reals: Arithmetic,
    big_gravity: u64,
    bodies: Seq<Body>,
    accelerations: Seq<Vector2>,
    i: int,
    upto: int,
) -> Seq<Vector2>
    decreases upto - i,
{
    if upto <= i + 1 {
        accelerations
    } else {
        pair_pull(
            reals,
            big_gravity,
            bodies,
            row_pulls(reals, big_gravity, bodies, accelerations, i, upto - 1),
            i,
            upto - 1,
        )
    }
}

/// The accelerations that the passive bodies cause each other, once each of
/// the first `rows` bodies has been paired with every body behind it.
pub open spec fn mutual_pulls(
    reals: Arithmetic,
    big_gravity: u64,
    bodies: Seq<Body>,
    rows: int,
) -> Seq<Vector2>
    decreases rows,
{
    if rows <= 0 {
        Seq::new(bodies.len(), |k: int| spec_origin())
    } else {
        row_pulls(
            reals,
            big_gravity,
            bodies,
            mutual_pulls(reals, big_gravity, bodies, rows - 1),
            rows - 1,
            bodies.len() as int,
        )
    }
}

/// The accelerations of the passive bodies and of the player.
pub struct Pulls {
    pub bodies: Seq<Vector2>,
    pub player: Vector2,
}

/// The accelerations once the player and body `i` have pulled at each
/// other. With `diff` the way from the player to the body, `d` its length
/// and `F = G * m_i * m_player / d^2`, the player gains `F / m_player` along
/// `diff / d`, and the body gains `-F / m_i` along it. A body at no
/// distance does not pull.
pub open spec fn player_pull(
    reals: Arithmetic,
    s: SystemStateView,
    pulls: Pulls,
    i: int,
) -> Pulls {
    let diff = s.bodies[i].position.spec_subtract(s.player.position, reals);
    let distance = diff.spec_norm(reals);
    if spec_greater(distance, ZERO) {
        let force = spec_quotient(
            reals,
            spec_product(
                reals,
                spec_product(reals, s.big_gravity, s.bodies[i].mass),
                s.player.mass,
            ),
            spec_product(reals, distance, distance),
        );
        let direction = diff.spec_scale(spec_quotient(reals, ONE, distance), reals);
        let player_accel = direction.spec_scale(spec_quotient(reals, force, s.player.mass), reals);
        let planet_accel = direction.spec_scale(
            spec_quotient(reals, spec_negate(force), s.bodies[i].mass),
            reals,
        );
        Pulls {
            bodies: pulls.bodies.update(i, pulls.bodies[i].spec_add(planet_accel, reals)),
            player: pulls.player.spec_add(player_accel, reals),
        }
    } else {
        pulls
    }
}

/// The accelerations once the passive bodies have pulled at each other and
/// the player and each of the first `upto` bodies have pulled at each other.
pub open spec fn pulls_upto(
    reals: Arithmetic,
    s: SystemStateView,
    upto: int,
) -> Pulls
    decreases upto,
{
    if upto <= 0 {
        Pulls {
            bodies: mutual_pulls(reals, s.big_gravity, s.bodies, s.bodies.len() as int),
            player: spec_origin(),
        }
    } else {
        player_pull(reals, s, pulls_upto(reals, s, upto - 1), upto - 1)
    }
}

/// The velocity after a time `dt` under an acceleration.
pub open spec fn sped(
    reals: Arithmetic,
    velocity: Vector2,
    acceleration: Vector2,
    dt: u64,
) -> Vector2 {
    velocity.spec_add(acceleration.spec_scale(dt, reals), reals)
}

/// The position after a time `dt` at a velocity.
pub open spec fn moved(
    reals: Arithmetic,
    position: Vector2,
    velocity: Vector2,
    dt: u64,
) -> Vector2 {
    position.spec_add(velocity.spec_scale(dt, reals), reals)
}

/// The state one step of length `dt` after `s`. The velocities change by
/// the accelerations that the pulls cause, the positions then by the new
/// velocities. Masses, the gravitational constant and the player's rotation
/// stay as they are.
pub open spec fn spec_step(
    reals: Arithmetic,
    s: SystemStateView,
    dt: u64,
) -> SystemStateView {
    let pulls = pulls_upto(reals, s, s.bodies.len() as int);
    SystemStateView {
        big_gravity: s.big_gravity,
        player: Player {
            velocity: sped(reals, s.player.velocity, pulls.player, dt),
            position: moved(
                reals,
                s.player.position,
                sped(reals, s.player.velocity, pulls.player, dt),
                dt,
            ),
            ..s.player
        },
        bodies: Seq::new(
            s.bodies.len(),
            |k: int|
                Body {
                    mass: s.bodies[k].mass,
                    velocity: sped(reals, s.bodies[k].velocity, pulls.bodies[k], dt),
                    position: moved(
                        reals,
                        s.bodies[k].position,
                        sped(reals, s.bodies[k].velocity, pulls.bodies[k], dt),
                        dt,
                    ),
                },
        ),
    }
}

/// The state `count` steps of length `dt` after `s`.
pub open spec fn spec_steps(
    reals: Arithmetic,
    s: SystemStateView,
    dt: u64,
    count: nat,
) -> SystemStateView
    decreases count,
{
    if count == 0 {
        s
    } else {
        spec_step(reals, spec_steps(reals, s, dt, (count - 1) as nat), dt)
    }
}

/// The state one tick after `s`: `TRAJECTORY_SUBSTEPS` steps, each of the
/// length of a tick divided by their number.
pub open spec fn spec_tick(reals: Arithmetic, s: SystemStateView) -> SystemStateView {
    spec_steps(
        reals,
        s,
        spec_quotient(reals, TRAJECTORY_DT, SUBSTEPS_REAL),
        TRAJECTORY_SUBSTEPS as nat,
    )
}

/// The state `count` ticks after `s`.
pub open spec fn spec_ticks(
    reals: Arithmetic,
    s: SystemStateView,
    count: nat,
) -> SystemStateView
    decreases count,
{
    if count == 0 {
        s
    } else {
        spec_tick(reals, spec_ticks(reals, s, (count - 1) as nat))
    }
}

impl SystemState {
    /// Advances the system by one step of length `dt`.
    pub fn update<R: Fn(Op, u64, u64) -> u64>(&mut self, dt: u64, reals: &R)
        requires
            is_arithmetic(*reals),
        ensures
            final(self)@ == spec_step(answers(*reals), old(self)@, dt),
    {
        let ghost s = self@;
        let n: usize = self.bodies.len();
        let mut accelerations: Vec<Vector2> = Vec::new();
        let mut k: usize = 0;
        while k < n
            invariant
                k <= n,
                accelerations@.len() == k,
                forall|m: int| 0 <= m < k ==> #[trigger] accelerations@[m] == spec_origin(),
            decreases n - k,
        {
            accelerations.push(Vector2 { x: ZERO, y: ZERO });
            k += 1;
        }
        assert(accelerations@ =~= mutual_pulls(answers(*reals), s.big_gravity, s.bodies, 0));

        // The passive bodies pull at each other.
        let mut i: usize = 0;
        while i < n
            invariant
                is_arithmetic(*reals),
                self@ == s,
                n == s.bodies.len(),
                i <= n,
                accelerations@.len() == n,
                accelerations@ == mutual_pulls(answers(*reals), s.big_gravity, s.bodies, i as int),
            decreases n - i,
        {
            let ghost start = accelerations@;
            let mut j: usize = i + 1;
            while j < n
                invariant
                    is_arithmetic(*reals),
                    self@ == s,
                    n == s.bodies.len(),
                    i < j <= n,
                    start.len() == n,
                    accelerations@.len() == n,
                    accelerations@ == row_pulls(
                        answers(*reals),
                        s.big_gravity,
                        s.bodies,
                        start,
                        i as int,
                        j as int,
                    ),
                decreases n - j,
            {
                let ghost before = accelerations@;
                let diff = self.bodies[j].position.subtract(&self.bodies[i].position, reals);
                let distance: u64 = diff.magnitude(reals);
                if greater(distance, ZERO) {
                    let force_magnitude: u64 = quotient(
                        reals,
                        self.big_gravity,
                        product(reals, distance, distance),
                    );
                    let direction = diff.scale(quotient(reals, ONE, distance), reals);
                    let accel_i = direction.scale(
                        product(reals, force_magnitude, self.bodies[j].mass),
                        reals,
                    );
                    let pulled_i = accelerations[i].add(&accel_i, reals);
                    accelerations[i] = pulled_i;
                    let accel_j = direction.scale(
                        product(reals, negate(force_magnitude), self.bodies[i].mass),
                        reals,
                    );
                    let pulled_j = accelerations[j].add(&accel_j, reals);
                    accelerations[j] = pulled_j;
                }
                assert(accelerations@ == pair_pull(
                    answers(*reals),
                    s.big_gravity,
                    s.bodies,
                    before,
                    i as int,
                    j as int,
                ));
                j += 1;
            }
            i += 1;
        }

        // The player and each passive body pull at each other.
        let mut player_acceleration = Vector2 { x: ZERO, y: ZERO };
        let mut i: usize = 0;
        while i < n
            invariant
                is_arithmetic(*reals),
                self@ == s,
                n == s.bodies.len(),
                i <= n,
                accelerations@.len() == n,
                (Pulls { bodies: accelerations@, player: player_acceleration }) == pulls_upto(
                    answers(*reals),
                    s,
                    i as int,
                ),
            decreases n - i,
        {
            let diff = self.bodies[i].position.subtract(&self.player.position, reals);
            let distance: u64 = diff.magnitude(reals);
            if greater(distance, ZERO) {
                let force_magnitude: u64 = quotient(
                    reals,
                    product(
                        reals,
                        product(reals, self.big_gravity, self.bodies[i].mass),
                        self.player.mass,
                    ),
                    product(reals, distance, distance),
                );
                let direction = diff.scale(quotient(reals, ONE, distance), reals);
                let player_accel = direction.scale(
                    quotient(reals, force_magnitude, self.player.mass),
                    reals,
                );
                player_acceleration = player_acceleration.add(&player_accel, reals);
                let planet_accel = direction.scale(
                    quotient(reals, negate(force_magnitude), self.bodies[i].mass),
                    reals,
                );
                let pulled = accelerations[i].add(&planet_accel, reals);
                accelerations[i] = pulled;
            }
            i += 1;
        }

        // Velocities first, then positions with the new velocities.
        let ghost pulls = pulls_upto(answers(*reals), s, n as int);
        let mut i: usize = 0;
        while i < n
            invariant
                is_arithmetic(*reals),
                n == s.bodies.len(),
                i <= n,
                self.big_gravity == s.big_gravity,
                self.player == s.player,
                self.bodies@.len() == n,
                accelerations@ == pulls.bodies,
                accelerations@.len() == n,
                pulls == pulls_upto(answers(*reals), s, n as int),
                forall|m: int|
                    0 <= m < i ==> #[trigger] self.bodies@[m] == spec_step(
                        answers(*reals),
                        s,
                        dt,
                    ).bodies[m],
                forall|m: int| i <= m < n ==> #[trigger] self.bodies@[m] == s.bodies[m],
            decreases n - i,
        {
            let velocity = self.bodies[i].velocity.add(&accelerations[i].scale(dt, reals), reals);
            let position = self.bodies[i].position.add(&velocity.scale(dt, reals), reals);
            self.bodies[i].velocity = velocity;
            self.bodies[i].position = position;
            i += 1;
        }
        let velocity = self.player.velocity.add(&player_acceleration.scale(dt, reals), reals);
        let position = self.player.position.add(&velocity.scale(dt, reals), reals);
        self.player.velocity = velocity;
        self.player.position = position;
        assert(self@.bodies =~= spec_step(answers(*reals), s, dt).bodies);
    }

    /// Advances the system by one tick: `TRAJECTORY_SUBSTEPS` steps, each of
    /// the length of a tick divided by their number.
    pub fn tick<R: Fn(Op, u64, u64) -> u64>(&mut self, reals: &R)
        requires
            is_arithmetic(*reals),
        ensures
            final(self)@ == spec_tick(answers(*reals), old(self)@),
    {
        let mut k: usize = 0;
        while k < TRAJECTORY_SUBSTEPS
            invariant
                is_arithmetic(*reals),
                k <= TRAJECTORY_SUBSTEPS,
                self@ == spec_steps(
                    answers(*reals),
                    old(self)@,
                    spec_quotient(answers(*reals), TRAJECTORY_DT, SUBSTEPS_REAL),
                    k as nat,
                ),
            decreases TRAJECTORY_SUBSTEPS - k,
        {
            self.update(quotient(reals, TRAJECTORY_DT, SUBSTEPS_REAL), reals);
            k += 1;
        }
    }
}

/// A step changes neither a mass, nor the gravitational constant, nor the
/// number of bodies, nor the player's rotation.
pub proof fn lemma_step_keeps_constants(
    reals: Arithmetic,
    s: SystemStateView,
    dt: u64,
)
    ensures
        spec_step(reals, s, dt).constants() == s.constants(),
        spec_step(reals, s, dt).bodies.len() == s.bodies.len(),
        spec_step(reals, s, dt).player.rotation == s.player.rotation,
{
    assert(spec_step(reals, s, dt).constants().masses =~= s.constants().masses);
}

/// Steps change neither a mass, nor the gravitational constant, nor the
/// number of bodies, nor the player's rotation.
pub proof fn lemma_steps_keep_constants(
    reals: Arithmetic,
    s: SystemStateView,
    dt: u64,
    count: nat,
)
    ensures
        spec_steps(reals, s, dt, count).constants() == s.constants(),
        spec_steps(reals, s, dt, count).bodies.len() == s.bodies.len(),
        spec_steps(reals, s, dt, count).player.rotation == s.player.rotation,
    decreases count,
{
    if count > 0 {
        lemma_steps_keep_constants(reals, s, dt, (count - 1) as nat);
        lemma_step_keeps_constants(reals, spec_steps(reals, s, dt, (count - 1) as nat), dt);
    }
}

/// Ticks change neither a mass, nor the gravitational constant, nor the
/// number of bodies, nor the player's rotation.
pub proof fn lemma_ticks_keep_constants(
    reals: Arithmetic,
    s: SystemStateView,
    count: nat,
)
    ensures
        spec_ticks(reals, s, count).constants() == s.constants(),
        spec_ticks(reals, s, count).bodies.len() == s.bodies.len(),
        spec_ticks(reals, s, count).player.rotation == s.player.rotation,
    decreases count,
{
    if count > 0 {
        lemma_ticks_keep_constants(reals, s, (count - 1) as nat);
        lemma_steps_keep_constants(
            reals,
            spec_ticks(reals, s, (count - 1) as nat),
            spec_quotient(reals, TRAJECTORY_DT, SUBSTEPS_REAL),
            TRAJECTORY_SUBSTEPS as nat,
        );
    }
}

/// The state `b` ticks after the state `a` ticks after `s` is the state
/// `a + b` ticks after `s`.
pub proof fn lemma_ticks_add(
    reals: Arithmetic,
    s: SystemStateView,
    a: nat,
    b: nat,
)
    ensures
        spec_ticks(reals, spec_ticks(reals, s, a), b) == spec_ticks(reals, s, a + b),
    decreases b,
{
    if b > 0 {
        lemma_ticks_add(reals, s, a, (b - 1) as nat);
        assert((a + b - 1) as nat == a + (b - 1) as nat);
    }
}

} // verus!
