//! The session: the present state of a system together with a cache of its
//! predicted future.

use vstd::prelude::*;
use std::collections::VecDeque;
use crate::physics::{
    lemma_step_keeps_constants, lemma_ticks_keep_constants, spec_step, spec_ticks, Body, Constants,
    Frame, Motion, SystemState, SystemStateView,
};
use crate::planet::Planet;
use crate::player::Player;
use crate::prediction::{
    continuation, is_chain, lemma_chain_continued, lemma_chain_subrange, lemma_prediction_is_chain,
    lemma_ticks_compose, prediction,
};
use crate::scalar::{
    answers, cosine, is_arithmetic, is_positive, negate, product, quotient, sine, spec_cosine,
    spec_is_positive, spec_negate, spec_product, spec_quotient, spec_sine, spec_sum, sum,
    Arithmetic, Op,
};
use crate::vector2::Vector2;

verus! {

/// A window of predicted ticks, soonest first. Each tracked quantity has a
/// queue of its own: the player's position, velocity and rotation, and the
/// position and velocity of every passive body.
#[derive(Debug)]
pub struct CachedTrajectories {
    pub player_positions: VecDeque<Vector2>,
    pub player_velocities: VecDeque<Vector2>,
    pub player_rotations: VecDeque<u64>,
    pub planet_positions: Vec<VecDeque<Vector2>>,
    pub planet_velocities: Vec<VecDeque<Vector2>>,
    pub is_valid: bool,
}

impl CachedTrajectories {
    /// Number of ticks in the window.
    pub open spec fn spec_len(&self) -> nat {
        self.player_positions@.len()
    }

    /// Number of passive bodies that the window tracks.
    pub open spec fn bodies(&self) -> nat {
        self.planet_positions@.len()
    }

    /// Every queue of the window has the same length.
    pub open spec fn wf(&self) -> bool {
        &&& self.player_velocities@.len() == self.spec_len()
        &&& self.player_rotations@.len() == self.spec_len()
        &&& self.planet_velocities@.len() == self.bodies()
        &&& forall|j: int|
            0 <= j < self.bodies() ==> (#[trigger] self.planet_positions@[j])@.len()
                == self.spec_len()
        &&& forall|j: int|
            0 <= j < self.bodies() ==> (#[trigger] self.planet_velocities@[j])@.len()
                == self.spec_len()
    }

    /// What the window holds for tick `i`.
    pub open spec fn frame(&self, i: int) -> Frame {
        Frame {
            player_position: self.player_positions@[i],
            player_velocity: self.player_velocities@[i],
            player_rotation: self.player_rotations@[i],
            bodies: Seq::new(
                self.bodies(),
                |j: int|
                    Motion {
                        position: self.planet_positions@[j]@[i],
                        velocity: self.planet_velocities@[j]@[i],
                    },
            ),
        }
    }

    /// The window as one sequence of frames.
    pub open spec fn frames(&self) -> Seq<Frame> {
        Seq::new(self.spec_len(), |i: int| self.frame(i))
    }

    /// An empty window for `bodies` passive bodies, not yet valid.
    pub fn new(bodies: usize) -> (r: CachedTrajectories)
        ensures
            r.wf(),
            r.bodies() == bodies,
            r.spec_len() == 0,
            !r.is_valid,
    {
        let mut planet_positions: Vec<VecDeque<Vector2>> = Vec::new();
        let mut planet_velocities: Vec<VecDeque<Vector2>> = Vec::new();
        let mut j: usize = 0;
        while j < bodies
            invariant
                j <= bodies,
                planet_positions@.len() == j,
                planet_velocities@.len() == j,
                forall|k: int| 0 <= k < j ==> (#[trigger] planet_positions@[k])@.len() == 0,
                forall|k: int| 0 <= k < j ==> (#[trigger] planet_velocities@[k])@.len() == 0,
            decreases bodies - j,
        {
            planet_positions.push(VecDeque::new());
            planet_velocities.push(VecDeque::new());
            j += 1;
        }
        CachedTrajectories {
            player_positions: VecDeque::new(),
            player_velocities: VecDeque::new(),
            player_rotations: VecDeque::new(),
            planet_positions,
            planet_velocities,
            is_valid: false,
        }
    }

    /// Number of ticks in the window.
    pub fn len(&self) -> (r: usize)
        ensures
            r == self.spec_len(),
    {
        self.player_positions.len()
    }

    /// Removes the soonest tick from every queue.
    pub fn pop_front(&mut self)
        requires
            old(self).wf(),
            old(self).spec_len() > 0,
        ensures
            final(self).wf(),
            final(self).bodies() == old(self).bodies(),
            final(self).is_valid == old(self).is_valid,
            final(self).spec_len() == old(self).spec_len() - 1,
            final(self).frames() == old(self).frames().subrange(1, old(self).spec_len() as int),
    {
        let ghost len = self.spec_len() as int;
        self.player_positions.pop_front();
        self.player_velocities.pop_front();
        self.player_rotations.pop_front();
        let n: usize = self.planet_positions.len();
        let mut j: usize = 0;
        while j < n
            invariant
                j <= n,
                len > 0,
                len == old(self).spec_len(),
                self.planet_positions@.len() == n,
                self.planet_velocities@.len() == n,
                self.is_valid == old(self).is_valid,
                self.player_positions@ == old(self).player_positions@.subrange(1, len),
                self.player_velocities@ == old(self).player_velocities@.subrange(1, len),
                self.player_rotations@ == old(self).player_rotations@.subrange(1, len),
                old(self).wf(),
                old(self).bodies() == n,
                forall|k: int|
                    0 <= k < j ==> (#[trigger] self.planet_positions@[k])@ == old(
                        self,
                    ).planet_positions@[k]@.subrange(1, len),
                forall|k: int|
                    0 <= k < j ==> (#[trigger] self.planet_velocities@[k])@ == old(
                        self,
                    ).planet_velocities@[k]@.subrange(1, len),
                forall|k: int|
                    j <= k < n ==> (#[trigger] self.planet_positions@[k])@ == old(
                        self,
                    ).planet_positions@[k]@,
                forall|k: int|
                    j <= k < n ==> (#[trigger] self.planet_velocities@[k])@ == old(
                        self,
                    ).planet_velocities@[k]@,
            decreases n - j,
        {
            self.planet_positions[j].pop_front();
            self.planet_velocities[j].pop_front();
            j += 1;
        }
        proof {
            let before = old(self).frames();
            let after = self.frames();
            assert(after.len() == len - 1);
            assert forall|i: int| 0 <= i < after.len() implies after[i] == before.subrange(
                1,
                len,
            )[i] by {
                assert(self.frame(i).bodies =~= old(self).frame(i + 1).bodies);
            }
            assert(after =~= before.subrange(1, len));
        }
    }

    /// Appends the frame of `state` behind the last tick.
    pub fn record(&mut self, state: &SystemState)
        requires
            old(self).wf(),
            old(self).bodies() == state.bodies@.len(),
        ensures
            final(self).wf(),
            final(self).bodies() == old(self).bodies(),
            final(self).is_valid == old(self).is_valid,
            final(self).spec_len() == old(self).spec_len() + 1,
            final(self).frames() == old(self).frames().push(state@.frame()),
    {
        self.player_positions.push_back(state.player.position);
        self.player_velocities.push_back(state.player.velocity);
        self.player_rotations.push_back(state.player.rotation);
        let n: usize = state.bodies.len();
        let mut j: usize = 0;
        while j < n
            invariant
                j <= n,
                n == state.bodies@.len(),
                self.planet_positions@.len() == n,
                self.planet_velocities@.len() == n,
                self.is_valid == old(self).is_valid,
                self.player_positions@ == old(self).player_positions@.push(state.player.position),
                self.player_velocities@ == old(self).player_velocities@.push(state.player.velocity),
                self.player_rotations@ == old(self).player_rotations@.push(state.player.rotation),
                old(self).wf(),
                old(self).bodies() == n,
                forall|k: int|
                    0 <= k < j ==> (#[trigger] self.planet_positions@[k])@ == old(
                        self,
                    ).planet_positions@[k]@.push(state.bodies@[k].position),
                forall|k: int|
                    0 <= k < j ==> (#[trigger] self.planet_velocities@[k])@ == old(
                        self,
                    ).planet_velocities@[k]@.push(state.bodies@[k].velocity),
                forall|k: int|
                    j <= k < n ==> (#[trigger] self.planet_positions@[k])@ == old(
                        self,
                    ).planet_positions@[k]@,
                forall|k: int|
                    j <= k < n ==> (#[trigger] self.planet_velocities@[k])@ == old(
                        self,
                    ).planet_velocities@[k]@,
            decreases n - j,
        {
            self.planet_positions[j].push_back(state.bodies[j].position);
            self.planet_velocities[j].push_back(state.bodies[j].velocity);
            j += 1;
        }
        proof {
            let before = old(self).frames();
            let after = self.frames();
            assert(after.len() == before.len() + 1);
            assert forall|i: int| 0 <= i < after.len() implies after[i] == before.push(
                state@.frame(),
            )[i] by {
                if i < before.len() {
                    assert(self.frame(i).bodies =~= old(self).frame(i).bodies);
                } else {
                    assert(self.frame(i).bodies =~= state@.frame().bodies);
                }
            }
            assert(after =~= before.push(state@.frame()));
        }
    }
}

/// Number of ticks that a full recompute predicts unless told otherwise.
pub const TRAJECTORY_NUM_STEPS: usize = 100000;

/// The gravitational constant of a new session: the pattern of 0.000001.
pub const BIG_GRAVITY: u64 = 0x3EB0_C6F7_A0B5_ED8D;

/// Magnitude of the force of the player's thruster: the pattern of 25.
pub const THRUST_FORCE: u64 = 0x4039_0000_0000_0000;

/// Why a system was refused at construction.
#[derive(Clone, Copy, PartialEq, Eq, Structural, Debug)]
pub enum ValidationError {
    /// The passive body at `index` has a mass that is not greater than zero.
    PlanetMass { index: usize },
    /// The player's mass is not greater than zero.
    PlayerMass,
}

/// A simulation session: the present state, the arithmetic that the
/// integrator runs on, and the cache of predicted ticks.
pub struct Game<R> {
    big_gravity: u64,
    planets: Vec<Planet>,
    player: Player,
    cached_trajectories: CachedTrajectories,
    reals: R,
    horizon: usize,
}

/// The mathematical content of a `Game`.
pub struct GameView<R> {
    pub big_gravity: u64,
    pub planets: Seq<Planet>,
    pub player: Player,
    pub cache: CachedTrajectories,
    pub reals: R,
    pub horizon: usize,
}

/// The state in which the given player and passive bodies are.
pub open spec fn present_of(
    big_gravity: u64,
    player: Player,
    planets: Seq<Planet>,
) -> SystemStateView {
    SystemStateView {
        big_gravity,
        player,
        bodies: Seq::new(
            planets.len(),
            |j: int|
                Body {
                    mass: planets[j].mass,
                    position: planets[j].position,
                    velocity: planets[j].velocity,
                },
        ),
    }
}

/// The passive bodies `before`, each moved to where `state` has it.
pub open spec fn planets_moved(
    before: Seq<Planet>,
    state: SystemStateView,
    after: Seq<Planet>,
) -> bool {
    &&& after.len() == before.len()
    &&& forall|j: int|
        0 <= j < before.len() ==> #[trigger] after[j] == (Planet {
            position: state.bodies[j].position,
            velocity: state.bodies[j].velocity,
            ..before[j]
        })
}

/// The velocity of the player after its thruster has fired for `dt`. The
/// thrust has the magnitude `THRUST_FORCE` and the direction
/// `(sin(rotation), -cos(rotation))`; it changes the velocity by the thrust,
/// divided by the player's mass, times `dt`.
pub open spec fn spec_thrust(reals: Arithmetic, player: Player, dt: u64) -> Vector2 {
    let thrust_x = spec_product(reals, spec_sine(reals, player.rotation), THRUST_FORCE);
    let thrust_y = spec_product(
        reals,
        spec_negate(spec_cosine(reals, player.rotation)),
        THRUST_FORCE,
    );
    Vector2 {
        x: spec_sum(
            reals,
            player.velocity.x,
            spec_product(reals, spec_quotient(reals, thrust_x, player.mass), dt),
        ),
        y: spec_sum(
            reals,
            player.velocity.y,
            spec_product(reals, spec_quotient(reals, thrust_y, player.mass), dt),
        ),
    }
}

impl<R: Fn(Op, u64, u64) -> u64> GameView<R> {
    /// The present state of the system.
    pub open spec fn present(self) -> SystemStateView {
        present_of(self.big_gravity, self.player, self.planets)
    }

    /// The part of the present state that never changes.
    pub open spec fn constants(self) -> Constants {
        self.present().constants()
    }

    /// The predicted ticks, soonest first.
    pub open spec fn frames(self) -> Seq<Frame> {
        self.cache.frames()
    }

    /// The invariant of a session: the function value it runs on is an
    /// arithmetic, every mass is greater than zero, the cache is valid, its
    /// queues all have one length and track the passive bodies one for one,
    /// and each cached tick is one tick later than the tick before it.
    pub open spec fn wf(self) -> bool {
        &&& is_arithmetic(self.reals)
        &&& self.constants().masses_positive()
        &&& self.cache.is_valid
        &&& self.cache.wf()
        &&& self.cache.bodies() == self.planets.len()
        &&& is_chain(answers(self.reals), self.constants(), self.frames())
    }
}

impl<R: Fn(Op, u64, u64) -> u64> View for Game<R> {
    type V = GameView<R>;

    closed spec fn view(&self) -> GameView<R> {
        GameView {
            big_gravity: self.big_gravity,
            planets: self.planets@,
            player: self.player,
            cache: self.cached_trajectories,
            reals: self.reals,
            horizon: self.horizon,
        }
    }
}

/// The first passive body whose mass is not greater than zero, if there is one.
pub fn first_invalid_mass(planets: &Vec<Planet>) -> (r: Option<usize>)
    ensures
        match r {
            Some(index) => {
                &&& index < planets@.len()
                &&& !spec_is_positive(planets@[index as int].mass)
                &&& forall|j: int| 0 <= j < index ==> spec_is_positive(#[trigger] planets@[j].mass)
            },
            None => forall|j: int|
                0 <= j < planets@.len() ==> spec_is_positive(#[trigger] planets@[j].mass),
        },
{
    let mut j: usize = 0;
    while j < planets.len()
        invariant
            j <= planets@.len(),
            forall|k: int| 0 <= k < j ==> spec_is_positive(#[trigger] planets@[k].mass),
        decreases planets@.len() - j,
    {
        if !is_positive(planets[j].mass) {
            return Some(j);
        }
        j += 1;
    }
    None
}

impl<R: Fn(Op, u64, u64) -> u64> Game<R> {
    /// The invariant of a session.
    pub open spec fn wf(&self) -> bool {
        self@.wf()
    }

    /// The gravitational constant.
    pub fn big_gravity(&self) -> (r: u64)
        ensures
            r == self@.big_gravity,
    {
        self.big_gravity
    }

    /// The passive bodies as they are now.
    pub fn planets(&self) -> (r: &Vec<Planet>)
        ensures
            r@ == self@.planets,
    {
        &self.planets
    }

    /// The player as it is now.
    pub fn player(&self) -> (r: &Player)
        ensures
            *r == self@.player,
    {
        &self.player
    }

    /// The cache of predicted ticks.
    pub fn cached_trajectories(&self) -> (r: &CachedTrajectories)
        ensures
            *r == self@.cache,
    {
        &self.cached_trajectories
    }

    /// The arithmetic that the session runs on.
    pub fn reals(&self) -> (r: &R)
        ensures
            *r == self@.reals,
    {
        &self.reals
    }

    /// Number of ticks that a full recompute predicts.
    pub fn horizon(&self) -> (r: usize)
        ensures
            r == self@.horizon,
    {
        self.horizon
    }

    /// A copy of the present state for the integrator to work on.
    pub fn present_state(&self) -> (r: SystemState)
        ensures
            r@ == self@.present(),
    {
        let mut bodies: Vec<Body> = Vec::new();
        let mut j: usize = 0;
        while j < self.planets.len()
            invariant
                j <= self.planets@.len(),
                bodies@.len() == j,
                forall|k: int|
                    0 <= k < j ==> #[trigger] bodies@[k] == (Body {
                        mass: self.planets@[k].mass,
                        position: self.planets@[k].position,
                        velocity: self.planets@[k].velocity,
                    }),
            decreases self.planets@.len() - j,
        {
            let planet = &self.planets[j];
            bodies.push(
                Body { mass: planet.mass, position: planet.position, velocity: planet.velocity },
            );
            j += 1;
        }
        assert(bodies@ =~= self@.present().bodies);
        SystemState { big_gravity: self.big_gravity, player: self.player, bodies }
    }

    /// The state of the last cached tick, with the masses and the
    /// gravitational constant of the present.
    pub fn tail_state(&self) -> (r: SystemState)
        requires
            self.wf(),
            self@.frames().len() > 0,
        ensures
            r@ == self@.constants().compose(self@.frames().last()),
    {
        let last: usize = self.cached_trajectories.len() - 1;
        let mut bodies: Vec<Body> = Vec::new();
        let mut j: usize = 0;
        while j < self.planets.len()
            invariant
                self.wf(),
                last + 1 == self.cached_trajectories.spec_len(),
                j <= self.planets@.len(),
                bodies@.len() == j,
                forall|k: int|
                    0 <= k < j ==> #[trigger] bodies@[k] == (Body {
                        mass: self.planets@[k].mass,
                        position: self.cached_trajectories.planet_positions@[k]@[last as int],
                        velocity: self.cached_trajectories.planet_velocities@[k]@[last as int],
                    }),
            decreases self.planets@.len() - j,
        {
            bodies.push(
                Body {
                    mass: self.planets[j].mass,
                    position: self.cached_trajectories.planet_positions[j][last],
                    velocity: self.cached_trajectories.planet_velocities[j][last],
                },
            );
            j += 1;
        }
        assert(bodies@ =~= self@.constants().compose(self@.frames().last()).bodies);
        SystemState {
            big_gravity: self.big_gravity,
            player: Player {
                position: self.cached_trajectories.player_positions[last],
                velocity: self.cached_trajectories.player_velocities[last],
                rotation: self.cached_trajectories.player_rotations[last],
                mass: self.player.mass,
            },
            bodies,
        }
    }

    /// Moves the player and the passive bodies to where `state` has them.
    /// The player's rotation, the masses and everything else stay.
    fn commit(&mut self, state: &SystemState)
        requires
            state.bodies@.len() == old(self)@.planets.len(),
        ensures
            final(self)@ == (GameView {
                player: Player {
                    position: state.player.position,
                    velocity: state.player.velocity,
                    ..old(self)@.player
                },
                planets: final(self)@.planets,
                ..old(self)@
            }),
            planets_moved(old(self)@.planets, state@, final(self)@.planets),
    {
        self.player.position = state.player.position;
        self.player.velocity = state.player.velocity;
        let n: usize = self.planets.len();
        let mut j: usize = 0;
        while j < n
            invariant
                j <= n,
                n == old(self).planets@.len(),
                n == state.bodies@.len(),
                self.planets@.len() == n,
                self.cached_trajectories == old(self).cached_trajectories,
                self.big_gravity == old(self).big_gravity,
                self.reals == old(self).reals,
                self.horizon == old(self).horizon,
                self.player == (Player {
                    position: state.player.position,
                    velocity: state.player.velocity,
                    ..old(self).player
                }),
                forall|k: int|
                    0 <= k < j ==> #[trigger] self.planets@[k] == (Planet {
                        position: state.bodies@[k].position,
                        velocity: state.bodies@[k].velocity,
                        ..old(self).planets@[k]
                    }),
                forall|k: int| j <= k < n ==> #[trigger] self.planets@[k] == old(self).planets@[k],
            decreases n - j,
        {
            self.planets[j].position = state.bodies[j].position;
            self.planets[j].velocity = state.bodies[j].velocity;
            j += 1;
        }
    }

    /// Advances the present state by one step of length `dt`. The cache is
    /// left as it is.
    pub fn update(&mut self, dt: u64)
        requires
            old(self).wf(),
        ensures
            final(self).wf(),
            final(self)@.present() == spec_step(
                answers(old(self)@.reals),
                old(self)@.present(),
                dt,
            ),
            planets_moved(old(self)@.planets, final(self)@.present(), final(self)@.planets),
            final(self)@ == (GameView {
                player: final(self)@.player,
                planets: final(self)@.planets,
                ..old(self)@
            }),
    {
        let mut state = self.present_state();
        state.update(dt, &self.reals);
        proof {
            lemma_step_keeps_constants(answers(self.reals), self@.present(), dt);
        }
        self.commit(&state);
        proof {
            assert(self@.present().bodies =~= state@.bodies) by {
                assert forall|j: int| 0 <= j < state@.bodies.len() implies self@.present().bodies[j]
                    == state@.bodies[j] by {
                    assert(state@.constants().masses[j] == old(self)@.constants().masses[j]);
                }
            }
            assert(self@.constants().masses =~= old(self)@.constants().masses);
        }
    }

    /// Full recompute: replaces the cache by the prediction of `horizon`
    /// ticks made from the present state, and marks it valid. The present
    /// state is left as it is.
    pub fn recalculate_trajectories(&mut self)
        requires
            is_arithmetic(old(self)@.reals),
            old(self)@.constants().masses_positive(),
        ensures
            final(self).wf(),
            final(self)@ == (GameView { cache: final(self)@.cache, ..old(self)@ }),
            final(self)@.frames() == prediction(
                answers(old(self)@.reals),
                old(self)@.present(),
                old(self)@.horizon as nat,
            ),
    {
        let ghost seed = self@.present();
        let mut scratch = self.present_state();
        let mut fresh = CachedTrajectories::new(self.planets.len());
        fresh.is_valid = true;
        let mut i: usize = 0;
        while i < self.horizon
            invariant
                *self == *old(self),
                is_arithmetic(self.reals),
                seed == self@.present(),
                i <= self.horizon,
                fresh.wf(),
                fresh.is_valid,
                fresh.bodies() == self.planets@.len(),
                fresh.spec_len() == i,
                fresh.frames() == prediction(answers(self.reals), seed, i as nat),
                scratch@ == spec_ticks(answers(self.reals), seed, i as nat),
            decreases self.horizon - i,
        {
            proof {
                lemma_ticks_keep_constants(answers(self.reals), seed, i as nat);
            }
            fresh.record(&scratch);
            assert(fresh.frames() =~= prediction(answers(self.reals), seed, (i + 1) as nat));
            scratch.tick(&self.reals);
            i += 1;
        }
        proof {
            lemma_prediction_is_chain(answers(self.reals), seed, self.horizon as nat);
        }
        self.cached_trajectories = fresh;
    }

    /// Single-step consumption: commits the soonest cached tick as the
    /// present state and removes it from the cache. The player's rotation is
    /// not taken from the cache. Nothing happens while the cache is empty.
    pub fn advance_trajectory(&mut self)
        requires
            old(self).wf(),
        ensures
            final(self).wf(),
            old(self)@.frames().len() == 0 ==> final(self)@ == old(self)@,
            old(self)@.frames().len() > 0 ==> {
                let first = old(self)@.frames()[0];
                &&& final(self)@.frames() == old(self)@.frames().drop_first()
                &&& final(self)@.present() == old(self)@.constants().compose(
                    Frame { player_rotation: old(self)@.player.rotation, ..first },
                )
                &&& planets_moved(
                    old(self)@.planets,
                    old(self)@.constants().compose(first),
                    final(self)@.planets,
                )
                &&& final(self)@.big_gravity == old(self)@.big_gravity
                &&& final(self)@.reals == old(self)@.reals
                &&& final(self)@.horizon == old(self)@.horizon
            },
    {
        if !self.cached_trajectories.is_valid || self.cached_trajectories.len() == 0 {
            return ;
        }
        let ghost first = self@.frames()[0];
        let ghost c = self@.constants();
        self.player.position = self.cached_trajectories.player_positions[0];
        self.player.velocity = self.cached_trajectories.player_velocities[0];
        let n: usize = self.planets.len();
        let mut j: usize = 0;
        while j < n
            invariant
                j <= n,
                n == old(self).planets@.len(),
                self.planets@.len() == n,
                old(self).wf(),
                first == old(self)@.frames()[0],
                old(self)@.frames().len() > 0,
                self.cached_trajectories == old(self).cached_trajectories,
                self.big_gravity == old(self).big_gravity,
                self.reals == old(self).reals,
                self.horizon == old(self).horizon,
                self.player == (Player {
                    position: first.player_position,
                    velocity: first.player_velocity,
                    ..old(self).player
                }),
                forall|k: int|
                    0 <= k < j ==> #[trigger] self.planets@[k] == (Planet {
                        position: first.bodies[k].position,
                        velocity: first.bodies[k].velocity,
                        ..old(self).planets@[k]
                    }),
                forall|k: int| j <= k < n ==> #[trigger] self.planets@[k] == old(self).planets@[k],
            decreases n - j,
        {
            self.planets[j].position = self.cached_trajectories.planet_positions[j][0];
            self.planets[j].velocity = self.cached_trajectories.planet_velocities[j][0];
            j += 1;
        }
        proof {
            assert(self@.constants().masses =~= c.masses);
            assert(self@.present().bodies =~= c.compose(
                Frame { player_rotation: old(self)@.player.rotation, ..first },
            ).bodies);
            lemma_chain_subrange(
                answers(self.reals),
                c,
                old(self)@.frames(),
                1,
                old(self)@.frames().len() as int,
            );
        }
        self.cached_trajectories.pop_front();
    }

    /// Batch extension: appends `num_steps` ticks behind the last cached
    /// tick, each one tick later than the one before it. The ticks that were
    /// cached stay as they are, and so does the present state. Nothing
    /// happens when `num_steps` is 0 or the cache is empty.
    pub fn extend_trajectories(&mut self, num_steps: usize)
        requires
            old(self).wf(),
        ensures
            final(self).wf(),
            num_steps == 0 || old(self)@.frames().len() == 0 ==> final(self)@ == old(self)@,
            num_steps > 0 && old(self)@.frames().len() > 0 ==> {
                &&& final(self)@ == (GameView { cache: final(self)@.cache, ..old(self)@ })
                &&& final(self)@.frames() == old(self)@.frames() + continuation(
                    answers(old(self)@.reals),
                    old(self)@.constants(),
                    old(self)@.frames().last(),
                    num_steps as nat,
                )
            },
    {
        if num_steps == 0 || self.cached_trajectories.len() == 0 {
            return ;
        }
        let ghost c = self@.constants();
        let ghost cached = self@.frames();
        let ghost last = cached.last();
        let mut scratch = self.tail_state();
        let mut k: usize = 0;
        while k < num_steps
            invariant
                k <= num_steps,
                is_arithmetic(self.reals),
                self@ == (GameView { cache: self@.cache, ..old(self)@ }),
                old(self).wf(),
                c == old(self)@.constants(),
                cached == old(self)@.frames(),
                cached.len() > 0,
                last == cached.last(),
                self.cached_trajectories.is_valid,
                self.cached_trajectories.wf(),
                self.cached_trajectories.bodies() == self.planets@.len(),
                self@.frames() == cached + continuation(answers(self.reals), c, last, k as nat),
                scratch@ == spec_ticks(answers(self.reals), c.compose(last), k as nat),
            decreases num_steps - k,
        {
            scratch.tick(&self.reals);
            proof {
                lemma_ticks_compose(answers(self.reals), c, last, (k + 1) as nat);
            }
            self.cached_trajectories.record(&scratch);
            assert(self@.frames() =~= cached + continuation(
                answers(self.reals),
                c,
                last,
                (k + 1) as nat,
            ));
            k += 1;
        }
        proof {
            lemma_chain_continued(answers(self.reals), c, cached, num_steps as nat);
        }
    }

    /// Turns the player by `delta` radians. The cache is left as it is: a
    /// rotation changes no trajectory.
    pub fn apply_rotation(&mut self, delta: u64)
        requires
            old(self).wf(),
        ensures
            final(self).wf(),
            final(self)@ == (GameView {
                player: Player {
                    rotation: spec_sum(
                        answers(old(self)@.reals),
                        old(self)@.player.rotation,
                        delta,
                    ),
                    ..old(self)@.player
                },
                ..old(self)@
            }),
    {
        self.player.rotation = sum(&self.reals, self.player.rotation, delta);
        assert(self@.constants().masses =~= old(self)@.constants().masses);
    }

    /// Fires the player's thruster for `dt`, and recomputes the whole cache
    /// from the present state so changed.
    pub fn apply_thrust(&mut self, dt: u64)
        requires
            old(self).wf(),
        ensures
            final(self).wf(),
            final(self)@ == (GameView {
                player: Player {
                    velocity: spec_thrust(answers(old(self)@.reals), old(self)@.player, dt),
                    ..old(self)@.player
                },
                cache: final(self)@.cache,
                ..old(self)@
            }),
            final(self)@.frames() == prediction(
                answers(old(self)@.reals),
                final(self)@.present(),
                old(self)@.horizon as nat,
            ),
    {
        let thrust_x: u64 = product(
            &self.reals,
            sine(&self.reals, self.player.rotation),
            THRUST_FORCE,
        );
        let thrust_y: u64 = product(
            &self.reals,
            negate(cosine(&self.reals, self.player.rotation)),
            THRUST_FORCE,
        );
        let vx: u64 = sum(
            &self.reals,
            self.player.velocity.x,
            product(&self.reals, quotient(&self.reals, thrust_x, self.player.mass), dt),
        );
        let vy: u64 = sum(
            &self.reals,
            self.player.velocity.y,
            product(&self.reals, quotient(&self.reals, thrust_y, self.player.mass), dt),
        );
        self.player.velocity = Vector2 { x: vx, y: vy };
        assert(self@.constants().masses =~= old(self)@.constants().masses);
        self.recalculate_trajectories();
    }

    /// A session over the given bodies that predicts `horizon` ticks ahead,
    /// with its cache freshly computed. A system in which some mass is not
    /// greater than zero is refused: the passive bodies are looked at first,
    /// in their order, then the player.
    pub fn with_horizon(planets: Vec<Planet>, player: Player, reals: R, horizon: usize) -> (r:
        Result<Self, ValidationError>)
        requires
            is_arithmetic(reals),
        ensures
            match r {
                Ok(game) => {
                    &&& game.wf()
                    &&& game@.big_gravity == BIG_GRAVITY
                    &&& game@.planets == planets@
                    &&& game@.player == player
                    &&& game@.reals == reals
                    &&& game@.horizon == horizon
                    &&& game@.frames() == prediction(
                        answers(reals),
                        game@.present(),
                        horizon as nat,
                    )
                },
                Err(ValidationError::PlanetMass { index }) => {
                    &&& index < planets@.len()
                    &&& !spec_is_positive(planets@[index as int].mass)
                    &&& forall|j: int|
                        0 <= j < index ==> spec_is_positive(#[trigger] planets@[j].mass)
                },
                Err(ValidationError::PlayerMass) => {
                    &&& !spec_is_positive(player.mass)
                    &&& forall|j: int|
                        0 <= j < planets@.len() ==> spec_is_positive(#[trigger] planets@[j].mass)
                },
            },
    {
        match first_invalid_mass(&planets) {
            Some(index) => {
                return Err(ValidationError::PlanetMass { index });
            },
            None => {},
        }
        if !is_positive(player.mass) {
            return Err(ValidationError::PlayerMass);
        }
        let cached_trajectories = CachedTrajectories::new(planets.len());
        let mut game = Game {
            big_gravity: BIG_GRAVITY,
            planets,
            player,
            cached_trajectories,
            reals,
            horizon,
        };
        game.recalculate_trajectories();
        Ok(game)
    }

    /// A session over the given bodies that predicts `TRAJECTORY_NUM_STEPS`
    /// ticks ahead.
    pub fn new(planets: Vec<Planet>, player: Player, reals: R) -> (r: Result<Self, ValidationError>)
        requires
            is_arithmetic(reals),
        ensures
            match r {
                Ok(game) => {
                    &&& game.wf()
                    &&& game@.big_gravity == BIG_GRAVITY
                    &&& game@.planets == planets@
                    &&& game@.player == player
                    &&& game@.reals == reals
                    &&& game@.horizon == TRAJECTORY_NUM_STEPS
                    &&& game@.frames() == prediction(
                        answers(reals),
                        game@.present(),
                        TRAJECTORY_NUM_STEPS as nat,
                    )
                },
                Err(ValidationError::PlanetMass { index }) => {
                    &&& index < planets@.len()
                    &&& !spec_is_positive(planets@[index as int].mass)
                    &&& forall|j: int|
                        0 <= j < index ==> spec_is_positive(#[trigger] planets@[j].mass)
                },
                Err(ValidationError::PlayerMass) => {
                    &&& !spec_is_positive(player.mass)
                    &&& forall|j: int|
                        0 <= j < planets@.len() ==> spec_is_positive(#[trigger] planets@[j].mass)
                },
            },
    {
        Self::with_horizon(planets, player, reals, TRAJECTORY_NUM_STEPS)
    }

    /// One frame of real time in which `steps` ticks have elapsed: commits
    /// that many ticks, one after the other, and then appends as many behind
    /// the last, so that a cache that held more than `steps` ticks keeps its
    /// length. A cache that held no more than `steps` ticks is drained and
    /// stays empty.
    pub fn advance_and_extend(&mut self, steps: usize)
        requires
            old(self).wf(),
        ensures
            final(self).wf(),
            final(self)@.big_gravity == old(self)@.big_gravity,
            final(self)@.reals == old(self)@.reals,
            final(self)@.horizon == old(self)@.horizon,
            final(self)@.constants() == old(self)@.constants(),
            final(self)@.player.rotation == old(self)@.player.rotation,
            steps == 0 || old(self)@.frames().len() == 0 ==> final(self)@ == old(self)@,
            0 < steps < old(self)@.frames().len() ==> final(self)@.frames() == old(
                self,
            )@.frames().subrange(steps as int, old(self)@.frames().len() as int) + continuation(
                answers(old(self)@.reals),
                old(self)@.constants(),
                old(self)@.frames().last(),
                steps as nat,
            ),
            steps >= old(self)@.frames().len() ==> final(self)@.frames().len() == 0,
            0 < steps ==> 0 < old(self)@.frames().len() ==> final(self)@.present() == old(
                self,
            )@.constants().compose(
                Frame {
                    player_rotation: old(self)@.player.rotation,
                    ..old(self)@.frames()[if steps < old(self)@.frames().len() {
                        steps - 1
                    } else {
                        old(self)@.frames().len() - 1
                    }]
                },
            ),
    {
        let ghost cached = self@.frames();
        let ghost c = self@.constants();
        let mut k: usize = 0;
        while k < steps
            invariant
                k <= steps,
                self.wf(),
                cached == old(self)@.frames(),
                c == old(self)@.constants(),
                self@.constants() == c,
                self@.big_gravity == old(self)@.big_gravity,
                self@.reals == old(self)@.reals,
                self@.horizon == old(self)@.horizon,
                self@.player.rotation == old(self)@.player.rotation,
                k == 0 || cached.len() == 0 ==> self@ == old(self)@,
                k <= cached.len() ==> self@.frames() == cached.subrange(
                    k as int,
                    cached.len() as int,
                ),
                k > cached.len() ==> self@.frames().len() == 0,
                0 < k ==> 0 < cached.len() ==> self@.present() == c.compose(
                    Frame {
                        player_rotation: old(self)@.player.rotation,
                        ..cached[if k <= cached.len() {
                            k - 1
                        } else {
                            cached.len() - 1
                        }]
                    },
                ),
            decreases steps - k,
        {
            let ghost before = self@;
            self.advance_trajectory();
            proof {
                if before.frames().len() > 0 {
                    assert(self@.frames() =~= cached.subrange(k + 1, cached.len() as int));
                    assert(before.frames()[0] == cached[k as int]);
                    assert(self@.constants().masses =~= c.masses);
                } else {
                    assert(self@.frames() =~= cached.subrange(
                        cached.len() as int,
                        cached.len() as int,
                    ));
                }
            }
            k += 1;
        }
        proof {
            if 0 < steps && steps < cached.len() {
                assert(self@.frames().last() == cached.last());
            }
        }
        self.extend_trajectories(steps);
    }
}

} // verus!
