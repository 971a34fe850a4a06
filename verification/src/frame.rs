//! One frame of the driving loop.

use vstd::prelude::*;
use crate::game::{Game, GameView};
use crate::keyboard_input::InputState;
use crate::physics::{Frame, TRAJECTORY_DT};
use crate::prediction::{continuation, prediction};
use crate::scalar::{
    answers, difference, from_natural, product, quotient, spec_difference, spec_from_integer,
    spec_product, spec_quotient, spec_sum, spec_to_integer, sum, to_integer, Arithmetic, Op,
};

verus! {

/// The simulated time that has accumulated once a frame of `dt` seconds of
/// real time has been added at the given time warp: `accumulator + dt *
/// time_warp`.
pub open spec fn spec_accumulated(
    reals: Arithmetic,
    accumulator: u64,
    dt: u64,
    time_warp: u64,
) -> u64 {
    spec_sum(reals, accumulator, spec_product(reals, dt, time_warp))
}

/// The number of whole ticks in the accumulated time.
pub open spec fn spec_elapsed_ticks(reals: Arithmetic, accumulated: u64) -> u64 {
    spec_to_integer(reals, spec_quotient(reals, accumulated, TRAJECTORY_DT))
}

/// The accumulated time that is left once its whole ticks are taken out.
pub open spec fn spec_left_over(reals: Arithmetic, accumulated: u64) -> u64 {
    let steps = spec_elapsed_ticks(reals, accumulated);
    if steps > 0 {
        spec_difference(
            reals,
            accumulated,
            spec_product(reals, spec_from_integer(reals, steps as int), TRAJECTORY_DT),
        )
    } else {
        accumulated
    }
}

/// The frames that a cache holding `base` holds once `steps` ticks have
/// been committed and as many appended.
pub open spec fn spec_slid<R: Fn(Op, u64, u64) -> u64>(
    game: GameView<R>,
    base: Seq<Frame>,
    steps: nat,
) -> Seq<Frame> {
    if steps == 0 {
        base
    } else if steps < base.len() {
        base.subrange(steps as int, base.len() as int) + continuation(
            answers(game.reals),
            game.constants(),
            base.last(),
            steps,
        )
    } else {
        Seq::empty()
    }
}

/// `after` is the session `before` after one frame: the held keys have
/// acted on the present state, which has the cache recomputed where the
/// thruster fired; then the whole ticks of the accumulated time have been
/// committed from the cache and as many appended behind its last.
pub open spec fn frame_run<R: Fn(Op, u64, u64) -> u64>(
    before: GameView<R>,
    input: InputState,
    time_accumulator: u64,
    dt: u64,
    time_warp: u64,
    after: GameView<R>,
) -> bool {
    let steered = GameView {
        player: input.spec_steered(answers(before.reals), before.player, dt),
        ..before
    };
    let base = if input.thrust {
        prediction(answers(steered.reals), steered.present(), steered.horizon as nat)
    } else {
        before.frames()
    };
    let steps = spec_elapsed_ticks(
        answers(steered.reals),
        spec_accumulated(answers(steered.reals), time_accumulator, dt, time_warp),
    );
    &&& after.big_gravity == before.big_gravity
    &&& after.reals == before.reals
    &&& after.horizon == before.horizon
    &&& after.constants() == before.constants()
    &&& after.player.rotation == steered.player.rotation
    &&& after.frames() == spec_slid(steered, base, steps as nat)
    &&& after.present() == if steps == 0 || base.len() == 0 {
        steered.present()
    } else {
        steered.constants().compose(
            Frame {
                player_rotation: steered.player.rotation,
                ..base[if steps < base.len() {
                    steps - 1
                } else {
                    base.len() - 1
                }]
            },
        )
    }
}

/// One frame: the held keys act on the present state for `dt` seconds, the
/// time that passed is added to the accumulator at the given time warp, and
/// the whole ticks that have accumulated are committed from the cache, as
/// many being appended behind its last. Gives the time that is left in the
/// accumulator.
pub fn run_frame<R: Fn(Op, u64, u64) -> u64>(
    game: &mut Game<R>,
    input: &InputState,
    time_accumulator: u64,
    dt: u64,
    time_warp: u64,
) -> (r: u64)
    requires
        old(game).wf(),
    ensures
        final(game).wf(),
        r == spec_left_over(
            answers(old(game)@.reals),
            spec_accumulated(answers(old(game)@.reals), time_accumulator, dt, time_warp),
        ),
        frame_run(old(game)@, *input, time_accumulator, dt, time_warp, final(game)@),
{
    input.apply_to_game(game, dt);
    let ghost steered = game@;
    let ghost planned = GameView {
        player: input.spec_steered(answers(old(game)@.reals), old(game)@.player, dt),
        ..old(game)@
    };
    proof {
        assert(steered.constants().masses =~= old(game)@.constants().masses);
        assert(planned.constants().masses =~= steered.constants().masses);
        assert(planned.present().bodies =~= steered.present().bodies);
        assert(planned.present() == steered.present());
        assert(planned.constants() == steered.constants());
    }
    let accumulated: u64 = sum(
        game.reals(),
        time_accumulator,
        product(game.reals(), dt, time_warp),
    );
    let steps_to_advance: u64 = to_integer(
        game.reals(),
        quotient(game.reals(), accumulated, TRAJECTORY_DT),
    );
    if steps_to_advance > 0 {
        let cached: usize = game.cached_trajectories().len();
        let steps: usize = if steps_to_advance > usize::MAX as u64 {
            usize::MAX
        } else {
            steps_to_advance as usize
        };
        assert(steps_to_advance < cached <==> steps < cached);
        game.advance_and_extend(steps);
        proof {
            assert(game@.frames() =~= spec_slid(
                planned,
                steered.frames(),
                steps_to_advance as nat,
            ));
        }
        difference(
            game.reals(),
            accumulated,
            product(game.reals(), from_natural(game.reals(), steps_to_advance), TRAJECTORY_DT),
        )
    } else {
        proof {
            assert(game@.frames() =~= spec_slid(planned, steered.frames(), 0));
        }
        accumulated
    }
}

} // verus!
