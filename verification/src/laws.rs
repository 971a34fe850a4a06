//! What holds of every session, whatever the calls that led to it.

use vstd::prelude::*;
use crate::game::GameView;
use crate::physics::{lemma_ticks_keep_constants, spec_ticks};
use crate::prediction::{
    continuation, frames_track, lemma_chain_follows_first, lemma_prediction_continued, prediction,
};
use crate::scalar::{answers, Op};

verus! {

/// Equal length of all queues: in a well-formed session the queue of every
/// tracked quantity holds exactly as many entries as the cache has ticks.
pub proof fn law_queues_have_one_length<R: Fn(Op, u64, u64) -> u64>(game: GameView<R>)
    requires
        game.wf(),
    ensures
        game.cache.player_positions@.len() == game.frames().len(),
        game.cache.player_velocities@.len() == game.frames().len(),
        game.cache.player_rotations@.len() == game.frames().len(),
        game.cache.planet_positions@.len() == game.planets.len(),
        game.cache.planet_velocities@.len() == game.planets.len(),
        forall|j: int|
            0 <= j < game.planets.len() ==> (#[trigger] game.cache.planet_positions@[j])@.len()
                == game.frames().len(),
        forall|j: int|
            0 <= j < game.planets.len() ==> (#[trigger] game.cache.planet_velocities@[j])@.len()
                == game.frames().len(),
{
}

/// Determinism: two sessions that run on the same arithmetic and have just
/// been recomputed with the same horizon from the same present state hold
/// the same frames.
pub proof fn law_recompute_is_deterministic<R: Fn(Op, u64, u64) -> u64>(
    first: GameView<R>,
    second: GameView<R>,
)
    requires
        second.reals == first.reals,
        second.present() == first.present(),
        second.horizon == first.horizon,
        first.frames() == prediction(answers(first.reals), first.present(), first.horizon as nat),
        second.frames() == prediction(
            answers(second.reals),
            second.present(),
            second.horizon as nat,
        ),
    ensures
        first.frames() == second.frames(),
{
}

/// Continuity: extending a freshly recomputed cache by `more` ticks gives
/// the frames that a recompute with a horizon longer by `more` gives.
/// `recomputed` is a session after a full recompute, `extended` is that
/// session after a batch extension by `more` ticks.
pub proof fn law_extension_continues_recompute<R: Fn(Op, u64, u64) -> u64>(
    recomputed: GameView<R>,
    extended: GameView<R>,
    more: nat,
)
    requires
        recomputed.horizon > 0,
        recomputed.frames() == prediction(
            answers(recomputed.reals),
            recomputed.present(),
            recomputed.horizon as nat,
        ),
        extended.frames() == recomputed.frames() + continuation(
            answers(recomputed.reals),
            recomputed.constants(),
            recomputed.frames().last(),
            more,
        ),
    ensures
        extended.frames() == prediction(
            answers(recomputed.reals),
            recomputed.present(),
            recomputed.horizon as nat + more,
        ),
        forall|i: int|
            recomputed.horizon <= i < recomputed.horizon + more ==> extended.frames()[i]
                == spec_ticks(answers(recomputed.reals), recomputed.present(), i as nat).frame(),
{
    lemma_prediction_continued(
        answers(recomputed.reals),
        recomputed.present(),
        recomputed.horizon as nat,
        more,
    );
}

/// Consistency of the cache with itself: in a well-formed session every
/// cached tick is the state that follows the soonest cached tick by as many
/// ticks as lie between them.
pub proof fn law_cache_follows_its_first_tick<R: Fn(Op, u64, u64) -> u64>(game: GameView<R>, i: int)
    requires
        game.wf(),
        0 <= i < game.frames().len(),
    ensures
        game.constants().compose(game.frames()[i]) == spec_ticks(
            answers(game.reals),
            game.constants().compose(game.frames()[0]),
            i as nat,
        ),
{
    assert(frames_track(game.frames(), game.constants().masses.len()));
    lemma_chain_follows_first(answers(game.reals), game.constants(), game.frames(), i);
}

/// The integrator leaves the player's rotation alone: every frame of a
/// prediction has the rotation of the seed.
pub proof fn law_prediction_keeps_rotation<R: Fn(Op, u64, u64) -> u64>(game: GameView<R>, i: int)
    requires
        game.frames() == prediction(answers(game.reals), game.present(), game.horizon as nat),
        0 <= i < game.horizon,
    ensures
        game.frames()[i].player_rotation == game.player.rotation,
{
    lemma_ticks_keep_constants(answers(game.reals), game.present(), i as nat);
}

} // verus!
