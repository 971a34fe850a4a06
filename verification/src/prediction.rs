//! Predictions: the frames of the states that follow a state tick by tick.

use vstd::prelude::*;
use crate::physics::{
    lemma_compose_split, lemma_split_compose, lemma_ticks_add, lemma_ticks_keep_constants,
    spec_tick, spec_ticks, Constants, Frame, SystemStateView,
};
use crate::scalar::Arithmetic;

verus! {

/// The prediction of `count` ticks made from `seed`: it starts with the
/// frame of `seed` itself, and each frame after that is one tick later than
/// the one before it.
pub open spec fn prediction(
    reals: Arithmetic,
    seed: SystemStateView,
    count: nat,
) -> Seq<Frame> {
    Seq::new(count, |i: int| spec_ticks(reals, seed, i as nat).frame())
}

/// The `count` frames that follow the frame `last` tick by tick, the
/// constants being `c`. `last` itself is not among them.
pub open spec fn continuation(
    reals: Arithmetic,
    c: Constants,
    last: Frame,
    count: nat,
) -> Seq<Frame> {
    Seq::new(count, |k: int| spec_ticks(reals, c.compose(last), (k + 1) as nat).frame())
}

/// Every frame of `frames` tracks `bodies` passive bodies.
pub open spec fn frames_track(frames: Seq<Frame>, bodies: nat) -> bool {
    forall|i: int| 0 <= i < frames.len() ==> (#[trigger] frames[i]).bodies.len() == bodies
}

/// Each frame but the first is one tick later than the frame before it, the
/// constants being `c`.
#[verifier::opaque]
pub open spec fn is_chain(
    reals: Arithmetic,
    c: Constants,
    frames: Seq<Frame>,
) -> bool {
    forall|i: int|
        0 <= i < frames.len() - 1 ==> c.compose(frames[i + 1]) == spec_tick(
            reals,
            c.compose(#[trigger] frames[i]),
        )
}

/// Every stretch of a chain is a chain.
pub proof fn lemma_chain_subrange(
    reals: Arithmetic,
    c: Constants,
    frames: Seq<Frame>,
    from: int,
    to: int,
)
    requires
        is_chain(reals, c, frames),
        0 <= from <= to <= frames.len(),
    ensures
        is_chain(reals, c, frames.subrange(from, to)),
{
    reveal(is_chain);
    let part = frames.subrange(from, to);
    assert forall|i: int| 0 <= i < part.len() - 1 implies c.compose(part[i + 1]) == spec_tick(
        reals,
        c.compose(#[trigger] part[i]),
    ) by {
        assert(part[i] == frames[from + i]);
        assert(part[i + 1] == frames[from + i + 1]);
    }
}

/// The state `count` ticks after a state composed of `c` and a frame is
/// composed of `c` and its own frame.
pub proof fn lemma_ticks_compose(
    reals: Arithmetic,
    c: Constants,
    frame: Frame,
    count: nat,
)
    requires
        frame.bodies.len() == c.masses.len(),
    ensures
        c.compose(spec_ticks(reals, c.compose(frame), count).frame()) == spec_ticks(
            reals,
            c.compose(frame),
            count,
        ),
        spec_ticks(reals, c.compose(frame), count).frame().bodies.len() == c.masses.len(),
{
    lemma_split_compose(c, frame);
    lemma_ticks_keep_constants(reals, c.compose(frame), count);
    lemma_compose_split(spec_ticks(reals, c.compose(frame), count));
}

/// A prediction is a chain over the constants of its seed, and each of its
/// frames tracks the bodies of the seed.
pub proof fn lemma_prediction_is_chain(
    reals: Arithmetic,
    seed: SystemStateView,
    count: nat,
)
    ensures
        is_chain(reals, seed.constants(), prediction(reals, seed, count)),
        frames_track(prediction(reals, seed, count), seed.bodies.len()),
{
    reveal(is_chain);
    let c = seed.constants();
    let frames = prediction(reals, seed, count);
    assert forall|i: int| 0 <= i < frames.len() implies (#[trigger] frames[i]).bodies.len()
        == seed.bodies.len() by {
        lemma_ticks_keep_constants(reals, seed, i as nat);
    }
    assert forall|i: int| 0 <= i < frames.len() - 1 implies c.compose(frames[i + 1]) == spec_tick(
        reals,
        c.compose(#[trigger] frames[i]),
    ) by {
        lemma_ticks_keep_constants(reals, seed, i as nat);
        lemma_ticks_keep_constants(reals, seed, (i + 1) as nat);
        lemma_compose_split(spec_ticks(reals, seed, i as nat));
        lemma_compose_split(spec_ticks(reals, seed, (i + 1) as nat));
    }
}

/// A chain followed by the continuation of its last frame is a chain.
pub proof fn lemma_chain_continued(
    reals: Arithmetic,
    c: Constants,
    frames: Seq<Frame>,
    count: nat,
)
    requires
        is_chain(reals, c, frames),
        frames.len() > 0,
        frames_track(frames, c.masses.len()),
    ensures
        is_chain(reals, c, frames + continuation(reals, c, frames.last(), count)),
        frames_track(frames + continuation(reals, c, frames.last(), count), c.masses.len()),
{
    reveal(is_chain);
    let last = frames.last();
    let more = continuation(reals, c, last, count);
    let all = frames + more;
    assert forall|i: int| 0 <= i < all.len() implies (#[trigger] all[i]).bodies.len()
        == c.masses.len() by {
        if i >= frames.len() {
            lemma_ticks_compose(reals, c, last, (i - frames.len() + 1) as nat);
        }
    }
    assert forall|i: int| 0 <= i < all.len() - 1 implies c.compose(all[i + 1]) == spec_tick(
        reals,
        c.compose(#[trigger] all[i]),
    ) by {
        if i < frames.len() - 1 {
            assert(all[i] == frames[i]);
            assert(all[i + 1] == frames[i + 1]);
        } else {
            let k = i - frames.len() + 1;
            lemma_ticks_compose(reals, c, last, k as nat);
            lemma_ticks_compose(reals, c, last, (k + 1) as nat);
            assert(all[i + 1] == more[k]);
            if k == 0 {
                assert(all[i] == last);
            } else {
                assert(all[i] == more[k - 1]);
            }
        }
    }
}

/// A chain is the frames of the ticks that follow its first frame.
pub proof fn lemma_chain_follows_first(
    reals: Arithmetic,
    c: Constants,
    frames: Seq<Frame>,
    i: int,
)
    requires
        is_chain(reals, c, frames),
        frames_track(frames, c.masses.len()),
        0 <= i < frames.len(),
    ensures
        c.compose(frames[i]) == spec_ticks(reals, c.compose(frames[0]), i as nat),
    decreases i,
{
    if i > 0 {
        reveal(is_chain);
        lemma_chain_follows_first(reals, c, frames, i - 1);
        assert(c.compose(frames[i - 1 + 1]) == spec_tick(reals, c.compose(frames[i - 1])));
    }
}

/// The prediction of `first` ticks, followed by the continuation of its
/// last frame by `more` ticks, is the prediction of `first + more` ticks.
pub proof fn lemma_prediction_continued(
    reals: Arithmetic,
    seed: SystemStateView,
    first: nat,
    more: nat,
)
    requires
        first > 0,
    ensures
        prediction(reals, seed, first) + continuation(
            reals,
            seed.constants(),
            prediction(reals, seed, first).last(),
            more,
        ) == prediction(reals, seed, first + more),
{
    let c = seed.constants();
    let last = prediction(reals, seed, first).last();
    let left = prediction(reals, seed, first) + continuation(reals, c, last, more);
    let right = prediction(reals, seed, first + more);
    lemma_ticks_keep_constants(reals, seed, (first - 1) as nat);
    lemma_compose_split(spec_ticks(reals, seed, (first - 1) as nat));
    assert(c.compose(last) == spec_ticks(reals, seed, (first - 1) as nat));
    assert forall|i: int| 0 <= i < left.len() implies left[i] == right[i] by {
        if i >= first {
            let k = i - first;
            lemma_ticks_add(reals, seed, (first - 1) as nat, (k + 1) as nat);
            assert(((first - 1) as nat + (k + 1) as nat) as nat == i as nat);
        }
    }
    assert(left =~= right);
}

} // verus!
