use crate::rendering::animation_laws::{
    lemma_dense_script_plays_its_reel, lemma_forever_play_cycles, lemma_play_counts_up, repeated,
    Reel,
};
use crate::rendering::animation_seq::{Animation, AnimationSequence, Playback, Script};
use vstd::prelude::*;

verus! {

/// The player's animations.
pub struct PlayerAnimations;

impl PlayerAnimations {
    /// Frames 0 to 9, again and again.
    pub open spec fn looping() -> Script {
        Script::Forever { script: Box::new(Script::Play { start: 0, end: 9 }) }
    }

    /// Frames 0 to 9, once.
    pub open spec fn once() -> Script {
        Script::Play { start: 0, end: 9 }
    }

    /// Frame 6 held: five times over, again and again.
    pub open spec fn falling() -> Script {
        Script::Forever {
            script: Box::new(
                Script::Repeat { times: 5, script: Box::new(Script::Play { start: 6, end: 6 }) },
            ),
        }
    }

    /// Frames 0 to 4, then the fall.
    pub open spec fn leaping() -> Script {
        Script::Pieces { pieces: seq![Script::Play { start: 0, end: 4 }, Self::falling()] }
    }

    /// The animation of a player that stands.
    pub fn idle() -> (sequence: AnimationSequence)
        ensures
            sequence@ == Playback::begin(Self::looping()),
    {
        to_seq(Animation::forever(Animation::play(0, 9)))
    }

    /// The animation of an attack.
    pub fn attack() -> (sequence: AnimationSequence)
        ensures
            sequence@ == Playback::begin(Self::once()),
    {
        to_seq(Animation::play(0, 9))
    }

    /// The animation of a jump: the leap, then the fall.
    pub fn jump() -> (sequence: AnimationSequence)
        ensures
            sequence@ == Playback::begin(Self::leaping()),
    {
        let pieces = vec![Animation::play(0, 4), PlayerAnimations::drop().animation().clone()];
        assert(Script::of_all(pieces@) =~= seq![Script::Play { start: 0, end: 4 }, Self::falling()]);
        to_seq(Animation::seq(pieces))
    }

    /// The animation of a fall.
    pub fn drop() -> (sequence: AnimationSequence)
        ensures
            sequence@ == Playback::begin(Self::falling()),
    {
        to_seq(Animation::forever(Animation::repeat(5, Animation::play(6, 6))))
    }

    /// The animation of a player that runs.
    pub fn run() -> (sequence: AnimationSequence)
        ensures
            sequence@ == Playback::begin(Self::looping()),
    {
        to_seq(Animation::forever(Animation::play(0, 9)))
    }

    /// The animation of a slide.
    pub fn slide() -> (sequence: AnimationSequence)
        ensures
            sequence@ == Playback::begin(Self::once()),
    {
        to_seq(Animation::play(0, 9))
    }
}

fn to_seq(a: Animation) -> (sequence: AnimationSequence)
    ensures
        sequence@ == Playback::begin(a@),
{
    AnimationSequence::new(a)
}

/// The looping animation shows the frames 0 to 9 again and again.
pub proof fn lemma_looping_shows_ten_frames_in_turn(n: nat)
    ensures
        Playback::begin(PlayerAnimations::looping()).upcoming(n) == Some((n % 10) as usize),
{
    lemma_forever_play_cycles(0, 9, n);
}

/// The animation that plays once shows the frames 0 to 9 and then no more.
pub proof fn lemma_once_shows_ten_frames(n: nat)
    ensures
        Playback::begin(PlayerAnimations::once()).upcoming(n) == (if n < 10 {
            Some(n as usize)
        } else {
            None
        }),
{
    lemma_play_counts_up(0, 9, n);
}

/// Frames that are all the same stay so when they are repeated.
proof fn lemma_repeated_keeps_the_frame(frames: Seq<usize>, times: nat, frame: usize)
    requires
        forall|i: int| 0 <= i < frames.len() ==> frames[i] == frame,
    ensures
        forall|i: int| 0 <= i < repeated(frames, times).len() ==> repeated(frames, times)[i] == frame,
        times > 0 ==> repeated(frames, times).len() >= frames.len(),
    decreases times,
{
    if times > 0 {
        lemma_repeated_keeps_the_frame(frames, (times - 1) as nat, frame);
        let rest = repeated(frames, (times - 1) as nat);
        assert forall|i: int| 0 <= i < repeated(frames, times).len() implies repeated(
            frames,
            times,
        )[i] == frame by {
            if i < frames.len() {
                assert((frames + rest)[i] == frames[i]);
            } else {
                assert((frames + rest)[i] == rest[i - frames.len()]);
            }
        }
    }
}

/// The fall shows frame 6 without end.
pub proof fn lemma_falling_holds_frame_six(n: nat)
    ensures
        Playback::begin(PlayerAnimations::falling()).upcoming(n) == Some(6usize),
{
    reveal_with_fuel(Script::reel, 3);
    reveal_with_fuel(Script::dense, 3);
    let held = Script::Play { start: 6, end: 6 };
    lemma_repeated_keeps_the_frame(held.reel().lead, 5, 6);
    lemma_dense_script_plays_its_reel(PlayerAnimations::falling(), n);
    let cycle = PlayerAnimations::falling().reel().cycle;
    assert(cycle == repeated(held.reel().lead, 5));
    assert(0 <= (n as int) % (cycle.len() as int) < cycle.len()) by (nonlinear_arith)
        requires
            cycle.len() > 0,
    ;
}

/// The leap shows the frames 0 to 4 and then falls: frame 6 without end.
pub proof fn lemma_leaping_rises_and_falls(n: nat)
    ensures
        Playback::begin(PlayerAnimations::leaping()).upcoming(n) == (if n < 5 {
            Some(n as usize)
        } else {
            Some(6usize)
        }),
{
    reveal_with_fuel(Script::reel, 4);
    reveal_with_fuel(Script::chain, 3);
    reveal_with_fuel(Script::dense, 4);
    reveal_with_fuel(Script::all_dense, 3);
    let held = Script::Play { start: 6, end: 6 };
    let rise = Script::Play { start: 0, end: 4 };
    let pieces = seq![rise, PlayerAnimations::falling()];
    lemma_repeated_keeps_the_frame(held.reel().lead, 5, 6);
    let rest = pieces.subrange(1, 2);
    assert(rest[0] == PlayerAnimations::falling());
    assert(rest.subrange(1, 1) =~= Seq::<Script>::empty());
    let fall = PlayerAnimations::falling().reel();
    assert(fall.cycle == repeated(held.reel().lead, 5));
    assert(Script::chain(rest) == fall.followed_by(Reel::blank()));
    assert(PlayerAnimations::falling().dense());
    assert(!fall.is_blank());
    assert(Script::all_dense(rest.subrange(1, 1)));
    assert(Script::all_dense(rest));
    assert(Script::all_dense(pieces));
    let reel = PlayerAnimations::leaping().reel();
    assert(reel == rise.reel().followed_by(Script::chain(rest)));
    assert(reel.lead =~= rise.reel().lead);
    assert(reel.cycle == fall.cycle);
    lemma_dense_script_plays_its_reel(PlayerAnimations::leaping(), n);
    assert(0 <= (n - 5) % (reel.cycle.len() as int) < reel.cycle.len()) by (nonlinear_arith)
        requires
            reel.cycle.len() > 0,
    ;
}

} // verus!
