use crate::rendering::animation_seq::{Playback, Playhead, Script};
use vstd::prelude::*;

verus! {

broadcast use {vstd::seq::axiom_seq_index_decreases, vstd::seq::axiom_seq_subrange_decreases};

/// `frames`, `times` times over.
pub open spec fn repeated(frames: Seq<usize>, times: nat) -> Seq<usize>
    decreases times,
{
    if times == 0 {
        Seq::empty()
    } else {
        frames + repeated(frames, (times - 1) as nat)
    }
}

/// The frames of an animation in the order in which they are shown: first
/// `lead`, once, and then `cycle`, again and again. An animation that comes
/// to an end has no cycle.
pub struct Reel {
    pub lead: Seq<usize>,
    pub cycle: Seq<usize>,
}

impl Reel {
    /// The reel without a frame.
    pub open spec fn blank() -> Reel {
        Reel { lead: Seq::empty(), cycle: Seq::empty() }
    }

    /// Whether the reel has no frame.
    pub open spec fn is_blank(self) -> bool {
        self.lead.len() == 0 && self.cycle.len() == 0
    }

    /// Whether the reel goes on without end.
    pub open spec fn endless(self) -> bool {
        self.cycle.len() > 0
    }

    /// The first frame.
    pub open spec fn head(self) -> Option<usize> {
        if self.lead.len() > 0 {
            Some(self.lead[0])
        } else if self.cycle.len() > 0 {
            Some(self.cycle[0])
        } else {
            None
        }
    }

    /// The reel after its first frame.
    pub open spec fn tail(self) -> Reel {
        if self.lead.len() > 0 {
            Reel { lead: self.lead.skip(1), ..self }
        } else if self.cycle.len() > 0 {
            Reel { lead: self.cycle.skip(1), ..self }
        } else {
            self
        }
    }

    /// This reel and `next` after it. What follows an endless reel is never
    /// shown.
    pub open spec fn followed_by(self, next: Reel) -> Reel {
        if self.endless() {
            self
        } else {
            Reel { lead: self.lead + next.lead, cycle: next.cycle }
        }
    }

    /// The frame at place `n`, counted from 0, or `None` past the end.
    pub open spec fn at(self, n: nat) -> Option<usize> {
        if n < self.lead.len() {
            Some(self.lead[n as int])
        } else if self.cycle.len() > 0 {
            Some(self.cycle[(n - self.lead.len()) % (self.cycle.len() as int)])
        } else {
            None
        }
    }
}

impl Script {
    /// The frames that the script shows, where it has no hollow part.
    pub open spec fn reel(self) -> Reel
        decreases self,
    {
        match self {
            Script::Play { start, end } => Reel {
                lead: if start <= end {
                    Seq::new((end - start + 1) as nat, |i: int| (start + i) as usize)
                } else {
                    Seq::empty()
                },
                cycle: Seq::empty(),
            },
            Script::ReversePlay { start, end } => Reel {
                lead: if start >= end {
                    Seq::new((start - end + 1) as nat, |i: int| (start - i) as usize)
                } else {
                    Seq::empty()
                },
                cycle: Seq::empty(),
            },
            Script::Repeat { times, script } => if times == 0 {
                Reel::blank()
            } else if script.reel().endless() {
                script.reel()
            } else {
                Reel { lead: repeated(script.reel().lead, times as nat), cycle: Seq::empty() }
            },
            Script::Forever { script } => if script.reel().endless() {
                script.reel()
            } else {
                Reel { lead: Seq::empty(), cycle: script.reel().lead }
            },
            Script::Pieces { pieces } => Script::chain(pieces),
        }
    }

    /// The frames of each of `pieces`, one piece after the other.
    pub open spec fn chain(pieces: Seq<Script>) -> Reel
        decreases pieces,
    {
        if pieces.len() == 0 {
            Reel::blank()
        } else {
            pieces[0].reel().followed_by(Script::chain(pieces.subrange(1, pieces.len() as int)))
        }
    }

    /// Whether the script has no hollow part: every animation that a
    /// `Repeat`, a `Forever` or a `Pieces` in it starts has a frame to show.
    pub open spec fn dense(self) -> bool
        decreases self,
    {
        match self {
            Script::Play { .. } => true,
            Script::ReversePlay { .. } => true,
            Script::Repeat { times, script } => times == 0 || (script.dense()
                && !script.reel().is_blank()),
            Script::Forever { script } => script.dense() && !script.reel().is_blank(),
            Script::Pieces { pieces } => Script::all_dense(pieces),
        }
    }

    /// Whether each of `pieces` has a frame to show and no hollow part.
    pub open spec fn all_dense(pieces: Seq<Script>) -> bool
        decreases pieces,
    {
        if pieces.len() == 0 {
            true
        } else {
            pieces[0].dense() && !pieces[0].reel().is_blank() && Script::all_dense(
                pieces.subrange(1, pieces.len() as int),
            )
        }
    }
}

impl Playhead {
    /// The frames that the walk has yet to show: those of the active child,
    /// then those of the node itself.
    pub open spec fn pending(self) -> Reel
        decreases self,
    {
        match self.leaf {
            Some(child) => child.pending().followed_by(self.current.reel()),
            None => self.current.reel(),
        }
    }

    /// Whether the walk is one through a script without a hollow part.
    pub open spec fn steady(self) -> bool
        decreases self,
    {
        &&& self.current.dense()
        &&& match self.leaf {
            Some(child) => child.steady(),
            None => true,
        }
    }
}

/// What a turn of the node itself gives, for a script without a hollow part,
/// when the child has nothing left: the first of the node's frames, with the
/// rest of them still to come; and no frame where the node has none.
proof fn lemma_turn_shows_the_first_frame(current: Script, leaf: Option<Box<Playhead>>)
    requires
        current.dense(),
        leaf matches Some(child) ==> child.steady() && child.pending().is_blank(),
    ensures
        ({
            let (frame, after) = Playhead::turn(current, leaf);
            &&& after.steady()
            &&& frame == current.reel().head()
            &&& after.pending() == current.reel().tail()
        }),
    decreases current,
{
    reveal_with_fuel(Script::reel, 2);
    reveal_with_fuel(Script::chain, 2);
    reveal_with_fuel(Script::dense, 2);
    reveal_with_fuel(Script::all_dense, 2);
    let (frame, after) = Playhead::turn(current, leaf);
    let reel = current.reel();
    match current {
        Script::Play { start, end } => {
            if start < end {
                assert(after.current.reel().lead =~= reel.lead.skip(1));
            } else if start == end {
                assert(after.current.reel().lead =~= reel.lead.skip(1));
            }
            assert(after.pending().lead =~= reel.tail().lead);
            assert(after.pending().cycle =~= reel.tail().cycle);
        },
        Script::ReversePlay { start, end } => {
            if start > end {
                assert(after.current.reel().lead =~= reel.lead.skip(1));
            } else if start == end {
                assert(after.current.reel().lead =~= reel.lead.skip(1));
            }
            assert(after.pending().lead =~= reel.tail().lead);
            assert(after.pending().cycle =~= reel.tail().cycle);
        },
        Script::Repeat { times, script } => {
            if times > 0 {
                lemma_turn_shows_the_first_frame(*script, None);
                let (first, child) = Playhead::turn(*script, None);
                let rest = Script::Repeat { times: (times - 1) as usize, script }.reel();
                assert(after.pending() == child.pending().followed_by(rest));
                if !script.reel().endless() {
                    assert(rest.lead =~= repeated(script.reel().lead, (times - 1) as nat));
                    assert(reel.lead == script.reel().lead + repeated(
                        script.reel().lead,
                        (times - 1) as nat,
                    ));
                }
            }
            assert(after.pending().lead =~= reel.tail().lead);
            assert(after.pending().cycle =~= reel.tail().cycle);
        },
        Script::Forever { script } => {
            lemma_turn_shows_the_first_frame(*script, None);
            let (first, child) = Playhead::turn(*script, None);
            assert(after.pending() == child.pending().followed_by(reel));
            assert(after.pending().lead =~= reel.tail().lead);
            assert(after.pending().cycle =~= reel.tail().cycle);
        },
        Script::Pieces { pieces } => {
            if pieces.len() > 0 {
                lemma_turn_shows_the_first_frame(pieces[0], None);
                let (first, child) = Playhead::turn(pieces[0], None);
                assert(pieces.remove(0) =~= pieces.subrange(1, pieces.len() as int));
                let rest = Script::chain(pieces.subrange(1, pieces.len() as int));
                assert(reel == pieces[0].reel().followed_by(rest));
                assert(after.pending() == child.pending().followed_by(rest));
            }
            assert(after.pending().lead =~= reel.tail().lead);
            assert(after.pending().cycle =~= reel.tail().cycle);
        },
    }
}

/// One step of a steady walk shows the first of the frames that are pending
/// and leaves the rest of them pending; with none pending it shows none.
pub proof fn lemma_step_shows_the_first_pending(head: Playhead)
    requires
        head.steady(),
    ensures
        ({
            let (frame, after) = head.advance();
            &&& after.steady()
            &&& frame == head.pending().head()
            &&& after.pending() == head.pending().tail()
        }),
    decreases head,
{
    let (frame, after) = head.advance();
    let pending = head.pending();
    match head.leaf {
        None => {
            lemma_turn_shows_the_first_frame(head.current, None);
        },
        Some(child) => {
            lemma_step_shows_the_first_pending(*child);
            let (first, rest) = child.advance();
            if child.pending().is_blank() {
                lemma_turn_shows_the_first_frame(head.current, Some(Box::new(rest)));
                assert(pending.lead =~= head.current.reel().lead);
            }
            assert(after.pending().lead =~= pending.tail().lead);
            assert(after.pending().cycle =~= pending.tail().cycle);
        },
    }
}

/// The frame at a place of a reel is the first frame of what is left of the
/// reel after as many frames.
proof fn lemma_at_follows_the_tail(reel: Reel, n: nat)
    ensures
        reel.at(n) == (if n == 0 {
            reel.head()
        } else {
            reel.tail().at((n - 1) as nat)
        }),
{
    let lead = reel.lead.len() as int;
    let cycle = reel.cycle.len() as int;
    let place = n as int;
    if place > 0 && cycle > 0 {
        if lead > 0 {
            assert((place - 1) - (lead - 1) == place - lead);
        } else if place < cycle {
            assert(place % cycle == place) by (nonlinear_arith)
                requires
                    0 <= place < cycle,
            ;
        } else {
            assert((place - cycle) % cycle == place % cycle) by (nonlinear_arith)
                requires
                    cycle > 0,
                    place >= cycle,
            ;
        }
    } else if place == 0 && cycle > 0 && lead == 0 {
        assert(0int % cycle == 0) by (nonlinear_arith)
            requires
                cycle > 0,
        ;
    }
}

/// A steady playback with nothing looked ahead to shows its pending frames
/// one by one.
pub proof fn lemma_steady_playback_shows_what_is_pending(playback: Playback, n: nat)
    requires
        playback.peeked.is_none(),
        playback.head.steady(),
    ensures
        playback.upcoming(n) == playback.head.pending().at(n),
    decreases n,
{
    lemma_step_shows_the_first_pending(playback.head);
    lemma_at_follows_the_tail(playback.head.pending(), n);
    if n > 0 {
        let next = playback.next().1;
        lemma_steady_playback_shows_what_is_pending(next, (n - 1) as nat);
        assert(playback.upcoming(n) == next.upcoming((n - 1) as nat));
    }
}

/// A sequence over an animation without a hollow part shows the animation's
/// frames in order: first its lead and then, where the animation is
/// endless, its cycle again and again. One that comes to an end shows no
/// frame after its last.
pub proof fn lemma_dense_script_plays_its_reel(script: Script, n: nat)
    requires
        script.dense(),
    ensures
        Playback::begin(script).upcoming(n) == script.reel().at(n),
{
    lemma_steady_playback_shows_what_is_pending(Playback::begin(script), n);
}

/// An ascending range gives `start`, `start + 1`, and so on up to `end`, and
/// no frame after that; with `start` above `end` it gives none at all.
pub proof fn lemma_play_counts_up(start: usize, end: usize, n: nat)
    ensures
        Playback::begin(Script::Play { start, end }).upcoming(n) == (if start <= end && n <= end
            - start {
            Some((start + n) as usize)
        } else {
            None
        }),
{
    lemma_dense_script_plays_its_reel(Script::Play { start, end }, n);
}

/// A descending range gives `start`, `start - 1`, and so on down to `end`,
/// and no frame after that; with `start` below `end` it gives none at all.
pub proof fn lemma_reverse_play_counts_down(start: usize, end: usize, n: nat)
    ensures
        Playback::begin(Script::ReversePlay { start, end }).upcoming(n) == (if start >= end && n
            <= start - end {
            Some((start - n) as usize)
        } else {
            None
        }),
{
    lemma_dense_script_plays_its_reel(Script::ReversePlay { start, end }, n);
}

/// `Forever` over the range from `start` to `end` never runs out: the `n`-th
/// answer is always a frame, and each cycle starts over at `start`.
pub proof fn lemma_forever_play_cycles(start: usize, end: usize, n: nat)
    requires
        start <= end,
    ensures
        Playback::begin(
            Script::Forever { script: Box::new(Script::Play { start, end }) },
        ).upcoming(n) == Some((start + n % (end - start + 1) as nat) as usize),
{
    reveal_with_fuel(Script::reel, 2);
    reveal_with_fuel(Script::dense, 2);
    let script = Script::Forever { script: Box::new(Script::Play { start, end }) };
    lemma_dense_script_plays_its_reel(script, n);
    let length = end - start + 1;
    assert(0 <= (n as int) % length < length) by (nonlinear_arith)
        requires
            length > 0,
    ;
}

} // verus!
