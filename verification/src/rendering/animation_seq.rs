use vstd::prelude::*;

verus! {

broadcast use {vstd::std_specs::vec::axiom_vec_index_decreases, vstd::seq::axiom_seq_index_decreases};

/// A declarative animation: a tree whose leaves are frame ranges.
pub enum Animation {
    /// The frames `start, start + 1, .., end`; none if `start > end`.
    Play { start: usize, end: usize },
    /// The frames `start, start - 1, .., end`; none if `start < end`.
    ReversePlay { start: usize, end: usize },
    /// `animation`, started afresh `times` times.
    Repeat { times: usize, animation: Box<Animation> },
    /// `animation`, started afresh without end.
    Forever { animation: Box<Animation> },
    /// Each of `pieces` in turn.
    Pieces { pieces: Vec<Animation> },
}

/// The mathematical value of an [`Animation`].
pub enum Script {
    Play { start: usize, end: usize },
    ReversePlay { start: usize, end: usize },
    Repeat { times: usize, script: Box<Script> },
    Forever { script: Box<Script> },
    Pieces { pieces: Seq<Script> },
}

impl Animation {
    /// The mathematical value of this animation.
    pub open spec fn script(&self) -> Script
        decreases self,
    {
        match self {
            Animation::Play { start, end } => Script::Play { start: *start, end: *end },
            Animation::ReversePlay { start, end } => Script::ReversePlay {
                start: *start,
                end: *end,
            },
            Animation::Repeat { times, animation } => Script::Repeat {
                times: *times,
                script: Box::new(animation.script()),
            },
            Animation::Forever { animation } => Script::Forever {
                script: Box::new(animation.script()),
            },
            Animation::Pieces { pieces } => Script::Pieces {
                pieces: Seq::new(
                    pieces@.len(),
                    |i: int|
                        if 0 <= i < pieces@.len() {
                            pieces@[i].script()
                        } else {
                            Script::spent()
                        },
                ),
            },
        }
    }

    /// The frames from `start` to `end`, both included, counting up or down
    /// as needed.
    pub fn play(start: usize, end: usize) -> (animation: Animation)
        ensures
            animation@ == (if start <= end {
                Script::Play { start, end }
            } else {
                Script::ReversePlay { start, end }
            }),
    {
        if start <= end {
            Animation::Play { start, end }
        } else {
            Animation::ReversePlay { start, end }
        }
    }

    /// `a`, played `times` times.
    pub fn repeat(times: usize, a: Animation) -> (animation: Animation)
        ensures
            animation@ == (Script::Repeat { times, script: Box::new(a@) }),
    {
        Animation::Repeat { times, animation: Box::new(a) }
    }

    /// `a`, played again and again.
    pub fn forever(a: Animation) -> (animation: Animation)
        ensures
            animation@ == (Script::Forever { script: Box::new(a@) }),
    {
        Animation::Forever { animation: Box::new(a) }
    }

    /// The animations of `vec`, one after the other.
    pub fn seq(vec: Vec<Animation>) -> (animation: Animation)
        ensures
            animation@ == (Script::Pieces { pieces: Script::of_all(vec@) }),
    {
        let animation = Animation::Pieces { pieces: vec };
        assert(animation@->pieces =~= Script::of_all(vec@));
        animation
    }

    /// A deep copy.
    fn duplicate(&self) -> (copy: Animation)
        ensures
            copy@ == self@,
        decreases self,
    {
        match self {
            Animation::Play { start, end } => Animation::Play { start: *start, end: *end },
            Animation::ReversePlay { start, end } => Animation::ReversePlay {
                start: *start,
                end: *end,
            },
            Animation::Repeat { times, animation } => {
                let inner = animation.duplicate();
                Animation::Repeat { times: *times, animation: Box::new(inner) }
            },
            Animation::Forever { animation } => {
                let inner = animation.duplicate();
                Animation::Forever { animation: Box::new(inner) }
            },
            Animation::Pieces { pieces } => {
                let mut copies: Vec<Animation> = Vec::new();
                let mut i: usize = 0;
                while i < pieces.len()
                    invariant
                        self is Pieces,
                        self->pieces == *pieces,
                        i <= pieces.len(),
                        copies.len() == i,
                        forall|j: int| 0 <= j < i ==> (#[trigger] copies@[j])@ == pieces@[j]@,
                    decreases pieces.len() - i,
                {
                    let piece = pieces[i].duplicate();
                    copies.push(piece);
                    i += 1;
                }
                let copy = Animation::Pieces { pieces: copies };
                assert(copy@->pieces =~= self@->pieces);
                copy
            },
        }
    }
}

impl View for Animation {
    type V = Script;

    open spec fn view(&self) -> Script {
        self.script()
    }
}

impl Clone for Animation {
    fn clone(&self) -> (copy: Animation)
        ensures
            copy@ == self@,
    {
        self.duplicate()
    }
}


/// Where a walk through a script stands: what is left of the node itself, and
/// the child that the node has handed the walk to, if any.
pub struct Playhead {
    pub current: Script,
    pub leaf: Option<Box<Playhead>>,
}

impl Script {
    /// The values of `pieces`, in order.
    pub open spec fn of_all(pieces: Seq<Animation>) -> Seq<Script> {
        Seq::new(pieces.len(), |i: int| pieces[i]@)
    }

    /// A script with no frame left.
    pub open spec fn spent() -> Script {
        Script::Pieces { pieces: Seq::empty() }
    }
}

impl Playhead {
    /// The start of a walk through `script`.
    pub open spec fn fresh(script: Script) -> Playhead {
        Playhead { current: script, leaf: None }
    }

    /// One step of the node itself, taken when its child has nothing to give:
    /// the frame that comes out and the walk afterwards. A range gives its
    /// next frame. A composite node starts a new child and gives the child's
    /// first answer, whatever it is. Where the node has nothing left, no frame
    /// comes out and `leaf` stays.
    pub open spec fn turn(current: Script, leaf: Option<Box<Playhead>>) -> (Option<usize>, Playhead)
        decreases current,
    {
        match current {
            Script::Play { start, end } => {
                if start < end {
                    (
                        Some(start),
                        Playhead { current: Script::Play { start: (start + 1) as usize, end }, leaf },
                    )
                } else if start == end {
                    (Some(start), Playhead { current: Script::spent(), leaf })
                } else {
                    (None, Playhead { current, leaf })
                }
            },
            Script::ReversePlay { start, end } => {
                if start > end {
                    (
                        Some(start),
                        Playhead {
                            current: Script::ReversePlay { start: (start - 1) as usize, end },
                            leaf,
                        },
                    )
                } else if start == end {
                    (Some(start), Playhead { current: Script::spent(), leaf })
                } else {
                    (None, Playhead { current, leaf })
                }
            },
            Script::Repeat { times, script } => {
                if times > 0 {
                    let (frame, child) = Playhead::turn(*script, None);
                    (
                        frame,
                        Playhead {
                            current: Script::Repeat { times: (times - 1) as usize, script },
                            leaf: Some(Box::new(child)),
                        },
                    )
                } else {
                    (None, Playhead { current, leaf })
                }
            },
            Script::Forever { script } => {
                let (frame, child) = Playhead::turn(*script, None);
                (frame, Playhead { current, leaf: Some(Box::new(child)) })
            },
            Script::Pieces { pieces } => {
                if pieces.len() > 0 {
                    let (frame, child) = Playhead::turn(pieces[0], None);
                    (
                        frame,
                        Playhead {
                            current: Script::Pieces { pieces: pieces.remove(0) },
                            leaf: Some(Box::new(child)),
                        },
                    )
                } else {
                    (None, Playhead { current, leaf })
                }
            },
        }
    }

    /// One step of the walk: the child is asked first; where it gives no
    /// frame, the node itself takes a turn.
    pub open spec fn advance(self) -> (Option<usize>, Playhead)
        decreases self,
    {
        match self.leaf {
            None => Playhead::turn(self.current, None),
            Some(child) => {
                let (frame, rest) = child.advance();
                if frame.is_some() {
                    (frame, Playhead { current: self.current, leaf: Some(Box::new(rest)) })
                } else {
                    Playhead::turn(self.current, Some(Box::new(rest)))
                }
            },
        }
    }
}

/// The walk through an animation: the node's own remainder and its active child.
struct Cursor {
    current: Animation,
    leaf: Option<Box<Cursor>>,
}

impl Cursor {
    /// Where the walk stands.
    spec fn playhead(&self) -> Playhead
        decreases self,
    {
        Playhead {
            current: self.current@,
            leaf: match self.leaf {
                Some(child) => Some(Box::new(child.playhead())),
                None => None,
            },
        }
    }

    /// Starts a walk through `anim` and takes its first step.
    fn begin(anim: Animation) -> (res: (Option<usize>, Cursor))
        ensures
            (res.0, res.1.playhead()) == Playhead::turn(anim@, None),
        decreases anim@, 1nat,
    {
        let mut cursor = Cursor { current: anim, leaf: None };
        let frame = cursor.turn();
        (frame, cursor)
    }

    /// Takes a step of the node itself, the child having nothing to give.
    fn turn(&mut self) -> (frame: Option<usize>)
        ensures
            (frame, final(self).playhead()) == Playhead::turn(
                old(self).current@,
                old(self).playhead().leaf,
            ),
        decreases old(self).current@, 0nat,
    {
        let mut frame: Option<usize> = None;
        let mut spent = false;
        let mut child: Option<Animation> = None;
        match &mut self.current {
            Animation::Play { start, end } => {
                if *start < *end {
                    frame = Some(*start);
                    *start = *start + 1;
                } else if *start == *end {
                    frame = Some(*start);
                    spent = true;
                }
            },
            Animation::ReversePlay { start, end } => {
                if *start > *end {
                    frame = Some(*start);
                    *start = *start - 1;
                } else if *start == *end {
                    frame = Some(*start);
                    spent = true;
                }
            },
            Animation::Repeat { times, animation } => {
                if *times > 0 {
                    *times = *times - 1;
                    child = Some(animation.duplicate());
                }
            },
            Animation::Forever { animation } => {
                child = Some(animation.duplicate());
            },
            Animation::Pieces { pieces } => {
                if pieces.len() > 0 {
                    let piece = pieces.remove(0);
                    assert(piece@ == old(self).current@->pieces[0]);
                    child = Some(piece);
                }
            },
        }
        assert(old(self).current@ is Pieces && old(self).current@->pieces.len() > 0
            ==> self.current@->pieces =~= old(self).current@->pieces.remove(0));
        if spent {
            let done = Animation::Pieces { pieces: Vec::new() };
            assert(done@->pieces =~= Seq::empty());
            self.current = done;
        }
        match child {
            Some(anim) => {
                let (first, cursor) = Cursor::begin(anim);
                self.leaf = Some(Box::new(cursor));
                first
            },
            None => frame,
        }
    }

    /// Takes a step of the walk: of the child where it has a frame to give,
    /// else of the node itself.
    fn advance(&mut self) -> (frame: Option<usize>)
        ensures
            (frame, final(self).playhead()) == old(self).playhead().advance(),
        decreases *old(self),
    {
        let from_leaf = match &mut self.leaf {
            Some(child) => (&mut **child).advance(),
            None => None,
        };
        match from_leaf {
            Some(frame) => Some(frame),
            None => self.turn(),
        }
    }
}

/// What an [`AnimationSequence`] stands for: the animation it was made from,
/// where its walk stands, and the answer it has looked ahead to, if any.
pub struct Playback {
    pub animation: Script,
    pub head: Playhead,
    pub peeked: Option<Option<usize>>,
}

impl Playback {
    /// The playback of `script` before its first frame.
    pub open spec fn begin(script: Script) -> Playback {
        Playback { animation: script, head: Playhead::fresh(script), peeked: None }
    }

    /// One call of `next`: its answer and the playback afterwards. An answer
    /// that was looked ahead to comes out first.
    pub open spec fn next(self) -> (Option<usize>, Playback) {
        match self.peeked {
            Some(frame) => (frame, Playback { peeked: None, ..self }),
            None => {
                let (frame, head) = self.head.advance();
                (frame, Playback { head, ..self })
            },
        }
    }

    /// The playback with the next answer looked ahead to.
    pub open spec fn peek(self) -> Playback {
        match self.peeked {
            Some(_) => self,
            None => {
                let (frame, head) = self.head.advance();
                Playback { head, peeked: Some(frame), ..self }
            },
        }
    }

    /// The playback after `n` calls of `next`.
    pub open spec fn after(self, n: nat) -> Playback
        decreases n,
    {
        if n == 0 {
            self
        } else {
            self.next().1.after((n - 1) as nat)
        }
    }

    /// The answer of the call of `next` that follows `n` earlier ones.
    pub open spec fn upcoming(self, n: nat) -> Option<usize> {
        self.after(n).next().0
    }
}

/// A lazy walk through an [`Animation`] that hands out frame indices one by one.
pub struct AnimationSequence {
    animation: Animation,
    cursor: Cursor,
    peeked: Option<Option<usize>>,
}

impl View for AnimationSequence {
    type V = Playback;

    closed spec fn view(&self) -> Playback {
        Playback { animation: self.animation@, head: self.cursor.playhead(), peeked: self.peeked }
    }
}

impl AnimationSequence {
    /// A sequence at the start of `anim`.
    pub fn new(anim: Animation) -> (sequence: AnimationSequence)
        ensures
            sequence@ == Playback::begin(anim@),
    {
        let animation = anim.clone();
        AnimationSequence {
            animation,
            cursor: Cursor { current: anim, leaf: None },
            peeked: None,
        }
    }

    /// The animation that the sequence was made from.
    pub fn animation(&self) -> (animation: &Animation)
        ensures
            animation@ == self@.animation,
    {
        &self.animation
    }

    /// The next frame index, or `None` where the walk has none to give. What
    /// was to come after it is what comes next now.
    pub fn next(&mut self) -> (frame: Option<usize>)
        ensures
            (frame, final(self)@) == old(self)@.next(),
            frame == old(self)@.upcoming(0),
            forall|n: nat| final(self)@.upcoming(n) == old(self)@.upcoming(n + 1),
    {
        let frame = match self.peeked.take() {
            Some(frame) => frame,
            None => self.cursor.advance(),
        };
        proof {
            assert forall|n: nat| self@.upcoming(n) == old(self)@.upcoming(n + 1) by {
                assert(old(self)@.after(n + 1) == self@.after(n));
            }
        }
        frame
    }

    /// Whether the next call of `next` gives no frame. The answer is looked
    /// ahead to and kept: no frame is lost.
    pub fn is_over(&mut self) -> (over: bool)
        ensures
            over == old(self)@.upcoming(0).is_none(),
            final(self)@ == old(self)@.peek(),
            forall|n: nat| final(self)@.upcoming(n) == old(self)@.upcoming(n),
    {
        let frame = match self.peeked {
            Some(frame) => frame,
            None => {
                let frame = self.cursor.advance();
                self.peeked = Some(frame);
                frame
            },
        };
        proof {
            assert forall|n: nat| self@.upcoming(n) == old(self)@.upcoming(n) by {
                lemma_peek_keeps_every_answer(old(self)@, n);
            }
        }
        frame.is_none()
    }
}

/// Looking ahead changes no answer: after `peek`, every call of `next` gives
/// what it would have given without it.
pub proof fn lemma_peek_keeps_every_answer(playback: Playback, n: nat)
    ensures
        playback.peek().upcoming(n) == playback.upcoming(n),
{
    if n > 0 {
        assert(playback.peek().next().1 == playback.next().1);
        assert(playback.peek().after(n) == playback.after(n));
    }
}

/// An entity's animation sequence.
pub struct HasAnimationSequence {
    pub sequence: AnimationSequence,
}

} // verus!
