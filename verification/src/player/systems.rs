use crate::components::{Directional, Renderable, RenderableType};
use crate::physics::components::{HasAABB, Sign};
use crate::rendering::animation_seq::HasAnimationSequence;
use crate::resources::PlayerInput;
use vstd::prelude::*;

verus! {

/// A change that the player's logic asks for in the motion of its body. The
/// body's position, velocity and acceleration are real-valued and kept by
/// whoever runs the simulation; that party carries the requests out, in the
/// order in which they were made.
#[derive(Clone, Copy, Debug, PartialEq, Eq, Structural)]
pub enum Impulse {
    /// Set the vertical velocity to the jump speed.
    Jump,
    /// Lower the position by `thresholds` times the one-way-platform
    /// threshold, so that the body falls through the platform it stands on.
    DropThrough { thresholds: usize },
    /// Accelerate at the walk acceleration in the given direction, and bring
    /// the horizontal speed in that direction to between half the walk speed
    /// and the walk speed.
    Walk(Directional),
    /// Zero the horizontal acceleration and velocity.
    Stop,
    /// Slow down: `fast` decelerates at five times the walk acceleration and
    /// stops below half the walk acceleration; otherwise the horizontal
    /// acceleration becomes minus half the horizontal velocity.
    Brake { fast: bool },
    /// Add gravity for the tick to the vertical velocity, no faster downwards
    /// than the greatest falling speed.
    Fall,
}

/// What the player's logic sees of its body's motion and asks of it. A
/// steering is made anew, or its `vertical` set anew, before each call of the
/// state machine.
pub struct Steering {
    /// The sign of the vertical velocity at that time; positive is upwards.
    /// The requests that are made do not change it.
    pub vertical: Sign,
    /// The requests made and not yet carried out, oldest first.
    pub impulses: Vec<Impulse>,
}

/// The mathematical value of a [`Steering`].
pub struct Course {
    pub vertical: Sign,
    pub impulses: Seq<Impulse>,
}

impl Course {
    /// The course with one more request.
    pub open spec fn with(self, impulse: Impulse) -> Course {
        Course { impulses: self.impulses.push(impulse), ..self }
    }
}

impl View for Steering {
    type V = Course;

    open spec fn view(&self) -> Course {
        Course { vertical: self.vertical, impulses: self.impulses@ }
    }
}

impl Steering {
    /// A steering with no request, for a body whose vertical velocity has the
    /// sign `vertical`.
    pub fn new(vertical: Sign) -> (steering: Steering)
        ensures
            steering@ == (Course { vertical, impulses: Seq::empty() }),
    {
        Steering { vertical, impulses: Vec::new() }
    }

    fn ask(&mut self, impulse: Impulse)
        ensures
            final(self)@ == old(self)@.with(impulse),
    {
        self.impulses.push(impulse);
    }

    /// Asks for a jump.
    pub fn jump(&mut self)
        ensures
            final(self)@ == old(self)@.with(Impulse::Jump),
    {
        self.ask(Impulse::Jump);
    }

    /// Asks for a drop through the platform below.
    pub fn drop_through(&mut self, thresholds: usize)
        ensures
            final(self)@ == old(self)@.with(Impulse::DropThrough { thresholds }),
    {
        self.ask(Impulse::DropThrough { thresholds });
    }

    /// Asks for gravity to act.
    pub fn fall(&mut self)
        ensures
            final(self)@ == old(self)@.with(Impulse::Fall),
    {
        self.ask(Impulse::Fall);
    }
}

/// The player's ways of moving along the ground.
pub struct PlayerAux;

impl PlayerAux {
    /// What [`PlayerAux::movement`] asks for: a hard stop where the body
    /// pushes a wall on the side it faces, else a walk in that direction.
    pub open spec fn moved(bb: HasAABB, direction: Directional) -> Impulse {
        match direction {
            Directional::Left => if bb.pushes_left_wall {
                Impulse::Stop
            } else {
                Impulse::Walk(Directional::Left)
            },
            Directional::Right => if bb.pushes_right_wall {
                Impulse::Stop
            } else {
                Impulse::Walk(Directional::Right)
            },
        }
    }

    /// Walks in the direction faced, or stops at a wall on that side.
    pub fn movement(mv: &mut Steering, bb: &HasAABB, direction: &Directional)
        ensures
            final(mv)@ == old(mv)@.with(Self::moved(*bb, *direction)),
    {
        match direction {
            Directional::Left => {
                if bb.pushes_left_wall {
                    PlayerAux::stop(mv);
                } else {
                    mv.ask(Impulse::Walk(Directional::Left));
                }
            },
            Directional::Right => {
                if bb.pushes_right_wall {
                    PlayerAux::stop(mv);
                } else {
                    mv.ask(Impulse::Walk(Directional::Right));
                }
            },
        }
    }

    /// Stops the body's horizontal motion.
    pub fn stop(mv: &mut Steering)
        ensures
            final(mv)@ == old(mv)@.with(Impulse::Stop),
    {
        mv.ask(Impulse::Stop);
    }

    /// Slows the body's horizontal motion down, quickly where `fast`.
    pub fn slow_down(mv: &mut Steering, fast: bool)
        ensures
            final(mv)@ == old(mv)@.with(Impulse::Brake { fast }),
    {
        mv.ask(Impulse::Brake { fast });
    }
}

/// Turns the player to where the controls point.
pub struct PlayerDirectionSystem;

impl PlayerDirectionSystem {
    /// The direction faced after the controls were read: left or right where
    /// exactly one of them is held, else as before.
    pub open spec fn resolved(dir: Directional, input: PlayerInput) -> Directional {
        if input.left && !input.right {
            Directional::Left
        } else if input.right && !input.left {
            Directional::Right
        } else {
            dir
        }
    }

    /// Turns `dir` to the side that is held.
    pub fn run(dir: &mut Directional, input: &PlayerInput)
        ensures
            *final(dir) == Self::resolved(*old(dir), *input),
    {
        if input.left ^ input.right {
            if input.left {
                *dir = Directional::Left;
            } else {
                *dir = Directional::Right;
            }
        }
    }
}

/// Clears the one-shot controls once they have been acted on.
pub struct ResetInputSystem;

impl ResetInputSystem {
    /// Clears `slide`, `jump` and `attack`; the controls that are held stay.
    pub fn run(input: &mut PlayerInput)
        ensures
            *final(input) == (PlayerInput {
                slide: false,
                jump: false,
                attack: false,
                ..*old(input)
            }),
    {
        input.reset_actions();
    }
}

/// Moves what is drawn on to the sequence's next frame.
pub struct AnimationFFSystem;

impl AnimationFFSystem {
    /// What is drawn after `frame` came out of the sequence: an animation
    /// shows the frame, where there is one.
    pub open spec fn shown(tpe: RenderableType, frame: Option<usize>) -> RenderableType {
        match (tpe, frame) {
            (RenderableType::Animation { id, frame: _, length }, Some(next)) => {
                RenderableType::Animation { id, frame: next, length }
            },
            _ => tpe,
        }
    }

    /// Takes the next frame from the sequence of an entity that shows an
    /// animation. The sequence of one that shows an image or a batch is left
    /// alone.
    pub fn run(anim: &mut HasAnimationSequence, rend: &mut Renderable)
        ensures
            old(rend).tpe is Animation ==> final(anim).sequence@ == old(anim).sequence@.next().1
                && final(rend).tpe == Self::shown(old(rend).tpe, old(anim).sequence@.next().0),
            !(old(rend).tpe is Animation) ==> final(anim).sequence@ == old(anim).sequence@
                && final(rend).tpe == old(rend).tpe,
            final(rend).layer == old(rend).layer,
    {
        match &mut rend.tpe {
            RenderableType::Animation { frame, .. } => {
                match anim.sequence.next() {
                    Some(next) => {
                        *frame = next;
                    },
                    None => {},
                }
            },
            _ => {},
        }
    }
}

} // verus!
