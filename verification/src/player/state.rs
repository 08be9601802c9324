use crate::components::{Directional, Renderable};
use crate::physics::components::HasAABB;
use crate::player::animation_defs::PlayerAnimations;
use crate::player::consts::{
    JUMP_FRAMES_THRESHOLD, PLAYER_FRAMES, P_ATTACK, P_IDLE, P_JUMP, P_RUN, P_SLIDE,
};
use crate::player::state_machine::{Machine, Scene, State, Trans};
use crate::player::systems::{Impulse, PlayerAux, Steering};
use crate::rendering::animation_seq::{HasAnimationSequence, Playback, Script};
use crate::resources::PlayerInput;
use vstd::prelude::*;

verus! {

impl Scene {
    /// The scene with the animation `script` at its start, drawn under the
    /// name `id`.
    pub open spec fn showing(self, id: &'static str, script: Script) -> Scene {
        Scene {
            anim: Playback::begin(script),
            rend: Renderable {
                tpe: self.rend.tpe.with_animation_id(id, PLAYER_FRAMES),
                ..self.rend
            },
            ..self
        }
    }

    /// The scene with the animation `script` at its start.
    pub open spec fn playing(self, script: Script) -> Scene {
        Scene { anim: Playback::begin(script), ..self }
    }

    /// The scene with one more request to the body.
    pub open spec fn asking(self, impulse: Impulse) -> Scene {
        Scene { mv: self.mv.with(impulse), ..self }
    }
}

/// Standing still.
pub struct Idle;

impl Idle {
    /// The scene after the state was started.
    pub open spec fn started(scene: Scene) -> Scene {
        scene.showing(P_IDLE, PlayerAnimations::looping())
    }

    /// In order: a player in the air falls; one that jumps leaves the ground;
    /// one on a platform that holds down is nudged down through it and is in
    /// the air from then on; one that holds left or right, but not both,
    /// runs; then slide, then attack.
    pub open spec fn handled(scene: Scene, pi: PlayerInput) -> (Trans, Scene) {
        if !scene.bb.on_ground {
            (Trans::Push(State::Jumping), scene.playing(PlayerAnimations::falling()))
        } else if pi.jump {
            (
                Trans::Push(State::Jumping),
                scene.asking(Impulse::Jump).playing(PlayerAnimations::leaping()),
            )
        } else if pi.down && scene.bb.on_platform {
            (Trans::Push(State::Jumping), scene.asking(Impulse::DropThrough { thresholds: 1 }))
        } else if pi.left != pi.right {
            (Trans::Push(State::Running), scene)
        } else if pi.slide {
            (Trans::Push(State::Sliding), scene)
        } else if pi.attack {
            (Trans::Push(State::Attacking), scene)
        } else {
            (Trans::Stay, scene)
        }
    }

    /// What the state asks for on a frame, and the scene after it.
    pub open spec fn updated(scene: Scene) -> (Trans, Scene) {
        (Trans::Stay, scene.asking(Impulse::Brake { fast: true }))
    }

    /// Called when the state is started on top of the stack.
    pub fn on_start(
        &mut self,
        mv: &mut Steering,
        bb: &mut HasAABB,
        anim: &mut HasAnimationSequence,
        rend: &mut Renderable,
        dir: &Directional,
        pi: &PlayerInput,
    )
        ensures
            Scene::of(*final(mv), *final(bb), *final(anim), *final(rend)) == Self::started(
                Scene::of(*old(mv), *old(bb), *old(anim), *old(rend)),
            ),
    {
        anim.sequence = PlayerAnimations::idle();
        rend.tpe.set_animation_id(P_IDLE, PLAYER_FRAMES);
    }

    /// Called when the state above was taken off and this one goes on.
    pub fn on_resume(
        &mut self,
        mv: &mut Steering,
        bb: &mut HasAABB,
        anim: &mut HasAnimationSequence,
        rend: &mut Renderable,
        dir: &Directional,
        pi: &PlayerInput,
    )
        ensures
            Scene::of(*final(mv), *final(bb), *final(anim), *final(rend)) == Self::started(
                Scene::of(*old(mv), *old(bb), *old(anim), *old(rend)),
            ),
    {
        self.on_start(mv, bb, anim, rend, dir, pi);
    }

    /// Reacts to the controls. A jump is asked of the body here, before any
    /// update of the same tick lets gravity act.
    pub fn handle_events(
        &mut self,
        mv: &mut Steering,
        bb: &mut HasAABB,
        anim: &mut HasAnimationSequence,
        rend: &mut Renderable,
        dir: &Directional,
        pi: &PlayerInput,
    ) -> (trans: Trans)
        ensures
            (trans, Scene::of(*final(mv), *final(bb), *final(anim), *final(rend))) == Self::handled(
                Scene::of(*old(mv), *old(bb), *old(anim), *old(rend)),
                *pi,
            ),
            !old(bb).on_ground ==> trans == Trans::Push(State::Jumping),
    {
        if !bb.on_ground {
            anim.sequence = PlayerAnimations::drop();
            Trans::Push(State::Jumping)
        } else if pi.jump {
            mv.jump();
            anim.sequence = PlayerAnimations::jump();
            Trans::Push(State::Jumping)
        } else if pi.down && bb.on_platform {
            mv.drop_through(1);
            Trans::Push(State::Jumping)
        } else if pi.left ^ pi.right {
            Trans::Push(State::Running)
        } else if pi.slide {
            Trans::Push(State::Sliding)
        } else if pi.attack {
            Trans::Push(State::Attacking)
        } else {
            Trans::Stay
        }
    }

    /// Takes a frame.
    pub fn update(
        &mut self,
        mv: &mut Steering,
        bb: &mut HasAABB,
        anim: &mut HasAnimationSequence,
        rend: &mut Renderable,
        dir: &Directional,
        pi: &PlayerInput,
    ) -> (trans: Trans)
        ensures
            (trans, Scene::of(*final(mv), *final(bb), *final(anim), *final(rend))) == Self::updated(
                Scene::of(*old(mv), *old(bb), *old(anim), *old(rend)),
            ),
    {
        PlayerAux::slow_down(mv, true);
        Trans::Stay
    }
}

/// Running along the ground.
pub struct Running;

impl Running {
    /// The scene after the state was started.
    pub open spec fn started(scene: Scene) -> Scene {
        scene.showing(P_RUN, PlayerAnimations::looping())
    }

    /// A player that holds neither left nor right, or both, stands still
    /// again, whatever else is held. Otherwise, in order: a player in the air
    /// falls; one that jumps leaves the ground; one on a platform that holds
    /// down is nudged down through it, twice as far as a standing player, and
    /// is in the air from then on; then slide, then attack.
    pub open spec fn handled(scene: Scene, pi: PlayerInput) -> (Trans, Scene) {
        if pi.left == pi.right {
            (Trans::Switch(State::Idle), scene)
        } else if !scene.bb.on_ground {
            (Trans::Push(State::Jumping), scene.playing(PlayerAnimations::falling()))
        } else if pi.jump {
            (
                Trans::Push(State::Jumping),
                scene.asking(Impulse::Jump).playing(PlayerAnimations::leaping()),
            )
        } else if pi.down && scene.bb.on_platform {
            (Trans::Push(State::Jumping), scene.asking(Impulse::DropThrough { thresholds: 2 }))
        } else if pi.slide {
            (Trans::Push(State::Sliding), scene)
        } else if pi.attack {
            (Trans::Push(State::Attacking), scene)
        } else {
            (Trans::Stay, scene)
        }
    }

    /// What the state asks for on a frame, and the scene after it.
    pub open spec fn updated(scene: Scene, dir: Directional) -> (Trans, Scene) {
        (Trans::Stay, scene.asking(PlayerAux::moved(scene.bb, dir)))
    }

    /// Called when the state is started on top of the stack.
    pub fn on_start(
        &mut self,
        mv: &mut Steering,
        bb: &mut HasAABB,
        anim: &mut HasAnimationSequence,
        rend: &mut Renderable,
        dir: &Directional,
        pi: &PlayerInput,
    )
        ensures
            Scene::of(*final(mv), *final(bb), *final(anim), *final(rend)) == Self::started(
                Scene::of(*old(mv), *old(bb), *old(anim), *old(rend)),
            ),
    {
        anim.sequence = PlayerAnimations::run();
        rend.tpe.set_animation_id(P_RUN, PLAYER_FRAMES);
    }

    /// Called when the state above was taken off and this one goes on.
    pub fn on_resume(
        &mut self,
        mv: &mut Steering,
        bb: &mut HasAABB,
        anim: &mut HasAnimationSequence,
        rend: &mut Renderable,
        dir: &Directional,
        pi: &PlayerInput,
    )
        ensures
            Scene::of(*final(mv), *final(bb), *final(anim), *final(rend)) == Self::started(
                Scene::of(*old(mv), *old(bb), *old(anim), *old(rend)),
            ),
    {
        self.on_start(mv, bb, anim, rend, dir, pi);
    }

    /// Reacts to the controls; called once per frame, before the update.
    pub fn handle_events(
        &mut self,
        mv: &mut Steering,
        bb: &mut HasAABB,
        anim: &mut HasAnimationSequence,
        rend: &mut Renderable,
        dir: &Directional,
        pi: &PlayerInput,
    ) -> (trans: Trans)
        ensures
            (trans, Scene::of(*final(mv), *final(bb), *final(anim), *final(rend))) == Self::handled(
                Scene::of(*old(mv), *old(bb), *old(anim), *old(rend)),
                *pi,
            ),
            pi.left == pi.right ==> trans == Trans::Switch(State::Idle),
    {
        if !(pi.left ^ pi.right) {
            return Trans::Switch(State::Idle);
        }
        if !bb.on_ground {
            anim.sequence = PlayerAnimations::drop();
            Trans::Push(State::Jumping)
        } else if pi.jump {
            mv.jump();
            anim.sequence = PlayerAnimations::jump();
            Trans::Push(State::Jumping)
        } else if pi.down && bb.on_platform {
            mv.drop_through(2);
            Trans::Push(State::Jumping)
        } else if pi.slide {
            Trans::Push(State::Sliding)
        } else if pi.attack {
            Trans::Push(State::Attacking)
        } else {
            Trans::Stay
        }
    }

    /// Takes a frame.
    pub fn update(
        &mut self,
        mv: &mut Steering,
        bb: &mut HasAABB,
        anim: &mut HasAnimationSequence,
        rend: &mut Renderable,
        dir: &Directional,
        pi: &PlayerInput,
    ) -> (trans: Trans)
        ensures
            (trans, Scene::of(*final(mv), *final(bb), *final(anim), *final(rend))) == Self::updated(
                Scene::of(*old(mv), *old(bb), *old(anim), *old(rend)),
                *dir,
            ),
    {
        PlayerAux::movement(mv, bb, dir);
        Trans::Stay
    }
}

/// In the air, rising or falling.
pub struct Jumping;

impl Jumping {
    /// The jump's frame count starts over where the body has just left the
    /// ground.
    pub open spec fn started(scene: Scene) -> Scene {
        Scene {
            rend: Renderable {
                tpe: scene.rend.tpe.with_animation_id(P_JUMP, PLAYER_FRAMES),
                ..scene.rend
            },
            bb: if !scene.bb.on_ground && scene.bb.was_on_ground {
                HasAABB { frames_from_jump_start: 0, ..scene.bb }
            } else {
                scene.bb
            },
            ..scene
        }
    }

    /// Whether the controls steer the body in the air: left or right is held,
    /// but not both, a side that is still barred not counting.
    pub open spec fn steers(bb: HasAABB, pi: PlayerInput) -> bool {
        (pi.left && bb.cannot_go_left_frames == 0) != (pi.right && bb.cannot_go_right_frames == 0)
    }

    /// Whether a jump that is asked for in the air still registers: the
    /// body left the ground no more than the threshold of fixed ticks ago, it
    /// does not rise, and it is not at a ceiling.
    pub open spec fn may_jump(scene: Scene) -> bool {
        scene.bb.frames_from_jump_start <= JUMP_FRAMES_THRESHOLD && scene.mv.vertical.not_positive()
            && !scene.bb.at_ceiling
    }

    /// The collision state with each count of frames for which a side is
    /// barred one lower.
    pub open spec fn counted(bb: HasAABB) -> HasAABB {
        HasAABB {
            cannot_go_left_frames: if bb.cannot_go_left_frames > 0 {
                (bb.cannot_go_left_frames - 1) as usize
            } else {
                0
            },
            cannot_go_right_frames: if bb.cannot_go_right_frames > 0 {
                (bb.cannot_go_right_frames - 1) as usize
            } else {
                0
            },
            ..bb
        }
    }

    /// The scene after the counts went down and the body was steered where
    /// the controls say so.
    pub open spec fn steered(scene: Scene, dir: Directional, pi: PlayerInput) -> Scene {
        let counted = Scene { bb: Self::counted(scene.bb), ..scene };
        if Self::steers(scene.bb, pi) {
            counted.asking(PlayerAux::moved(counted.bb, dir))
        } else {
            counted
        }
    }

    /// Each count of frames for which a side is barred goes down by one. The
    /// body is steered where the controls say so. An attack takes the place
    /// of the jump; a jump that still registers is asked of the body.
    pub open spec fn handled(scene: Scene, dir: Directional, pi: PlayerInput) -> (Trans, Scene) {
        let steered = Self::steered(scene, dir, pi);
        if pi.attack {
            (Trans::Switch(State::Attacking), steered)
        } else if pi.jump && Self::may_jump(steered) {
            (Trans::Stay, steered.asking(Impulse::Jump))
        } else {
            (Trans::Stay, steered)
        }
    }

    /// Gravity acts. A body on the ground has landed; one in the air whose
    /// controls hold neither left nor right, or both, slows down.
    pub open spec fn updated(scene: Scene, pi: PlayerInput) -> (Trans, Scene) {
        let fallen = scene.asking(Impulse::Fall);
        if scene.bb.on_ground {
            (Trans::Pop, fallen)
        } else if pi.left == pi.right {
            (Trans::Stay, fallen.asking(Impulse::Brake { fast: false }))
        } else {
            (Trans::Stay, fallen)
        }
    }

    /// The count of fixed ticks since the jump began goes up by one, and
    /// stays at the greatest number there is. Before that it is put past the
    /// threshold where the body is at a ceiling or rises within the threshold.
    pub open spec fn fixed_updated(scene: Scene) -> (Trans, Scene) {
        let frames = if scene.bb.frames_from_jump_start <= JUMP_FRAMES_THRESHOLD && (
        scene.bb.at_ceiling || scene.mv.vertical == crate::physics::components::Sign::Positive) {
            JUMP_FRAMES_THRESHOLD + 1
        } else {
            scene.bb.frames_from_jump_start as int
        };
        (
            Trans::Stay,
            Scene {
                bb: HasAABB {
                    frames_from_jump_start: if frames < usize::MAX {
                        (frames + 1) as usize
                    } else {
                        usize::MAX
                    },
                    ..scene.bb
                },
                ..scene
            },
        )
    }

    /// Called when the state is started on top of the stack.
    pub fn on_start(
        &mut self,
        mv: &mut Steering,
        bb: &mut HasAABB,
        anim: &mut HasAnimationSequence,
        rend: &mut Renderable,
        dir: &Directional,
        pi: &PlayerInput,
    )
        ensures
            Scene::of(*final(mv), *final(bb), *final(anim), *final(rend)) == Self::started(
                Scene::of(*old(mv), *old(bb), *old(anim), *old(rend)),
            ),
    {
        rend.tpe.set_animation_id(P_JUMP, PLAYER_FRAMES);
        if !bb.on_ground && bb.was_on_ground {
            bb.frames_from_jump_start = 0;
        }
    }

    /// Called when the state above was taken off and this one goes on.
    pub fn on_resume(
        &mut self,
        mv: &mut Steering,
        bb: &mut HasAABB,
        anim: &mut HasAnimationSequence,
        rend: &mut Renderable,
        dir: &Directional,
        pi: &PlayerInput,
    )
        ensures
            Scene::of(*final(mv), *final(bb), *final(anim), *final(rend)) == Self::started(
                Scene::of(*old(mv), *old(bb), *old(anim), *old(rend)),
            ),
    {
        self.on_start(mv, bb, anim, rend, dir, pi)
    }

    /// Reacts to the controls; called once per frame, before the update.
    pub fn handle_events(
        &mut self,
        mv: &mut Steering,
        bb: &mut HasAABB,
        anim: &mut HasAnimationSequence,
        rend: &mut Renderable,
        dir: &Directional,
        pi: &PlayerInput,
    ) -> (trans: Trans)
        ensures
            (trans, Scene::of(*final(mv), *final(bb), *final(anim), *final(rend))) == Self::handled(
                Scene::of(*old(mv), *old(bb), *old(anim), *old(rend)),
                *dir,
                *pi,
            ),
    {
        Self::steer(mv, bb, dir, pi);
        if pi.attack {
            Trans::Switch(State::Attacking)
        } else if pi.jump {
            if bb.frames_from_jump_start <= JUMP_FRAMES_THRESHOLD && mv.vertical.is_not_positive()
                && !bb.at_ceiling {
                mv.jump();
                Trans::Stay
            } else {
                Trans::Stay
            }
        } else {
            Trans::Stay
        }
    }

    /// Counts the barred frames down and steers the body in the air.
    fn steer(mv: &mut Steering, bb: &mut HasAABB, dir: &Directional, pi: &PlayerInput)
        ensures
            *final(bb) == Self::counted(*old(bb)),
            final(mv)@ == (if Self::steers(*old(bb), *pi) {
                old(mv)@.with(PlayerAux::moved(Self::counted(*old(bb)), *dir))
            } else {
                old(mv)@
            }),
    {
        let mut no_left = false;
        if bb.cannot_go_left_frames > 0 {
            bb.cannot_go_left_frames -= 1;
            no_left = true;
        }
        let mut no_right = false;
        if bb.cannot_go_right_frames > 0 {
            bb.cannot_go_right_frames -= 1;
            no_right = true;
        }
        if (pi.left && !no_left) ^ (pi.right && !no_right) {
            PlayerAux::movement(mv, bb, dir);
        }
    }

    /// Takes a frame.
    pub fn update(
        &mut self,
        mv: &mut Steering,
        bb: &mut HasAABB,
        anim: &mut HasAnimationSequence,
        rend: &mut Renderable,
        dir: &Directional,
        pi: &PlayerInput,
    ) -> (trans: Trans)
        ensures
            (trans, Scene::of(*final(mv), *final(bb), *final(anim), *final(rend))) == Self::updated(
                Scene::of(*old(mv), *old(bb), *old(anim), *old(rend)),
                *pi,
            ),
    {
        mv.fall();
        if bb.on_ground {
            Trans::Pop
        } else if !(pi.left ^ pi.right) {
            PlayerAux::slow_down(mv, false);
            Trans::Stay
        } else {
            Trans::Stay
        }
    }

    /// Takes a fixed tick.
    pub fn fixed_update(
        &mut self,
        mv: &mut Steering,
        bb: &mut HasAABB,
        anim: &mut HasAnimationSequence,
        rend: &mut Renderable,
        dir: &Directional,
        pi: &PlayerInput,
    ) -> (trans: Trans)
        ensures
            (trans, Scene::of(*final(mv), *final(bb), *final(anim), *final(rend)))
                == Self::fixed_updated(Scene::of(*old(mv), *old(bb), *old(anim), *old(rend))),
    {
        if bb.frames_from_jump_start <= JUMP_FRAMES_THRESHOLD {
            if bb.at_ceiling || mv.vertical == crate::physics::components::Sign::Positive {
                bb.frames_from_jump_start = JUMP_FRAMES_THRESHOLD + 1;
            }
        }
        if bb.frames_from_jump_start < usize::MAX {
            bb.frames_from_jump_start += 1;
        }
        Trans::Stay
    }
}

/// Sliding along the ground until the slide's animation has run out.
pub struct Sliding;

impl Sliding {
    /// The scene after the state was started.
    pub open spec fn started(scene: Scene) -> Scene {
        scene.showing(P_SLIDE, PlayerAnimations::once())
    }

    /// What the state asks for on the controls `pi`, and the scene after it.
    pub open spec fn handled(scene: Scene, pi: PlayerInput) -> (Trans, Scene) {
        if pi.jump {
            (Trans::Switch(State::Jumping), scene.playing(PlayerAnimations::leaping()))
        } else {
            (Trans::Stay, scene)
        }
    }

    /// The state ends when the animation has no frame left. The look ahead
    /// that finds this out loses no frame.
    pub open spec fn fixed_updated(scene: Scene) -> (Trans, Scene) {
        (
            if scene.anim.upcoming(0).is_none() {
                Trans::Pop
            } else {
                Trans::Stay
            },
            Scene { anim: scene.anim.peek(), ..scene },
        )
    }

    /// Called when the state is started on top of the stack.
    pub fn on_start(
        &mut self,
        mv: &mut Steering,
        bb: &mut HasAABB,
        anim: &mut HasAnimationSequence,
        rend: &mut Renderable,
        dir: &Directional,
        pi: &PlayerInput,
    )
        ensures
            Scene::of(*final(mv), *final(bb), *final(anim), *final(rend)) == Self::started(
                Scene::of(*old(mv), *old(bb), *old(anim), *old(rend)),
            ),
    {
        anim.sequence = PlayerAnimations::slide();
        rend.tpe.set_animation_id(P_SLIDE, PLAYER_FRAMES);
    }

    /// Reacts to the controls; called once per frame, before the update.
    pub fn handle_events(
        &mut self,
        mv: &mut Steering,
        bb: &mut HasAABB,
        anim: &mut HasAnimationSequence,
        rend: &mut Renderable,
        dir: &Directional,
        pi: &PlayerInput,
    ) -> (trans: Trans)
        ensures
            (trans, Scene::of(*final(mv), *final(bb), *final(anim), *final(rend))) == Self::handled(
                Scene::of(*old(mv), *old(bb), *old(anim), *old(rend)),
                *pi,
            ),
    {
        if pi.jump {
            anim.sequence = PlayerAnimations::jump();
            Trans::Switch(State::Jumping)
        } else {
            Trans::Stay
        }
    }

    /// Takes a frame.
    pub fn update(
        &mut self,
        mv: &mut Steering,
        bb: &mut HasAABB,
        anim: &mut HasAnimationSequence,
        rend: &mut Renderable,
        dir: &Directional,
        pi: &PlayerInput,
    ) -> (trans: Trans)
        ensures
            trans == Trans::Stay,
            Scene::of(*final(mv), *final(bb), *final(anim), *final(rend)) == Scene::of(
                *old(mv),
                *old(bb),
                *old(anim),
                *old(rend),
            ),
    {
        Trans::Stay
    }

    /// Takes a fixed tick.
    pub fn fixed_update(
        &mut self,
        mv: &mut Steering,
        bb: &mut HasAABB,
        anim: &mut HasAnimationSequence,
        rend: &mut Renderable,
        dir: &Directional,
        pi: &PlayerInput,
    ) -> (trans: Trans)
        ensures
            (trans, Scene::of(*final(mv), *final(bb), *final(anim), *final(rend)))
                == Self::fixed_updated(Scene::of(*old(mv), *old(bb), *old(anim), *old(rend))),
    {
        if anim.sequence.is_over() {
            Trans::Pop
        } else {
            Trans::Stay
        }
    }
}

/// Attacking until the attack's animation has run out.
pub struct Attacking;

impl Attacking {
    /// The scene after the state was started.
    pub open spec fn started(scene: Scene) -> Scene {
        scene.showing(P_ATTACK, PlayerAnimations::once())
    }

    /// The state ends when the animation has no frame left. The look ahead
    /// that finds this out loses no frame.
    pub open spec fn fixed_updated(scene: Scene) -> (Trans, Scene) {
        Sliding::fixed_updated(scene)
    }

    /// Called when the state is started on top of the stack.
    pub fn on_start(
        &mut self,
        mv: &mut Steering,
        bb: &mut HasAABB,
        anim: &mut HasAnimationSequence,
        rend: &mut Renderable,
        dir: &Directional,
        pi: &PlayerInput,
    )
        ensures
            Scene::of(*final(mv), *final(bb), *final(anim), *final(rend)) == Self::started(
                Scene::of(*old(mv), *old(bb), *old(anim), *old(rend)),
            ),
    {
        rend.tpe.set_animation_id(P_ATTACK, PLAYER_FRAMES);
        anim.sequence = PlayerAnimations::attack();
    }

    /// An attack cannot be cut short: no control is acted on.
    pub fn handle_events(
        &mut self,
        mv: &mut Steering,
        bb: &mut HasAABB,
        anim: &mut HasAnimationSequence,
        rend: &mut Renderable,
        dir: &Directional,
        pi: &PlayerInput,
    ) -> (trans: Trans)
        ensures
            trans == Trans::Stay,
            Scene::of(*final(mv), *final(bb), *final(anim), *final(rend)) == Scene::of(
                *old(mv),
                *old(bb),
                *old(anim),
                *old(rend),
            ),
    {
        Trans::Stay
    }

    /// Takes a fixed tick.
    pub fn fixed_update(
        &mut self,
        mv: &mut Steering,
        bb: &mut HasAABB,
        anim: &mut HasAnimationSequence,
        rend: &mut Renderable,
        dir: &Directional,
        pi: &PlayerInput,
    ) -> (trans: Trans)
        ensures
            (trans, Scene::of(*final(mv), *final(bb), *final(anim), *final(rend)))
                == Self::fixed_updated(Scene::of(*old(mv), *old(bb), *old(anim), *old(rend))),
    {
        if anim.sequence.is_over() {
            Trans::Pop
        } else {
            Trans::Stay
        }
    }

    /// Takes a frame.
    pub fn update(
        &mut self,
        mv: &mut Steering,
        bb: &mut HasAABB,
        anim: &mut HasAnimationSequence,
        rend: &mut Renderable,
        dir: &Directional,
        pi: &PlayerInput,
    ) -> (trans: Trans)
        ensures
            trans == Trans::Stay,
            Scene::of(*final(mv), *final(bb), *final(anim), *final(rend)) == Scene::of(
                *old(mv),
                *old(bb),
                *old(anim),
                *old(rend),
            ),
    {
        Trans::Stay
    }
}

impl State {
    /// The scene after the state was started.
    pub open spec fn started(self, scene: Scene) -> Scene {
        match self {
            State::Idle => Idle::started(scene),
            State::Running => Running::started(scene),
            State::Jumping => Jumping::started(scene),
            State::Sliding => Sliding::started(scene),
            State::Attacking => Attacking::started(scene),
        }
    }

    /// The scene after the state was stopped: no state does anything then.
    pub open spec fn stopped(self, scene: Scene) -> Scene {
        scene
    }

    /// The scene after the state was paused: no state does anything then.
    pub open spec fn paused(self, scene: Scene) -> Scene {
        scene
    }

    /// The scene after the state was resumed: standing, running and jumping
    /// start over, sliding and attacking go on.
    pub open spec fn resumed(self, scene: Scene) -> Scene {
        match self {
            State::Idle => Idle::started(scene),
            State::Running => Running::started(scene),
            State::Jumping => Jumping::started(scene),
            State::Sliding => scene,
            State::Attacking => scene,
        }
    }

    /// What the state asks for on the controls `pi`, and the scene after it
    /// has reacted to them.
    pub open spec fn handled(self, scene: Scene, dir: Directional, pi: PlayerInput) -> (Trans, Scene) {
        match self {
            State::Idle => Idle::handled(scene, pi),
            State::Running => Running::handled(scene, pi),
            State::Jumping => Jumping::handled(scene, dir, pi),
            State::Sliding => Sliding::handled(scene, pi),
            State::Attacking => (Trans::Stay, scene),
        }
    }

    /// What the state asks for on a fixed tick, and the scene after it.
    pub open spec fn fixed_updated(self, scene: Scene) -> (Trans, Scene) {
        match self {
            State::Idle => (Trans::Stay, scene),
            State::Running => (Trans::Stay, scene),
            State::Jumping => Jumping::fixed_updated(scene),
            State::Sliding => Sliding::fixed_updated(scene),
            State::Attacking => Attacking::fixed_updated(scene),
        }
    }

    /// What the state asks for on a frame, and the scene after it.
    pub open spec fn updated(self, scene: Scene, dir: Directional, pi: PlayerInput) -> (Trans, Scene) {
        match self {
            State::Idle => Idle::updated(scene),
            State::Running => Running::updated(scene, dir),
            State::Jumping => Jumping::updated(scene, pi),
            State::Sliding => (Trans::Stay, scene),
            State::Attacking => (Trans::Stay, scene),
        }
    }

    /// Called when the state is started on top of the stack.
    pub fn on_start(
        &mut self,
        mv: &mut Steering,
        bb: &mut HasAABB,
        anim: &mut HasAnimationSequence,
        rend: &mut Renderable,
        dir: &Directional,
        pi: &PlayerInput,
    )
        ensures
            *final(self) == *old(self),
            Scene::of(*final(mv), *final(bb), *final(anim), *final(rend)) == old(self).started(
                Scene::of(*old(mv), *old(bb), *old(anim), *old(rend)),
            ),
    {
        match self {
            State::Idle => Idle.on_start(mv, bb, anim, rend, dir, pi),
            State::Running => Running.on_start(mv, bb, anim, rend, dir, pi),
            State::Jumping => Jumping.on_start(mv, bb, anim, rend, dir, pi),
            State::Sliding => Sliding.on_start(mv, bb, anim, rend, dir, pi),
            State::Attacking => Attacking.on_start(mv, bb, anim, rend, dir, pi),
        }
    }

    /// Called when the state is taken off the stack.
    pub fn on_stop(
        &mut self,
        mv: &mut Steering,
        bb: &mut HasAABB,
        anim: &mut HasAnimationSequence,
        rend: &mut Renderable,
        dir: &Directional,
        pi: &PlayerInput,
    )
        ensures
            *final(self) == *old(self),
            Scene::of(*final(mv), *final(bb), *final(anim), *final(rend)) == old(self).stopped(
                Scene::of(*old(mv), *old(bb), *old(anim), *old(rend)),
            ),
    {
    }

    /// Called when another state is started above this one.
    pub fn on_pause(
        &mut self,
        mv: &mut Steering,
        bb: &mut HasAABB,
        anim: &mut HasAnimationSequence,
        rend: &mut Renderable,
        dir: &Directional,
        pi: &PlayerInput,
    )
        ensures
            *final(self) == *old(self),
            Scene::of(*final(mv), *final(bb), *final(anim), *final(rend)) == old(self).paused(
                Scene::of(*old(mv), *old(bb), *old(anim), *old(rend)),
            ),
    {
    }

    /// Called when the state above was taken off and this one goes on.
    pub fn on_resume(
        &mut self,
        mv: &mut Steering,
        bb: &mut HasAABB,
        anim: &mut HasAnimationSequence,
        rend: &mut Renderable,
        dir: &Directional,
        pi: &PlayerInput,
    )
        ensures
            *final(self) == *old(self),
            Scene::of(*final(mv), *final(bb), *final(anim), *final(rend)) == old(self).resumed(
                Scene::of(*old(mv), *old(bb), *old(anim), *old(rend)),
            ),
    {
        match self {
            State::Idle => Idle.on_resume(mv, bb, anim, rend, dir, pi),
            State::Running => Running.on_resume(mv, bb, anim, rend, dir, pi),
            State::Jumping => Jumping.on_resume(mv, bb, anim, rend, dir, pi),
            State::Sliding => {},
            State::Attacking => {},
        }
    }

    /// Reacts to the controls; called once per frame, before the update.
    pub fn handle_events(
        &mut self,
        mv: &mut Steering,
        bb: &mut HasAABB,
        anim: &mut HasAnimationSequence,
        rend: &mut Renderable,
        dir: &Directional,
        pi: &PlayerInput,
    ) -> (trans: Trans)
        ensures
            *final(self) == *old(self),
            (trans, Scene::of(*final(mv), *final(bb), *final(anim), *final(rend))) == old(
                self,
            ).handled(Scene::of(*old(mv), *old(bb), *old(anim), *old(rend)), *dir, *pi),
    {
        match self {
            State::Idle => Idle.handle_events(mv, bb, anim, rend, dir, pi),
            State::Running => Running.handle_events(mv, bb, anim, rend, dir, pi),
            State::Jumping => Jumping.handle_events(mv, bb, anim, rend, dir, pi),
            State::Sliding => Sliding.handle_events(mv, bb, anim, rend, dir, pi),
            State::Attacking => Attacking.handle_events(mv, bb, anim, rend, dir, pi),
        }
    }

    /// Takes a fixed tick.
    pub fn fixed_update(
        &mut self,
        mv: &mut Steering,
        bb: &mut HasAABB,
        anim: &mut HasAnimationSequence,
        rend: &mut Renderable,
        dir: &Directional,
        pi: &PlayerInput,
    ) -> (trans: Trans)
        ensures
            *final(self) == *old(self),
            (trans, Scene::of(*final(mv), *final(bb), *final(anim), *final(rend))) == old(
                self,
            ).fixed_updated(Scene::of(*old(mv), *old(bb), *old(anim), *old(rend))),
    {
        match self {
            State::Idle => Trans::Stay,
            State::Running => Trans::Stay,
            State::Jumping => Jumping.fixed_update(mv, bb, anim, rend, dir, pi),
            State::Sliding => Sliding.fixed_update(mv, bb, anim, rend, dir, pi),
            State::Attacking => Attacking.fixed_update(mv, bb, anim, rend, dir, pi),
        }
    }

    /// Takes a frame.
    pub fn update(
        &mut self,
        mv: &mut Steering,
        bb: &mut HasAABB,
        anim: &mut HasAnimationSequence,
        rend: &mut Renderable,
        dir: &Directional,
        pi: &PlayerInput,
    ) -> (trans: Trans)
        ensures
            *final(self) == *old(self),
            (trans, Scene::of(*final(mv), *final(bb), *final(anim), *final(rend))) == old(
                self,
            ).updated(Scene::of(*old(mv), *old(bb), *old(anim), *old(rend)), *dir, *pi),
    {
        match self {
            State::Idle => Idle.update(mv, bb, anim, rend, dir, pi),
            State::Running => Running.update(mv, bb, anim, rend, dir, pi),
            State::Jumping => Jumping.update(mv, bb, anim, rend, dir, pi),
            State::Sliding => Sliding.update(mv, bb, anim, rend, dir, pi),
            State::Attacking => Attacking.update(mv, bb, anim, rend, dir, pi),
        }
    }
}

/// A standing player that is not on the ground falls: whatever the controls
/// say, the request is to push `Jumping`.
pub proof fn lemma_idle_in_the_air_falls(scene: Scene, pi: PlayerInput)
    requires
        !scene.bb.on_ground,
    ensures
        Idle::handled(scene, pi).0 == Trans::Push(State::Jumping),
{
}

/// A running player whose controls hold neither left nor right, or both of
/// them, stands still again: whatever else the controls say, the request is
/// to switch to `Idle`, and nothing else happens.
pub proof fn lemma_running_without_direction_stands(scene: Scene, pi: PlayerInput)
    requires
        pi.left == pi.right,
    ensures
        Running::handled(scene, pi) == (Trans::Switch(State::Idle), scene),
{
}

/// A player on a platform that holds down, and does not jump, is nudged
/// down through the platform and is in the air from then on: standing, by
/// one threshold, and running with a direction held, by two. Nothing else is
/// asked of the body, and nothing else changes.
pub proof fn lemma_down_on_a_platform_drops_through(scene: Scene, pi: PlayerInput)
    requires
        scene.bb.on_ground,
        scene.bb.on_platform,
        pi.down,
        !pi.jump,
    ensures
        Idle::handled(scene, pi) == (
            Trans::Push(State::Jumping),
            scene.asking(Impulse::DropThrough { thresholds: 1 }),
        ),
        pi.left != pi.right ==> Running::handled(scene, pi) == (
            Trans::Push(State::Jumping),
            scene.asking(Impulse::DropThrough { thresholds: 2 }),
        ),
{
}

/// A standing player on the ground that jumps is in the air at once: the
/// machine has `Jumping` on top of `Idle` after the controls were handled,
/// the jump is the last thing asked of the body by then, and the jump is
/// what is drawn. The request is carried out within that call, not put off.
/// Gravity is asked for only by the update that follows.
pub proof fn lemma_jump_comes_before_gravity(
    machine: Machine,
    scene: Scene,
    dir: Directional,
    pi: PlayerInput,
)
    requires
        machine.running,
        machine.stack.len() > 0,
        machine.stack.last() == State::Idle,
        scene.bb.on_ground,
        pi.jump,
    ensures
        ({
            let (handled, after) = machine.handled(scene, dir, pi);
            let (updated, later) = handled.updated(after, dir, pi);
            &&& handled.running
            &&& handled.stack == machine.stack.push(State::Jumping)
            &&& after.mv.impulses == scene.mv.impulses.push(Impulse::Jump)
            &&& after.rend.tpe == scene.rend.tpe.with_animation_id(P_JUMP, PLAYER_FRAMES)
            &&& after.anim == Playback::begin(PlayerAnimations::leaping())
            &&& later.mv.impulses.len() > after.mv.impulses.len()
            &&& later.mv.impulses[after.mv.impulses.len() as int] == Impulse::Fall
            &&& later.mv.impulses[scene.mv.impulses.len() as int] == Impulse::Jump
        }),
{
    let (handled, after) = machine.handled(scene, dir, pi);
    assert(handled.stack.last() == State::Jumping);
}

} // verus!
