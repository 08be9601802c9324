pub mod animation_defs;
pub mod consts;
pub mod state;
pub mod state_machine;
pub mod systems;

use crate::components::{Directional, Renderable, RenderableType};
use crate::physics::components::HasAABB;
use crate::player::animation_defs::PlayerAnimations;
use crate::player::consts::{PLAYER_FRAMES, P_IDLE};
use crate::player::state_machine::{Machine, State, StateMachine};
use crate::rendering::animation_seq::{HasAnimationSequence, Playback};
use vstd::prelude::*;

verus! {

/// The layer in which players are drawn.
pub const PLAYER_LAYER: usize = 5;

/// What a player starts with, apart from its place in the world and its
/// box: it stands and faces right, touches nothing, and its state machine
/// holds `Idle` and is yet to be started.
pub struct Player {
    pub rend: Renderable,
    pub anim: HasAnimationSequence,
    pub machine: StateMachine,
    pub dir: Directional,
    pub bb: HasAABB,
}

impl Player {
    /// The parts of a new player.
    pub fn spawn() -> (player: Player)
        ensures
            player.rend == (Renderable {
                layer: PLAYER_LAYER,
                tpe: RenderableType::Animation { id: P_IDLE, frame: 0, length: PLAYER_FRAMES },
            }),
            player.anim.sequence@ == Playback::begin(PlayerAnimations::looping()),
            player.machine@ == (Machine { running: false, stack: seq![State::Idle] }),
            player.dir == Directional::Right,
            player.bb == HasAABB::untouched(),
    {
        Player {
            rend: Renderable {
                layer: PLAYER_LAYER,
                tpe: RenderableType::Animation { id: P_IDLE, frame: 0, length: PLAYER_FRAMES },
            },
            anim: HasAnimationSequence { sequence: PlayerAnimations::idle() },
            machine: StateMachine::new(State::Idle),
            dir: Directional::Right,
            bb: HasAABB::new(),
        }
    }
}

} // verus!
