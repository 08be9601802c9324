use vstd::prelude::*;

verus! {

/// For how many fixed ticks after leaving the ground a jump still registers.
pub const JUMP_FRAMES_THRESHOLD: usize = 4;

/// The number of frames of each of the player's animations.
pub const PLAYER_FRAMES: usize = 10;

/// The name under which the player is drawn standing.
pub const P_IDLE: &'static str = "player-idle";

/// The name under which the player is drawn attacking.
pub const P_ATTACK: &'static str = "player-attack";

/// The name under which the player is drawn jumping.
pub const P_JUMP: &'static str = "player-jump";

/// The name under which the player is drawn running.
pub const P_RUN: &'static str = "player-run";

/// The name under which the player is drawn sliding.
pub const P_SLIDE: &'static str = "player-slide";

} // verus!
