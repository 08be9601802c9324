use vstd::prelude::*;

verus! {

/// One snapshot of the player's controls.
///
/// `up`, `down`, `left` and `right` are level-held: they stay set for as long
/// as the control is held. `slide`, `jump` and `attack` are edge-triggered:
/// they are set when the control is pressed and cleared once per tick by
/// [`PlayerInput::reset_actions`].
#[derive(Clone, Copy, Debug, PartialEq, Eq, Structural)]
pub struct PlayerInput {
    pub up: bool,
    pub down: bool,
    pub left: bool,
    pub right: bool,
    pub slide: bool,
    pub jump: bool,
    pub attack: bool,
}

impl PlayerInput {
    /// An input snapshot with no control held or pressed.
    pub fn new() -> (input: PlayerInput)
        ensures
            input == (PlayerInput {
                up: false,
                down: false,
                left: false,
                right: false,
                slide: false,
                jump: false,
                attack: false,
            }),
    {
        PlayerInput {
            up: false,
            down: false,
            left: false,
            right: false,
            slide: false,
            jump: false,
            attack: false,
        }
    }

    /// Clears the edge-triggered flags and leaves the level-held ones as they were.
    pub fn reset_actions(&mut self)
        ensures
            *final(self) == (PlayerInput {
                slide: false,
                jump: false,
                attack: false,
                ..*old(self)
            }),
    {
        self.attack = false;
        self.slide = false;
        self.jump = false;
    }
}

} // verus!
