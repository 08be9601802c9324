use vstd::prelude::*;

verus! {

/// The stages of one tick of the simulation, in the order in which they run.
/// Each stage is done for every entity before the next begins, and a tick
/// always runs through all of them.
#[derive(Clone, Copy, Debug, PartialEq, Eq, Structural)]
pub enum Stage {
    /// State machines that were not started yet are started.
    StartStateMachines,
    /// Controlled entities are turned to where the controls point.
    ResolveDirection,
    /// The state machines react to the controls.
    HandleEvents,
    /// Motion is integrated and resolved against the terrain.
    MoveAndCollide,
    /// The state machines take their frame.
    UpdateStates,
    /// Drawn positions are set from the bodies' positions.
    SyncPositions,
    /// The one-shot controls are cleared.
    ResetInput,
    /// Entities that overlap are pushed apart.
    CollideEntities,
    /// The camera follows.
    FollowCamera,
}

impl Stage {
    /// The stage's place in the tick, counted from 0.
    pub open spec fn place(self) -> int {
        match self {
            Stage::StartStateMachines => 0,
            Stage::ResolveDirection => 1,
            Stage::HandleEvents => 2,
            Stage::MoveAndCollide => 3,
            Stage::UpdateStates => 4,
            Stage::SyncPositions => 5,
            Stage::ResetInput => 6,
            Stage::CollideEntities => 7,
            Stage::FollowCamera => 8,
        }
    }

    /// The stage that a tick begins with.
    pub fn first() -> (stage: Stage)
        ensures
            stage.place() == 0,
    {
        Stage::StartStateMachines
    }

    /// The stage that follows, or `None` after the last.
    pub fn next(self) -> (following: Option<Stage>)
        ensures
            match following {
                Some(stage) => stage.place() == self.place() + 1,
                None => self.place() == 8,
            },
    {
        match self {
            Stage::StartStateMachines => Some(Stage::ResolveDirection),
            Stage::ResolveDirection => Some(Stage::HandleEvents),
            Stage::HandleEvents => Some(Stage::MoveAndCollide),
            Stage::MoveAndCollide => Some(Stage::UpdateStates),
            Stage::UpdateStates => Some(Stage::SyncPositions),
            Stage::SyncPositions => Some(Stage::ResetInput),
            Stage::ResetInput => Some(Stage::CollideEntities),
            Stage::CollideEntities => Some(Stage::FollowCamera),
            Stage::FollowCamera => None,
        }
    }
}

/// The number of fixed steps that are taken in a second, at most one per
/// frame.
pub const FIXED_STEPS_PER_SECOND: u64 = 30;

/// The length of a fixed step in nanoseconds.
pub const FIXED_STEP: u64 = 1_000_000_000 / FIXED_STEPS_PER_SECOND;

/// The time in nanoseconds that has passed since the last fixed step, once
/// a frame of `frame` nanoseconds is over. Time that no `u64` holds counts as
/// the greatest that one holds.
pub open spec fn time_since_fixed_step(since_last: u64, frame: u64) -> u64 {
    if since_last + frame > u64::MAX {
        u64::MAX
    } else {
        (since_last + frame) as u64
    }
}

/// Whether a fixed step is due once a frame of `frame` nanoseconds is over,
/// `since_last` nanoseconds having passed since the last fixed step before
/// the frame; and the time since the last fixed step from then on. A step of
/// `step` nanoseconds is due when that much time has passed; the time beyond
/// it counts towards the next step. Counting is in whole ticks of the
/// clock, so that the cadence does not drift.
pub fn fixed_step_due(since_last: u64, frame: u64, step: u64) -> (r: (bool, u64))
    ensures
        r.0 == (time_since_fixed_step(since_last, frame) >= step),
        r.1 == (if r.0 {
            time_since_fixed_step(since_last, frame) - step
        } else {
            time_since_fixed_step(since_last, frame) as int
        }),
{
    let passed: u64 = if frame > u64::MAX - since_last {
        u64::MAX
    } else {
        since_last + frame
    };
    if passed >= step {
        (true, passed - step)
    } else {
        (false, passed)
    }
}

} // verus!
