//! The simulation core of a 2D tile-based platformer, verified with Verus.
//!
//! The library holds what is decided in a tick of the simulation:
//!
//! - [`level::terrain`]: the tile grid of a level, and what counts as solid.
//! - [`physics::components`]: what an entity's box touches, and the sweeps
//!   that find the first line of tiles at which a moving box is held.
//! - [`physics::systems`]: the four collision checks of a tick, in their
//!   fixed order, and the broad phase of the collisions between entities.
//! - [`physics::quad_tree`]: the quadtree of the broad phase.
//! - [`rendering::animation_seq`]: animations as trees, and the sequences
//!   that walk through them frame by frame; [`rendering::animation_laws`]
//!   says which frames a sequence shows.
//! - [`player`]: the player's states, and the pushdown machine that runs
//!   them.
//! - [`systems`]: the order of the stages of a tick.
//!
//! Positions, velocities and accelerations are real-valued and are kept by
//! whoever runs the simulation. That party tells the library the signs of
//! velocities and the tiles that lie under the points it samples, and it
//! carries out on the bodies what the library decides: see
//! [`physics::systems::AABBMovingSystem`] and [`player::systems::Steering`].

pub mod components;
pub mod level;
pub mod marker;
pub mod physics;
pub mod player;
pub mod rendering;
pub mod resources;
pub mod systems;
