//! A verified core for a 2D side-scrolling runner game.
//!
//! The library holds the game's logic: geometry and intersection tests,
//! the character's animation/physics state machine, obstacles and their
//! collision resolution, the procedural segment generator, the world
//! orchestrator, and the fixed-timestep loop driver. A host layer owns
//! the platform (asset loading, rendering, input capture, audio) and
//! drives these types with plain values.

pub mod boy;
pub mod game_loop;
pub mod obstacle;
pub mod segment;
pub mod walk;
pub mod geometry;
pub mod sprite;
