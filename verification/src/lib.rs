//! Turn-based survival on a grid: a player is chased by two kinds of robots
//! that step towards them every turn, die on heaps and on each other, and end
//! the game when they reach the player.
//!
//! The library holds the engine: the arena, the resolution of one turn, the
//! level and session rules, and the randomized placement. Rendering, input
//! and storage live outside of it.

pub mod arena;
pub mod enums;
pub mod game;
pub mod laws;
pub mod layout;
pub mod model;
pub mod options;
pub mod profiles;
pub mod random;
pub mod resolver;
pub mod session;
pub mod text;
