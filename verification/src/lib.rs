//! The simulation core of a pointer-steered snake game: locomotion, the
//! follow chain, growth, collisions, immunity timers, game state and score.

pub mod coin;
pub mod entity;
pub mod event;
pub mod game_audio;
pub mod game_state;
pub mod geometry;
pub mod laws;
pub mod session;
pub mod snake;
pub mod timer;
