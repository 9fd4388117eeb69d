//! A falling-brick arcade game: grid geometry and the game's state machine.
pub mod game;
pub mod grid;
pub mod utils;
