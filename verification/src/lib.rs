pub mod advance;
pub mod fielding;
pub mod game;
pub mod player;
pub mod rng;
pub mod state;
pub mod text;
