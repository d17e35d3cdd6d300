mod dice;
pub mod game;
pub mod world;
