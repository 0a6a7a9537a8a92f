pub mod block;
pub mod board;
pub mod game;
pub mod lines;
mod random;
