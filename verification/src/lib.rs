//! A terminal snake game, verified: the snake walks a toroidal grid, eats
//! food to grow and speed up, and dies on self-collision. Game logic lives
//! here with full contracts; terminal rendering and the input thread are the
//! binary's business.

pub mod events;
mod rng;
pub mod world;
pub mod snake;
