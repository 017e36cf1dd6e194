//! Game logic of a set of retro terminal games played on a grid: a path memory
//! challenge, a chase against a bot, a snake and a flappy-style runner.

pub mod models;
pub mod random;
pub mod chase;
pub mod flappy;
pub mod snake;
pub mod game;
pub mod input;
pub mod ui;
pub mod session;
