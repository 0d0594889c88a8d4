//! Tic-tac-toe rules engine, computer opponents and the multiplayer session
//! broker that pairs connections into two-player games.

pub mod app;
pub mod broker;
pub mod client;
pub mod events;
pub mod game;
pub mod grid;
pub mod laws;
pub mod player;
pub mod session;
pub mod update;
