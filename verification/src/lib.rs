//! Two-player Minesweeper: the board and its rules, the turn-based
//! multiplayer rules on top of them, and the plain message and session
//! types that a server and a client exchange.

pub mod geometry;
pub mod grid;
pub mod cell;
pub mod board;
pub mod game;
pub mod player;
pub mod multiplayer;
pub mod serializables;
pub mod messages;
pub mod strings;
pub mod session;
pub mod lobby;
pub mod client;
pub mod laws;
