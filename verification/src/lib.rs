//! Rules engine for a Nine Men's Morris style board game.
//!
//! The board is a fixed graph of 24 positions. The engine knows which
//! positions are adjacent, which lines of three form a mill, and how a game
//! position evolves when a player places, moves or captures a piece.
//!
//! - [`topology`] states the shape of the board as mathematics.
//! - [`position`] and [`board`] hold the arena of positions and the rules
//!   for placing and moving pieces; [`mills`] finds mills and captures.
//! - [`ply`], [`player_state`] and [`game_state`] are the state machine:
//!   a [`game_state::GameState`] lists the plies open in it and gives the
//!   position that each of them leads to.
//! - [`game`] tells whoever runs a game what to do next, and [`player`]
//!   holds the players that pick a ply.
//! - [`laws`] proves what holds of the rules in every position.

pub mod error;
pub mod direction;
pub mod mill;
pub mod topology;
pub mod position;
pub mod board;
pub mod mills;
pub mod ply;
pub mod player_state;
pub mod game_state;
pub mod game;
pub mod player;
pub mod laws;
