//! The rules of a four-in-a-row game for two players.
//!
//! Pieces dropped into a column of the board come to rest on the lowest free
//! row, and four pieces of one player in a line, across, upward or
//! diagonally, win the round.
//!
//! - [`fill`]: what a cell of the board holds.
//! - [`field`]: the board, with dropping a piece and finding the winner.
//! - [`player_input`]: telling the moment a key goes down from its being held.
//! - [`four_wins`]: one update of the game, from what the players ask for to
//!   what the screen has to show.

pub mod fill;
pub mod field;
pub mod player_input;
pub mod four_wins;
