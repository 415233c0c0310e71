//! The rules of a team word-guessing game: the board and its turn-based state machine, the
//! layouts shown on the players' control surfaces, and the reduction of their presses into moves.

pub mod card;
pub mod count;
pub mod deal;
pub mod game;
pub mod layout;
pub mod reducer;
