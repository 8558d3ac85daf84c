//! Game rules of "Bare King": a lone king on a 16 by 16 board, hunted by chess
//! pieces that plan their moves one round ahead and are shown to the player.
//!
//! The board, the pieces' move planning, the abilities, the turn order and the
//! key bindings live here; drawing, sound output, input polling and saving live
//! in the program around the library.

pub mod random;
pub mod board;
pub mod ability;
pub mod player;
pub mod game_data;
pub mod home;
pub mod turn;
pub mod text;
pub mod keys;
pub mod laws;
