//! A two-player K-in-a-row game: the board, the alignment check, the
//! game engine and the request/reply protocol through which a concurrent
//! front end drives the engine.

pub mod align;
pub mod channel;
pub mod dot;
pub mod game;
pub mod grid;
pub mod handler;
pub mod laws;
