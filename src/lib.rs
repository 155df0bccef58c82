//! Finds the game's saves, orders them newest first, picks one (the newest, or
//! the newest of a given character name) and writes a one-line summary of it:
//! name, level and play time.
pub mod laws;
pub mod level;
pub mod listing;
pub mod paths;
pub mod save;
pub mod text;
