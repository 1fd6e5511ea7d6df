//! A tile-based role-playing game core: content records, the player, field
//! combat, dialog scripting, the game state machine and the text formats
//! that content and saved games are written in.
//!
//! The library does no input or output. Content and saved games come in
//! as text, key presses as values of [`game::Key`], and what has to be
//! written, read or ended is handed back as a [`game::Request`].
//!
//! Contracts are stated over models: each record type has a model in which
//! a string is its sequence of characters and a vector its sequence of
//! elements, and `@` maps a value to its model.

pub mod data;
pub mod game;
pub mod num;
pub mod text;
