//! A chess-board PNG renderer with a small set of helpers for the chat bot
//! that hosts it: board construction, piece placement, decoration passes
//! (labels, sprites, last-move highlight), and PNG encoding, together with
//! the pure decision logic of the bot's commands.

pub mod board;
pub mod color;
pub mod dataurl;
pub mod emotes;
pub mod friday;
pub mod glyphs;
pub mod notation;
pub mod pieces;
pub mod png;

pub use color::Rgba;
