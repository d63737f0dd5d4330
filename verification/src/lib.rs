//! The logic of a LiveSplit auto splitter for the game Blue Fire.
//!
//! Each tick, the host reads a few values out of the game's memory (the game
//! timer, the last lit fire shrine, the game's event log) and hands them to a
//! [`splitter::Splitter`], which decides when to split, reset and start the
//! timer. Strings read out of the game are decoded from UTF-16 by
//! [`utf16`]; the completion percentage shown to the runner is formatted by
//! [`text::completion_text`].
pub mod jujstme_string;
pub mod offsets;
pub mod splits;
pub mod splitter;
pub mod splitter_settings;
pub mod text;
pub mod utf16;
pub mod watcher;
