//! What the multiplexer tells in text, read into values.

pub mod tmux;
