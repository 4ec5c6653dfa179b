//! A scrolling "Matrix"-style rain of characters: the state of the screen,
//! the rules by which it advances one frame, the keyboard commands that
//! change its settings, and the network counters that colour it.

pub mod config;
pub mod laws;
pub mod matrix;
pub mod net;
pub mod random;
pub mod render;
pub mod text;
