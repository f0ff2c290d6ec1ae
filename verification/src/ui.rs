//! What the board shows, ready for a terminal to draw.

pub mod widget;
