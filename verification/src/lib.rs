//! A terminal rendering engine: a constraint solver that tiles rectangles,
//! a grid of styled cells, widgets that paint into it, a double-buffered
//! renderer that reports only what changed, and the life cycle of a raw-mode
//! terminal session.

pub mod geometry;
pub mod buffer;
pub mod widgets;
pub mod session;
pub mod renderer;
pub mod panels;
pub mod feeds;
