//! The runtime core of a terminal application: the events that drive it and
//! the stack of scenes that they are routed to and that is drawn.

pub mod app;
pub mod event;
pub mod laws;
pub mod scene;
pub mod source;
pub mod stack;
