//! The terminal browser: what a keystroke does to a session, and the
//! furniture every screen shares.

pub mod app;
pub mod band;
pub mod press;
pub mod stack;
pub mod prompt;
pub mod queue;
pub mod command;
pub mod field;
pub mod frame;
pub mod theme;
pub mod view;
