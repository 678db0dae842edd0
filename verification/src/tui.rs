//! The terminal UI: configuration, navigation state and display text.
pub mod config;
pub mod state;
pub mod ui;
