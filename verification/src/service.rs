//! The tray service: configuration, media player and tray menu.
pub mod config;
pub mod state;
pub mod tray;
