//! Verified core of the Broadlink remote control clients: the command tree
//! built from the REST API's JSON, the tray menu, the terminal UI's
//! navigation, and the configuration defaults and load decisions.
pub mod text;
pub mod str_map;
pub mod sort;
pub mod json;
pub mod api_client;
pub mod service;
pub mod tui;
pub mod refresh;
