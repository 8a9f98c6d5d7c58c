//! The menu extension: screen navigation, display preferences and the
//! lifecycle requests that start, switch and stop level sessions.

pub mod display_preferences;
pub mod game_ui;
pub mod level;
pub mod menu_runtime;
pub mod menu_state;
pub mod resolution_options;
pub mod screen;
pub mod session_request;
