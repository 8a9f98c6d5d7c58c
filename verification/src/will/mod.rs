//! The player character: input, progression, animation state and HUD.

pub mod combat_state;
pub mod controller;
pub mod held_keys;
pub mod hud;
pub mod impact;
pub mod player_state;
