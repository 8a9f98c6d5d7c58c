//! Game rules of Artificial Will: message formats, menu navigation, player
//! progression, level content and the discrete parts of combat.

pub mod float_bits;
pub mod wire;
pub mod messages;
pub mod text;
pub mod draw;
pub mod menu;
pub mod presentation;
pub mod will;
pub mod targeting;
pub mod levels;
pub mod dist;
pub mod paths;
