//! Level content and the state of the level-owned targets.

pub mod box_field;
pub mod level_one;
pub mod level_two;
pub mod slime_field;
