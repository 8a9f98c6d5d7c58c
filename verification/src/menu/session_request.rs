use vstd::prelude::*;

use crate::menu::level::Level;

verus! {

/// Concrete lifecycle effect requested by a menu-state transition.
#[derive(Debug, Clone, Copy, PartialEq, Eq, Structural)]
pub enum SessionRequest {
    /// Replace any current level session with a fresh session of this level.
    Replace(Level),
    /// Stop the current level and return to a menu-only state.
    Stop,
}

} // verus!
