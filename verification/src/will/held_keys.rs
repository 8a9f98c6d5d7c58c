use vstd::prelude::*;

use crate::text::str_eq;

verus! {

/// Movement speed along each axis, in pixels per second.
pub const MOVE_SPEED: i32 = 160;

/// Which movement directions are held down.
#[derive(Debug, Clone, Copy, PartialEq, Eq, Structural)]
pub struct HeldKeys {
    pub up: bool,
    pub down: bool,
    pub left: bool,
    pub right: bool,
}

impl Default for HeldKeys {
    fn default() -> (r: HeldKeys)
        ensures
            r == (HeldKeys { up: false, down: false, left: false, right: false }),
    {
        HeldKeys { up: false, down: false, left: false, right: false }
    }
}

/// `1` for a held key, else `0`.
pub open spec fn held(b: bool) -> int {
    if b {
        1
    } else {
        0
    }
}

impl HeldKeys {
    /// The keys after `key` went down or up: WASD and the arrow keys move;
    /// any other key changes nothing.
    pub open spec fn spec_set(self, key: Seq<char>, is_down: bool) -> HeldKeys {
        if key == "W"@ || key == "Up"@ {
            HeldKeys { up: is_down, ..self }
        } else if key == "S"@ || key == "Down"@ {
            HeldKeys { down: is_down, ..self }
        } else if key == "A"@ || key == "Left"@ {
            HeldKeys { left: is_down, ..self }
        } else if key == "D"@ || key == "Right"@ {
            HeldKeys { right: is_down, ..self }
        } else {
            self
        }
    }

    pub fn set(&mut self, key: &str, is_down: bool)
        ensures
            *final(self) == old(self).spec_set(key@, is_down),
    {
        if str_eq(key, "W") || str_eq(key, "Up") {
            self.up = is_down;
        } else if str_eq(key, "S") || str_eq(key, "Down") {
            self.down = is_down;
        } else if str_eq(key, "A") || str_eq(key, "Left") {
            self.left = is_down;
        } else if str_eq(key, "D") || str_eq(key, "Right") {
            self.right = is_down;
        }
    }

    /// The velocity the held keys ask for: opposing keys cancel, and a
    /// diagonal keeps the full speed on both axes.
    pub fn velocity(&self) -> (r: (i32, i32))
        ensures
            r.0 == (held(self.right) - held(self.left)) * MOVE_SPEED,
            r.1 == (held(self.down) - held(self.up)) * MOVE_SPEED,
    {
        let x: i32 = (if self.right { 1i32 } else { 0i32 }) - (if self.left { 1i32 } else { 0i32 });
        let y: i32 = (if self.down { 1i32 } else { 0i32 }) - (if self.up { 1i32 } else { 0i32 });
        (x * MOVE_SPEED, y * MOVE_SPEED)
    }
}

/// Releasing a key undoes pressing it, whatever else is held.
pub proof fn lemma_release_undoes_press(k: HeldKeys, key: Seq<char>)
    ensures
        k.spec_set(key, true).spec_set(key, false) == k.spec_set(key, false),
{
}

} // verus!
