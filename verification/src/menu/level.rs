use vstd::prelude::*;

verus! {

/// A playable level, loaded as its own extension.
#[derive(Debug, Clone, Copy, PartialEq, Eq, Structural)]
pub enum Level {
    One,
    Two,
}

impl Level {
    /// The name of the extension that holds the level.
    pub open spec fn spec_extension_name(self) -> Seq<char> {
        match self {
            Level::One => "level_one"@,
            Level::Two => "level_two"@,
        }
    }

    /// The name of the extension that holds the level.
    pub fn extension_name(self) -> (r: &'static str)
        ensures
            r@ == self.spec_extension_name(),
    {
        match self {
            Level::One => "level_one",
            Level::Two => "level_two",
        }
    }
}

} // verus!
