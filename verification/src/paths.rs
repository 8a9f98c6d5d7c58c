//! Where the game finds its extensions.
use vstd::prelude::*;

verus! {

/// Where the dev tree keeps built extensions, relative to the executable's
/// directory (`target/{debug,release}/`).
pub const DEV_TREE_EXTENSIONS: &'static str = "../../extensions/target/wasm32-wasip2/release";

/// The extension root of a shipped build, relative to the executable's
/// directory: it holds the grouped `core/` and `levels/` directories.
pub const SHIPPED_EXTENSIONS: &'static str = "extensions";

/// The directory that holds the extensions.
#[derive(Debug, Clone, Copy, PartialEq, Eq, Structural)]
pub enum ExtensionsDir {
    /// A shipped build: [`SHIPPED_EXTENSIONS`] next to the executable, with
    /// its grouped `core/` and `levels/` directories.
    Shipped,
    /// The dev-tree layout, [`DEV_TREE_EXTENSIONS`] from the executable.
    DevTree,
}

/// A shipped build is recognised by either of its group directories inside
/// the shipped extension root, which is checked first; otherwise the
/// dev-tree layout is assumed.
pub fn extensions_dir(has_core_dir: bool, has_levels_dir: bool) -> (r: ExtensionsDir)
    ensures
        r == (if has_core_dir || has_levels_dir {
            ExtensionsDir::Shipped
        } else {
            ExtensionsDir::DevTree
        }),
{
    if has_core_dir || has_levels_dir {
        ExtensionsDir::Shipped
    } else {
        ExtensionsDir::DevTree
    }
}

} // verus!
