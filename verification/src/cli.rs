//! The command-line options of the viewer.

use vstd::prelude::*;

verus! {

/// The options the process is started with.
#[derive(Debug, Clone, Copy)]
pub struct Cli {
    /// Display pages as plain text.
    pub plain: bool,
}

impl Default for Cli {
    /// By default pages are rendered with their styles.
    fn default() -> (d: Self)
        ensures
            !d.plain,
    {
        Cli { plain: false }
    }
}

} // verus!
