//! Configuration flags that modify the behavior of the engine.

use vstd::prelude::*;

verus! {

/// Configuration flags that modify the behavior of the regular expression
/// engine.
#[derive(Debug, Clone, Copy, PartialEq, Eq)]
pub struct Flags {
    /// Controls case sensitivity.
    /// - `None`: smartcase (insensitive if the pattern has no uppercase
    ///   character, sensitive otherwise).
    /// - `Some(true)`: case-insensitive (`i` flag).
    /// - `Some(false)`: case-sensitive (`c` flag).
    pub ignore_case: Option<bool>,
    /// If true, `^` and `$` also match line boundaries (`m` flag).
    pub multiline: bool,
    /// If true, `.` matches newlines (`s` flag).
    pub dotall: bool,
    /// If true, whitespace and comments in the pattern are ignored (`x` flag).
    pub verbose: bool,
    /// If true, indicates Unicode-aware character classes (`u` flag).
    pub unicode: bool,
    /// If true, indicates that all occurrences should be matched (`g` flag).
    /// The engine itself finds one match per call; this flag is preserved for
    /// the caller.
    pub global: bool,
}

impl Default for Flags {
    /// All options off; case sensitivity left to smartcase.
    fn default() -> (r: Flags)
        ensures
            r == (Flags {
                ignore_case: None,
                multiline: false,
                dotall: false,
                verbose: false,
                unicode: false,
                global: false,
            }),
    {
        Flags {
            ignore_case: None,
            multiline: false,
            dotall: false,
            verbose: false,
            unicode: false,
            global: false,
        }
    }
}

} // verus!
