//! The options of a run.

use vstd::prelude::*;

verus! {

/// The four independent switches of a run. They are fixed once the command
/// line has been read.
#[derive(Clone, Copy, Debug, PartialEq, Eq, Structural)]
pub struct Flags {
    /// Prefix each output line with its number.
    pub number: bool,
    /// Collapse each run of empty lines to a single empty line.
    pub squeeze_blank: bool,
    /// Pause after each byte that is written.
    pub delay: bool,
    /// Report the size of each chunk and the time it took.
    pub verbose: bool,
}

impl Flags {
    /// The flags of a run without options: every switch is off.
    pub fn none() -> (flags: Flags)
        ensures
            flags == (Flags { number: false, squeeze_blank: false, delay: false, verbose: false }),
    {
        Flags { number: false, squeeze_blank: false, delay: false, verbose: false }
    }
}

} // verus!
