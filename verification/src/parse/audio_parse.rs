//! The audio pipeline.

use vstd::prelude::*;

verus! {

/// The audio pipeline; it carries no state of its own.
#[derive(Debug, Clone, Copy)]
pub struct Audio;

impl Audio {
    /// The audio pipeline.
    pub fn new() -> (r: Audio)
        ensures
            r == Audio,
    {
        Audio
    }
}

impl Default for Audio {
    fn default() -> (r: Audio)
        ensures
            r == Audio,
    {
        Audio
    }
}

} // verus!
