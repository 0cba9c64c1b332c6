//! Configuration errors. All are fatal for the call that detects them and
//! are surfaced immediately, never silently corrected.

use vstd::prelude::*;

verus! {

#[derive(Clone, Copy, PartialEq, Eq, Structural, Debug)]
pub enum SimError {
    /// The grid side is not a power of two in the accepted range.
    InvalidGridSize,
    /// A swell band or wind parameter is non-physical.
    InvalidBand,
}

impl SimError {
    /// A short description of the error.
    pub fn message(&self) -> (s: String)
        ensures
            s@.len() > 0,
    {
        match self {
            SimError::InvalidGridSize => {
                let s = String::from_str("grid side must be a power of two between 4 and 4096");
                proof {
                    reveal_strlit("grid side must be a power of two between 4 and 4096");
                }
                s
            },
            SimError::InvalidBand => {
                let s = String::from_str("non-physical wind or swell-band parameter");
                proof {
                    reveal_strlit("non-physical wind or swell-band parameter");
                }
                s
            },
        }
    }
}

} // verus!
