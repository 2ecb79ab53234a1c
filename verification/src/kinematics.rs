//! 4D kinematics in absolute time: the loss-of-separation window between two tracks.
use vstd::prelude::*;

use crate::time::{fits_i128, Duration, Epoch};

verus! {

/// A predicted loss of separation: the interval during which two objects are simultaneously within
/// the horizontal and vertical minima of a protected zone.
#[derive(Clone, Copy, Debug, PartialEq)]
pub struct Conflict {
    /// When separation is first lost.
    pub enters: Epoch,
    /// When separation is regained.
    pub exits: Epoch,
    /// The epoch of horizontal closest approach within the conflict.
    pub tca: Epoch,
}

impl Conflict {
    /// The duration of the loss of separation.
    pub fn duration(&self) -> (d: Duration)
        requires
            fits_i128(self.exits@ - self.enters@),
        ensures
            d@ == self.exits@ - self.enters@,
    {
        self.exits - self.enters
    }
}

} // verus!
