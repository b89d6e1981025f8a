//! Who holds a sample.
use vstd::prelude::*;

verus! {

/// The holder of a sample: this robot, the opponent, or the shared pool.
#[derive(Clone, Copy, Debug, PartialEq, Eq, Structural)]
pub enum CarriedBy {
    Me,
    Other,
    Cloud,
}

impl CarriedBy {
    /// `0` is this robot, `1` the opponent, `-1` the shared pool.
    pub fn from_integer(value: i8) -> (r: Option<Self>)
        ensures
            value == 0 ==> r == Some(CarriedBy::Me),
            value == 1 ==> r == Some(CarriedBy::Other),
            value == -1 ==> r == Some(CarriedBy::Cloud),
            !(-1 <= value <= 1) ==> r is None,
    {
        match value {
            0 => Some(CarriedBy::Me),
            1 => Some(CarriedBy::Other),
            -1 => Some(CarriedBy::Cloud),
            _ => None,
        }
    }
}

} // verus!
