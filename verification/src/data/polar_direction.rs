//! The turn direction of an angle swept between two rays.
use vstd::prelude::*;

verus! {

/// The polar direction of a turn: clockwise, counterclockwise, or collinear.
#[derive(Debug, Clone, Copy, PartialEq, Eq, Structural)]
pub enum PolarDirection {
    /// Clockwise (a right turn).
    CW,
    /// Counterclockwise (a left turn).
    CCW,
    /// No turn: the three points involved are collinear.
    Collinear,
}

impl PolarDirection {
    /// The opposite direction: swapping the two swept rays flips CW and CCW
    /// and preserves Collinear.
    pub fn neg(self) -> (r: Self)
        ensures
            r == (match self {
                PolarDirection::CW => PolarDirection::CCW,
                PolarDirection::CCW => PolarDirection::CW,
                PolarDirection::Collinear => PolarDirection::Collinear,
            }),
    {
        match self {
            Self::CW => Self::CCW,
            Self::CCW => Self::CW,
            Self::Collinear => Self::Collinear,
        }
    }
}

} // verus!
