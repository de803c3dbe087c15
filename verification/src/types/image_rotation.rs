use vstd::prelude::*;

verus! {

/// A rotation of an image by a multiple of a quarter turn, clockwise.
#[derive(Clone, Copy, Debug, PartialEq, Eq, Structural)]
pub enum ImageRotation {
    Clockwise0,
    Clockwise90,
    Clockwise180,
    Clockwise270,
}

impl ImageRotation {
    /// Number of clockwise quarter turns this rotation stands for.
    pub open spec fn quarter_turns(self) -> int {
        match self {
            ImageRotation::Clockwise0 => 0,
            ImageRotation::Clockwise90 => 1,
            ImageRotation::Clockwise180 => 2,
            ImageRotation::Clockwise270 => 3,
        }
    }

    /// The rotation that stands for `n` clockwise quarter turns, `n` taken modulo four.
    pub open spec fn from_quarter_turns(n: int) -> ImageRotation {
        let k = n % 4;
        if k == 0 {
            ImageRotation::Clockwise0
        } else if k == 1 {
            ImageRotation::Clockwise90
        } else if k == 2 {
            ImageRotation::Clockwise180
        } else {
            ImageRotation::Clockwise270
        }
    }

    /// The rotation one quarter turn further clockwise.
    pub fn next(self) -> (r: Self)
        ensures
            r == Self::from_quarter_turns(self.quarter_turns() + 1),
    {
        match self {
            Self::Clockwise0 => Self::Clockwise90,
            Self::Clockwise90 => Self::Clockwise180,
            Self::Clockwise180 => Self::Clockwise270,
            Self::Clockwise270 => Self::Clockwise0,
        }
    }

    /// The rotation one quarter turn back, counter-clockwise.
    pub fn prev(self) -> (r: Self)
        ensures
            r == Self::from_quarter_turns(self.quarter_turns() + 3),
    {
        match self {
            Self::Clockwise0 => Self::Clockwise270,
            Self::Clockwise90 => Self::Clockwise0,
            Self::Clockwise180 => Self::Clockwise90,
            Self::Clockwise270 => Self::Clockwise180,
        }
    }

    /// The rotation that undoes this one: together they make a full turn.
    pub open spec fn spec_inverse(self) -> ImageRotation {
        Self::from_quarter_turns(4 - self.quarter_turns())
    }

    /// The rotation that undoes this one.
    pub fn inverse(self) -> (r: Self)
        ensures
            r == self.spec_inverse(),
    {
        match self {
            Self::Clockwise0 => Self::Clockwise0,
            Self::Clockwise90 => Self::Clockwise270,
            Self::Clockwise180 => Self::Clockwise180,
            Self::Clockwise270 => Self::Clockwise90,
        }
    }
}

} // verus!
