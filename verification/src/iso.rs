//! The faces of isometric drawing.

use vstd::prelude::*;

verus! {

/// The face that isometric input lies in.
#[derive(Clone, Copy, Debug, PartialEq, Eq, Structural)]
pub enum IsoFace {
    Top,
    Left,
    Right,
}

impl Default for IsoFace {
    fn default() -> (r: Self)
        ensures
            r == IsoFace::Top,
    {
        IsoFace::Top
    }
}

impl IsoFace {
    /// The face that follows.
    pub open spec fn following(self) -> IsoFace {
        match self {
            IsoFace::Top => IsoFace::Left,
            IsoFace::Left => IsoFace::Right,
            IsoFace::Right => IsoFace::Top,
        }
    }

    /// The face that follows: top, left, right and round again.
    pub fn next(self) -> (r: IsoFace)
        ensures
            r == self.following(),
    {
        match self {
            IsoFace::Top => IsoFace::Left,
            IsoFace::Left => IsoFace::Right,
            IsoFace::Right => IsoFace::Top,
        }
    }

    /// The name of the face.
    pub fn label(self) -> (r: &'static str)
        ensures
            r@ == match self {
                IsoFace::Top => "Top"@,
                IsoFace::Left => "Left"@,
                IsoFace::Right => "Right"@,
            },
    {
        match self {
            IsoFace::Top => "Top",
            IsoFace::Left => "Left",
            IsoFace::Right => "Right",
        }
    }
}

/// Three steps lead round all faces and back, and no face follows itself.
pub proof fn lemma_faces_cycle(face: IsoFace)
    ensures
        face.following().following().following() == face,
        face.following() != face,
        face.following().following() != face,
{
}

} // verus!
