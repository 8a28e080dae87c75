use vstd::prelude::*;

verus! {

/// One of the two sides. `One` starts on rank 7 and moves towards rank 0,
/// `Two` starts on rank 0 and moves towards rank 7.
#[derive(Clone, Copy, Debug, PartialEq, Eq, Structural)]
pub enum Player {
    One,
    Two,
}

impl Player {
    /// The other side.
    pub open spec fn spec_opponent(self) -> Player {
        match self {
            Player::One => Player::Two,
            Player::Two => Player::One,
        }
    }

    /// The rank on which this side's king and rooks start.
    pub open spec fn spec_home_rank(self) -> int {
        match self {
            Player::One => 7,
            Player::Two => 0,
        }
    }

    /// The rank on which this side's pawns start.
    pub open spec fn spec_pawn_rank(self) -> int {
        match self {
            Player::One => 6,
            Player::Two => 1,
        }
    }

    /// The change of rank of one pawn step of this side.
    pub open spec fn spec_forward(self) -> int {
        match self {
            Player::One => -1,
            Player::Two => 1,
        }
    }

    /// The other side.
    #[verifier::when_used_as_spec(spec_opponent)]
    pub fn opponent(self) -> (other: Player)
        ensures
            other == self.spec_opponent(),
            other != self,
    {
        match self {
            Player::One => Player::Two,
            Player::Two => Player::One,
        }
    }

    /// The rank on which this side's king and rooks start.
    pub fn home_rank(self) -> (rank: u8)
        ensures
            rank == self.spec_home_rank(),
    {
        match self {
            Player::One => 7,
            Player::Two => 0,
        }
    }

    /// The rank on which this side's pawns start.
    pub fn pawn_rank(self) -> (rank: u8)
        ensures
            rank == self.spec_pawn_rank(),
    {
        match self {
            Player::One => 6,
            Player::Two => 1,
        }
    }
}

} // verus!
