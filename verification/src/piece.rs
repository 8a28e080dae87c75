use vstd::prelude::*;
use crate::player::Player;
use crate::board::Board;
use crate::rules::reaches;
use crate::game::Game;
use crate::position::{classify, piece_moves};
use crate::pawn::Pawn;
use crate::knight::Knight;
use crate::bishop::Bishop;
use crate::rook::Rook;
use crate::queen::Queen;
use crate::king::King;

verus! {

/// A square of the board: file first (0 to 7), then rank (0 to 7).
pub type Square = (u8, u8);

/// How an attempted move is classified.
#[derive(Clone, Copy, Debug, PartialEq, Eq, Structural)]
pub enum Move {
    Invalid,
    Normal,
    Castle,
}

impl Move {
    /// Whether the move is anything but `Invalid`.
    pub open spec fn spec_is_valid(self) -> bool {
        self != Move::Invalid
    }

    /// Whether the move is anything but `Invalid`.
    #[verifier::when_used_as_spec(spec_is_valid)]
    pub fn is_valid(self) -> (valid: bool)
        ensures
            valid == self.spec_is_valid(),
    {
        match self {
            Move::Invalid => false,
            _ => true,
        }
    }
}

/// The six kinds of piece. A piece is nothing but its kind, its owner and,
/// for rooks and kings, whether it has moved.
#[derive(Clone, Copy, Debug, PartialEq, Eq, Structural)]
pub enum Piece {
    Pawn(Pawn),
    Knight(Knight),
    Bishop(Bishop),
    Rook(Rook),
    Queen(Queen),
    King(King),
}

impl Piece {
    /// The side that owns the piece.
    pub open spec fn owner(self) -> Player {
        match self {
            Piece::Pawn(p) => p.player,
            Piece::Knight(p) => p.player,
            Piece::Bishop(p) => p.player,
            Piece::Rook(p) => p.player,
            Piece::Queen(p) => p.player,
            Piece::King(p) => p.player,
        }
    }

    /// The material worth of the piece.
    pub open spec fn worth(self) -> int {
        match self {
            Piece::Pawn(_) => 1,
            Piece::Knight(_) => 3,
            Piece::Bishop(_) => 3,
            Piece::Rook(_) => 5,
            Piece::Queen(_) => 9,
            Piece::King(_) => 100,
        }
    }

    /// The same piece once it has moved: rooks and kings remember it.
    pub open spec fn touched(self) -> Piece {
        match self {
            Piece::Rook(r) => Piece::Rook(Rook { player: r.player, moved: true }),
            Piece::King(k) => Piece::King(King { player: k.player, moved: true }),
            _ => self,
        }
    }

    /// The side that owns the piece.
    pub fn player(&self) -> (owner: Player)
        ensures
            owner == self.owner(),
    {
        match self {
            Piece::Pawn(p) => p.player(),
            Piece::Knight(p) => p.player(),
            Piece::Bishop(p) => p.player(),
            Piece::Rook(p) => p.player(),
            Piece::Queen(p) => p.player(),
            Piece::King(p) => p.player(),
        }
    }

    /// The material worth of the piece.
    pub fn value(&self) -> (worth: i32)
        ensures
            worth == self.worth(),
    {
        match self {
            Piece::Pawn(p) => p.value(),
            Piece::Knight(p) => p.value(),
            Piece::Bishop(p) => p.value(),
            Piece::Rook(p) => p.value(),
            Piece::Queen(p) => p.value(),
            Piece::King(p) => p.value(),
        }
    }

    /// What the kind of the piece is called.
    pub fn name(&self) -> (name: &'static str)
        ensures
            name@ == (match *self {
                Piece::Pawn(_) => "pawn"@,
                Piece::Knight(_) => "knight"@,
                Piece::Bishop(_) => "bishop"@,
                Piece::Rook(_) => "rook"@,
                Piece::Queen(_) => "queen"@,
                Piece::King(_) => "king"@,
            }),
    {
        match self {
            Piece::Pawn(p) => p.name(),
            Piece::Knight(p) => p.name(),
            Piece::Bishop(p) => p.name(),
            Piece::Rook(p) => p.name(),
            Piece::Queen(p) => p.name(),
            Piece::King(p) => p.name(),
        }
    }

    /// Whether the piece, standing on `from`, could go to `to` by its own way
    /// of moving.
    pub fn reaches(&self, from: Square, to: Square, board: &Board) -> (can: bool)
        ensures
            can == reaches(
                board@,
                *self,
                from.0 as int,
                from.1 as int,
                to.0 as int,
                to.1 as int,
            ),
    {
        match self {
            Piece::Pawn(p) => p.reaches(from, to, board),
            Piece::Knight(p) => p.reaches(from, to, board),
            Piece::Bishop(p) => p.reaches(from, to, board),
            Piece::Rook(p) => p.reaches(from, to, board),
            Piece::Queen(p) => p.reaches(from, to, board),
            Piece::King(p) => p.reaches(from, to, board),
        }
    }

    /// How an attempted move of the piece from `from` to `to` is classified:
    /// `Normal` where the piece reaches `to` by its own way of moving,
    /// `Castle` for a king that may castle there, `Invalid` otherwise. Who
    /// holds `to` and whether the mover's king is left attacked are not
    /// looked at. The game is afterwards what it was before.
    pub fn valid_move(&self, from: Square, to: Square, game: &mut Game) -> (kind: Move)
        ensures
            kind == classify(
                old(game)@,
                *self,
                from.0 as int,
                from.1 as int,
                to.0 as int,
                to.1 as int,
            ),
            *final(game) == *old(game),
    {
        match self {
            Piece::Pawn(p) => p.valid_move(from, to, game),
            Piece::Knight(p) => p.valid_move(from, to, game),
            Piece::Bishop(p) => p.valid_move(from, to, game),
            Piece::Rook(p) => p.valid_move(from, to, game),
            Piece::Queen(p) => p.valid_move(from, to, game),
            Piece::King(p) => p.valid_move(from, to, game),
        }
    }

    /// The legal destinations of the piece, taken to stand on `position`, in
    /// the order in which the piece tries them. The game is afterwards what
    /// it was before.
    pub fn get_legal_moves(&self, position: Square, game: &mut Game) -> (moves: Vec<Square>)
        ensures
            moves@ == piece_moves(old(game)@, *self, position.0 as int, position.1 as int),
            *final(game) == *old(game),
    {
        match self {
            Piece::Pawn(p) => p.get_legal_moves(position, game),
            Piece::Knight(p) => p.get_legal_moves(position, game),
            Piece::Bishop(p) => p.get_legal_moves(position, game),
            Piece::Rook(p) => p.get_legal_moves(position, game),
            Piece::Queen(p) => p.get_legal_moves(position, game),
            Piece::King(p) => p.get_legal_moves(position, game),
        }
    }

    /// The piece with its "has moved" mark set, where it has one.
    pub fn mark_moved(self) -> (after: Piece)
        ensures
            after == self.touched(),
    {
        match self {
            Piece::Rook(r) => Piece::Rook(Rook { player: r.player, moved: true }),
            Piece::King(k) => Piece::King(King { player: k.player, moved: true }),
            other => other,
        }
    }
}

} // verus!
