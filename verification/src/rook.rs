use vstd::prelude::*;
use crate::player::Player;
use crate::piece::{Piece, Square, Move};
use crate::board::Board;
use crate::game::Game;
use crate::slide::{walk_ray, lemma_steps_by_ray};
use crate::position::{classify, piece_moves, steps_upto, lemma_steps_off_board, rook_ray};
use crate::rules::{reaches, on_board};

verus! {

/// A rook remembers whether it has ever moved: a rook that has cannot castle.
#[derive(Clone, Copy, Debug, PartialEq, Eq, Structural)]
pub struct Rook {
    pub player: Player,
    pub moved: bool,
}

/// The `i`-th direction in which a rook slides.
fn rook_direction(i: usize) -> (ray: (i8, i8))
    requires
        i < 4,
    ensures
        (ray.0 as int, ray.1 as int) == rook_ray(i as int),
{
    if i == 0 {
        (1, 0)
    } else if i == 1 {
        (0, 1)
    } else if i == 2 {
        (-1, 0)
    } else {
        (0, -1)
    }
}

impl Rook {
    /// A rook that has not moved yet.
    pub fn new(player: Player) -> (piece: Rook)
        ensures
            piece == (Rook { player, moved: false }),
    {
        Rook { player, moved: false }
    }

    /// The side that owns the rook.
    pub fn player(&self) -> (owner: Player)
        ensures
            owner == self.player,
    {
        self.player
    }

    /// What the piece is called.
    pub fn name(&self) -> (name: &'static str)
        ensures
            name@ == "rook"@,
    {
        "rook"
    }

    /// The material worth of a rook.
    pub fn value(&self) -> (worth: i32)
        ensures
            worth == 5,
    {
        5
    }

    /// Whether `to` lies on the file or rank through `from` with nothing in
    /// between.
    pub fn reaches(&self, from: Square, to: Square, board: &Board) -> (can: bool)
        ensures
            can == reaches(
                board@,
                Piece::Rook(*self),
                from.0 as int,
                from.1 as int,
                to.0 as int,
                to.1 as int,
            ),
    {
        board.check_horiz(from, to)
    }

    /// How an attempted move from `from` to `to` is classified: `Normal` where
    /// the rook reaches `to`, `Invalid` where it does not. Who holds `to` and
    /// whether the mover's king is left attacked are not looked at.
    pub fn valid_move(&self, from: Square, to: Square, game: &mut Game) -> (kind: Move)
        ensures
            kind == classify(
                old(game)@,
                Piece::Rook(*self),
                from.0 as int,
                from.1 as int,
                to.0 as int,
                to.1 as int,
            ),
            *final(game) == *old(game),
    {
        let valid = game.check_horiz(from, to);
        if valid {
            Move::Normal
        } else {
            Move::Invalid
        }
    }

    /// The legal destinations of the rook, taken to stand on `position`: ray
    /// after ray, each walked until the edge or a piece is met, every square
    /// that its own side does not hold and that leaves no king of its side
    /// attacked. The game is afterwards what it was before.
    pub fn get_legal_moves(&self, position: Square, game: &mut Game) -> (moves: Vec<Square>)
        ensures
            moves@ == piece_moves(
                old(game)@,
                Piece::Rook(*self),
                position.0 as int,
                position.1 as int,
            ),
            *final(game) == *old(game),
    {
        let mut moves: Vec<Square> = Vec::new();
        let piece = Piece::Rook(*self);
        let ghost b = game@.squares;
        if position.0 >= 8 || position.1 >= 8 {
            proof {
                lemma_steps_off_board(b, piece, position.0 as int, position.1 as int, 28);
            }
            return moves;
        }
        let mut d: usize = 0;
        while d < 4
            invariant
                d <= 4,
                *game == *old(game),
                b == old(game)@.squares,
                piece == Piece::Rook(*self),
                on_board(position.0 as int, position.1 as int),
                moves@ == steps_upto(b, piece, position.0 as int, position.1 as int, 7 * d),
            decreases 4 - d,
        {
            let ray = rook_direction(d);
            walk_ray(game, piece, position, ray, &mut moves);
            proof {
                lemma_steps_by_ray(b, piece, position.0 as int, position.1 as int, d as int, 7);
            }
            d += 1;
        }
        moves
    }
}

} // verus!
