use vstd::prelude::*;
use crate::player::Player;
use crate::piece::{Piece, Square, Move};
use crate::board::Board;
use crate::game::Game;
use crate::slide::{walk_ray, lemma_steps_by_ray};
use crate::position::{classify, piece_moves, steps_upto, lemma_steps_off_board, queen_ray};
use crate::rules::{reaches, on_board};

verus! {

/// A queen: it slides along files, ranks and diagonals.
#[derive(Clone, Copy, Debug, PartialEq, Eq, Structural)]
pub struct Queen {
    pub player: Player,
}

/// The `i`-th direction in which a queen slides.
fn queen_direction(i: usize) -> (ray: (i8, i8))
    requires
        i < 8,
    ensures
        (ray.0 as int, ray.1 as int) == queen_ray(i as int),
{
    if i == 0 {
        (1, 0)
    } else if i == 1 {
        (1, 1)
    } else if i == 2 {
        (0, 1)
    } else if i == 3 {
        (-1, 1)
    } else if i == 4 {
        (-1, 0)
    } else if i == 5 {
        (-1, -1)
    } else if i == 6 {
        (0, -1)
    } else {
        (1, -1)
    }
}

impl Queen {
    /// A queen of `player`.
    pub fn new(player: Player) -> (piece: Queen)
        ensures
            piece == (Queen { player }),
    {
        Queen { player }
    }

    /// The side that owns the queen.
    pub fn player(&self) -> (owner: Player)
        ensures
            owner == self.player,
    {
        self.player
    }

    /// What the piece is called.
    pub fn name(&self) -> (name: &'static str)
        ensures
            name@ == "queen"@,
    {
        "queen"
    }

    /// The material worth of a queen.
    pub fn value(&self) -> (worth: i32)
        ensures
            worth == 9,
    {
        9
    }

    /// Whether `to` lies on a file, rank or diagonal through `from` with
    /// nothing in between.
    pub fn reaches(&self, from: Square, to: Square, board: &Board) -> (can: bool)
        ensures
            can == reaches(
                board@,
                Piece::Queen(*self),
                from.0 as int,
                from.1 as int,
                to.0 as int,
                to.1 as int,
            ),
    {
        board.check_horiz(from, to) || board.check_diag(from, to)
    }

    /// How an attempted move from `from` to `to` is classified: `Normal` where
    /// the queen reaches `to`, `Invalid` where it does not. Who holds `to` and
    /// whether the mover's king is left attacked are not looked at.
    pub fn valid_move(&self, from: Square, to: Square, game: &mut Game) -> (kind: Move)
        ensures
            kind == classify(
                old(game)@,
                Piece::Queen(*self),
                from.0 as int,
                from.1 as int,
                to.0 as int,
                to.1 as int,
            ),
            *final(game) == *old(game),
    {
        let valid = game.check_horiz(from, to) || game.check_diag(from, to);
        if valid {
            Move::Normal
        } else {
            Move::Invalid
        }
    }

    /// The legal destinations of the queen, taken to stand on `position`: ray
    /// after ray, each walked until the edge or a piece is met, every square
    /// that its own side does not hold and that leaves no king of its side
    /// attacked. The game is afterwards what it was before.
    pub fn get_legal_moves(&self, position: Square, game: &mut Game) -> (moves: Vec<Square>)
        ensures
            moves@ == piece_moves(
                old(game)@,
                Piece::Queen(*self),
                position.0 as int,
                position.1 as int,
            ),
            *final(game) == *old(game),
    {
        let mut moves: Vec<Square> = Vec::new();
        let piece = Piece::Queen(*self);
        let ghost b = game@.squares;
        if position.0 >= 8 || position.1 >= 8 {
            proof {
                lemma_steps_off_board(b, piece, position.0 as int, position.1 as int, 56);
            }
            return moves;
        }
        let mut d: usize = 0;
        while d < 8
            invariant
                d <= 8,
                *game == *old(game),
                b == old(game)@.squares,
                piece == Piece::Queen(*self),
                on_board(position.0 as int, position.1 as int),
                moves@ == steps_upto(b, piece, position.0 as int, position.1 as int, 7 * d),
            decreases 8 - d,
        {
            let ray = queen_direction(d);
            walk_ray(game, piece, position, ray, &mut moves);
            proof {
                lemma_steps_by_ray(b, piece, position.0 as int, position.1 as int, d as int, 7);
            }
            d += 1;
        }
        moves
    }
}

} // verus!
