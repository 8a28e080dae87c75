use vstd::prelude::*;
use crate::player::Player;
use crate::piece::{Piece, Square, Move};
use crate::board::{Board, gap, shifted};
use crate::game::Game;
use crate::position::{classify, piece_moves, steps_upto, knight_step};
use crate::rules::reaches;

verus! {

/// A knight: it jumps one square along a file or rank and two along the
/// other, over whatever stands in between.
#[derive(Clone, Copy, Debug, PartialEq, Eq, Structural)]
pub struct Knight {
    pub player: Player,
}

/// The `i`-th jump that a knight tries.
fn knight_offset(i: usize) -> (step: (i8, i8))
    requires
        i < 8,
    ensures
        (step.0 as int, step.1 as int) == knight_step(i as int),
{
    if i == 0 {
        (1, 2)
    } else if i == 1 {
        (2, 1)
    } else if i == 2 {
        (2, -1)
    } else if i == 3 {
        (1, -2)
    } else if i == 4 {
        (-1, -2)
    } else if i == 5 {
        (-2, -1)
    } else if i == 6 {
        (-2, 1)
    } else {
        (-1, 2)
    }
}

impl Knight {
    /// A knight of `player`.
    pub fn new(player: Player) -> (piece: Knight)
        ensures
            piece == (Knight { player }),
    {
        Knight { player }
    }

    /// The side that owns the knight.
    pub fn player(&self) -> (owner: Player)
        ensures
            owner == self.player,
    {
        self.player
    }

    /// What the piece is called.
    pub fn name(&self) -> (name: &'static str)
        ensures
            name@ == "knight"@,
    {
        "knight"
    }

    /// The material worth of a knight.
    pub fn value(&self) -> (worth: i32)
        ensures
            worth == 3,
    {
        3
    }

    /// Whether `to` is a knight's jump away from `from`.
    pub fn reaches(&self, from: Square, to: Square, board: &Board) -> (can: bool)
        ensures
            can == reaches(
                board@,
                Piece::Knight(*self),
                from.0 as int,
                from.1 as int,
                to.0 as int,
                to.1 as int,
            ),
    {
        if from.0 < 8 && from.1 < 8 && to.0 < 8 && to.1 < 8 {
            let across = gap(from.0, to.0);
            let along = gap(from.1, to.1);
            (across == 1 && along == 2) || (across == 2 && along == 1)
        } else {
            false
        }
    }

    /// How an attempted move from `from` to `to` is classified: `Normal` where
    /// the knight reaches `to`, `Invalid` where it does not. Who holds `to` and
    /// whether the mover's king is left attacked are not looked at.
    pub fn valid_move(&self, from: Square, to: Square, game: &mut Game) -> (kind: Move)
        ensures
            kind == classify(
                old(game)@,
                Piece::Knight(*self),
                from.0 as int,
                from.1 as int,
                to.0 as int,
                to.1 as int,
            ),
            *final(game) == *old(game),
    {
        if self.reaches(from, to, game.board()) {
            Move::Normal
        } else {
            Move::Invalid
        }
    }

    /// The legal destinations of the knight, taken to stand on `position`:
    /// each of its eight jumps that stays on the board, lands on a square that
    /// its own side does not hold and leaves no king of its side attacked.
    /// The game is afterwards what it was before.
    pub fn get_legal_moves(&self, position: Square, game: &mut Game) -> (moves: Vec<Square>)
        ensures
            moves@ == piece_moves(
                old(game)@,
                Piece::Knight(*self),
                position.0 as int,
                position.1 as int,
            ),
            *final(game) == *old(game),
    {
        let mut moves: Vec<Square> = Vec::new();
        let piece = Piece::Knight(*self);
        let ghost b = game@.squares;
        let mut i: usize = 0;
        while i < 8
            invariant
                i <= 8,
                *game == *old(game),
                b == old(game)@.squares,
                piece == Piece::Knight(*self),
                moves@ == steps_upto(b, piece, position.0 as int, position.1 as int, i as int),
            decreases 8 - i,
        {
            let (dx, dy) = knight_offset(i);
            match shifted(position, dx, dy) {
                Some(to) => {
                    if game.admits(piece, position, to) {
                        moves.push(to);
                    }
                },
                None => {},
            }
            i += 1;
        }
        moves
    }
}

} // verus!
