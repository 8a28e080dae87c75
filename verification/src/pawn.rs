use vstd::prelude::*;
use crate::player::Player;
use crate::piece::{Piece, Square, Move};
use crate::board::{Board, gap, shifted};
use crate::game::Game;
use crate::position::{classify, piece_moves, steps_upto, pawn_step};
use crate::rules::reaches;

verus! {

/// A pawn: one square forward at a time, two from its starting rank, and
/// diagonally forward to capture.
#[derive(Clone, Copy, Debug, PartialEq, Eq, Structural)]
pub struct Pawn {
    pub player: Player,
}

/// The `i`-th step that a pawn of `player` tries: one forward, two forward,
/// and forward to either side.
fn pawn_offset(player: Player, i: usize) -> (step: (i8, i8))
    requires
        i < 4,
    ensures
        (step.0 as int, step.1 as int) == pawn_step(player, i as int),
{
    let forward: i8 = match player {
        Player::One => -1,
        Player::Two => 1,
    };
    if i == 0 {
        (0, forward)
    } else if i == 1 {
        (0, 2 * forward)
    } else if i == 2 {
        (-1, forward)
    } else {
        (1, forward)
    }
}

impl Pawn {
    /// A pawn of `player`.
    pub fn new(player: Player) -> (piece: Pawn)
        ensures
            piece == (Pawn { player }),
    {
        Pawn { player }
    }

    /// The side that owns the pawn.
    pub fn player(&self) -> (owner: Player)
        ensures
            owner == self.player,
    {
        self.player
    }

    /// What the piece is called.
    pub fn name(&self) -> (name: &'static str)
        ensures
            name@ == "pawn"@,
    {
        "pawn"
    }

    /// The material worth of a pawn.
    pub fn value(&self) -> (worth: i32)
        ensures
            worth == 1,
    {
        1
    }

    /// Whether the pawn on `from` can go to `to`: a step forward onto an
    /// empty square, two steps from its starting rank over empty squares, or a
    /// diagonal step forward onto a piece of the other side.
    pub fn reaches(&self, from: Square, to: Square, board: &Board) -> (can: bool)
        ensures
            can == reaches(
                board@,
                Piece::Pawn(*self),
                from.0 as int,
                from.1 as int,
                to.0 as int,
                to.1 as int,
            ),
    {
        if from.0 < 8 && from.1 < 8 && to.0 < 8 && to.1 < 8 {
            let ahead: u8 = match self.player {
                Player::One => if from.1 >= 1 {
                    from.1 - 1
                } else {
                    8
                },
                Player::Two => from.1 + 1,
            };
            let further: u8 = match self.player {
                Player::One => if from.1 >= 2 {
                    from.1 - 2
                } else {
                    8
                },
                Player::Two => from.1 + 2,
            };
            if to.0 == from.0 && to.1 == ahead {
                board.is_empty(to)
            } else if to.0 == from.0 && to.1 == further {
                from.1 == self.player.pawn_rank() && board.is_empty((from.0, ahead))
                    && board.is_empty(to)
            } else if gap(from.0, to.0) == 1 && to.1 == ahead {
                board.is_occupied_by_opponent(to, self.player)
            } else {
                false
            }
        } else {
            false
        }
    }

    /// How an attempted move from `from` to `to` is classified: `Normal` where
    /// the pawn reaches `to`, `Invalid` where it does not. Who holds `to` and
    /// whether the mover's king is left attacked are not looked at.
    pub fn valid_move(&self, from: Square, to: Square, game: &mut Game) -> (kind: Move)
        ensures
            kind == classify(
                old(game)@,
                Piece::Pawn(*self),
                from.0 as int,
                from.1 as int,
                to.0 as int,
                to.1 as int,
            ),
            *final(game) == *old(game),
    {
        if self.reaches(from, to, game.board()) {
            Move::Normal
        } else {
            Move::Invalid
        }
    }

    /// The legal destinations of the pawn, taken to stand on `position`:
    /// each of its four steps that the pawn rule allows, that lands on a
    /// square its own side does not hold and leaves no king of its side attacked.
    /// The game is afterwards what it was before.
    pub fn get_legal_moves(&self, position: Square, game: &mut Game) -> (moves: Vec<Square>)
        ensures
            moves@ == piece_moves(
                old(game)@,
                Piece::Pawn(*self),
                position.0 as int,
                position.1 as int,
            ),
            *final(game) == *old(game),
    {
        let mut moves: Vec<Square> = Vec::new();
        let piece = Piece::Pawn(*self);
        let ghost b = game@.squares;
        let mut i: usize = 0;
        while i < 4
            invariant
                i <= 4,
                *game == *old(game),
                b == old(game)@.squares,
                piece == Piece::Pawn(*self),
                moves@ == steps_upto(b, piece, position.0 as int, position.1 as int, i as int),
            decreases 4 - i,
        {
            let (dx, dy) = pawn_offset(self.player, i);
            match shifted(position, dx, dy) {
                Some(to) => {
                    if game.admits(piece, position, to) {
                        moves.push(to);
                    }
                },
                None => {},
            }
            i += 1;
        }
        moves
    }
}

} // verus!
