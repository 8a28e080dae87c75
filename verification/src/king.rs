use vstd::prelude::*;
use crate::player::Player;
use crate::piece::{Piece, Square, Move};
use crate::board::{Board, gap, shifted};
use crate::game::Game;
use crate::position::{classify, piece_moves, steps_upto, king_step, can_castle, Side};
use crate::rules::reaches;

verus! {

/// A king remembers whether it has ever moved: a king that has cannot castle.
#[derive(Clone, Copy, Debug, PartialEq, Eq, Structural)]
pub struct King {
    pub player: Player,
    pub moved: bool,
}

/// The `i`-th step that a king tries.
fn king_offset(i: usize) -> (step: (i8, i8))
    requires
        i < 8,
    ensures
        (step.0 as int, step.1 as int) == king_step(i as int),
{
    if i == 0 {
        (0, 1)
    } else if i == 1 {
        (1, 1)
    } else if i == 2 {
        (1, 0)
    } else if i == 3 {
        (1, -1)
    } else if i == 4 {
        (0, -1)
    } else if i == 5 {
        (-1, -1)
    } else if i == 6 {
        (-1, 0)
    } else {
        (-1, 1)
    }
}

impl King {
    /// A king that has not moved yet.
    pub fn new(player: Player) -> (piece: King)
        ensures
            piece == (King { player, moved: false }),
    {
        King { player, moved: false }
    }

    /// The side that owns the king.
    pub fn player(&self) -> (owner: Player)
        ensures
            owner == self.player,
    {
        self.player
    }

    /// What the piece is called.
    pub fn name(&self) -> (name: &'static str)
        ensures
            name@ == "king"@,
    {
        "king"
    }

    /// The material worth of a king.
    pub fn value(&self) -> (worth: i32)
        ensures
            worth == 100,
    {
        100
    }

    /// Whether `to` is next to `from`, in any of the eight directions.
    pub fn reaches(&self, from: Square, to: Square, board: &Board) -> (can: bool)
        ensures
            can == reaches(
                board@,
                Piece::King(*self),
                from.0 as int,
                from.1 as int,
                to.0 as int,
                to.1 as int,
            ),
    {
        if from.0 < 8 && from.1 < 8 && to.0 < 8 && to.1 < 8 {
            let across = gap(from.0, to.0);
            let along = gap(from.1, to.1);
            across <= 1 && along <= 1 && (across == 1 || along == 1)
        } else {
            false
        }
    }

    /// Whether the king, taken to stand on `position`, may castle towards
    /// file 0. All of these must hold: neither the king itself nor the game
    /// records that the king has moved; `position` is the king's home square
    /// (file 4 of its side's home rank); the king is not in check; files 1, 2
    /// and 3 of the home rank are empty; the king would be attacked neither on
    /// file 3 nor on file 2; and a rook that has not moved, by its own mark
    /// and by the game's, stands on file 0. The game is afterwards what it
    /// was before.
    pub fn can_castle_left(&self, position: Square, game: &mut Game) -> (allowed: bool)
        ensures
            allowed == can_castle(
                old(game)@,
                *self,
                position.0 as int,
                position.1 as int,
                Side::Left,
            ),
            *final(game) == *old(game),
    {
        let y = self.player.home_rank();
        if self.moved || game.has_king_moved(self.player) || position.0 != 4 || position.1 != y
            || game.in_check(self.player) {
            return false;
        }
        if game.square_is_none((3, y)) && game.square_is_none((2, y)) && game.square_is_none(
            (1, y),
        ) {
            if !game.try_move_for_check((4, y), (3, y), self.player) && !game.try_move_for_check(
                (4, y),
                (2, y),
                self.player,
            ) {
                if let Some(Piece::Rook(rook)) = game.get((0, y)) {
                    if !rook.moved && !game.has_left_rook_moved(self.player) {
                        return true;
                    }
                }
            }
        }
        false
    }

    /// Whether the king, taken to stand on `position`, may castle towards
    /// file 7. All of these must hold: neither the king itself nor the game
    /// records that the king has moved; `position` is the king's home square
    /// (file 4 of its side's home rank); the king is not in check; files 5
    /// and 6 of the home rank are empty; the king would be attacked neither on
    /// file 5 nor on file 6; and a rook that has not moved, by its own mark
    /// and by the game's, stands on file 7. The game is afterwards what it
    /// was before.
    pub fn can_castle_right(&self, position: Square, game: &mut Game) -> (allowed: bool)
        ensures
            allowed == can_castle(
                old(game)@,
                *self,
                position.0 as int,
                position.1 as int,
                Side::Right,
            ),
            *final(game) == *old(game),
    {
        let y = self.player.home_rank();
        if self.moved || game.has_king_moved(self.player) || position.0 != 4 || position.1 != y
            || game.in_check(self.player) {
            return false;
        }
        if game.square_is_none((5, y)) && game.square_is_none((6, y)) {
            if !game.try_move_for_check((4, y), (5, y), self.player) && !game.try_move_for_check(
                (4, y),
                (6, y),
                self.player,
            ) {
                if let Some(Piece::Rook(rook)) = game.get((7, y)) {
                    if !rook.moved && !game.has_right_rook_moved(self.player) {
                        return true;
                    }
                }
            }
        }
        false
    }

    /// How an attempted move from `from` to `to` is classified: `Normal` for
    /// a step to a neighbouring square, `Castle` for a move along the rank to
    /// file 2 or file 6 where the king may castle on that side, `Invalid` for
    /// anything else (a move from a square to itself among them). Who holds
    /// `to` and whether the king would be attacked there are not looked at.
    pub fn valid_move(&self, from: Square, to: Square, game: &mut Game) -> (kind: Move)
        ensures
            kind == classify(
                old(game)@,
                Piece::King(*self),
                from.0 as int,
                from.1 as int,
                to.0 as int,
                to.1 as int,
            ),
            *final(game) == *old(game),
    {
        if self.reaches(from, to, game.board()) {
            Move::Normal
        } else if to.0 == 2 && to.1 == from.1 && self.can_castle_left(from, game) {
            Move::Castle
        } else if to.0 == 6 && to.1 == from.1 && self.can_castle_right(from, game) {
            Move::Castle
        } else {
            Move::Invalid
        }
    }

    /// The legal destinations of the king, taken to stand on `position`: each
    /// of the eight neighbouring squares that is on the board, is not held by
    /// its own side and on which the king would not be attacked; then file 2
    /// of its rank if it may castle to the left, and file 6 if it may castle
    /// to the right. The game is afterwards what it was before.
    pub fn get_legal_moves(&self, position: Square, game: &mut Game) -> (moves: Vec<Square>)
        ensures
            moves@ == piece_moves(
                old(game)@,
                Piece::King(*self),
                position.0 as int,
                position.1 as int,
            ),
            *final(game) == *old(game),
    {
        let mut moves: Vec<Square> = Vec::new();
        let ghost piece = Piece::King(*self);
        let ghost b = game@.squares;
        let mut i: usize = 0;
        while i < 8
            invariant
                i <= 8,
                *game == *old(game),
                b == old(game)@.squares,
                piece == Piece::King(*self),
                moves@ == steps_upto(b, piece, position.0 as int, position.1 as int, i as int),
            decreases 8 - i,
        {
            let (dx, dy) = king_offset(i);
            match shifted(position, dx, dy) {
                Some(new_pos) => {
                    if game.is_not_player(new_pos, self.player) {
                        if !game.try_move_for_check(position, new_pos, self.player) {
                            moves.push(new_pos);
                        }
                    }
                },
                None => {},
            }
            i += 1;
        }
        if self.moved || game.has_king_moved(self.player) || game.in_check(self.player) {
            return moves;
        }
        if self.can_castle_left(position, game) {
            moves.push((2, position.1));
        }
        if self.can_castle_right(position, game) {
            moves.push((6, position.1));
        }
        moves
    }
}

} // verus!
