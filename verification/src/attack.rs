//! Attack and check detection on a board.
use vstd::prelude::*;
use crate::player::Player;
use crate::piece::{Piece, Square};
use crate::board::Board;
use crate::rules::{on_board, index_of, reaches, threatens, attacked, king_attacked_at, in_check};

verus! {

impl Board {
    /// Whether some piece of `attacker` reaches `target`.
    pub fn is_attacked(&self, target: Square, attacker: Player) -> (hit: bool)
        ensures
            hit == attacked(self@, attacker, target.0 as int, target.1 as int),
    {
        let mut i: u8 = 0;
        while i < 64
            invariant
                i <= 64,
                forall|fx: int, fy: int|
                    on_board(fx, fy) && index_of(fx, fy) < i ==> !#[trigger] threatens(
                        self@,
                        attacker,
                        fx,
                        fy,
                        target.0 as int,
                        target.1 as int,
                    ),
            decreases 64 - i,
        {
            let from: Square = (i % 8, i / 8);
            match self.squares[i as usize] {
                Some(piece) => {
                    if piece.player() == attacker && piece.reaches(from, target, self) {
                        assert(threatens(
                            self@,
                            attacker,
                            from.0 as int,
                            from.1 as int,
                            target.0 as int,
                            target.1 as int,
                        ));
                        return true;
                    }
                },
                None => {},
            }
            assert forall|fx: int, fy: int| on_board(fx, fy) && index_of(fx, fy) < i + 1 implies !#[trigger] threatens(
                self@,
                attacker,
                fx,
                fy,
                target.0 as int,
                target.1 as int,
            ) by {
                if index_of(fx, fy) == i {
                    assert(fx == from.0 && fy == from.1);
                }
            }
            i += 1;
        }
        false
    }

    /// Whether a king of `player` is reached by a piece of the other side.
    /// A side without a king is never in check.
    pub fn in_check(&self, player: Player) -> (checked: bool)
        ensures
            checked == in_check(self@, player),
    {
        let mut i: u8 = 0;
        while i < 64
            invariant
                i <= 64,
                forall|kx: int, ky: int|
                    on_board(kx, ky) && index_of(kx, ky) < i ==> !#[trigger] king_attacked_at(
                        self@,
                        player,
                        kx,
                        ky,
                    ),
            decreases 64 - i,
        {
            let at: Square = (i % 8, i / 8);
            match self.squares[i as usize] {
                Some(Piece::King(king)) => {
                    if king.player() == player && self.is_attacked(at, player.opponent()) {
                        assert(king_attacked_at(self@, player, at.0 as int, at.1 as int));
                        return true;
                    }
                },
                _ => {},
            }
            assert forall|kx: int, ky: int| on_board(kx, ky) && index_of(kx, ky) < i + 1 implies !#[trigger] king_attacked_at(
                self@,
                player,
                kx,
                ky,
            ) by {
                if index_of(kx, ky) == i {
                    assert(kx == at.0 && ky == at.1);
                }
            }
            i += 1;
        }
        false
    }
}

} // verus!
