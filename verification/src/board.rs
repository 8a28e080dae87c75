use vstd::prelude::*;
use crate::player::Player;
use crate::piece::{Piece, Square};
use crate::pawn::Pawn;
use crate::knight::Knight;
use crate::bishop::Bishop;
use crate::rook::Rook;
use crate::queen::Queen;
use crate::king::King;
use crate::position::relocated;
use crate::rules::{
    Squares, on_board, index_of, piece_at, vacant, held_by, open_to, movable, after_move,
    magnitude, span, toward, straight, diagonal, clear_between,
};

verus! {

/// What went wrong with a request to the engine.
#[derive(Clone, Copy, Debug, PartialEq, Eq, Structural)]
pub enum MoveError {
    /// The move is not among the legal moves of the side to move.
    IllegalMove,
    /// A coordinate lies beyond the edge of the board.
    InvalidSquare,
    /// The board does not hold exactly one king of each side.
    InconsistentState,
}

/// The 8 by 8 grid. The square of file `x` and rank `y` is entry `8 * y + x`.
#[derive(Clone, Copy, Debug, PartialEq, Eq)]
pub struct Board {
    pub squares: [Option<Piece>; 64],
}

/// What `Board::make_move` did, so that `Board::undo` can take it back.
#[derive(Clone, Copy, Debug, PartialEq, Eq)]
pub struct Undo {
    pub from: Square,
    pub to: Square,
    pub moved: Option<Piece>,
    pub captured: Option<Piece>,
    pub applied: bool,
}

impl View for Board {
    type V = Squares;

    open spec fn view(&self) -> Squares {
        self.squares@
    }
}

/// The record of carrying the piece on `from` to `to` on board `b`.
pub open spec fn record_of(b: Squares, from: Square, to: Square) -> Undo {
    if movable(from.0 as int, from.1 as int, to.0 as int, to.1 as int) {
        Undo {
            from,
            to,
            moved: b[index_of(from.0 as int, from.1 as int)],
            captured: b[index_of(to.0 as int, to.1 as int)],
            applied: true,
        }
    } else {
        Undo { from, to, moved: None, captured: None, applied: false }
    }
}

/// The board with the recorded move taken back.
pub open spec fn reverted(b: Squares, undo: Undo) -> Squares {
    if undo.applied && movable(
        undo.from.0 as int,
        undo.from.1 as int,
        undo.to.0 as int,
        undo.to.1 as int,
    ) {
        b.update(index_of(undo.from.0 as int, undo.from.1 as int), undo.moved).update(
            index_of(undo.to.0 as int, undo.to.1 as int),
            undo.captured,
        )
    } else {
        b
    }
}

/// Taking a move back gives the board it was made on.
pub proof fn lemma_undo_restores(b: Squares, from: Square, to: Square)
    requires
        b.len() == 64,
    ensures
        reverted(
            after_move(b, from.0 as int, from.1 as int, to.0 as int, to.1 as int),
            record_of(b, from, to),
        ) == b,
{
}

/// The pieces of the back rank, from file 0 to file 7.
pub open spec fn back_rank(player: Player, x: int) -> Piece {
    if x == 0 || x == 7 {
        Piece::Rook(Rook { player, moved: false })
    } else if x == 1 || x == 6 {
        Piece::Knight(Knight { player })
    } else if x == 2 || x == 5 {
        Piece::Bishop(Bishop { player })
    } else if x == 3 {
        Piece::Queen(Queen { player })
    } else {
        Piece::King(King { player, moved: false })
    }
}

/// The position from which a game starts: side `Two` on ranks 0 and 1, side
/// `One` on ranks 6 and 7, kings on file 4.
pub open spec fn standard_squares() -> Squares {
    Seq::new(
        64,
        |i: int|
            {
                let x = i % 8;
                let y = i / 8;
                if y == 0 {
                    Some(back_rank(Player::Two, x))
                } else if y == 1 {
                    Some(Piece::Pawn(Pawn { player: Player::Two }))
                } else if y == 6 {
                    Some(Piece::Pawn(Pawn { player: Player::One }))
                } else if y == 7 {
                    Some(back_rank(Player::One, x))
                } else {
                    None
                }
            },
    )
}

fn back_rank_piece(player: Player, x: u8) -> (piece: Piece)
    ensures
        piece == back_rank(player, x as int),
{
    if x == 0 || x == 7 {
        Piece::Rook(Rook::new(player))
    } else if x == 1 || x == 6 {
        Piece::Knight(Knight::new(player))
    } else if x == 2 || x == 5 {
        Piece::Bishop(Bishop::new(player))
    } else if x == 3 {
        Piece::Queen(Queen::new(player))
    } else {
        Piece::King(King::new(player))
    }
}

/// The distance between two coordinates.
pub fn gap(a: u8, b: u8) -> (d: u8)
    ensures
        d == magnitude(b - a),
{
    if a > b {
        a - b
    } else {
        b - a
    }
}

/// The coordinate `k` steps from `from` towards `to`, where that is a
/// coordinate at all.
fn step_toward(from: u8, to: u8, k: u8) -> (at: u8)
    requires
        from < 8,
        to < 8,
        k < 8,
    ensures
        0 <= toward(from as int, to as int, k as int) ==> at == toward(
            from as int,
            to as int,
            k as int,
        ),
        toward(from as int, to as int, k as int) < 0 ==> at >= 8,
{
    if to > from {
        from + k
    } else if to < from {
        if k <= from {
            from - k
        } else {
            8
        }
    } else {
        from
    }
}

/// The square `dx` files and `dy` ranks away from `from`, if `from` is a
/// square of the board and that one is too.
pub fn shifted(from: Square, dx: i8, dy: i8) -> (to: Option<Square>)
    ensures
        to == (if on_board(from.0 as int, from.1 as int) && on_board(from.0 + dx, from.1 + dy) {
            Some(((from.0 + dx) as u8, (from.1 + dy) as u8))
        } else {
            None
        }),
{
    if from.0 < 8 && from.1 < 8 {
        let x: i16 = from.0 as i16 + dx as i16;
        let y: i16 = from.1 as i16 + dy as i16;
        if 0 <= x && x < 8 && 0 <= y && y < 8 {
            Some((x as u8, y as u8))
        } else {
            None
        }
    } else {
        None
    }
}

/// The occupied squares among the first `n`, each with the piece on it, in
/// the order of their indices.
pub open spec fn occupied_upto(b: Squares, n: int) -> Seq<(Square, Piece)>
    decreases n,
{
    if n <= 0 {
        Seq::empty()
    } else {
        let earlier = occupied_upto(b, n - 1);
        match b[n - 1] {
            Some(piece) => earlier.push(((((n - 1) % 8) as u8, ((n - 1) / 8) as u8), piece)),
            None => earlier,
        }
    }
}

impl Board {
    /// A board with no piece on it.
    pub fn empty() -> (board: Board)
        ensures
            board@ == Seq::new(64, |i: int| None::<Piece>),
    {
        let board = Board { squares: [None;64] };
        board
    }

    /// The board set up for the start of a game.
    pub fn standard() -> (board: Board)
        ensures
            board@ == standard_squares(),
    {
        let mut board = Board::empty();
        let mut x: u8 = 0;
        while x < 8
            invariant
                x <= 8,
                forall|i: int|
                    0 <= i < 64 ==> #[trigger] board@[i] == if i % 8 < x {
                        standard_squares()[i]
                    } else {
                        None
                    },
            decreases 8 - x,
        {
            let ghost before = board@;
            board.squares[x as usize] = Some(back_rank_piece(Player::Two, x));
            board.squares[8 + x as usize] = Some(Piece::Pawn(Pawn::new(Player::Two)));
            board.squares[48 + x as usize] = Some(Piece::Pawn(Pawn::new(Player::One)));
            board.squares[56 + x as usize] = Some(back_rank_piece(Player::One, x));
            proof {
                let start = standard_squares();
                assert forall|i: int| 0 <= i < 64 implies #[trigger] board@[i] == if i % 8 < x + 1 {
                    start[i]
                } else {
                    None
                } by {
                    assert(before[i] == if i % 8 < x {
                        start[i]
                    } else {
                        None
                    });
                    // The four squares just filled are all of file `x` but for
                    // ranks 2 to 5, which stay empty.
                    assert(i % 8 == x ==> i == x || i == 8 + x || i == 48 + x || i == 56 + x || 2
                        <= i / 8 <= 5);
                }
            }
            x += 1;
        }
        board
    }

    /// What stands on `square`; `None` for an empty square and for one beyond
    /// the edge.
    pub fn get(&self, square: Square) -> (found: Option<Piece>)
        ensures
            found == piece_at(self@, square.0 as int, square.1 as int),
    {
        if square.0 < 8 && square.1 < 8 {
            self.squares[square.1 as usize * 8 + square.0 as usize]
        } else {
            None
        }
    }

    /// Whether `square` is a square of the board with nothing on it.
    pub fn is_empty(&self, square: Square) -> (empty: bool)
        ensures
            empty == vacant(self@, square.0 as int, square.1 as int),
    {
        if square.0 < 8 && square.1 < 8 {
            self.squares[square.1 as usize * 8 + square.0 as usize].is_none()
        } else {
            false
        }
    }

    /// Whether a piece of the side other than `player` stands on `square`.
    pub fn is_occupied_by_opponent(&self, square: Square, player: Player) -> (held: bool)
        ensures
            held == held_by(self@, square.0 as int, square.1 as int, player.spec_opponent()),
    {
        match self.get(square) {
            Some(piece) => piece.player() != player,
            None => false,
        }
    }

    /// Whether `square` is a square of the board that holds no piece of
    /// `player`.
    pub fn is_not_player(&self, square: Square, player: Player) -> (open: bool)
        ensures
            open == open_to(self@, square.0 as int, square.1 as int, player),
    {
        if square.0 < 8 && square.1 < 8 {
            match self.squares[square.1 as usize * 8 + square.0 as usize] {
                Some(piece) => piece.player() != player,
                None => true,
            }
        } else {
            false
        }
    }

    /// Puts `piece` on `square`, replacing what stood there.
    pub fn place(&mut self, square: Square, piece: Piece) -> (done: Result<(), MoveError>)
        ensures
            on_board(square.0 as int, square.1 as int) ==> done is Ok && final(self)@ == old(
                self,
            )@.update(index_of(square.0 as int, square.1 as int), Some(piece)),
            !on_board(square.0 as int, square.1 as int) ==> done == Err::<(), MoveError>(
                MoveError::InvalidSquare,
            ) && *final(self) == *old(self),
    {
        if square.0 < 8 && square.1 < 8 {
            self.squares[square.1 as usize * 8 + square.0 as usize] = Some(piece);
            Ok(())
        } else {
            Err(MoveError::InvalidSquare)
        }
    }

    /// Takes away what stands on `square` and returns it.
    pub fn remove(&mut self, square: Square) -> (taken: Result<Option<Piece>, MoveError>)
        ensures
            on_board(square.0 as int, square.1 as int) ==> taken == Ok::<Option<Piece>, MoveError>(
                old(self)@[index_of(square.0 as int, square.1 as int)],
            ) && final(self)@ == old(self)@.update(
                index_of(square.0 as int, square.1 as int),
                None,
            ),
            !on_board(square.0 as int, square.1 as int) ==> taken == Err::<
                Option<Piece>,
                MoveError,
            >(MoveError::InvalidSquare) && *final(self) == *old(self),
    {
        if square.0 < 8 && square.1 < 8 {
            let i = square.1 as usize * 8 + square.0 as usize;
            let taken = self.squares[i];
            self.squares[i] = None;
            Ok(taken)
        } else {
            Err(MoveError::InvalidSquare)
        }
    }

    /// Carries whatever stands on `from` to `to`, replacing what stood there,
    /// and returns the record that `undo` needs. Where a coordinate is beyond
    /// the edge, or `from` is `to`, nothing happens.
    pub fn make_move(&mut self, from: Square, to: Square) -> (undo: Undo)
        ensures
            final(self)@ == after_move(
                old(self)@,
                from.0 as int,
                from.1 as int,
                to.0 as int,
                to.1 as int,
            ),
            undo == record_of(old(self)@, from, to),
    {
        if from.0 < 8 && from.1 < 8 && to.0 < 8 && to.1 < 8 && !(from.0 == to.0 && from.1
            == to.1) {
            let f = from.1 as usize * 8 + from.0 as usize;
            let t = to.1 as usize * 8 + to.0 as usize;
            let moved = self.squares[f];
            let captured = self.squares[t];
            self.squares[t] = moved;
            self.squares[f] = None;
            Undo { from, to, moved, captured, applied: true }
        } else {
            Undo { from, to, moved: None, captured: None, applied: false }
        }
    }

    /// Takes back the move that `undo` records. After `make_move` and then
    /// `undo` with its record the board is what it was, piece for piece.
    pub fn undo(&mut self, undo: Undo)
        ensures
            final(self)@ == reverted(old(self)@, undo),
    {
        let Undo { from, to, moved, captured, applied } = undo;
        if applied && from.0 < 8 && from.1 < 8 && to.0 < 8 && to.1 < 8 && !(from.0 == to.0
            && from.1 == to.1) {
            self.squares[from.1 as usize * 8 + from.0 as usize] = moved;
            self.squares[to.1 as usize * 8 + to.0 as usize] = captured;
        }
    }

    /// Moves whatever stands on `from` to `to` for good, replacing what stood
    /// there: a rook or king is marked as moved. With nothing on `from`, a
    /// coordinate beyond the edge, or `from` equal to `to`, nothing happens.
    pub fn relocate(&mut self, from: Square, to: Square)
        ensures
            final(self)@ == relocated(
                old(self)@,
                from.0 as int,
                from.1 as int,
                to.0 as int,
                to.1 as int,
            ),
    {
        if from.0 < 8 && from.1 < 8 && to.0 < 8 && to.1 < 8 && !(from.0 == to.0 && from.1
            == to.1) {
            let f = from.1 as usize * 8 + from.0 as usize;
            match self.squares[f] {
                Some(piece) => {
                    self.squares[to.1 as usize * 8 + to.0 as usize] = Some(piece.mark_moved());
                    self.squares[f] = None;
                },
                None => {},
            }
        }
    }

    /// Whether every square strictly between `from` and `to`, along the line
    /// that joins them, is empty.
    fn path_clear(&self, from: Square, to: Square) -> (clear: bool)
        requires
            on_board(from.0 as int, from.1 as int),
            on_board(to.0 as int, to.1 as int),
        ensures
            clear == clear_between(
                self@,
                from.0 as int,
                from.1 as int,
                to.0 as int,
                to.1 as int,
            ),
    {
        let across = gap(from.0, to.0);
        let along = gap(from.1, to.1);
        let reach = if across >= along {
            across
        } else {
            along
        };
        let mut k: u8 = 1;
        while k < reach
            invariant
                1 <= k,
                reach < 8,
                from.0 < 8,
                from.1 < 8,
                to.0 < 8,
                to.1 < 8,
                reach == span(to.0 - from.0, to.1 - from.1),
                forall|j: int|
                    1 <= j < k ==> #[trigger] vacant(
                        self@,
                        toward(from.0 as int, to.0 as int, j),
                        toward(from.1 as int, to.1 as int, j),
                    ),
            decreases reach - k,
        {
            let x = step_toward(from.0, to.0, k);
            let y = step_toward(from.1, to.1, k);
            if !(x < 8 && y < 8 && self.squares[y as usize * 8 + x as usize].is_none()) {
                assert(!vacant(
                    self@,
                    toward(from.0 as int, to.0 as int, k as int),
                    toward(from.1 as int, to.1 as int, k as int),
                ));
                return false;
            }
            k += 1;
        }
        true
    }

    /// Whether `from` and `to` are two squares of one file or one rank with
    /// nothing between them.
    pub fn check_horiz(&self, from: Square, to: Square) -> (clear: bool)
        ensures
            clear == (on_board(from.0 as int, from.1 as int) && on_board(
                to.0 as int,
                to.1 as int,
            ) && straight(to.0 - from.0, to.1 - from.1) && clear_between(
                self@,
                from.0 as int,
                from.1 as int,
                to.0 as int,
                to.1 as int,
            )),
    {
        if from.0 < 8 && from.1 < 8 && to.0 < 8 && to.1 < 8 {
            (from.0 == to.0) != (from.1 == to.1) && self.path_clear(from, to)
        } else {
            false
        }
    }

    /// Whether `from` and `to` are two squares of one diagonal with nothing
    /// between them.
    pub fn check_diag(&self, from: Square, to: Square) -> (clear: bool)
        ensures
            clear == (on_board(from.0 as int, from.1 as int) && on_board(
                to.0 as int,
                to.1 as int,
            ) && diagonal(to.0 - from.0, to.1 - from.1) && clear_between(
                self@,
                from.0 as int,
                from.1 as int,
                to.0 as int,
                to.1 as int,
            )),
    {
        if from.0 < 8 && from.1 < 8 && to.0 < 8 && to.1 < 8 {
            from.0 != to.0 && gap(from.0, to.0) == gap(from.1, to.1) && self.path_clear(from, to)
        } else {
            false
        }
    }

    /// Every occupied square with the piece on it, from file 0 of rank 0 to
    /// file 7 of rank 7: what a display needs.
    pub fn occupied(&self) -> (pieces: Vec<(Square, Piece)>)
        ensures
            pieces@ == occupied_upto(self@, 64),
    {
        let mut pieces: Vec<(Square, Piece)> = Vec::new();
        let mut i: u8 = 0;
        while i < 64
            invariant
                i <= 64,
                pieces@ == occupied_upto(self@, i as int),
            decreases 64 - i,
        {
            match self.squares[i as usize] {
                Some(piece) => {
                    pieces.push(((i % 8, i / 8), piece));
                },
                None => {},
            }
            i += 1;
        }
        pieces
    }

    /// Whether the two boards hold the same piece on every square.
    pub fn same_as(&self, other: &Board) -> (same: bool)
        ensures
            same == (self@ == other@),
            same == (*self == *other),
    {
        let mut i: usize = 0;
        while i < 64
            invariant
                i <= 64,
                forall|j: int| 0 <= j < i ==> self@[j] == other@[j],
            decreases 64 - i,
        {
            if self.squares[i] != other.squares[i] {
                return false;
            }
            i += 1;
        }
        assert(self@ =~= other@);
        assert(self.squares =~= other.squares);
        true
    }
}

} // verus!
