//! The rules of movement, stated over a mathematical board.
//!
//! A board is a sequence of 64 optional pieces; the square of file `x` and
//! rank `y` has index `8 * y + x`. Coordinates are unbounded integers here, so
//! that a rule can speak of a square next to the edge without a special case.
use vstd::prelude::*;
use crate::player::Player;
use crate::piece::Piece;

verus! {

/// What each of the 64 squares holds.
pub type Squares = Seq<Option<Piece>>;

/// Whether file `x` and rank `y` name a square of the board.
pub open spec fn on_board(x: int, y: int) -> bool {
    0 <= x < 8 && 0 <= y < 8
}

/// The index of the square of file `x` and rank `y`.
pub open spec fn index_of(x: int, y: int) -> int {
    8 * y + x
}

/// The distance that a displacement covers, whichever way it points.
pub open spec fn magnitude(d: int) -> int {
    if d < 0 {
        -d
    } else {
        d
    }
}

/// How many king steps lie between two squares that are `dx` files and `dy`
/// ranks apart.
pub open spec fn span(dx: int, dy: int) -> int {
    if magnitude(dx) >= magnitude(dy) {
        magnitude(dx)
    } else {
        magnitude(dy)
    }
}

/// The coordinate reached from `from` after `k` steps towards `to`.
pub open spec fn toward(from: int, to: int, k: int) -> int {
    if to > from {
        from + k
    } else if to < from {
        from - k
    } else {
        from
    }
}

/// A displacement along a file or along a rank.
pub open spec fn straight(dx: int, dy: int) -> bool {
    (dx == 0) != (dy == 0)
}

/// A displacement along a diagonal.
pub open spec fn diagonal(dx: int, dy: int) -> bool {
    dx != 0 && magnitude(dx) == magnitude(dy)
}

/// What stands on a square; nothing stands beyond the edge.
pub open spec fn piece_at(b: Squares, x: int, y: int) -> Option<Piece> {
    if on_board(x, y) {
        b[index_of(x, y)]
    } else {
        None
    }
}

/// A square of the board with nothing on it.
pub open spec fn vacant(b: Squares, x: int, y: int) -> bool {
    on_board(x, y) && b[index_of(x, y)] is None
}

/// A square of the board with a piece of `player` on it.
pub open spec fn held_by(b: Squares, x: int, y: int, player: Player) -> bool {
    on_board(x, y) && (b[index_of(x, y)] matches Some(p) && p.owner() == player)
}

/// A square of the board that `player` may enter: empty or held by the other
/// side.
pub open spec fn open_to(b: Squares, x: int, y: int, player: Player) -> bool {
    on_board(x, y) && !held_by(b, x, y, player)
}

/// Every square strictly between the two given ones, along the line that
/// joins them, is empty.
pub open spec fn clear_between(b: Squares, fx: int, fy: int, tx: int, ty: int) -> bool {
    forall|k: int|
        1 <= k < span(tx - fx, ty - fy) ==> #[trigger] vacant(
            b,
            toward(fx, tx, k),
            toward(fy, ty, k),
        )
}

/// The pawn rule: one step forward onto an empty square, two from the pawn
/// rank over an empty square onto an empty square, or one step diagonally
/// forward onto a square held by the other side.
pub open spec fn pawn_reaches(b: Squares, player: Player, fx: int, fy: int, tx: int, ty: int) -> bool {
    let f = player.spec_forward();
    ||| tx == fx && ty == fy + f && vacant(b, tx, ty)
    ||| tx == fx && ty == fy + 2 * f && fy == player.spec_pawn_rank() && vacant(b, fx, fy + f)
        && vacant(b, tx, ty)
    ||| magnitude(tx - fx) == 1 && ty == fy + f && held_by(b, tx, ty, player.spec_opponent())
}

/// One square one way and two the other.
pub open spec fn knight_jump(dx: int, dy: int) -> bool {
    (magnitude(dx) == 1 && magnitude(dy) == 2) || (magnitude(dx) == 2 && magnitude(dy) == 1)
}

/// Whether `piece`, standing on `(fx, fy)`, could go to `(tx, ty)` by its own
/// way of moving. Who holds the target square and whether the mover's king
/// would be left attacked are not looked at (but for the pawn, whose way of
/// moving depends on what the target holds).
pub open spec fn reaches(b: Squares, piece: Piece, fx: int, fy: int, tx: int, ty: int) -> bool {
    let dx = tx - fx;
    let dy = ty - fy;
    on_board(fx, fy) && on_board(tx, ty) && match piece {
        Piece::King(_) => span(dx, dy) == 1,
        Piece::Queen(_) => (straight(dx, dy) || diagonal(dx, dy)) && clear_between(
            b,
            fx,
            fy,
            tx,
            ty,
        ),
        Piece::Rook(_) => straight(dx, dy) && clear_between(b, fx, fy, tx, ty),
        Piece::Bishop(_) => diagonal(dx, dy) && clear_between(b, fx, fy, tx, ty),
        Piece::Knight(_) => knight_jump(dx, dy),
        Piece::Pawn(p) => pawn_reaches(b, p.player, fx, fy, tx, ty),
    }
}

/// A piece of `attacker` stands on `(fx, fy)` and reaches `(tx, ty)`.
pub open spec fn threatens(b: Squares, attacker: Player, fx: int, fy: int, tx: int, ty: int) -> bool {
    on_board(fx, fy) && (b[index_of(fx, fy)] matches Some(p) && p.owner() == attacker && reaches(
        b,
        p,
        fx,
        fy,
        tx,
        ty,
    ))
}

/// Some piece of `attacker` reaches `(tx, ty)`.
pub open spec fn attacked(b: Squares, attacker: Player, tx: int, ty: int) -> bool {
    exists|fx: int, fy: int| #[trigger] threatens(b, attacker, fx, fy, tx, ty)
}

/// A king of `player` stands on the square.
pub open spec fn king_of(b: Squares, player: Player, x: int, y: int) -> bool {
    on_board(x, y) && (b[index_of(x, y)] matches Some(Piece::King(k)) && k.player == player)
}

/// A king of `player` stands on `(kx, ky)` and a piece of the other side
/// reaches it.
pub open spec fn king_attacked_at(b: Squares, player: Player, kx: int, ky: int) -> bool {
    king_of(b, player, kx, ky) && attacked(b, player.spec_opponent(), kx, ky)
}

/// A king of `player` is reached by a piece of the other side.
pub open spec fn in_check(b: Squares, player: Player) -> bool {
    exists|kx: int, ky: int| #[trigger] king_attacked_at(b, player, kx, ky)
}

/// Whether a move from the first square to the second changes the board: both
/// are squares of the board, and they differ.
pub open spec fn movable(fx: int, fy: int, tx: int, ty: int) -> bool {
    on_board(fx, fy) && on_board(tx, ty) && !(fx == tx && fy == ty)
}

/// The board after whatever stands on `(fx, fy)` has been carried to
/// `(tx, ty)`, replacing what stood there. Where the move is not `movable`
/// the board stays as it is.
pub open spec fn after_move(b: Squares, fx: int, fy: int, tx: int, ty: int) -> Squares {
    if movable(fx, fy, tx, ty) {
        b.update(index_of(tx, ty), b[index_of(fx, fy)]).update(index_of(fx, fy), None)
    } else {
        b
    }
}

/// Carrying the piece from `(fx, fy)` to `(tx, ty)` would leave a king of
/// `player` attacked.
pub open spec fn exposes(b: Squares, player: Player, fx: int, fy: int, tx: int, ty: int) -> bool {
    in_check(after_move(b, fx, fy, tx, ty), player)
}

/// The test every destination of a piece has to pass: the piece reaches it,
/// its own side does not hold it, and going there leaves no king of its side
/// attacked.
pub open spec fn admissible(b: Squares, piece: Piece, fx: int, fy: int, tx: int, ty: int) -> bool {
    &&& reaches(b, piece, fx, fy, tx, ty)
    &&& open_to(b, tx, ty, piece.owner())
    &&& !exposes(b, piece.owner(), fx, fy, tx, ty)
}

} // verus!
