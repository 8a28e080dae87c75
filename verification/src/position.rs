//! The state of a game as a mathematical value, and the rules that speak of
//! more than the board: castling, the moves of a piece in the order in which
//! they are listed, the effect of a move, and how a game stands.
use vstd::prelude::*;
use crate::player::Player;
use crate::piece::{Piece, Square, Move};
use crate::king::King;
use crate::rules::{
    Squares, on_board, index_of, magnitude, vacant, piece_at, reaches, in_check, exposes,
    admissible, movable, after_move,
};

verus! {

/// What a side has done that bears on castling. Each mark is set when the
/// piece first moves and is never cleared.
#[derive(Clone, Copy, Debug, PartialEq, Eq, Structural)]
pub struct CastlingRights {
    pub king_moved: bool,
    pub left_rook_moved: bool,
    pub right_rook_moved: bool,
}

/// The two ways to castle: towards file 0 (`Left`) or towards file 7
/// (`Right`).
#[derive(Clone, Copy, Debug, PartialEq, Eq, Structural)]
pub enum Side {
    Left,
    Right,
}

/// How a game stands for the side to move.
#[derive(Clone, Copy, Debug, PartialEq, Eq, Structural)]
pub enum Status {
    /// The named side is to move and is not in check.
    AwaitingMove(Player),
    /// The named side is to move and is in check.
    InCheck(Player),
    /// The side to move is in check and has no legal move: the named side
    /// has won.
    Checkmate(Player),
    /// The side to move is not in check and has no legal move.
    Stalemate,
    /// The game has gone on for `PLY_LIMIT` plies without a decision.
    Drawn,
}

/// The number of plies after which an undecided game is drawn.
pub const PLY_LIMIT: u32 = 400;

/// The state of a game: the board, the side to move, what each side has done
/// that bears on castling, how many plies have been played, and the winner
/// recorded by the last move.
pub struct Position {
    pub squares: Squares,
    pub to_move: Player,
    pub rights_one: CastlingRights,
    pub rights_two: CastlingRights,
    pub plies: nat,
    pub winner: Option<Player>,
}

impl Position {
    /// The board has its 64 squares.
    pub open spec fn wf(self) -> bool {
        self.squares.len() == 64
    }

    /// The castling marks of `player`.
    pub open spec fn rights(self, player: Player) -> CastlingRights {
        match player {
            Player::One => self.rights_one,
            Player::Two => self.rights_two,
        }
    }

    /// The position with the castling marks of `player` replaced.
    pub open spec fn with_rights(self, player: Player, rights: CastlingRights) -> Position {
        match player {
            Player::One => Position { rights_one: rights, ..self },
            Player::Two => Position { rights_two: rights, ..self },
        }
    }
}

/// The file of the rook that castles on `side`.
pub open spec fn rook_file(side: Side) -> int {
    match side {
        Side::Left => 0,
        Side::Right => 7,
    }
}

/// The file on which the king lands when it castles on `side`.
pub open spec fn castle_file(side: Side) -> int {
    match side {
        Side::Left => 2,
        Side::Right => 6,
    }
}

/// The file that the king crosses, and on which the rook lands, when it
/// castles on `side`.
pub open spec fn crossed_file(side: Side) -> int {
    match side {
        Side::Left => 3,
        Side::Right => 5,
    }
}

/// A rook that has never moved stands on the square.
pub open spec fn unmoved_rook_at(b: Squares, x: int, y: int) -> bool {
    on_board(x, y) && (b[index_of(x, y)] matches Some(Piece::Rook(r)) && !r.moved)
}

/// The squares strictly between the king's home square and the rook of `side`
/// are empty.
pub open spec fn castle_path_empty(b: Squares, home: int, side: Side) -> bool {
    match side {
        Side::Left => vacant(b, 3, home) && vacant(b, 2, home) && vacant(b, 1, home),
        Side::Right => vacant(b, 5, home) && vacant(b, 6, home),
    }
}

/// Neither the square the king crosses nor the one it lands on would leave
/// it attacked.
pub open spec fn castle_path_safe(b: Squares, player: Player, home: int, side: Side) -> bool {
    !exposes(b, player, 4, home, crossed_file(side), home) && !exposes(
        b,
        player,
        4,
        home,
        castle_file(side),
        home,
    )
}

/// Whether `king`, taken to stand on `(x, y)`, may castle on `side`:
/// the king has not moved; it stands on its home square; it is not in check;
/// the squares between it and the rook are empty; it would be attacked
/// neither on the square it crosses nor on the one it lands on; and a rook
/// that has not moved stands in the corner.
pub open spec fn can_castle(pos: Position, king: King, x: int, y: int, side: Side) -> bool {
    let me = king.player;
    let home = me.spec_home_rank();
    let rights = pos.rights(me);
    &&& !king.moved && !rights.king_moved
    &&& x == 4 && y == home
    &&& !in_check(pos.squares, me)
    &&& castle_path_empty(pos.squares, home, side)
    &&& castle_path_safe(pos.squares, me, home, side)
    &&& unmoved_rook_at(pos.squares, rook_file(side), home) && !(match side {
        Side::Left => rights.left_rook_moved,
        Side::Right => rights.right_rook_moved,
    })
}

/// The eight steps of a king, in the order in which its moves are listed.
pub open spec fn king_step(i: int) -> (int, int) {
    if i == 0 {
        (0, 1)
    } else if i == 1 {
        (1, 1)
    } else if i == 2 {
        (1, 0)
    } else if i == 3 {
        (1, -1)
    } else if i == 4 {
        (0, -1)
    } else if i == 5 {
        (-1, -1)
    } else if i == 6 {
        (-1, 0)
    } else {
        (-1, 1)
    }
}

/// The eight jumps of a knight, in the order in which its moves are listed.
pub open spec fn knight_step(i: int) -> (int, int) {
    if i == 0 {
        (1, 2)
    } else if i == 1 {
        (2, 1)
    } else if i == 2 {
        (2, -1)
    } else if i == 3 {
        (1, -2)
    } else if i == 4 {
        (-1, -2)
    } else if i == 5 {
        (-2, -1)
    } else if i == 6 {
        (-2, 1)
    } else {
        (-1, 2)
    }
}

/// The four steps of a pawn, in the order in which its moves are listed:
/// one forward, two forward, forward to the left, forward to the right.
pub open spec fn pawn_step(player: Player, i: int) -> (int, int) {
    let f = player.spec_forward();
    if i == 0 {
        (0, f)
    } else if i == 1 {
        (0, 2 * f)
    } else if i == 2 {
        (-1, f)
    } else {
        (1, f)
    }
}

/// The eight directions in which a queen slides, in the order in which its
/// moves are listed.
pub open spec fn queen_ray(i: int) -> (int, int) {
    if i == 0 {
        (1, 0)
    } else if i == 1 {
        (1, 1)
    } else if i == 2 {
        (0, 1)
    } else if i == 3 {
        (-1, 1)
    } else if i == 4 {
        (-1, 0)
    } else if i == 5 {
        (-1, -1)
    } else if i == 6 {
        (0, -1)
    } else {
        (1, -1)
    }
}

/// The four directions in which a rook slides, in the order in which its
/// moves are listed.
pub open spec fn rook_ray(i: int) -> (int, int) {
    if i == 0 {
        (1, 0)
    } else if i == 1 {
        (0, 1)
    } else if i == 2 {
        (-1, 0)
    } else {
        (0, -1)
    }
}

/// The four directions in which a bishop slides, in the order in which its
/// moves are listed.
pub open spec fn bishop_ray(i: int) -> (int, int) {
    if i == 0 {
        (1, 1)
    } else if i == 1 {
        (-1, 1)
    } else if i == 2 {
        (-1, -1)
    } else {
        (1, -1)
    }
}

/// `k` steps in the direction of `unit`, which is -1, 0 or 1.
pub open spec fn stretch(unit: int, k: int) -> int {
    if unit > 0 {
        k
    } else if unit < 0 {
        -k
    } else {
        0
    }
}

/// The displacement `k` steps along the ray `ray`.
pub open spec fn along(ray: (int, int), k: int) -> (int, int) {
    (stretch(ray.0, k), stretch(ray.1, k))
}

/// How many displacements a piece tries, one after the other.
pub open spec fn candidates(piece: Piece) -> int {
    match piece {
        Piece::King(_) => 8,
        Piece::Knight(_) => 8,
        Piece::Pawn(_) => 4,
        Piece::Queen(_) => 56,
        Piece::Rook(_) => 28,
        Piece::Bishop(_) => 28,
    }
}

/// The `i`-th displacement that a piece tries. A sliding piece goes through
/// its rays one after the other, and along each from one step to seven.
pub open spec fn candidate(piece: Piece, i: int) -> (int, int) {
    match piece {
        Piece::King(_) => king_step(i),
        Piece::Knight(_) => knight_step(i),
        Piece::Pawn(p) => pawn_step(p.player, i),
        Piece::Queen(_) => along(queen_ray(i / 7), i % 7 + 1),
        Piece::Rook(_) => along(rook_ray(i / 7), i % 7 + 1),
        Piece::Bishop(_) => along(bishop_ray(i / 7), i % 7 + 1),
    }
}

/// The destinations among the first `n` candidates of `piece`, standing on
/// `(fx, fy)`, that are admissible, in the order of the candidates.
pub open spec fn steps_upto(b: Squares, piece: Piece, fx: int, fy: int, n: int) -> Seq<Square>
    decreases n,
{
    if n <= 0 {
        Seq::empty()
    } else {
        let earlier = steps_upto(b, piece, fx, fy, n - 1);
        let d = candidate(piece, n - 1);
        if admissible(b, piece, fx, fy, fx + d.0, fy + d.1) {
            earlier.push(((fx + d.0) as u8, (fy + d.1) as u8))
        } else {
            earlier
        }
    }
}

/// A piece that stands beyond the edge of the board goes nowhere.
pub proof fn lemma_steps_off_board(b: Squares, piece: Piece, fx: int, fy: int, n: int)
    requires
        !on_board(fx, fy),
    ensures
        steps_upto(b, piece, fx, fy, n) == Seq::<Square>::empty(),
    decreases n,
{
    if n > 0 {
        lemma_steps_off_board(b, piece, fx, fy, n - 1);
    }
}

/// The castling destination on `side`, if `king` may castle there.
pub open spec fn castle_step(pos: Position, king: King, fx: int, fy: int, side: Side) -> Seq<
    Square,
> {
    if can_castle(pos, king, fx, fy, side) {
        seq![(castle_file(side) as u8, fy as u8)]
    } else {
        Seq::empty()
    }
}

/// The legal destinations of `piece`, taken to stand on `(fx, fy)`, in the
/// order in which they are listed: its admissible candidates and, for a
/// king, castling to the left and to the right.
pub open spec fn piece_moves(pos: Position, piece: Piece, fx: int, fy: int) -> Seq<Square> {
    let steps = steps_upto(pos.squares, piece, fx, fy, candidates(piece));
    match piece {
        Piece::King(king) => steps + castle_step(pos, king, fx, fy, Side::Left) + castle_step(
            pos,
            king,
            fx,
            fy,
            Side::Right,
        ),
        _ => steps,
    }
}

/// Whether `(tx, ty)` is a legal destination of `piece`, taken to stand on
/// `(fx, fy)`.
pub open spec fn legal_step(pos: Position, piece: Piece, fx: int, fy: int, tx: int, ty: int) -> bool {
    ||| admissible(pos.squares, piece, fx, fy, tx, ty)
    ||| piece matches Piece::King(king) && ty == fy && exists|side: Side|
        tx == castle_file(side) && #[trigger] can_castle(pos, king, fx, fy, side)
}

/// How an attempted move of `piece` from `(fx, fy)` to `(tx, ty)` is
/// classified. Who holds the target and whether the mover's king is left
/// attacked are not looked at.
pub open spec fn classify(pos: Position, piece: Piece, fx: int, fy: int, tx: int, ty: int) -> Move {
    if reaches(pos.squares, piece, fx, fy, tx, ty) {
        Move::Normal
    } else if piece matches Piece::King(king) && ty == fy && ((tx == 2 && can_castle(
        pos,
        king,
        fx,
        fy,
        Side::Left,
    )) || (tx == 6 && can_castle(pos, king, fx, fy, Side::Right))) {
        Move::Castle
    } else {
        Move::Invalid
    }
}

/// A move of `player`: a square and a destination.
pub type Ply = (Square, Square);

/// `moves`, each paired with the square `from` that it starts from.
pub open spec fn from_square(from: Square, moves: Seq<Square>) -> Seq<Ply> {
    Seq::new(moves.len(), |i: int| (from, moves[i]))
}

/// The legal moves of `player` that start on the square of index `i`.
pub open spec fn moves_at(pos: Position, player: Player, i: int) -> Seq<Ply> {
    match pos.squares[i] {
        Some(piece) if piece.owner() == player => from_square(
            ((i % 8) as u8, (i / 8) as u8),
            piece_moves(pos, piece, i % 8, i / 8),
        ),
        _ => Seq::empty(),
    }
}

/// The legal moves of `player` that start on one of the first `n` squares,
/// square by square.
pub open spec fn moves_upto(pos: Position, player: Player, n: int) -> Seq<Ply>
    decreases n,
{
    if n <= 0 {
        Seq::empty()
    } else {
        moves_upto(pos, player, n - 1) + moves_at(pos, player, n - 1)
    }
}

/// All legal moves of `player`, square by square from index 0 to 63.
pub open spec fn all_moves(pos: Position, player: Player) -> Seq<Ply> {
    moves_upto(pos, player, 64)
}

/// Whether a move of `piece` from `(fx, fy)` to `(tx, ty)` is a castling
/// move: a king that goes two files along its rank.
pub open spec fn is_castling(piece: Piece, fx: int, fy: int, tx: int, ty: int) -> bool {
    piece is King && ty == fy && magnitude(tx - fx) == 2
}

/// The board after whatever stands on `(fx, fy)` has moved to `(tx, ty)` and
/// is marked as moved. With nothing on the square, or a move that is not
/// `movable`, the board stays as it is.
pub open spec fn relocated(b: Squares, fx: int, fy: int, tx: int, ty: int) -> Squares {
    match piece_at(b, fx, fy) {
        Some(piece) if movable(fx, fy, tx, ty) => after_move(b, fx, fy, tx, ty).update(
            index_of(tx, ty),
            Some(piece.touched()),
        ),
        _ => b,
    }
}

/// The file of the corner from which the rook comes when the king castles
/// from file `fx` to file `tx`.
pub open spec fn corner_file(fx: int, tx: int) -> int {
    if tx < fx {
        0
    } else {
        7
    }
}

/// The file next to `fx` on the way to `tx`: where the rook lands.
pub open spec fn landing_file(fx: int, tx: int) -> int {
    if tx < fx {
        fx - 1
    } else {
        fx + 1
    }
}

/// The marks of a side after `piece` has gone from `(fx, fy)` to `(tx, ty)`.
/// A king sets its mark; a castling king sets that of its rook too; a rook
/// that leaves a corner of the home rank sets the mark of that corner.
pub open spec fn rights_after(rights: CastlingRights, piece: Piece, fx: int, fy: int, tx: int, ty: int) -> CastlingRights {
    let home = piece.owner().spec_home_rank();
    let castling = is_castling(piece, fx, fy, tx, ty);
    match piece {
        Piece::King(_) => CastlingRights {
            king_moved: true,
            left_rook_moved: rights.left_rook_moved || (castling && tx < fx),
            right_rook_moved: rights.right_rook_moved || (castling && tx > fx),
        },
        Piece::Rook(_) => CastlingRights {
            king_moved: rights.king_moved,
            left_rook_moved: rights.left_rook_moved || (fx == 0 && fy == home),
            right_rook_moved: rights.right_rook_moved || (fx == 7 && fy == home),
        },
        _ => rights,
    }
}

/// The position after the piece on `(fx, fy)` has moved to `(tx, ty)`: the
/// piece is carried over and marked as moved; a castling king takes along
/// the rook of the corner it moves towards, which lands on the square that
/// the king crossed; the mover's marks are brought up to date; the other
/// side is to move; and one more ply has been played (the count stops at
/// `PLY_LIMIT`). Where no piece stands on the square, or the move is not
/// `movable`, the position stays as it is.
pub open spec fn advance(pos: Position, fx: int, fy: int, tx: int, ty: int) -> Position {
    match piece_at(pos.squares, fx, fy) {
        Some(piece) if movable(fx, fy, tx, ty) => {
            let mover = piece.owner();
            let moved = relocated(pos.squares, fx, fy, tx, ty);
            let squares = if is_castling(piece, fx, fy, tx, ty) {
                relocated(moved, corner_file(fx, tx), fy, landing_file(fx, tx), fy)
            } else {
                moved
            };
            let rights = rights_after(pos.rights(mover), piece, fx, fy, tx, ty);
            Position {
                squares,
                to_move: pos.to_move.spec_opponent(),
                plies: if pos.plies < PLY_LIMIT {
                    pos.plies + 1
                } else {
                    pos.plies
                },
                ..pos.with_rights(mover, rights)
            }
        },
        _ => pos,
    }
}

/// How many kings of `player` stand on the first `n` squares.
pub open spec fn kings_upto(b: Squares, player: Player, n: int) -> int
    decreases n,
{
    if n <= 0 {
        0
    } else {
        kings_upto(b, player, n - 1) + if b[n - 1] matches Some(Piece::King(k)) && k.player
            == player {
            1int
        } else {
            0int
        }
    }
}

/// Each side has exactly one king on the board.
pub open spec fn consistent(b: Squares) -> bool {
    kings_upto(b, Player::One, 64) == 1 && kings_upto(b, Player::Two, 64) == 1
}

/// Whether the side to move may play from `(fx, fy)` to `(tx, ty)`: a piece
/// of its own stands on the first square and the second is among the legal
/// destinations of that piece.
pub open spec fn legal(pos: Position, fx: int, fy: int, tx: int, ty: int) -> bool {
    on_board(fx, fy) && on_board(tx, ty) && (pos.squares[index_of(fx, fy)] matches Some(piece)
        && piece.owner() == pos.to_move && piece_moves(pos, piece, fx, fy).contains(
        (tx as u8, ty as u8),
    ))
}

/// How the game stands for the side to move.
pub open spec fn status(pos: Position) -> Status {
    let mover = pos.to_move;
    let stuck = all_moves(pos, mover).len() == 0;
    let checked = in_check(pos.squares, mover);
    if stuck && checked {
        Status::Checkmate(mover.spec_opponent())
    } else if stuck {
        Status::Stalemate
    } else if pos.plies >= PLY_LIMIT {
        Status::Drawn
    } else if checked {
        Status::InCheck(mover)
    } else {
        Status::AwaitingMove(mover)
    }
}

/// The winner on record has no bearing on the moves of either side.
pub proof fn lemma_moves_ignore_winner(pos: Position, winner: Option<Player>, player: Player, n: int)
    ensures
        moves_upto(Position { winner, ..pos }, player, n) == moves_upto(pos, player, n),
    decreases n,
{
    if n > 0 {
        lemma_moves_ignore_winner(pos, winner, player, n - 1);
        let other = Position { winner, ..pos };
        assert(moves_at(other, player, n - 1) == moves_at(pos, player, n - 1)) by {
            match pos.squares[n - 1] {
                Some(piece) => {
                    assert(piece_moves(other, piece, (n - 1) % 8, (n - 1) / 8) == piece_moves(
                        pos,
                        piece,
                        (n - 1) % 8,
                        (n - 1) / 8,
                    ));
                },
                None => {},
            }
        }
    }
}

/// The winner on record has no bearing on how the game stands.
pub proof fn lemma_status_ignores_winner(pos: Position, winner: Option<Player>)
    ensures
        status(Position { winner, ..pos }) == status(pos),
{
    lemma_moves_ignore_winner(pos, winner, pos.to_move, 64);
}

/// Whether the game is over: checkmate, stalemate or a draw.
pub open spec fn concluded(pos: Position) -> bool {
    !(status(pos) is AwaitingMove || status(pos) is InCheck)
}

/// The winner that a position shows: the side that has given checkmate.
pub open spec fn victor(pos: Position) -> Option<Player> {
    match status(pos) {
        Status::Checkmate(winner) => Some(winner),
        _ => None,
    }
}

/// The position after a move has been played and its outcome recorded.
pub open spec fn played(pos: Position, fx: int, fy: int, tx: int, ty: int) -> Position {
    let next = advance(pos, fx, fy, tx, ty);
    Position { winner: victor(next), ..next }
}

} // verus!
