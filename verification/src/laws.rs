//! What holds of the rules whatever the position: the laws that the rest of
//! the engine may rely on.
use vstd::prelude::*;
use crate::player::Player;
use crate::piece::{Piece, Square, Move};
use crate::king::King;
use crate::cache::{PositionKey, key_of};
use crate::search::{Evaluator, MATE_SCORE, bounded, after, search_outcome, scan_outcome};
use crate::position::{
    Position, Side, Status, Ply, PLY_LIMIT, can_castle, castle_file, rook_file, crossed_file,
    castle_path_empty, classify, candidates, candidate, steps_upto, castle_step, piece_moves,
    legal_step, all_moves, moves_upto, moves_at, advance, status, legal, kings_upto, consistent,
    relocated, is_castling, corner_file, landing_file,
};
use crate::rules::{
    Squares, on_board, index_of, magnitude, span, vacant, reaches, admissible, in_check,
    after_move, piece_at, movable, threatens, king_attacked_at,
};

verus! {

/// No piece moves from a square to the same square: such a move is always
/// classified `Invalid`.
pub proof fn lemma_no_null_move(pos: Position, piece: Piece, x: int, y: int)
    ensures
        classify(pos, piece, x, y, x, y) == Move::Invalid,
        !reaches(pos.squares, piece, x, y, x, y),
{
}

/// Castling is allowed exactly when all six conditions hold: the king has
/// not moved, it stands on its home square, it is not in check, the squares
/// between king and rook are empty, the king is attacked neither on the
/// square it crosses nor on the one it lands on, and the rook stands in its
/// corner and has not moved.
pub proof fn lemma_castle_iff_all_six(pos: Position, king: King, x: int, y: int, side: Side)
    ensures
        can_castle(pos, king, x, y, side) <==> {
            let me = king.player;
            let home = me.spec_home_rank();
            &&& !king.moved && !pos.rights(me).king_moved
            &&& x == 4 && y == home
            &&& !in_check(pos.squares, me)
            &&& forall|f: int|
                (rook_file(side) < f < 4 || 4 < f < rook_file(side)) ==> vacant(pos.squares, f, home)
            &&& !in_check(after_move(pos.squares, 4, home, crossed_file(side), home), me)
                && !in_check(after_move(pos.squares, 4, home, castle_file(side), home), me)
            &&& (pos.squares[index_of(rook_file(side), home)] matches Some(Piece::Rook(r))
                && !r.moved) && !(match side {
                Side::Left => pos.rights(me).left_rook_moved,
                Side::Right => pos.rights(me).right_rook_moved,
            })
        },
{
    let home = king.player.spec_home_rank();
    match side {
        Side::Left => {
            assert(castle_path_empty(pos.squares, home, side) <==> forall|f: int|
                (rook_file(side) < f < 4 || 4 < f < rook_file(side)) ==> vacant(pos.squares, f, home))
                by {
                if castle_path_empty(pos.squares, home, side) {
                    assert forall|f: int|
                        (rook_file(side) < f < 4 || 4 < f < rook_file(side)) implies vacant(
                        pos.squares,
                        f,
                        home,
                    ) by {
                        assert(f == 1 || f == 2 || f == 3);
                    }
                }
            }
        },
        Side::Right => {
            assert(castle_path_empty(pos.squares, home, side) <==> forall|f: int|
                (rook_file(side) < f < 4 || 4 < f < rook_file(side)) ==> vacant(pos.squares, f, home))
                by {
                if castle_path_empty(pos.squares, home, side) {
                    assert forall|f: int|
                        (rook_file(side) < f < 4 || 4 < f < rook_file(side)) implies vacant(
                        pos.squares,
                        f,
                        home,
                    ) by {
                        assert(f == 5 || f == 6);
                    }
                }
            }
        },
    }
}

/// A destination is among the first `n` admissible candidates of a piece
/// exactly when one of those candidates leads to it and is admissible.
pub proof fn lemma_steps_contain(b: Squares, piece: Piece, fx: int, fy: int, n: int, to: Square)
    requires
        0 <= n,
    ensures
        steps_upto(b, piece, fx, fy, n).contains(to) <==> exists|i: int|
            0 <= i < n && to.0 == fx + (#[trigger] candidate(piece, i)).0 && to.1 == fy + candidate(
                piece,
                i,
            ).1 && admissible(b, piece, fx, fy, to.0 as int, to.1 as int),
    decreases n,
{
    if n > 0 {
        lemma_steps_contain(b, piece, fx, fy, n - 1, to);
        let earlier = steps_upto(b, piece, fx, fy, n - 1);
        let d = candidate(piece, n - 1);
        let here = ((fx + d.0) as u8, (fy + d.1) as u8);
        if admissible(b, piece, fx, fy, fx + d.0, fy + d.1) {
            assert(earlier.push(here).last() == here);
            assert(forall|j: int| 0 <= j < earlier.len() ==> earlier.push(here)[j] == earlier[j]);
            if steps_upto(b, piece, fx, fy, n).contains(to) {
                let j = choose|j: int|
                    0 <= j < earlier.push(here).len() && earlier.push(here)[j] == to;
                if j < earlier.len() {
                    assert(earlier.contains(to));
                } else {
                    assert(to == here);
                    assert(to.0 == fx + candidate(piece, n - 1).0);
                }
            }
            if earlier.contains(to) {
                let j = choose|j: int| 0 <= j < earlier.len() && earlier[j] == to;
                assert(earlier.push(here)[j] == to);
            }
            if to.0 == fx + d.0 && to.1 == fy + d.1 {
                assert(to == here);
                assert(earlier.push(here)[earlier.len() as int] == to);
            }
        }
    }
}

/// The index of the ray of the queen that points the way of `(dx, dy)`.
pub open spec fn queen_ray_toward(dx: int, dy: int) -> int {
    if dx > 0 && dy == 0 {
        0
    } else if dx > 0 && dy > 0 {
        1
    } else if dx == 0 && dy > 0 {
        2
    } else if dx < 0 && dy > 0 {
        3
    } else if dx < 0 && dy == 0 {
        4
    } else if dx < 0 && dy < 0 {
        5
    } else if dx == 0 && dy < 0 {
        6
    } else {
        7
    }
}

/// The index of the candidate of `piece` that is the displacement
/// `(dx, dy)`, for a displacement that the piece can make.
pub open spec fn candidate_for(piece: Piece, dx: int, dy: int) -> int {
    match piece {
        Piece::King(_) => if dx == 0 && dy == 1 {
            0
        } else if dx == 1 && dy == 1 {
            1
        } else if dx == 1 && dy == 0 {
            2
        } else if dx == 1 && dy == -1 {
            3
        } else if dx == 0 && dy == -1 {
            4
        } else if dx == -1 && dy == -1 {
            5
        } else if dx == -1 && dy == 0 {
            6
        } else {
            7
        },
        Piece::Knight(_) => if dx == 1 && dy == 2 {
            0
        } else if dx == 2 && dy == 1 {
            1
        } else if dx == 2 && dy == -1 {
            2
        } else if dx == 1 && dy == -2 {
            3
        } else if dx == -1 && dy == -2 {
            4
        } else if dx == -2 && dy == -1 {
            5
        } else if dx == -2 && dy == 1 {
            6
        } else {
            7
        },
        Piece::Pawn(_) => if dx == 0 && magnitude(dy) == 1 {
            0
        } else if dx == 0 {
            1
        } else if dx == -1 {
            2
        } else {
            3
        },
        Piece::Queen(_) => 7 * queen_ray_toward(dx, dy) + span(dx, dy) - 1,
        Piece::Rook(_) => 7 * (queen_ray_toward(dx, dy) / 2) + span(dx, dy) - 1,
        Piece::Bishop(_) => 7 * (if dx > 0 && dy > 0 {
            0int
        } else if dx < 0 && dy > 0 {
            1int
        } else if dx < 0 && dy < 0 {
            2int
        } else {
            3int
        }) + span(dx, dy) - 1,
    }
}

/// Every square that a piece reaches is one of its candidates.
pub proof fn lemma_candidates_cover(b: Squares, piece: Piece, fx: int, fy: int, tx: int, ty: int)
    requires
        reaches(b, piece, fx, fy, tx, ty),
    ensures
        0 <= candidate_for(piece, tx - fx, ty - fy) < candidates(piece),
        candidate(piece, candidate_for(piece, tx - fx, ty - fy)) == (tx - fx, ty - fy),
{
    let dx = tx - fx;
    let dy = ty - fy;
    let i = candidate_for(piece, dx, dy);
    match piece {
        Piece::Queen(_) => {
            let r = queen_ray_toward(dx, dy);
            assert(1 <= span(dx, dy) <= 7);
            assert(i / 7 == r && i % 7 == span(dx, dy) - 1);
        },
        Piece::Rook(_) => {
            let r = queen_ray_toward(dx, dy) / 2;
            assert(1 <= span(dx, dy) <= 7);
            assert(i / 7 == r && i % 7 == span(dx, dy) - 1);
        },
        Piece::Bishop(_) => {
            assert(1 <= span(dx, dy) <= 7);
            let r = (i - (span(dx, dy) - 1)) / 7;
            assert(i / 7 == r && i % 7 == span(dx, dy) - 1);
        },
        _ => {},
    }
}

/// An element is in the concatenation of two sequences exactly when it is
/// in one of them.
pub proof fn lemma_concat_contains<T>(a: Seq<T>, b: Seq<T>, x: T)
    ensures
        (a + b).contains(x) <==> (a.contains(x) || b.contains(x)),
{
    let all = a + b;
    if all.contains(x) {
        let j = choose|j: int| 0 <= j < all.len() && all[j] == x;
        if j < a.len() {
            assert(a[j] == x);
        } else {
            assert(b[j - a.len()] == x);
        }
    }
    if a.contains(x) {
        let j = choose|j: int| 0 <= j < a.len() && a[j] == x;
        assert(all[j] == x);
    }
    if b.contains(x) {
        let j = choose|j: int| 0 <= j < b.len() && b[j] == x;
        assert(all[a.len() + j] == x);
    }
}

/// The destinations that a piece lists are exactly its legal steps: the
/// squares that it reaches, that its own side does not hold and that leave
/// no king of its side attacked, and for a king the squares to which it may
/// castle.
pub proof fn lemma_moves_are_legal_steps(pos: Position, piece: Piece, fx: int, fy: int, to: Square)
    ensures
        piece_moves(pos, piece, fx, fy).contains(to) <==> legal_step(
            pos,
            piece,
            fx,
            fy,
            to.0 as int,
            to.1 as int,
        ),
{
    let b = pos.squares;
    let n = candidates(piece);
    let steps = steps_upto(b, piece, fx, fy, n);
    lemma_steps_contain(b, piece, fx, fy, n, to);
    if admissible(b, piece, fx, fy, to.0 as int, to.1 as int) {
        lemma_candidates_cover(b, piece, fx, fy, to.0 as int, to.1 as int);
        let i = candidate_for(piece, to.0 - fx, to.1 - fy);
        assert(to.0 == fx + candidate(piece, i).0 && to.1 == fy + candidate(piece, i).1);
        assert(steps.contains(to));
    }
    match piece {
        Piece::King(king) => {
            let left = castle_step(pos, king, fx, fy, Side::Left);
            let right = castle_step(pos, king, fx, fy, Side::Right);
            let all = steps + left + right;
            assert(all == piece_moves(pos, piece, fx, fy));
            lemma_concat_contains(steps, left, to);
            lemma_concat_contains(steps + left, right, to);
            assert(left.contains(to) <==> (can_castle(pos, king, fx, fy, Side::Left) && to == (
                2u8,
                fy as u8,
            ))) by {
                if can_castle(pos, king, fx, fy, Side::Left) {
                    assert(left[0] == (2u8, fy as u8));
                }
            }
            assert(right.contains(to) <==> (can_castle(pos, king, fx, fy, Side::Right) && to == (
                6u8,
                fy as u8,
            ))) by {
                if can_castle(pos, king, fx, fy, Side::Right) {
                    assert(right[0] == (6u8, fy as u8));
                }
            }
            if to.1 == fy && to.0 == 2 && can_castle(pos, king, fx, fy, Side::Left) {
                assert(to.0 == castle_file(Side::Left));
            }
            if to.1 == fy && to.0 == 6 && can_castle(pos, king, fx, fy, Side::Right) {
                assert(to.0 == castle_file(Side::Right));
            }
        },
        _ => {},
    }
}

/// From its home square the king has file 2 of its rank among its moves
/// exactly when it may castle to the left, and file 6 exactly when it may
/// castle to the right.
pub proof fn lemma_castle_offered_iff_allowed(pos: Position, king: King, side: Side)
    ensures
        piece_moves(pos, Piece::King(king), 4, king.player.spec_home_rank()).contains(
            (castle_file(side) as u8, king.player.spec_home_rank() as u8),
        ) <==> can_castle(pos, king, 4, king.player.spec_home_rank(), side),
{
    let home = king.player.spec_home_rank();
    let to = (castle_file(side) as u8, home as u8);
    lemma_moves_are_legal_steps(pos, Piece::King(king), 4, home, to);
    if legal_step(pos, Piece::King(king), 4, home, to.0 as int, to.1 as int) {
        let other = choose|other: Side|
            to.0 == castle_file(other) && #[trigger] can_castle(pos, king, 4, home, other);
        assert(other == side);
    }
}

/// A side with no legal move has lost if it is in check, and the game is a
/// stalemate if it is not.
pub proof fn lemma_stuck_is_mate_or_stalemate(pos: Position)
    requires
        all_moves(pos, pos.to_move).len() == 0,
    ensures
        in_check(pos.squares, pos.to_move) ==> status(pos) == Status::Checkmate(
            pos.to_move.spec_opponent(),
        ),
        !in_check(pos.squares, pos.to_move) ==> status(pos) == Status::Stalemate,
{
}

/// A game is decided by checkmate or stalemate only where the side to move
/// has no legal move.
pub proof fn lemma_mate_only_when_stuck(pos: Position)
    ensures
        (status(pos) is Checkmate || status(pos) is Stalemate) <==> all_moves(
            pos,
            pos.to_move,
        ).len() == 0,
{
}

/// A castling mark, once set, stays set whatever move is made.
pub proof fn lemma_rights_only_grow(pos: Position, player: Player, fx: int, fy: int, tx: int, ty: int)
    ensures
        pos.rights(player).king_moved ==> advance(pos, fx, fy, tx, ty).rights(player).king_moved,
        pos.rights(player).left_rook_moved ==> advance(pos, fx, fy, tx, ty).rights(
            player,
        ).left_rook_moved,
        pos.rights(player).right_rook_moved ==> advance(pos, fx, fy, tx, ty).rights(
            player,
        ).right_rook_moved,
{
}

/// A score filed under a key is the score found under that key, and filing
/// it leaves the scores under all other keys as they were.
pub proof fn lemma_filed_is_found(cache: Map<PositionKey, i32>, key: PositionKey, score: i32, other: PositionKey)
    ensures
        cache.insert(key, score).contains_key(key),
        cache.insert(key, score)[key] == score,
        other != key ==> cache.insert(key, score).contains_key(other) == cache.contains_key(other),
        other != key && cache.contains_key(other) ==> cache.insert(key, score)[other] == cache[other],
{
}

/// Whether `player` may play `ply`: a piece of that side stands on the
/// square that the move starts from, and the move ends on one of the legal
/// destinations of that piece.
pub open spec fn may_play(pos: Position, player: Player, ply: Ply) -> bool {
    let fx = ply.0.0 as int;
    let fy = ply.0.1 as int;
    on_board(fx, fy) && (pos.squares[index_of(fx, fy)] matches Some(piece) && piece.owner()
        == player && piece_moves(pos, piece, fx, fy).contains(ply.1))
}

/// The moves that start on one of the first `n` squares are the moves that
/// `player` may play from those squares.
pub proof fn lemma_moves_upto_contain(pos: Position, player: Player, n: int, ply: Ply)
    requires
        0 <= n <= 64,
    ensures
        moves_upto(pos, player, n).contains(ply) <==> (may_play(pos, player, ply) && index_of(
            ply.0.0 as int,
            ply.0.1 as int,
        ) < n),
    decreases n,
{
    if n > 0 {
        let i = n - 1;
        lemma_moves_upto_contain(pos, player, i, ply);
        let here = moves_at(pos, player, i);
        lemma_concat_contains(moves_upto(pos, player, i), here, ply);
        let from = ((i % 8) as u8, (i / 8) as u8);
        assert(index_of(ply.0.0 as int, ply.0.1 as int) == i && on_board(
            ply.0.0 as int,
            ply.0.1 as int,
        ) <==> ply.0 == from);
        match pos.squares[i] {
            Some(piece) => {
                if piece.owner() == player {
                    let found = piece_moves(pos, piece, i % 8, i / 8);
                    if here.contains(ply) {
                        let j = choose|j: int| 0 <= j < here.len() && here[j] == ply;
                        assert(found[j] == ply.1);
                    }
                    if ply.0 == from && found.contains(ply.1) {
                        let j = choose|j: int| 0 <= j < found.len() && found[j] == ply.1;
                        assert(here[j] == ply);
                    }
                }
            },
            None => {},
        }
    }
}

/// The legal moves of a side are exactly the moves that it may play.
pub proof fn lemma_all_moves_are_playable(pos: Position, player: Player, ply: Ply)
    ensures
        all_moves(pos, player).contains(ply) <==> may_play(pos, player, ply),
{
    lemma_moves_upto_contain(pos, player, 64, ply);
}

/// A move is legal for the side to move exactly when it is among the moves
/// listed for that side: `apply_move` refuses a move as illegal exactly when
/// it is not on that list.
pub proof fn lemma_legal_iff_listed(pos: Position, from: Square, to: Square)
    ensures
        legal(pos, from.0 as int, from.1 as int, to.0 as int, to.1 as int) <==> all_moves(
            pos,
            pos.to_move,
        ).contains((from, to)),
{
    lemma_all_moves_are_playable(pos, pos.to_move, (from, to));
    if all_moves(pos, pos.to_move).contains((from, to)) {
        lemma_listed_moves_stay_on_board(pos, pos.to_move, (from, to));
    }
}

/// Every move listed for a side ends on a square of the board.
pub proof fn lemma_listed_moves_stay_on_board(pos: Position, player: Player, ply: Ply)
    requires
        all_moves(pos, player).contains(ply),
    ensures
        on_board(ply.0.0 as int, ply.0.1 as int),
        on_board(ply.1.0 as int, ply.1.1 as int),
        pos.squares[index_of(ply.0.0 as int, ply.0.1 as int)] matches Some(piece) && piece.owner()
            == player,
{
    lemma_all_moves_are_playable(pos, player, ply);
    let fx = ply.0.0 as int;
    let fy = ply.0.1 as int;
    let piece = pos.squares[index_of(fx, fy)]->0;
    lemma_moves_are_legal_steps(pos, piece, fx, fy, ply.1);
}

/// Whether a king of `player` stands there.
pub open spec fn holds_king(square: Option<Piece>, player: Player) -> bool {
    square matches Some(Piece::King(k)) && k.player == player
}

/// Putting something on a square changes the number of kings by what the
/// square held and what it holds now.
pub proof fn lemma_kings_after_update(b: Squares, player: Player, i: int, now: Option<Piece>, n: int)
    requires
        0 <= i < b.len(),
        0 <= n <= b.len(),
    ensures
        kings_upto(b.update(i, now), player, n) == kings_upto(b, player, n) + if i < n {
            (if holds_king(now, player) {
                1int
            } else {
                0int
            }) - (if holds_king(b[i], player) {
                1int
            } else {
                0int
            })
        } else {
            0int
        },
    decreases n,
{
    if n > 0 {
        lemma_kings_after_update(b, player, i, now, n - 1);
    }
}

/// Moving a piece for good changes the number of kings only by a king that
/// stood on the square it moves to.
pub proof fn lemma_kings_after_relocation(b: Squares, player: Player, fx: int, fy: int, tx: int, ty: int)
    requires
        b.len() == 64,
    ensures
        kings_upto(relocated(b, fx, fy, tx, ty), player, 64) == kings_upto(b, player, 64) - if piece_at(
            b,
            fx,
            fy,
        ) is Some && movable(fx, fy, tx, ty) && holds_king(b[index_of(tx, ty)], player) {
            1int
        } else {
            0int
        },
{
    if piece_at(b, fx, fy) is Some && movable(fx, fy, tx, ty) {
        let piece = piece_at(b, fx, fy)->0;
        let f = index_of(fx, fy);
        let t = index_of(tx, ty);
        let first = b.update(t, b[f]);
        let second = first.update(f, None);
        lemma_kings_after_update(b, player, t, b[f], 64);
        lemma_kings_after_update(first, player, f, None, 64);
        lemma_kings_after_update(second, player, t, Some(piece.touched()), 64);
        assert(holds_king(Some(piece.touched()), player) == holds_king(b[f], player));
    }
}

/// A legal move takes no king off the board, unless a king of the side that
/// is not to move stood attacked: the number of kings of either side stays
/// what it was.
pub proof fn lemma_legal_move_keeps_kings(pos: Position, from: Square, to: Square, player: Player)
    requires
        pos.wf(),
        legal(pos, from.0 as int, from.1 as int, to.0 as int, to.1 as int),
        !in_check(pos.squares, pos.to_move.spec_opponent()),
    ensures
        kings_upto(
            advance(pos, from.0 as int, from.1 as int, to.0 as int, to.1 as int).squares,
            player,
            64,
        ) == kings_upto(pos.squares, player, 64),
{
    let b = pos.squares;
    let fx = from.0 as int;
    let fy = from.1 as int;
    let tx = to.0 as int;
    let ty = to.1 as int;
    let mover = pos.to_move;
    let piece = b[index_of(fx, fy)]->0;
    lemma_moves_are_legal_steps(pos, piece, fx, fy, to);
    assert(legal_step(pos, piece, fx, fy, tx, ty));
    assert(movable(fx, fy, tx, ty)) by {
        lemma_no_null_move(pos, piece, fx, fy);
    }
    // Nothing that is taken is a king.
    assert(!holds_king(b[index_of(tx, ty)], player)) by {
        if holds_king(b[index_of(tx, ty)], player) {
            if admissible(b, piece, fx, fy, tx, ty) {
                assert(player != mover);
                assert(threatens(b, mover, fx, fy, tx, ty));
                assert(king_attacked_at(b, player, tx, ty));
            } else {
                let side = choose|side: Side|
                    tx == castle_file(side) && #[trigger] can_castle(
                        pos,
                        piece->King_0,
                        fx,
                        fy,
                        side,
                    );
                assert(vacant(b, tx, ty));
            }
        }
    }
    let moved = relocated(b, fx, fy, tx, ty);
    lemma_kings_after_relocation(b, player, fx, fy, tx, ty);
    if is_castling(piece, fx, fy, tx, ty) {
        let corner = corner_file(fx, tx);
        let landing = landing_file(fx, tx);
        lemma_kings_after_relocation(moved, player, corner, fy, landing, fy);
        // The rook lands on the square that the king crossed, which is empty.
        assert(!admissible(b, piece, fx, fy, tx, ty));
        let side = choose|side: Side|
            tx == castle_file(side) && #[trigger] can_castle(pos, piece->King_0, fx, fy, side);
        assert(vacant(b, landing, fy));
        assert(moved[index_of(landing, fy)] is None);
    }
}

/// A legal move leaves a board with one king of each side as one, unless
/// a king of the side that is not to move stood attacked.
pub proof fn lemma_legal_move_keeps_consistency(pos: Position, from: Square, to: Square)
    requires
        pos.wf(),
        consistent(pos.squares),
        legal(pos, from.0 as int, from.1 as int, to.0 as int, to.1 as int),
        !in_check(pos.squares, pos.to_move.spec_opponent()),
    ensures
        consistent(
            advance(pos, from.0 as int, from.1 as int, to.0 as int, to.1 as int).squares,
        ),
{
    lemma_legal_move_keeps_kings(pos, from, to, Player::One);
    lemma_legal_move_keeps_kings(pos, from, to, Player::Two);
}

/// Every score that the first cache holds stands unchanged in the second.
pub open spec fn extends(first: Map<PositionKey, i32>, second: Map<PositionKey, i32>) -> bool {
    forall|k: PositionKey| #[trigger]
        first.contains_key(k) ==> second.contains_key(k) && second[k] == first[k]
}

/// The key of the position after the move of index `i`.
pub open spec fn key_after(pos: Position, moves: Seq<Ply>, i: int) -> PositionKey {
    key_of(after(pos, moves[i]).squares, after(pos, moves[i]).to_move)
}

/// What the position after the move of index `i` is taken to be worth to
/// the other side, in a search that starts with `cache`.
pub open spec fn worth_at<E: Evaluator>(
    eval: &E,
    pos: Position,
    depth: nat,
    cache: Map<PositionKey, i32>,
    moves: Seq<Ply>,
    i: int,
) -> int {
    let earlier = scan_outcome(eval, pos, depth, cache, moves, i as nat);
    let key = key_after(pos, moves, i);
    if earlier.cache.contains_key(key) {
        bounded(earlier.cache[key] as int, MATE_SCORE as int)
    } else {
        search_outcome(eval, after(pos, moves[i]), (depth - 1) as nat, earlier.cache).score
    }
}

/// A search changes no score that the cache held, and its score lies
/// between `-MATE_SCORE` and `MATE_SCORE`.
pub proof fn lemma_search_grows<E: Evaluator>(
    eval: &E,
    pos: Position,
    depth: nat,
    cache: Map<PositionKey, i32>,
)
    ensures
        extends(cache, search_outcome(eval, pos, depth, cache).cache),
        -MATE_SCORE <= search_outcome(eval, pos, depth, cache).score <= MATE_SCORE,
    decreases depth, 1nat, 0nat,
{
    let moves = all_moves(pos, pos.to_move);
    if depth > 0 && moves.len() > 0 && pos.plies < PLY_LIMIT {
        lemma_scan_grows(eval, pos, depth, cache, moves, moves.len());
    }
}

/// Trying one move after the other changes no score that the cache held,
/// and files a score for the position after each move tried: the worth that
/// the search took that position to have.
pub proof fn lemma_scan_grows<E: Evaluator>(
    eval: &E,
    pos: Position,
    depth: nat,
    cache: Map<PositionKey, i32>,
    moves: Seq<Ply>,
    n: nat,
)
    requires
        depth > 0,
        n <= moves.len(),
    ensures
        extends(cache, scan_outcome(eval, pos, depth, cache, moves, n).cache),
        -MATE_SCORE - 1 <= scan_outcome(eval, pos, depth, cache, moves, n).score <= MATE_SCORE,
        n > 0 ==> -MATE_SCORE <= scan_outcome(eval, pos, depth, cache, moves, n).score,
        forall|i: int|
            0 <= i < n ==> {
                let filed = scan_outcome(eval, pos, depth, cache, moves, n).cache;
                filed.contains_key(#[trigger] key_after(pos, moves, i)) && bounded(
                    filed[key_after(pos, moves, i)] as int,
                    MATE_SCORE as int,
                ) == worth_at(eval, pos, depth, cache, moves, i)
            },
    decreases depth, 0nat, n,
{
    if n > 0 {
        let earlier = scan_outcome(eval, pos, depth, cache, moves, (n - 1) as nat);
        let now = scan_outcome(eval, pos, depth, cache, moves, n);
        lemma_scan_grows(eval, pos, depth, cache, moves, (n - 1) as nat);
        let next = after(pos, moves[n - 1]);
        let key = key_after(pos, moves, n - 1);
        lemma_search_grows(eval, next, (depth - 1) as nat, earlier.cache);
        let deeper = search_outcome(eval, next, (depth - 1) as nat, earlier.cache);
        assert(extends(earlier.cache, now.cache));
        assert forall|i: int| 0 <= i < n implies now.cache.contains_key(
            #[trigger] key_after(pos, moves, i),
        ) && bounded(now.cache[key_after(pos, moves, i)] as int, MATE_SCORE as int) == worth_at(
            eval,
            pos,
            depth,
            cache,
            moves,
            i,
        ) by {
            if i < n - 1 {
                assert(earlier.cache.contains_key(key_after(pos, moves, i)));
            }
        }
    }
}

/// A search that starts with a cache in which the position after every
/// move is filed goes the way those scores say and leaves the cache as
/// it is.
pub proof fn lemma_scan_replays<E: Evaluator>(
    eval: &E,
    pos: Position,
    depth: nat,
    first: Map<PositionKey, i32>,
    later: Map<PositionKey, i32>,
    moves: Seq<Ply>,
    n: nat,
)
    requires
        depth > 0,
        n <= moves.len(),
        forall|i: int|
            0 <= i < n ==> later.contains_key(#[trigger] key_after(pos, moves, i)) && bounded(
                later[key_after(pos, moves, i)] as int,
                MATE_SCORE as int,
            ) == worth_at(eval, pos, depth, first, moves, i),
    ensures
        scan_outcome(eval, pos, depth, later, moves, n).best == scan_outcome(
            eval,
            pos,
            depth,
            first,
            moves,
            n,
        ).best,
        scan_outcome(eval, pos, depth, later, moves, n).score == scan_outcome(
            eval,
            pos,
            depth,
            first,
            moves,
            n,
        ).score,
        scan_outcome(eval, pos, depth, later, moves, n).cache == later,
    decreases n,
{
    if n > 0 {
        lemma_scan_replays(eval, pos, depth, first, later, moves, (n - 1) as nat);
        assert(later.contains_key(key_after(pos, moves, n - 1)));
    }
}

/// Searching again gives the same: on a game that has not changed, a second
/// search to the same depth, which starts with the cache as the first left
/// it, finds the same best move and the same score, and files nothing new.
pub proof fn lemma_search_repeats<E: Evaluator>(
    eval: &E,
    pos: Position,
    depth: nat,
    cache: Map<PositionKey, i32>,
)
    ensures
        ({
            let first = search_outcome(eval, pos, depth, cache);
            let second = search_outcome(eval, pos, depth, first.cache);
            second.best == first.best && second.score == first.score && second.cache
                == first.cache
        }),
{
    let moves = all_moves(pos, pos.to_move);
    if depth > 0 && moves.len() > 0 && pos.plies < PLY_LIMIT {
        let first = scan_outcome(eval, pos, depth, cache, moves, moves.len());
        lemma_scan_grows(eval, pos, depth, cache, moves, moves.len());
        lemma_scan_replays(eval, pos, depth, cache, first.cache, moves, moves.len());
    }
}

} // verus!
