//! Why legal play keeps a game sound: one king of each side on the board, and
//! the side that has just moved not in check.
use vstd::prelude::*;
use crate::player::Player;
use crate::piece::{Piece, Square};
use crate::king::King;
use crate::rook::Rook;
use crate::board::{standard_squares, back_rank};
use crate::game::initial_position;
use crate::laws::{
    lemma_moves_are_legal_steps, lemma_no_null_move, lemma_legal_move_keeps_kings,
    lemma_kings_after_relocation, holds_king,
};
use crate::position::{
    Position, Side, can_castle, castle_file, legal, advance, relocated, corner_file, landing_file,
    kings_upto, consistent, played,
};
use crate::rules::{
    Squares, on_board, index_of, span, toward, vacant, held_by, clear_between, reaches, threatens,
    attacked, king_of, king_attacked_at, in_check, after_move, admissible,
};

verus! {

/// The piece without its mark of having moved.
pub open spec fn unmarked(piece: Piece) -> Piece {
    match piece {
        Piece::Rook(r) => Piece::Rook(Rook { player: r.player, moved: false }),
        Piece::King(k) => Piece::King(King { player: k.player, moved: false }),
        _ => piece,
    }
}

/// The two boards hold the same pieces on the same squares, but for the
/// marks of having moved.
pub open spec fn alike(first: Squares, second: Squares) -> bool {
    &&& first.len() == 64
    &&& second.len() == 64
    &&& forall|i: int|
        0 <= i < 64 ==> match (#[trigger] first[i], second[i]) {
            (None, None) => true,
            (Some(p), Some(q)) => unmarked(p) == unmarked(q),
            _ => false,
        }
}

/// On boards that are alike, pieces that are alike reach the same squares.
pub proof fn lemma_alike_reach(first: Squares, second: Squares, p: Piece, q: Piece, fx: int, fy: int, tx: int, ty: int)
    requires
        alike(first, second),
        unmarked(p) == unmarked(q),
    ensures
        reaches(first, p, fx, fy, tx, ty) == reaches(second, q, fx, fy, tx, ty),
{
    if on_board(fx, fy) && on_board(tx, ty) {
        assert(first[index_of(tx, ty)] is None == second[index_of(tx, ty)] is None);
        assert(forall|x: int, y: int| #[trigger]
            vacant(first, x, y) == vacant(second, x, y)) by {
            assert forall|x: int, y: int| #[trigger]
                vacant(first, x, y) == vacant(second, x, y) by {
                if on_board(x, y) {
                    assert(first[index_of(x, y)] is None == second[index_of(x, y)] is None);
                }
            }
        }
        assert(clear_between(first, fx, fy, tx, ty) == clear_between(second, fx, fy, tx, ty)) by {
            if clear_between(first, fx, fy, tx, ty) {
                assert forall|k: int| 1 <= k < span(tx - fx, ty - fy) implies #[trigger] vacant(
                    second,
                    toward(fx, tx, k),
                    toward(fy, ty, k),
                ) by {
                    assert(vacant(first, toward(fx, tx, k), toward(fy, ty, k)));
                }
            }
            if clear_between(second, fx, fy, tx, ty) {
                assert forall|k: int| 1 <= k < span(tx - fx, ty - fy) implies #[trigger] vacant(
                    first,
                    toward(fx, tx, k),
                    toward(fy, ty, k),
                ) by {
                    assert(vacant(second, toward(fx, tx, k), toward(fy, ty, k)));
                }
            }
        }
        match p {
            Piece::Pawn(pawn) => {
                let f = pawn.player.spec_forward();
                assert(vacant(first, fx, fy + f) == vacant(second, fx, fy + f));
                assert(vacant(first, tx, ty) == vacant(second, tx, ty));
                assert(held_by(first, tx, ty, pawn.player.spec_opponent()) == held_by(
                    second,
                    tx,
                    ty,
                    pawn.player.spec_opponent(),
                ));
            },
            _ => {},
        }
    }
}

/// Boards that are alike have the same squares attacked.
pub proof fn lemma_alike_attacked(first: Squares, second: Squares, attacker: Player, tx: int, ty: int)
    requires
        alike(first, second),
    ensures
        attacked(first, attacker, tx, ty) ==> attacked(second, attacker, tx, ty),
{
    if attacked(first, attacker, tx, ty) {
        let (fx, fy) = choose|fx: int, fy: int| #[trigger]
            threatens(first, attacker, fx, fy, tx, ty);
        let p = first[index_of(fx, fy)]->0;
        let q = second[index_of(fx, fy)]->0;
        lemma_alike_reach(first, second, p, q, fx, fy, tx, ty);
        assert(threatens(second, attacker, fx, fy, tx, ty));
    }
}

/// On boards that are alike the same sides are in check.
pub proof fn lemma_alike_in_check(first: Squares, second: Squares, player: Player)
    requires
        alike(first, second),
    ensures
        in_check(first, player) == in_check(second, player),
{
    if in_check(first, player) {
        let (kx, ky) = choose|kx: int, ky: int| #[trigger]
            king_attacked_at(first, player, kx, ky);
        lemma_alike_attacked(first, second, player.spec_opponent(), kx, ky);
        assert(king_attacked_at(second, player, kx, ky));
    }
    if in_check(second, player) {
        let (kx, ky) = choose|kx: int, ky: int| #[trigger]
            king_attacked_at(second, player, kx, ky);
        assert(alike(second, first)) by {
            assert forall|i: int| 0 <= i < 64 implies match (#[trigger] second[i], first[i]) {
                (None, None) => true,
                (Some(p), Some(q)) => unmarked(p) == unmarked(q),
                _ => false,
            } by {
                let _ = first[i];
            }
        }
        lemma_alike_attacked(second, first, player.spec_opponent(), kx, ky);
        assert(king_attacked_at(first, player, kx, ky));
    }
}

/// The kings counted so far are never fewer than none, and a king on a
/// square is counted once the count has passed the square.
pub proof fn lemma_kings_counted(b: Squares, player: Player, i: int, n: int)
    requires
        0 <= i < n <= b.len(),
    ensures
        0 <= kings_upto(b, player, i) <= kings_upto(b, player, n),
        holds_king(b[i], player) ==> kings_upto(b, player, i) < kings_upto(b, player, n),
    decreases n,
{
    if i > 0 {
        lemma_kings_counted(b, player, 0, i);
    }
    if n - 1 > i {
        lemma_kings_counted(b, player, i, n - 1);
    }
}

/// On a board with one king of a side, that king stands on one square only.
pub proof fn lemma_one_king_one_square(b: Squares, player: Player, x: int, y: int, u: int, v: int)
    requires
        b.len() == 64,
        kings_upto(b, player, 64) == 1,
        king_of(b, player, x, y),
        king_of(b, player, u, v),
    ensures
        x == u && y == v,
{
    let i = index_of(x, y);
    let j = index_of(u, v);
    if i < j {
        lemma_kings_counted(b, player, i, j);
        lemma_kings_counted(b, player, j, 64);
    } else if j < i {
        lemma_kings_counted(b, player, j, i);
        lemma_kings_counted(b, player, i, 64);
    }
}

/// After castling the king is not in check: the rook that comes along stands
/// between it and nothing that attacked it, and leaves no line open.
pub proof fn lemma_castling_is_safe(pos: Position, king: King, side: Side)
    requires
        pos.wf(),
        consistent(pos.squares),
        pos.squares[index_of(4, king.player.spec_home_rank())] == Some(Piece::King(king)),
        can_castle(pos, king, 4, king.player.spec_home_rank(), side),
    ensures
        !in_check(
            relocated(
                relocated(pos.squares, 4, king.player.spec_home_rank(), castle_file(side), king.player.spec_home_rank()),
                corner_file(4, castle_file(side)),
                king.player.spec_home_rank(),
                landing_file(4, castle_file(side)),
                king.player.spec_home_rank(),
            ),
            king.player,
        ),
{
    let b = pos.squares;
    let me = king.player;
    let foe = me.spec_opponent();
    let home = me.spec_home_rank();
    let cf = castle_file(side);
    let corner = corner_file(4, cf);
    let landing = landing_file(4, cf);
    let lone = after_move(b, 4, home, cf, home);
    let moved = relocated(b, 4, home, cf, home);
    let both = relocated(moved, corner, home, landing, home);
    let rook = b[index_of(corner, home)]->0;
    assert(!in_check(lone, me));
    assert(rook is Rook);
    // The rook in the corner is the king's own: another would give check.
    assert(rook.owner() == me) by {
        if rook.owner() != me {
            assert forall|k: int| 1 <= k < span(4 - corner, home - home) implies #[trigger] vacant(
                b,
                toward(corner, 4, k),
                toward(home, home, k),
            ) by {
                assert(toward(corner, 4, k) == 1 || toward(corner, 4, k) == 2 || toward(
                    corner,
                    4,
                    k,
                ) == 3 || toward(corner, 4, k) == 5 || toward(corner, 4, k) == 6);
            }
            assert(threatens(b, foe, corner, home, 4, home));
            assert(king_attacked_at(b, me, 4, home));
        }
    }
    assert(moved[index_of(corner, home)] == Some(rook));
    assert(both[index_of(cf, home)] == Some(Piece::King(king).touched()));
    assert(both[index_of(landing, home)] == Some(rook.touched()));
    assert(both[index_of(corner, home)] is None);
    assert(both[index_of(4, home)] is None);
    assert(forall|i: int|
        0 <= i < 64 && i != index_of(cf, home) && i != index_of(landing, home) && i != index_of(
            corner,
            home,
        ) && i != index_of(4, home) ==> both[i] == b[i]);
    assert(forall|i: int|
        0 <= i < 64 && i != index_of(cf, home) && i != index_of(4, home) ==> lone[i] == b[i]);
    if in_check(both, me) {
        let (kx, ky) = choose|kx: int, ky: int| #[trigger] king_attacked_at(both, me, kx, ky);
        // There is one king of this side, and it has just castled.
        assert(kings_upto(both, me, 64) == 1) by {
            lemma_kings_after_relocation(b, me, 4, home, cf, home);
            lemma_kings_after_relocation(moved, me, corner, home, landing, home);
        }
        assert(king_of(both, me, cf, home));
        lemma_one_king_one_square(both, me, kx, ky, cf, home);
        let (sx, sy) = choose|sx: int, sy: int| #[trigger] threatens(both, foe, sx, sy, cf, home);
        let q = both[index_of(sx, sy)]->0;
        assert(lone[index_of(sx, sy)] == Some(q));
        assert(reaches(lone, q, sx, sy, cf, home)) by {
            assert(lone[index_of(cf, home)] == Some(Piece::King(king)));
            match q {
                Piece::Queen(_) | Piece::Rook(_) | Piece::Bishop(_) => {
                    assert forall|k: int| 1 <= k < span(cf - sx, home - sy) implies #[trigger] vacant(
                        lone,
                        toward(sx, cf, k),
                        toward(sy, home, k),
                    ) by {
                        assert(vacant(both, toward(sx, cf, k), toward(sy, home, k)));
                    }
                },
                _ => {},
            }
        }
        assert(threatens(lone, foe, sx, sy, cf, home));
        assert(king_attacked_at(lone, me, cf, home));
    }
}

/// After a legal move the side that has moved is not in check.
pub proof fn lemma_legal_move_keeps_mover_safe(pos: Position, from: Square, to: Square)
    requires
        pos.wf(),
        consistent(pos.squares),
        legal(pos, from.0 as int, from.1 as int, to.0 as int, to.1 as int),
    ensures
        !in_check(
            advance(pos, from.0 as int, from.1 as int, to.0 as int, to.1 as int).squares,
            pos.to_move,
        ),
{
    let b = pos.squares;
    let fx = from.0 as int;
    let fy = from.1 as int;
    let tx = to.0 as int;
    let ty = to.1 as int;
    let piece = b[index_of(fx, fy)]->0;
    lemma_moves_are_legal_steps(pos, piece, fx, fy, to);
    lemma_no_null_move(pos, piece, fx, fy);
    if admissible(b, piece, fx, fy, tx, ty) {
        let probed = after_move(b, fx, fy, tx, ty);
        let moved = relocated(b, fx, fy, tx, ty);
        assert(alike(probed, moved));
        lemma_alike_in_check(probed, moved, pos.to_move);
    } else {
        let king = piece->King_0;
        let side = choose|side: Side|
            tx == castle_file(side) && #[trigger] can_castle(pos, king, fx, fy, side);
        lemma_castling_is_safe(pos, king, side);
    }
}

/// What legal play keeps: the board has 64 squares and one king of each
/// side, and the side that is not to move is not in check.
pub open spec fn sound(pos: Position) -> bool {
    &&& pos.wf()
    &&& consistent(pos.squares)
    &&& !in_check(pos.squares, pos.to_move.spec_opponent())
}

/// A legal move leads from a sound position to a sound position: a game
/// that starts sound and goes on by `apply_move` stays sound.
pub proof fn lemma_legal_play_stays_sound(pos: Position, from: Square, to: Square)
    requires
        sound(pos),
        legal(pos, from.0 as int, from.1 as int, to.0 as int, to.1 as int),
    ensures
        sound(advance(pos, from.0 as int, from.1 as int, to.0 as int, to.1 as int)),
        sound(played(pos, from.0 as int, from.1 as int, to.0 as int, to.1 as int)),
{
    lemma_legal_move_keeps_kings(pos, from, to, Player::One);
    lemma_legal_move_keeps_kings(pos, from, to, Player::Two);
    lemma_legal_move_keeps_mover_safe(pos, from, to);
    let piece = pos.squares[index_of(from.0 as int, from.1 as int)]->0;
    lemma_no_null_move(pos, piece, from.0 as int, from.1 as int);
    lemma_moves_are_legal_steps(pos, piece, from.0 as int, from.1 as int, to);
}

/// Where one square among the first `n` holds a king of a side and no other
/// does, the side has one king there.
pub proof fn lemma_lone_king_counts_once(b: Squares, player: Player, k: int, n: int)
    requires
        0 <= k < b.len(),
        0 <= n <= b.len(),
        holds_king(b[k], player),
        forall|i: int| 0 <= i < n && i != k ==> !holds_king(#[trigger] b[i], player),
    ensures
        kings_upto(b, player, n) == if k < n {
            1int
        } else {
            0int
        },
    decreases n,
{
    if n > 0 {
        lemma_lone_king_counts_once(b, player, k, n - 1);
    }
}

/// Every game starts from a sound position.
pub proof fn lemma_initial_position_is_sound()
    ensures
        sound(initial_position()),
{
    let b = standard_squares();
    assert(b[60] == Some(back_rank(Player::One, 4)));
    assert(b[4] == Some(back_rank(Player::Two, 4)));
    lemma_lone_king_counts_once(b, Player::One, 60, 64);
    lemma_lone_king_counts_once(b, Player::Two, 4, 64);
    if in_check(b, Player::Two) {
        let (kx, ky) = choose|kx: int, ky: int| #[trigger]
            king_attacked_at(b, Player::Two, kx, ky);
        assert(b[index_of(kx, ky)] == b[8 * ky + kx]);
        assert(kx == 4 && ky == 0);
        let (fx, fy) = choose|fx: int, fy: int| #[trigger]
            threatens(b, Player::One, fx, fy, 4, 0);
        assert(b[index_of(fx, fy)] == b[8 * fy + fx]);
        assert(fy == 6 || fy == 7);
        assert(false);
    }
}

} // verus!
