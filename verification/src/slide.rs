//! Sliding along a ray: what bishops, rooks and queens have in common.
use vstd::prelude::*;
use crate::piece::{Piece, Square};
use crate::game::Game;
use crate::position::{
    stretch, along, candidate, candidates, steps_upto, queen_ray, rook_ray, bishop_ray,
};
use crate::rules::{Squares, on_board, vacant, reaches, admissible, clear_between, toward, span};

verus! {

/// The destinations among the first `n` squares along `ray`, seen from
/// `(fx, fy)`, that are admissible for `piece`, nearest first.
pub open spec fn ray_steps(b: Squares, piece: Piece, fx: int, fy: int, ray: (int, int), n: int) -> Seq<
    Square,
>
    decreases n,
{
    if n <= 0 {
        Seq::empty()
    } else {
        let nearer = ray_steps(b, piece, fx, fy, ray, n - 1);
        let d = along(ray, n);
        if admissible(b, piece, fx, fy, fx + d.0, fy + d.1) {
            nearer.push(((fx + d.0) as u8, (fy + d.1) as u8))
        } else {
            nearer
        }
    }
}

/// Whether `ray` is one of the directions in which `piece` slides.
pub open spec fn slides_along(piece: Piece, ray: (int, int)) -> bool {
    &&& -1 <= ray.0 <= 1
    &&& -1 <= ray.1 <= 1
    &&& match piece {
        Piece::Queen(_) => ray.0 != 0 || ray.1 != 0,
        Piece::Rook(_) => (ray.0 == 0) != (ray.1 == 0),
        Piece::Bishop(_) => ray.0 != 0 && ray.1 != 0,
        _ => false,
    }
}

/// The `i`-th ray of a sliding piece.
pub open spec fn ray_of(piece: Piece, i: int) -> (int, int) {
    match piece {
        Piece::Rook(_) => rook_ray(i),
        Piece::Bishop(_) => bishop_ray(i),
        _ => queen_ray(i),
    }
}

/// Where nothing beyond distance `k` along a ray is admissible, the ray has
/// no destination beyond distance `k`.
pub proof fn lemma_ray_ends(b: Squares, piece: Piece, fx: int, fy: int, ray: (int, int), k: int, n: int)
    requires
        0 <= k <= n,
        forall|j: int|
            k < j <= n ==> !admissible(
                b,
                piece,
                fx,
                fy,
                fx + #[trigger] stretch(ray.0, j),
                fy + stretch(ray.1, j),
            ),
    ensures
        ray_steps(b, piece, fx, fy, ray, n) == ray_steps(b, piece, fx, fy, ray, k),
    decreases n - k,
{
    if k < n {
        lemma_ray_ends(b, piece, fx, fy, ray, k, n - 1);
        assert(!admissible(b, piece, fx, fy, fx + stretch(ray.0, n), fy + stretch(ray.1, n)));
    }
}

/// Along a ray of a sliding piece, a square is reached exactly when it is on
/// the board and every square before it is empty.
pub proof fn lemma_ray_reach(b: Squares, piece: Piece, fx: int, fy: int, ray: (int, int), k: int)
    requires
        slides_along(piece, ray),
        on_board(fx, fy),
        1 <= k,
    ensures
        reaches(b, piece, fx, fy, fx + stretch(ray.0, k), fy + stretch(ray.1, k)) == (on_board(
            fx + stretch(ray.0, k),
            fy + stretch(ray.1, k),
        ) && forall|j: int|
            1 <= j < k ==> vacant(b, fx + #[trigger] stretch(ray.0, j), fy + stretch(ray.1, j))),
{
    let tx = fx + stretch(ray.0, k);
    let ty = fy + stretch(ray.1, k);
    if clear_between(b, fx, fy, tx, ty) {
        assert forall|j: int| 1 <= j < k implies vacant(
            b,
            fx + #[trigger] stretch(ray.0, j),
            fy + stretch(ray.1, j),
        ) by {
            assert(vacant(b, toward(fx, tx, j), toward(fy, ty, j)));
        }
    }
    if forall|j: int|
        1 <= j < k ==> vacant(b, fx + #[trigger] stretch(ray.0, j), fy + stretch(ray.1, j)) {
        assert forall|j: int| 1 <= j < span(tx - fx, ty - fy) implies #[trigger] vacant(
            b,
            toward(fx, tx, j),
            toward(fy, ty, j),
        ) by {
            assert(toward(fx, tx, j) == fx + stretch(ray.0, j));
            assert(toward(fy, ty, j) == fy + stretch(ray.1, j));
        }
    }
}

/// The candidates of a sliding piece, ray by ray: those of the first `d`
/// rays, then the first `n` squares of ray `d`.
pub proof fn lemma_steps_by_ray(b: Squares, piece: Piece, fx: int, fy: int, d: int, n: int)
    requires
        piece is Queen || piece is Rook || piece is Bishop,
        0 <= d,
        0 <= n <= 7,
    ensures
        steps_upto(b, piece, fx, fy, 7 * d + n) == steps_upto(b, piece, fx, fy, 7 * d) + ray_steps(
            b,
            piece,
            fx,
            fy,
            ray_of(piece, d),
            n,
        ),
    decreases n,
{
    if n == 0 {
        assert(steps_upto(b, piece, fx, fy, 7 * d) + Seq::<Square>::empty() =~= steps_upto(
            b,
            piece,
            fx,
            fy,
            7 * d,
        ));
    } else {
        lemma_steps_by_ray(b, piece, fx, fy, d, n - 1);
        let i = 7 * d + n - 1;
        let head = steps_upto(b, piece, fx, fy, 7 * d);
        let nearer = ray_steps(b, piece, fx, fy, ray_of(piece, d), n - 1);
        let to = along(ray_of(piece, d), n);
        let square = ((fx + to.0) as u8, (fy + to.1) as u8);
    }
}

/// Adds to `moves` the destinations of `piece`, taken to stand on
/// `position`, along `ray`: square after square until the edge of the board
/// or a piece is met, each one that is admissible. The game is afterwards
/// what it was before.
pub(crate) fn walk_ray(
    game: &mut Game,
    piece: Piece,
    position: Square,
    ray: (i8, i8),
    moves: &mut Vec<Square>,
)
    requires
        slides_along(piece, (ray.0 as int, ray.1 as int)),
        on_board(position.0 as int, position.1 as int),
    ensures
        *final(game) == *old(game),
        final(moves)@ == old(moves)@ + ray_steps(
            old(game)@.squares,
            piece,
            position.0 as int,
            position.1 as int,
            (ray.0 as int, ray.1 as int),
            7,
        ),
{
    let ghost b = game@.squares;
    let ghost fx = position.0 as int;
    let ghost fy = position.1 as int;
    let ghost r = (ray.0 as int, ray.1 as int);
    let ghost base = moves@;
    let owner = piece.player();
    let mut x: i8 = position.0 as i8;
    let mut y: i8 = position.1 as i8;
    let mut k: u8 = 1;
    let mut done = false;
    while k <= 7 && !done
        invariant
            1 <= k <= 8,
            *game == *old(game),
            b == old(game)@.squares,
            fx == position.0 as int,
            fy == position.1 as int,
            r == (ray.0 as int, ray.1 as int),
            on_board(fx, fy),
            slides_along(piece, r),
            owner == piece.owner(),
            done ==> moves@ == base + ray_steps(b, piece, fx, fy, r, 7),
            !done ==> moves@ == base + ray_steps(b, piece, fx, fy, r, k - 1),
            !done ==> x == fx + stretch(r.0, k - 1) && y == fy + stretch(r.1, k - 1),
            !done ==> on_board(x as int, y as int),
            !done ==> forall|j: int|
                1 <= j < k ==> vacant(b, fx + #[trigger] stretch(r.0, j), fy + stretch(r.1, j)),
        decreases 8 - k, (if done { 0int } else { 1int }),
    {
        let nx: i8 = x + ray.0;
        let ny: i8 = y + ray.1;
        if nx < 0 || nx > 7 || ny < 0 || ny > 7 {
            proof {
                assert(forall|j: int|
                    k - 1 < j <= 7 ==> !admissible(
                        b,
                        piece,
                        fx,
                        fy,
                        fx + #[trigger] stretch(r.0, j),
                        fy + stretch(r.1, j),
                    ));
                lemma_ray_ends(b, piece, fx, fy, r, k - 1, 7);
            }
            done = true;
        } else {
            let new_pos: Square = (nx as u8, ny as u8);
            proof {
                lemma_ray_reach(b, piece, fx, fy, r, k as int);
            }
            if game.is_not_player(new_pos, owner) && !game.try_move_for_check(
                position,
                new_pos,
                owner,
            ) {
                moves.push(new_pos);
            }
            if game.square_is_none(new_pos) {
                x = nx;
                y = ny;
                k += 1;
                if k == 8 {
                    done = true;
                }
            } else {
                proof {
                    assert forall|j: int| k < j <= 7 implies !admissible(
                        b,
                        piece,
                        fx,
                        fy,
                        fx + #[trigger] stretch(r.0, j),
                        fy + stretch(r.1, j),
                    ) by {
                        lemma_ray_reach(b, piece, fx, fy, r, j);
                    }
                    lemma_ray_ends(b, piece, fx, fy, r, k as int, 7);
                }
                done = true;
            }
        }
    }
}

} // verus!
