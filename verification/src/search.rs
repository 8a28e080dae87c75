//! Fixed-depth search of the game tree, with a pluggable evaluator and a
//! cache of scores.
use vstd::prelude::*;
use crate::player::Player;
use crate::game::Game;
use crate::cache::{EvalCache, PositionKey, key_of, position_key};
use crate::position::{Position, Ply, PLY_LIMIT, all_moves, advance};
use crate::rules::{Squares, in_check};

verus! {

/// The score of a position in which the side to move has been checkmated,
/// seen from that side. No other score is as low, and none is higher than
/// its opposite.
pub const MATE_SCORE: i32 = 1_000_000;

/// The largest score, in either direction, that is taken from an evaluator:
/// what it says beyond that is cut down to it.
pub const SCORE_LIMIT: i32 = 100_000;

/// Something that scores a position for the side to move: the higher, the
/// better for that side. The same position always gets the same score.
pub trait Evaluator {
    /// The score of `pos` for the side to move.
    spec fn score(&self, pos: Position) -> int;

    /// The score of the game as it stands, for the side to move.
    fn evaluate(&self, game: &Game) -> (value: i32)
        ensures
            value == self.score(game@),
    ;
}

/// The worth of the pieces of `player` on the first `n` squares, less the
/// worth of those of the other side.
pub open spec fn material_upto(b: Squares, player: Player, n: int) -> int
    decreases n,
{
    if n <= 0 {
        0
    } else {
        material_upto(b, player, n - 1) + match b[n - 1] {
            Some(piece) => if piece.owner() == player {
                piece.worth()
            } else {
                -piece.worth()
            },
            None => 0,
        }
    }
}

/// The evaluator that counts material: the worth of the pieces of the side
/// to move, less the worth of those of the other side.
#[derive(Clone, Copy, Debug)]
pub struct Material;

impl Evaluator for Material {
    open spec fn score(&self, pos: Position) -> int {
        material_upto(pos.squares, pos.to_move, 64)
    }

    fn evaluate(&self, game: &Game) -> (value: i32) {
        let player = game.current_player();
        let board = game.board();
        let mut total: i32 = 0;
        let mut i: u8 = 0;
        while i < 64
            invariant
                i <= 64,
                board@ == game@.squares,
                player == game@.to_move,
                total == material_upto(board@, player, i as int),
                -100 * i <= total <= 100 * i,
            decreases 64 - i,
        {
            match board.squares[i as usize] {
                Some(piece) => {
                    if piece.player() == player {
                        total = total + piece.value();
                    } else {
                        total = total - piece.value();
                    }
                },
                None => {},
            }
            i += 1;
        }
        total
    }
}

/// An evaluator that has been told the score of some positions: it answers
/// with what it has been told, and counts material where it has been told
/// nothing. It is the way in for scores that are worked out elsewhere, by a
/// learned model for one.
pub struct Scored {
    pub table: EvalCache,
}

impl Scored {
    /// An evaluator that has been told nothing yet.
    pub fn new() -> (scored: Scored)
        ensures
            scored.table@ == Map::<PositionKey, i32>::empty(),
    {
        Scored { table: EvalCache::new() }
    }

    /// Whether a score has been recorded for the game as it stands.
    pub fn knows(&self, game: &Game) -> (known: bool)
        ensures
            known == self.table@.contains_key(key_of(game@.squares, game@.to_move)),
    {
        self.table.get(position_key(game.board(), game.current_player())).is_some()
    }

    /// Records `score` as the score of the game as it stands, for the side to
    /// move.
    pub fn record(&mut self, game: &Game, score: i32)
        ensures
            final(self).table@ == old(self).table@.insert(
                key_of(game@.squares, game@.to_move),
                score,
            ),
    {
        self.table.insert(position_key(game.board(), game.current_player()), score);
    }
}

impl Evaluator for Scored {
    open spec fn score(&self, pos: Position) -> int {
        let key = key_of(pos.squares, pos.to_move);
        if self.table@.contains_key(key) {
            self.table@[key] as int
        } else {
            material_upto(pos.squares, pos.to_move, 64)
        }
    }

    fn evaluate(&self, game: &Game) -> (value: i32) {
        match self.table.get(position_key(game.board(), game.current_player())) {
            Some(score) => score,
            None => Material.evaluate(game),
        }
    }
}

/// The positions, `depth` plies on, that a search to `depth` plies may ask
/// the evaluator about: the position itself at depth 0, and otherwise those
/// found in the same way, one ply less deep, after each legal move in turn.
/// A game that is over, or at the ply limit, leads nowhere.
pub open spec fn frontier_of(pos: Position, depth: nat) -> Seq<Position>
    decreases depth, 1nat, 0nat,
{
    let moves = all_moves(pos, pos.to_move);
    if depth == 0 {
        seq![pos]
    } else if moves.len() == 0 || pos.plies >= PLY_LIMIT {
        Seq::empty()
    } else {
        frontier_upto(pos, depth, moves, moves.len() as nat)
    }
}

/// The part of the frontier that lies behind the first `n` of `moves`.
pub open spec fn frontier_upto(pos: Position, depth: nat, moves: Seq<Ply>, n: nat) -> Seq<Position>
    decreases depth, 0nat, n,
{
    if n == 0 || depth == 0 {
        Seq::empty()
    } else {
        frontier_upto(pos, depth, moves, (n - 1) as nat) + frontier_of(
            after(pos, moves[n - 1]),
            (depth - 1) as nat,
        )
    }
}

/// The positions of a list of games.
pub open spec fn positions_of(games: Seq<Game>) -> Seq<Position> {
    Seq::new(games.len(), |i: int| games[i]@)
}

/// Adds to `leaves` the games, `depth` plies on, that a search of `game` to
/// `depth` plies may ask the evaluator about, each set up as `game` is. The
/// game is afterwards what it was before.
pub fn collect_frontier(game: &mut Game, depth: u8, leaves: &mut Vec<Game>)
    ensures
        *final(game) == *old(game),
        positions_of(final(leaves)@) == positions_of(old(leaves)@) + frontier_of(
            old(game)@,
            depth as nat,
        ),
        forall|i: int|
            0 <= i < final(leaves)@.len() ==> (#[trigger] final(leaves)@[i]).same_setup(old(game))
                || (i < old(leaves)@.len() && final(leaves)@[i] == old(leaves)@[i]),
    decreases depth,
{
    let ghost before = leaves@;
    let ghost pos = game@;
    if depth == 0 {
        leaves.push(*game);
        return ;
    }
    let mover = game.current_player();
    let moves = game.get_legal_moves_for(mover);
    if moves.len() == 0 || game.plies() >= PLY_LIMIT {
        return ;
    }
    let snapshot = *game;
    let mut i: usize = 0;
    while i < moves.len()
        invariant
            i <= moves.len(),
            depth > 0,
            *game == *old(game),
            snapshot == *old(game),
            pos == old(game)@,
            before == old(leaves)@,
            moves@ == all_moves(pos, pos.to_move),
            positions_of(leaves@) == positions_of(before) + frontier_upto(
                pos,
                depth as nat,
                moves@,
                i as nat,
            ),
            forall|j: int|
                0 <= j < leaves@.len() ==> (#[trigger] leaves@[j]).same_setup(old(game)) || (j
                    < before.len() && leaves@[j] == before[j]),
        decreases moves.len() - i,
    {
        let ply = moves[i];
        game.advance(ply.0, ply.1);
        collect_frontier(game, depth - 1, leaves);
        *game = snapshot;
        i += 1;
    }
}

/// The games, `depth` plies on, that a search of `game` to `depth` plies may
/// ask the evaluator about.
pub fn frontier(game: &mut Game, depth: u8) -> (leaves: Vec<Game>)
    ensures
        *final(game) == *old(game),
        positions_of(leaves@) == frontier_of(old(game)@, depth as nat),
        forall|i: int| 0 <= i < leaves@.len() ==> (#[trigger] leaves@[i]).same_setup(old(game)),
{
    let mut leaves: Vec<Game> = Vec::new();
    collect_frontier(game, depth, &mut leaves);
    leaves
}

/// `v`, cut down to the range from `-limit` to `limit`.
pub open spec fn bounded(v: int, limit: int) -> int {
    if v > limit {
        limit
    } else if v < -limit {
        -limit
    } else {
        v
    }
}

/// `v`, cut down to the range from `-limit` to `limit`.
fn clamp(v: i32, limit: i32) -> (cut: i32)
    requires
        0 <= limit,
    ensures
        cut == bounded(v as int, limit as int),
{
    if v > limit {
        limit
    } else if v < -limit {
        -limit
    } else {
        v
    }
}

/// What a search has found: the best move if there is one, the score of the
/// position for the side to move, and the cache as the search leaves it.
pub struct Outcome {
    pub best: Option<Ply>,
    pub score: int,
    pub cache: Map<PositionKey, i32>,
}

/// The position after `ply` has been played.
pub open spec fn after(pos: Position, ply: Ply) -> Position {
    advance(pos, ply.0.0 as int, ply.0.1 as int, ply.1.0 as int, ply.1.1 as int)
}

/// The search of `pos` to `depth` plies, starting with `cache`.
///
/// At depth 0 the score is the evaluator's, cut down to `SCORE_LIMIT`. A
/// side with no legal move scores `-MATE_SCORE` if it is in check and 0 if
/// it is not; a position at the ply limit scores 0. Otherwise the moves of
/// the side to move are gone through in order, and the score is the highest
/// of the opposites of what the positions after them are worth to the other
/// side; of several moves with that score the first is the best.
pub open spec fn search_outcome<E: Evaluator>(
    eval: &E,
    pos: Position,
    depth: nat,
    cache: Map<PositionKey, i32>,
) -> Outcome
    decreases depth, 1nat, 0nat,
{
    let moves = all_moves(pos, pos.to_move);
    if depth == 0 {
        Outcome { best: None, score: bounded(eval.score(pos), SCORE_LIMIT as int), cache }
    } else if moves.len() == 0 {
        Outcome {
            best: None,
            score: if in_check(pos.squares, pos.to_move) {
                -MATE_SCORE
            } else {
                0
            },
            cache,
        }
    } else if pos.plies >= PLY_LIMIT {
        Outcome { best: None, score: 0, cache }
    } else {
        scan_outcome(eval, pos, depth, cache, moves, moves.len() as nat)
    }
}

/// The search of `pos` after the first `n` of `moves` have been tried.
///
/// What the position after a move is worth to the other side is read from
/// the cache where its key is filed there (cut down to `MATE_SCORE`);
/// where it is not, it is searched one ply less deep and filed. A move
/// becomes the best when it is the first, or scores higher than the best
/// so far.
pub open spec fn scan_outcome<E: Evaluator>(
    eval: &E,
    pos: Position,
    depth: nat,
    cache: Map<PositionKey, i32>,
    moves: Seq<Ply>,
    n: nat,
) -> Outcome
    decreases depth, 0nat, n,
{
    if n == 0 || depth == 0 {
        Outcome { best: None, score: -MATE_SCORE - 1, cache }
    } else {
        let earlier = scan_outcome(eval, pos, depth, cache, moves, (n - 1) as nat);
        let ply = moves[n - 1];
        let next = after(pos, ply);
        let key = key_of(next.squares, next.to_move);
        let known = earlier.cache.contains_key(key);
        let deeper = search_outcome(eval, next, (depth - 1) as nat, earlier.cache);
        let worth = if known {
            bounded(earlier.cache[key] as int, MATE_SCORE as int)
        } else {
            deeper.score
        };
        let filed = if known {
            earlier.cache
        } else {
            deeper.cache.insert(key, deeper.score as i32)
        };
        if earlier.best is None || -worth > earlier.score {
            Outcome { best: Some(ply), score: -worth, cache: filed }
        } else {
            Outcome { best: earlier.best, score: earlier.score, cache: filed }
        }
    }
}

/// Searches the game to `depth` plies and returns the best move for the side
/// to move, if the search found one, with the score of the position for that
/// side. Scores filed in `cache` are used in place of a deeper search, and
/// what the search works out is filed there. The game is afterwards what it
/// was before.
pub fn search<E: Evaluator>(game: &mut Game, depth: u8, eval: &E, cache: &mut EvalCache) -> (found:
    (Option<Ply>, i32))
    ensures
        *final(game) == *old(game),
        found.0 == search_outcome(eval, old(game)@, depth as nat, old(cache)@).best,
        found.1 == search_outcome(eval, old(game)@, depth as nat, old(cache)@).score,
        final(cache)@ == search_outcome(eval, old(game)@, depth as nat, old(cache)@).cache,
        -MATE_SCORE <= found.1 <= MATE_SCORE,
    decreases depth,
{
    if depth == 0 {
        let value = eval.evaluate(game);
        return (None, clamp(value, SCORE_LIMIT));
    }
    let mover = game.current_player();
    let moves = game.get_legal_moves_for(mover);
    if moves.len() == 0 {
        let score = if game.in_check(mover) {
            -MATE_SCORE
        } else {
            0
        };
        return (None, score);
    }
    if game.plies() >= PLY_LIMIT {
        return (None, 0);
    }
    let snapshot = *game;
    let ghost pos = game@;
    let ghost start = cache@;
    let mut best: Option<Ply> = None;
    let mut score: i32 = -MATE_SCORE - 1;
    let mut i: usize = 0;
    while i < moves.len()
        invariant
            i <= moves.len(),
            depth > 0,
            *game == *old(game),
            snapshot == *old(game),
            pos == old(game)@,
            moves@ == all_moves(pos, pos.to_move),
            -MATE_SCORE - 1 <= score <= MATE_SCORE,
            i > 0 ==> -MATE_SCORE <= score,
            scan_outcome(eval, pos, depth as nat, start, moves@, i as nat) == (Outcome {
                best,
                score: score as int,
                cache: cache@,
            }),
        decreases moves.len() - i,
    {
        let ply = moves[i];
        game.advance(ply.0, ply.1);
        let key = position_key(game.board(), game.current_player());
        let worth = match cache.get(key) {
            Some(filed) => clamp(filed, MATE_SCORE),
            None => {
                let deeper = search(game, depth - 1, eval, cache);
                cache.insert(key, deeper.1);
                deeper.1
            },
        };
        *game = snapshot;
        if best.is_none() || -worth > score {
            best = Some(ply);
            score = -worth;
        }
        i += 1;
    }
    (best, score)
}

} // verus!
