//! Playing a game ply by ply: who is to move, which move the engine picks,
//! and what one turn does.
use vstd::prelude::*;
use crate::player::Player;
use crate::board::MoveError;
use crate::game::{Game, Mode, apply_outcome};
use crate::cache::{EvalCache, PositionKey};
use crate::search::{Evaluator, Outcome, search, search_outcome, scan_outcome, after};
use crate::position::{Position, Ply, Status, PLY_LIMIT, all_moves, played, concluded, consistent};

verus! {

/// Whether the engine moves the pieces of `player`.
pub open spec fn engine_moves(mode: Mode, player: Player) -> bool {
    match mode {
        Mode::TwoPlayer => false,
        Mode::SinglePlayer(side) => side == player,
        Mode::SelfPlay => true,
    }
}

/// The depth to which the engine searches for a move: the depth asked for,
/// and one ply where none is asked for.
pub open spec fn working_depth(depth: u8) -> nat {
    if depth == 0 {
        1
    } else {
        depth as nat
    }
}

/// The position after `ply` has been played and its outcome recorded.
pub open spec fn after_played(pos: Position, ply: Ply) -> Position {
    played(pos, ply.0.0 as int, ply.0.1 as int, ply.1.0 as int, ply.1.1 as int)
}

/// The move that the engine picks, and the cache as picking leaves it. With
/// a draw `r` the pick is the legal move of index `r` modulo their number,
/// and the cache is not touched; without one it is the best move of a
/// search to the working depth.
pub open spec fn picked<E: Evaluator>(
    eval: &E,
    pos: Position,
    depth: u8,
    cache: Map<PositionKey, i32>,
    draw: Option<u64>,
) -> Outcome {
    let moves = all_moves(pos, pos.to_move);
    match draw {
        Some(r) => Outcome {
            best: if moves.len() > 0 {
                Some(moves[r as int % moves.len() as int])
            } else {
                None
            },
            score: 0,
            cache,
        },
        None => {
            let found = search_outcome(eval, pos, working_depth(depth), cache);
            Outcome { best: found.best, score: 0, cache: found.cache }
        },
    }
}

/// What a turn comes to: the answer, the position and the cache after it.
pub struct TurnOutcome {
    pub answer: Result<bool, MoveError>,
    pub position: Position,
    pub cache: Map<PositionKey, i32>,
}

/// What one turn does.
///
/// With a board that does not hold one king of each side the turn fails
/// with `InconsistentState`. In a game that is over nothing happens, and the
/// answer is `true`. Where the engine is to move, the move it picks is
/// played. Where a side moved from outside is to move, the requested move is
/// played if it is legal; if it is not, or none is requested, the turn fails
/// and nothing changes. After a move the answer says whether the game is
/// over.
pub open spec fn turn_outcome<E: Evaluator>(
    eval: &E,
    pos: Position,
    mode: Mode,
    depth: u8,
    cache: Map<PositionKey, i32>,
    request: Option<Ply>,
    draw: Option<u64>,
) -> TurnOutcome {
    if !consistent(pos.squares) {
        TurnOutcome { answer: Err(MoveError::InconsistentState), position: pos, cache }
    } else if concluded(pos) {
        TurnOutcome { answer: Ok(true), position: pos, cache }
    } else if engine_moves(mode, pos.to_move) {
        let pick = picked(eval, pos, depth, cache, draw);
        match pick.best {
            Some(ply) => TurnOutcome {
                answer: Ok(concluded(after_played(pos, ply))),
                position: after_played(pos, ply),
                cache: pick.cache,
            },
            None => TurnOutcome {
                answer: Err(MoveError::IllegalMove),
                position: pos,
                cache: pick.cache,
            },
        }
    } else {
        match request {
            Some(ply) => match apply_outcome(
                pos,
                ply.0.0 as int,
                ply.0.1 as int,
                ply.1.0 as int,
                ply.1.1 as int,
            ) {
                Ok(_) => TurnOutcome {
                    answer: Ok(concluded(after_played(pos, ply))),
                    position: after_played(pos, ply),
                    cache,
                },
                Err(error) => TurnOutcome { answer: Err(error), position: pos, cache },
            },
            None => TurnOutcome { answer: Err(MoveError::IllegalMove), position: pos, cache },
        }
    }
}

/// Where the engine is to move in a game that is not over, it finds a move:
/// a search that tries at least one move has a best move.
pub proof fn lemma_scan_finds<E: Evaluator>(
    eval: &E,
    pos: Position,
    depth: nat,
    cache: Map<PositionKey, i32>,
    moves: Seq<Ply>,
    n: nat,
)
    requires
        depth > 0,
        0 < n <= moves.len(),
    ensures
        scan_outcome(eval, pos, depth, cache, moves, n).best is Some,
        exists|i: int|
            0 <= i < n && scan_outcome(eval, pos, depth, cache, moves, n).best == Some(
                #[trigger] moves[i],
            ),
    decreases n,
{
    if n > 1 {
        lemma_scan_finds(eval, pos, depth, cache, moves, (n - 1) as nat);
    }
    let found = scan_outcome(eval, pos, depth, cache, moves, n).best;
    let earlier = scan_outcome(eval, pos, depth, cache, moves, (n - 1) as nat).best;
    if found == Some(moves[n - 1]) {
    } else {
        assert(found == earlier);
    }
}

/// In a game that is not over the engine always has a move to play, and it
/// is one of the legal moves of the side to move.
pub proof fn lemma_pick_exists<E: Evaluator>(
    eval: &E,
    pos: Position,
    depth: u8,
    cache: Map<PositionKey, i32>,
    draw: Option<u64>,
)
    requires
        !concluded(pos),
    ensures
        picked(eval, pos, depth, cache, draw).best is Some,
        all_moves(pos, pos.to_move).contains(picked(eval, pos, depth, cache, draw).best->0),
{
    let moves = all_moves(pos, pos.to_move);
    assert(moves.len() > 0 && pos.plies < PLY_LIMIT);
    match draw {
        Some(r) => {
            let i = r as int % moves.len() as int;
            assert(0 <= i < moves.len());
        },
        None => {
            lemma_scan_finds(eval, pos, working_depth(depth), cache, moves, moves.len());
        },
    }
}

impl Game {
    /// Whether the engine moves the pieces of the side to move.
    pub fn engine_to_move(&self) -> (engine: bool)
        ensures
            engine == engine_moves(self.spec_mode(), self@.to_move),
    {
        match self.mode() {
            Mode::TwoPlayer => false,
            Mode::SinglePlayer(side) => side == self.current_player(),
            Mode::SelfPlay => true,
        }
    }

    /// The move that the engine picks for the side to move: with a draw `r`
    /// the legal move of index `r` modulo their number, without one the best
    /// move that a search to the depth of the game finds (to one ply where
    /// that depth is 0). `None` where the side to move has no move. The game
    /// is afterwards what it was before.
    pub fn choose_move<E: Evaluator>(
        &mut self,
        eval: &E,
        cache: &mut EvalCache,
        draw: Option<u64>,
    ) -> (pick: Option<Ply>)
        ensures
            *final(self) == *old(self),
            pick == picked(eval, old(self)@, old(self).spec_search_depth(), old(cache)@, draw).best,
            final(cache)@ == picked(
                eval,
                old(self)@,
                old(self).spec_search_depth(),
                old(cache)@,
                draw,
            ).cache,
    {
        match draw {
            Some(r) => {
                let mover = self.current_player();
                let moves = self.get_legal_moves_for(mover);
                if moves.len() > 0 {
                    let i = (r % (moves.len() as u64)) as usize;
                    Some(moves[i])
                } else {
                    None
                }
            },
            None => {
                let depth = if self.search_depth() == 0 {
                    1
                } else {
                    self.search_depth()
                };
                let found = search(self, depth, eval, cache);
                found.0
            },
        }
    }

    /// The move that the engine would play in the place of the side to
    /// move, where the game allows hints; `None` where it does not, or where
    /// there is no move. The game is afterwards what it was before.
    pub fn hint<E: Evaluator>(&mut self, eval: &E, cache: &mut EvalCache) -> (advice: Option<Ply>)
        ensures
            *final(self) == *old(self),
            old(self).spec_allow_hints() ==> advice == picked(
                eval,
                old(self)@,
                old(self).spec_search_depth(),
                old(cache)@,
                None,
            ).best && final(cache)@ == picked(
                eval,
                old(self)@,
                old(self).spec_search_depth(),
                old(cache)@,
                None,
            ).cache,
            !old(self).spec_allow_hints() ==> advice is None && final(cache)@ == old(cache)@,
    {
        if self.allow_hints() {
            self.choose_move(eval, cache, None)
        } else {
            None
        }
    }

    /// Plays one ply and says whether the game is over.
    ///
    /// Where the engine is to move it picks the move (see `choose_move`;
    /// `request` is not looked at). Where a side moved from outside is to
    /// move, `request` is played if it is legal; an illegal or missing
    /// request fails with the error of `apply_move` and changes nothing. In
    /// a game that is already over nothing happens and the answer is `true`.
    pub fn turn<E: Evaluator>(
        &mut self,
        request: Option<Ply>,
        eval: &E,
        cache: &mut EvalCache,
        draw: Option<u64>,
    ) -> (answer: Result<bool, MoveError>)
        ensures
            final(self).same_setup(old(self)),
            answer == turn_outcome(
                eval,
                old(self)@,
                old(self).spec_mode(),
                old(self).spec_search_depth(),
                old(cache)@,
                request,
                draw,
            ).answer,
            final(self)@ == turn_outcome(
                eval,
                old(self)@,
                old(self).spec_mode(),
                old(self).spec_search_depth(),
                old(cache)@,
                request,
                draw,
            ).position,
            final(cache)@ == turn_outcome(
                eval,
                old(self)@,
                old(self).spec_mode(),
                old(self).spec_search_depth(),
                old(cache)@,
                request,
                draw,
            ).cache,
    {
        if !self.is_consistent() {
            return Err(MoveError::InconsistentState);
        }
        if self.is_over() {
            return Ok(true);
        }
        if self.engine_to_move() {
            match self.choose_move(eval, cache, draw) {
                Some(ply) => {
                    let standing = self.commit(ply.0, ply.1);
                    Ok(is_final(standing))
                },
                None => Err(MoveError::IllegalMove),
            }
        } else {
            match request {
                Some(ply) => match self.apply_move(ply.0, ply.1) {
                    Ok(standing) => Ok(is_final(standing)),
                    Err(error) => Err(error),
                },
                None => Err(MoveError::IllegalMove),
            }
        }
    }
}

/// Whether a game that stands so is over.
pub fn is_final(standing: Status) -> (over: bool)
    ensures
        over == !(standing is AwaitingMove || standing is InCheck),
{
    match standing {
        Status::AwaitingMove(_) => false,
        Status::InCheck(_) => false,
        _ => true,
    }
}

/// What `launch_game` comes to when the engine may still play `budget`
/// plies: the engine plays turn after turn while it is to move; the run
/// ends with the answer of the first turn that does not say "not over", or,
/// where a side moved from outside is to move or the budget is used up,
/// with whether the game is over.
pub open spec fn engine_run<E: Evaluator>(
    eval: &E,
    pos: Position,
    mode: Mode,
    depth: u8,
    cache: Map<PositionKey, i32>,
    budget: nat,
) -> TurnOutcome
    decreases budget,
{
    if budget == 0 || !engine_moves(mode, pos.to_move) {
        TurnOutcome {
            answer: if consistent(pos.squares) {
                Ok(concluded(pos))
            } else {
                Err(MoveError::InconsistentState)
            },
            position: pos,
            cache,
        }
    } else {
        let turn = turn_outcome(eval, pos, mode, depth, cache, None, None);
        if turn.answer == Ok::<bool, MoveError>(false) {
            engine_run(eval, turn.position, mode, depth, turn.cache, (budget - 1) as nat)
        } else {
            turn
        }
    }
}

/// Lets the engine play: turn after turn while the engine is to move and
/// the game is not over, at most `PLY_LIMIT` plies. The answer is `true`
/// where the game is over and `false` where it is not (a side moved from
/// outside is to move); a board without exactly one king of each side gives
/// `InconsistentState`.
pub fn launch_game<E: Evaluator>(game: &mut Game, eval: &E, cache: &mut EvalCache) -> (answer:
    Result<bool, MoveError>)
    ensures
        final(game).same_setup(old(game)),
        answer == engine_run(
            eval,
            old(game)@,
            old(game).spec_mode(),
            old(game).spec_search_depth(),
            old(cache)@,
            PLY_LIMIT as nat,
        ).answer,
        final(game)@ == engine_run(
            eval,
            old(game)@,
            old(game).spec_mode(),
            old(game).spec_search_depth(),
            old(cache)@,
            PLY_LIMIT as nat,
        ).position,
        final(cache)@ == engine_run(
            eval,
            old(game)@,
            old(game).spec_mode(),
            old(game).spec_search_depth(),
            old(cache)@,
            PLY_LIMIT as nat,
        ).cache,
{
    let mut budget: u32 = PLY_LIMIT;
    while budget > 0 && game.engine_to_move()
        invariant
            game.same_setup(old(game)),
            engine_run(
                eval,
                old(game)@,
                old(game).spec_mode(),
                old(game).spec_search_depth(),
                old(cache)@,
                PLY_LIMIT as nat,
            ) == engine_run(
                eval,
                game@,
                game.spec_mode(),
                game.spec_search_depth(),
                cache@,
                budget as nat,
            ),
        decreases budget,
    {
        let answer = game.turn(None, eval, cache, None);
        match answer {
            Ok(false) => {},
            _ => {
                return answer;
            },
        }
        budget -= 1;
    }
    if game.is_consistent() {
        Ok(game.is_over())
    } else {
        Err(MoveError::InconsistentState)
    }
}

} // verus!
