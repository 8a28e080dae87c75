//! The game: a board, the side to move, castling marks and the rules that
//! change them.
use vstd::prelude::*;
use crate::player::Player;
use crate::piece::{Piece, Square};
use crate::board::{Board, MoveError, standard_squares, lemma_undo_restores, gap};
use crate::position::{
    Position, CastlingRights, Status, Ply, PLY_LIMIT, all_moves, moves_upto, moves_at, from_square,
    advance, status, lemma_status_ignores_winner, rights_after, played, legal, consistent,
    kings_upto, concluded,
};
use crate::rules::{
    on_board, piece_at, vacant, open_to, straight, diagonal, clear_between, in_check, exposes,
    admissible,
};

verus! {

/// Who moves the pieces.
#[derive(Clone, Copy, Debug, PartialEq, Eq, Structural)]
pub enum Mode {
    /// Both sides are moved from outside.
    TwoPlayer,
    /// The named side is moved by the engine, the other from outside.
    SinglePlayer(Player),
    /// Both sides are moved by the engine.
    SelfPlay,
}

/// The depth to which the engine searches where none is asked for.
pub const DEFAULT_SEARCH_DEPTH: u8 = 3;

/// A game in progress.
#[derive(Clone, Copy, Debug, PartialEq, Eq)]
pub struct Game {
    board: Board,
    current: Player,
    rights_one: CastlingRights,
    rights_two: CastlingRights,
    plies: u32,
    winner: Option<Player>,
    mode: Mode,
    allow_hints: bool,
    search_depth: u8,
}

impl View for Game {
    type V = Position;

    closed spec fn view(&self) -> Position {
        Position {
            squares: self.board@,
            to_move: self.current,
            rights_one: self.rights_one,
            rights_two: self.rights_two,
            plies: self.plies as nat,
            winner: self.winner,
        }
    }
}

/// No mark set: neither the king nor a rook has moved.
pub open spec fn fresh_rights() -> CastlingRights {
    CastlingRights { king_moved: false, left_rook_moved: false, right_rook_moved: false }
}

/// The position from which every game starts: the standard board, side `One`
/// to move, nothing moved, no ply played, no winner.
pub open spec fn initial_position() -> Position {
    Position {
        squares: standard_squares(),
        to_move: Player::One,
        rights_one: fresh_rights(),
        rights_two: fresh_rights(),
        plies: 0,
        winner: None,
    }
}

/// What `apply_move` answers to a move from `(fx, fy)` to `(tx, ty)`.
pub open spec fn apply_outcome(pos: Position, fx: int, fy: int, tx: int, ty: int) -> Result<
    Status,
    MoveError,
> {
    if !on_board(fx, fy) || !on_board(tx, ty) {
        Err(MoveError::InvalidSquare)
    } else if !consistent(pos.squares) {
        Err(MoveError::InconsistentState)
    } else if !legal(pos, fx, fy, tx, ty) {
        Err(MoveError::IllegalMove)
    } else {
        Ok(status(played(pos, fx, fy, tx, ty)))
    }
}

/// The castling marks of a side after `piece` has gone from `from` to `to`.
pub fn rights_after_move(rights: CastlingRights, piece: Piece, from: Square, to: Square) -> (after:
    CastlingRights)
    ensures
        after == rights_after(
            rights,
            piece,
            from.0 as int,
            from.1 as int,
            to.0 as int,
            to.1 as int,
        ),
{
    match piece {
        Piece::King(_) => {
            let castling = to.1 == from.1 && gap(from.0, to.0) == 2;
            CastlingRights {
                king_moved: true,
                left_rook_moved: rights.left_rook_moved || (castling && to.0 < from.0),
                right_rook_moved: rights.right_rook_moved || (castling && to.0 > from.0),
            }
        },
        Piece::Rook(rook) => {
            let home = rook.player().home_rank();
            CastlingRights {
                king_moved: rights.king_moved,
                left_rook_moved: rights.left_rook_moved || (from.0 == 0 && from.1 == home),
                right_rook_moved: rights.right_rook_moved || (from.0 == 7 && from.1 == home),
            }
        },
        _ => rights,
    }
}

/// Whether `square` is among `squares`.
pub fn contains_square(squares: &Vec<Square>, square: Square) -> (found: bool)
    ensures
        found == squares@.contains(square),
{
    let mut i: usize = 0;
    while i < squares.len()
        invariant
            i <= squares.len(),
            forall|j: int| 0 <= j < i ==> squares@[j] != square,
        decreases squares.len() - i,
    {
        if squares[i].0 == square.0 && squares[i].1 == square.1 {
            return true;
        }
        i += 1;
    }
    false
}

impl Game {
    /// The two games are set up alike: the same sides are moved by the
    /// engine, to the same depth, with the same leave to give hints.
    pub open spec fn same_setup(&self, other: &Game) -> bool {
        &&& self.spec_mode() == other.spec_mode()
        &&& self.spec_allow_hints() == other.spec_allow_hints()
        &&& self.spec_search_depth() == other.spec_search_depth()
    }

    /// Who moves the pieces.
    pub closed spec fn spec_mode(&self) -> Mode {
        self.mode
    }

    /// Whether hints may be given to the players.
    pub closed spec fn spec_allow_hints(&self) -> bool {
        self.allow_hints
    }

    /// The depth to which the engine searches.
    pub closed spec fn spec_search_depth(&self) -> u8 {
        self.search_depth
    }

    /// The board of a game has 64 squares.
    pub proof fn lemma_view_wf(&self)
        ensures
            self@.wf(),
    {
    }

    /// Two games are the same when they stand alike and are set up alike.
    pub proof fn lemma_same(&self, other: &Game)
        requires
            self@ == other@,
            self.spec_mode() == other.spec_mode(),
            self.spec_allow_hints() == other.spec_allow_hints(),
            self.spec_search_depth() == other.spec_search_depth(),
        ensures
            *self == *other,
    {
        assert(self.board.squares =~= other.board.squares);
    }

    fn start(mode: Mode, allow_hints: bool, search_depth: u8) -> (game: Game)
        ensures
            game@ == initial_position(),
            game.spec_mode() == mode,
            game.spec_allow_hints() == allow_hints,
            game.spec_search_depth() == search_depth,
    {
        let fresh = CastlingRights {
            king_moved: false,
            left_rook_moved: false,
            right_rook_moved: false,
        };
        Game {
            board: Board::standard(),
            current: Player::One,
            rights_one: fresh,
            rights_two: fresh,
            plies: 0,
            winner: None,
            mode,
            allow_hints,
            search_depth,
        }
    }

    /// A game in which both sides are moved from outside.
    pub fn two_player_game(allow_hints: bool) -> (game: Game)
        ensures
            game@ == initial_position(),
            game.spec_mode() == Mode::TwoPlayer,
            game.spec_allow_hints() == allow_hints,
            game.spec_search_depth() == DEFAULT_SEARCH_DEPTH,
    {
        Game::start(Mode::TwoPlayer, allow_hints, DEFAULT_SEARCH_DEPTH)
    }

    /// A game in which the engine moves `computer_player` and searches to
    /// `search_depth`, or to the default depth where none is given. With no
    /// side for the engine the game is a two-player game.
    pub fn single_player_game(computer_player: Option<Player>, search_depth: Option<u8>) -> (game:
        Game)
        ensures
            game@ == initial_position(),
            game.spec_mode() == (match computer_player {
                Some(side) => Mode::SinglePlayer(side),
                None => Mode::TwoPlayer,
            }),
            game.spec_allow_hints() == false,
            game.spec_search_depth() == (match search_depth {
                Some(depth) => depth,
                None => DEFAULT_SEARCH_DEPTH,
            }),
    {
        let mode = match computer_player {
            Some(side) => Mode::SinglePlayer(side),
            None => Mode::TwoPlayer,
        };
        let depth = match search_depth {
            Some(depth) => depth,
            None => DEFAULT_SEARCH_DEPTH,
        };
        Game::start(mode, false, depth)
    }

    /// A game in which the engine moves both sides and searches to
    /// `search_depth`, or to the default depth where none is given.
    pub fn self_play(search_depth: Option<u8>) -> (game: Game)
        ensures
            game@ == initial_position(),
            game.spec_mode() == Mode::SelfPlay,
            game.spec_allow_hints() == false,
            game.spec_search_depth() == (match search_depth {
                Some(depth) => depth,
                None => DEFAULT_SEARCH_DEPTH,
            }),
    {
        let depth = match search_depth {
            Some(depth) => depth,
            None => DEFAULT_SEARCH_DEPTH,
        };
        Game::start(Mode::SelfPlay, false, depth)
    }

    /// Who moves the pieces.
    pub fn mode(&self) -> (mode: Mode)
        ensures
            mode == self.spec_mode(),
    {
        self.mode
    }

    /// Whether hints may be given to the players.
    pub fn allow_hints(&self) -> (allowed: bool)
        ensures
            allowed == self.spec_allow_hints(),
    {
        self.allow_hints
    }

    /// The depth to which the engine searches.
    pub fn search_depth(&self) -> (depth: u8)
        ensures
            depth == self.spec_search_depth(),
    {
        self.search_depth
    }

    /// The board as it stands.
    pub fn board(&self) -> (board: &Board)
        ensures
            board@ == self@.squares,
    {
        &self.board
    }

    /// The side to move.
    pub fn current_player(&self) -> (player: Player)
        ensures
            player == self@.to_move,
    {
        self.current
    }

    /// The number of plies played, counted up to `PLY_LIMIT`.
    pub fn plies(&self) -> (count: u32)
        ensures
            count == self@.plies,
    {
        self.plies
    }

    /// The winner recorded by the last move played: the side that gave
    /// checkmate with it, if it did.
    pub fn winner(&self) -> (winner: Option<Player>)
        ensures
            winner == self@.winner,
    {
        self.winner
    }

    /// Replaces the board. Nothing else changes.
    pub fn set_board(&mut self, board: Board)
        ensures
            final(self)@ == (Position { squares: board@, ..old(self)@ }),
            final(self).spec_mode() == old(self).spec_mode(),
            final(self).spec_allow_hints() == old(self).spec_allow_hints(),
            final(self).spec_search_depth() == old(self).spec_search_depth(),
    {
        self.board = board;
    }

    /// Makes `player` the side to move. Nothing else changes.
    pub fn set_player(&mut self, player: Player)
        ensures
            final(self)@ == (Position { to_move: player, ..old(self)@ }),
            final(self).spec_mode() == old(self).spec_mode(),
            final(self).spec_allow_hints() == old(self).spec_allow_hints(),
            final(self).spec_search_depth() == old(self).spec_search_depth(),
    {
        self.current = player;
    }

    /// What stands on `square`; `None` for an empty square and for one beyond
    /// the edge.
    pub fn get(&self, square: Square) -> (found: Option<Piece>)
        ensures
            found == piece_at(self@.squares, square.0 as int, square.1 as int),
    {
        self.board.get(square)
    }

    /// Whether `square` is a square of the board with nothing on it.
    pub fn square_is_none(&self, square: Square) -> (empty: bool)
        ensures
            empty == vacant(self@.squares, square.0 as int, square.1 as int),
    {
        self.board.is_empty(square)
    }

    /// Whether `square` is a square of the board that holds no piece of
    /// `player`.
    pub fn is_not_player(&self, square: Square, player: Player) -> (open: bool)
        ensures
            open == open_to(self@.squares, square.0 as int, square.1 as int, player),
    {
        self.board.is_not_player(square, player)
    }

    /// Whether `from` and `to` are two squares of one file or one rank with
    /// nothing between them.
    pub fn check_horiz(&self, from: Square, to: Square) -> (clear: bool)
        ensures
            clear == (on_board(from.0 as int, from.1 as int) && on_board(
                to.0 as int,
                to.1 as int,
            ) && straight(to.0 - from.0, to.1 - from.1) && clear_between(
                self@.squares,
                from.0 as int,
                from.1 as int,
                to.0 as int,
                to.1 as int,
            )),
    {
        self.board.check_horiz(from, to)
    }

    /// Whether `from` and `to` are two squares of one diagonal with nothing
    /// between them.
    pub fn check_diag(&self, from: Square, to: Square) -> (clear: bool)
        ensures
            clear == (on_board(from.0 as int, from.1 as int) && on_board(
                to.0 as int,
                to.1 as int,
            ) && diagonal(to.0 - from.0, to.1 - from.1) && clear_between(
                self@.squares,
                from.0 as int,
                from.1 as int,
                to.0 as int,
                to.1 as int,
            )),
    {
        self.board.check_diag(from, to)
    }

    /// The castling marks of `player`.
    pub fn rights(&self, player: Player) -> (rights: CastlingRights)
        ensures
            rights == self@.rights(player),
    {
        match player {
            Player::One => self.rights_one,
            Player::Two => self.rights_two,
        }
    }

    /// Whether the king of `player` has moved at any time in this game.
    pub fn has_king_moved(&self, player: Player) -> (moved: bool)
        ensures
            moved == self@.rights(player).king_moved,
    {
        self.rights(player).king_moved
    }

    /// Whether the rook of `player` that started on file 0 has moved at any
    /// time in this game.
    pub fn has_left_rook_moved(&self, player: Player) -> (moved: bool)
        ensures
            moved == self@.rights(player).left_rook_moved,
    {
        self.rights(player).left_rook_moved
    }

    /// Whether the rook of `player` that started on file 7 has moved at any
    /// time in this game.
    pub fn has_right_rook_moved(&self, player: Player) -> (moved: bool)
        ensures
            moved == self@.rights(player).right_rook_moved,
    {
        self.rights(player).right_rook_moved
    }

    /// Whether `piece`, taken to stand on `from`, may go to `to`: it reaches
    /// the square, its own side does not hold it, and no king of its side is
    /// left attacked. The game is afterwards what it was before.
    pub fn admits(&mut self, piece: Piece, from: Square, to: Square) -> (ok: bool)
        ensures
            ok == admissible(
                old(self)@.squares,
                piece,
                from.0 as int,
                from.1 as int,
                to.0 as int,
                to.1 as int,
            ),
            *final(self) == *old(self),
    {
        let owner = piece.player();
        piece.reaches(from, to, &self.board) && self.board.is_not_player(to, owner)
            && !self.try_move_for_check(from, to, owner)
    }

    /// Whether a king of `player` is reached by a piece of the other side.
    pub fn in_check(&self, player: Player) -> (checked: bool)
        ensures
            checked == in_check(self@.squares, player),
    {
        self.board.in_check(player)
    }

    /// Whether carrying whatever stands on `from` to `to` would leave a king
    /// of `player` attacked. The move is made on the board, the answer is
    /// read off, and the move is taken back: the game is afterwards what it
    /// was before, whatever the three arguments are.
    pub fn try_move_for_check(&mut self, from: Square, to: Square, player: Player) -> (exposed:
        bool)
        ensures
            exposed == exposes(
                old(self)@.squares,
                player,
                from.0 as int,
                from.1 as int,
                to.0 as int,
                to.1 as int,
            ),
            *final(self) == *old(self),
    {
        let undo = self.board.make_move(from, to);
        let exposed = self.board.in_check(player);
        self.board.undo(undo);
        proof {
            lemma_undo_restores(old(self).board@, from, to);
            assert(self.board.squares =~= old(self).board.squares);
        }
        exposed
    }

    /// All legal moves of `player`, whether or not it is that side's turn:
    /// square by square from file 0 of rank 0 to file 7 of rank 7, for each
    /// piece of `player` its legal destinations in the order in which the
    /// piece lists them. The game is afterwards what it was before.
    pub fn get_legal_moves_for(&mut self, player: Player) -> (moves: Vec<Ply>)
        ensures
            moves@ == all_moves(old(self)@, player),
            *final(self) == *old(self),
    {
        let mut moves: Vec<Ply> = Vec::new();
        let mut i: u8 = 0;
        while i < 64
            invariant
                i <= 64,
                *self == *old(self),
                moves@ == moves_upto(old(self)@, player, i as int),
            decreases 64 - i,
        {
            let from: Square = (i % 8, i / 8);
            let ghost base = moves@;
            match self.board.squares[i as usize] {
                Some(piece) => {
                    if piece.player() == player {
                        let found = piece.get_legal_moves(from, self);
                        let mut j: usize = 0;
                        while j < found.len()
                            invariant
                                j <= found.len(),
                                moves@ == base + from_square(from, found@.take(j as int)),
                            decreases found.len() - j,
                        {
                            moves.push((from, found[j]));
                            j += 1;
                        }
                    }
                },
                None => {},
            }
            i += 1;
        }
        moves
    }

    /// How the game stands for the side to move. The game is afterwards what
    /// it was before.
    pub fn status(&mut self) -> (standing: Status)
        ensures
            standing == status(old(self)@),
            *final(self) == *old(self),
    {
        let mover = self.current;
        let moves = self.get_legal_moves_for(mover);
        let stuck = moves.len() == 0;
        let checked = self.board.in_check(mover);
        if stuck && checked {
            Status::Checkmate(mover.opponent())
        } else if stuck {
            Status::Stalemate
        } else if self.plies >= PLY_LIMIT {
            Status::Drawn
        } else if checked {
            Status::InCheck(mover)
        } else {
            Status::AwaitingMove(mover)
        }
    }

    /// Whether the game is over: checkmate, stalemate or a draw. The game is
    /// afterwards what it was before.
    pub fn is_over(&mut self) -> (over: bool)
        ensures
            over == concluded(old(self)@),
            *final(self) == *old(self),
    {
        match self.status() {
            Status::AwaitingMove(_) => false,
            Status::InCheck(_) => false,
            _ => true,
        }
    }

    /// How many kings of `player` stand on the board.
    pub fn count_kings(&self, player: Player) -> (count: u8)
        ensures
            count == kings_upto(self@.squares, player, 64),
    {
        let mut count: u8 = 0;
        let mut i: u8 = 0;
        while i < 64
            invariant
                i <= 64,
                count <= i,
                count == kings_upto(self@.squares, player, i as int),
            decreases 64 - i,
        {
            match self.board.squares[i as usize] {
                Some(Piece::King(king)) => {
                    if king.player() == player {
                        count += 1;
                    }
                },
                _ => {},
            }
            i += 1;
        }
        count
    }

    /// Moves the piece on `from` to `to` without asking whether the move is
    /// legal: the piece is carried over and marked as moved, a king that goes
    /// two files along its rank takes its rook along, the mover's castling
    /// marks are brought up to date, the other side is to move and the ply is
    /// counted. Where no piece stands on `from`, a coordinate is beyond the
    /// edge, or `from` is `to`, nothing happens.
    pub fn advance(&mut self, from: Square, to: Square)
        ensures
            final(self)@ == advance(
                old(self)@,
                from.0 as int,
                from.1 as int,
                to.0 as int,
                to.1 as int,
            ),
            final(self).spec_mode() == old(self).spec_mode(),
            final(self).spec_allow_hints() == old(self).spec_allow_hints(),
            final(self).spec_search_depth() == old(self).spec_search_depth(),
    {
        if !(from.0 < 8 && from.1 < 8 && to.0 < 8 && to.1 < 8) || (from.0 == to.0 && from.1
            == to.1) {
            return ;
        }
        match self.board.get(from) {
            Some(piece) => {
                let mover = piece.player();
                let rights = rights_after_move(self.rights(mover), piece, from, to);
                let castling = match piece {
                    Piece::King(_) => to.1 == from.1 && gap(from.0, to.0) == 2,
                    _ => false,
                };
                self.board.relocate(from, to);
                if castling {
                    let corner: u8 = if to.0 < from.0 {
                        0
                    } else {
                        7
                    };
                    let landing: u8 = if to.0 < from.0 {
                        from.0 - 1
                    } else {
                        from.0 + 1
                    };
                    self.board.relocate((corner, from.1), (landing, from.1));
                }
                match mover {
                    Player::One => {
                        self.rights_one = rights;
                    },
                    Player::Two => {
                        self.rights_two = rights;
                    },
                }
                self.current = self.current.opponent();
                if self.plies < PLY_LIMIT {
                    self.plies = self.plies + 1;
                }
            },
            None => {},
        }
    }

    /// Plays the move from `from` to `to` for the side to move and says how
    /// the game then stands.
    ///
    /// The move is refused, and the game left as it is, with `InvalidSquare`
    /// where a coordinate is beyond the edge; otherwise with
    /// `InconsistentState` where the board does not hold exactly one king of
    /// each side; otherwise with `IllegalMove` where `to` is not among the
    /// legal destinations of a piece of the side to move on `from`.
    /// Otherwise the move is made as `advance` makes it, and the winner is
    /// recorded if the move gave checkmate.
    pub fn apply_move(&mut self, from: Square, to: Square) -> (outcome: Result<Status, MoveError>)
        ensures
            outcome == apply_outcome(
                old(self)@,
                from.0 as int,
                from.1 as int,
                to.0 as int,
                to.1 as int,
            ),
            outcome is Ok ==> final(self)@ == played(
                old(self)@,
                from.0 as int,
                from.1 as int,
                to.0 as int,
                to.1 as int,
            ),
            outcome is Err ==> final(self)@ == old(self)@,
            final(self).spec_mode() == old(self).spec_mode(),
            final(self).spec_allow_hints() == old(self).spec_allow_hints(),
            final(self).spec_search_depth() == old(self).spec_search_depth(),
    {
        if !(from.0 < 8 && from.1 < 8 && to.0 < 8 && to.1 < 8) {
            return Err(MoveError::InvalidSquare);
        }
        if self.count_kings(Player::One) != 1 || self.count_kings(Player::Two) != 1 {
            return Err(MoveError::InconsistentState);
        }
        let allowed = match self.board.get(from) {
            Some(piece) => {
                if piece.player() == self.current {
                    let found = piece.get_legal_moves(from, self);
                    contains_square(&found, to)
                } else {
                    false
                }
            },
            None => false,
        };
        if !allowed {
            return Err(MoveError::IllegalMove);
        }
        Ok(self.commit(from, to))
    }

    /// Makes the move from `from` to `to` as `advance` makes it, records the
    /// winner if the move gave checkmate and forgets the winner recorded
    /// before if it did not, and says how the game then stands. Whether the
    /// move is legal is not asked.
    pub fn commit(&mut self, from: Square, to: Square) -> (standing: Status)
        ensures
            final(self)@ == played(
                old(self)@,
                from.0 as int,
                from.1 as int,
                to.0 as int,
                to.1 as int,
            ),
            standing == status(final(self)@),
            final(self).same_setup(old(self)),
    {
        self.advance(from, to);
        let standing = self.status();
        self.winner = match standing {
            Status::Checkmate(winner) => Some(winner),
            _ => None,
        };
        proof {
            let next = advance(
                old(self)@,
                from.0 as int,
                from.1 as int,
                to.0 as int,
                to.1 as int,
            );
            lemma_status_ignores_winner(next, self.winner);
        }
        standing
    }

    /// Whether the board holds exactly one king of each side.
    pub fn is_consistent(&self) -> (sound: bool)
        ensures
            sound == consistent(self@.squares),
    {
        self.count_kings(Player::One) == 1 && self.count_kings(Player::Two) == 1
    }
}

} // verus!
