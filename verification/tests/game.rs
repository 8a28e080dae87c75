use chess::board::{Board, MoveError};
use chess::game::{contains_square, rights_after_move, Game, Mode, DEFAULT_SEARCH_DEPTH};
use chess::king::King;
use chess::knight::Knight;
use chess::pawn::Pawn;
use chess::piece::Piece;
use chess::player::Player;
use chess::position::{CastlingRights, Status, PLY_LIMIT};
use chess::queen::Queen;
use chess::rook::Rook;

fn game_with(pieces: Vec<((u8, u8), Piece)>, to_move: Player) -> Game {
    let mut board = Board::empty();
    for (square, piece) in pieces {
        board.place(square, piece).unwrap();
    }
    let mut game = Game::two_player_game(false);
    game.set_board(board);
    game.set_player(to_move);
    game
}

fn fresh() -> CastlingRights {
    CastlingRights { king_moved: false, left_rook_moved: false, right_rook_moved: false }
}

#[test]
fn a_new_game() {
    let game = Game::two_player_game(true);
    assert_eq!(*game.board(), Board::standard());
    assert_eq!(game.current_player(), Player::One);
    assert_eq!(game.winner(), None);
    assert_eq!(game.plies(), 0);
    assert_eq!(game.mode(), Mode::TwoPlayer);
    assert!(game.allow_hints());
    assert_eq!(game.search_depth(), DEFAULT_SEARCH_DEPTH);
    assert_eq!(game.rights(Player::One), fresh());
    assert_eq!(game.rights(Player::Two), fresh());
    assert!(!game.has_king_moved(Player::One));
    assert!(!game.has_left_rook_moved(Player::Two));
    assert!(!game.has_right_rook_moved(Player::Two));
    assert_eq!(game.count_kings(Player::One), 1);
    assert!(game.is_consistent());

    let game = Game::single_player_game(Some(Player::Two), Some(5));
    assert_eq!(game.mode(), Mode::SinglePlayer(Player::Two));
    assert_eq!(game.search_depth(), 5);
    assert!(!game.allow_hints());
    assert_eq!(Game::single_player_game(None, None).mode(), Mode::TwoPlayer);
    assert_eq!(Game::single_player_game(None, None).search_depth(), DEFAULT_SEARCH_DEPTH);

    let game = Game::self_play(None);
    assert_eq!(game.mode(), Mode::SelfPlay);
    assert_eq!(game.search_depth(), DEFAULT_SEARCH_DEPTH);
    assert_eq!(Game::self_play(Some(1)).search_depth(), 1);
    assert_eq!(*game.board(), Board::standard());
}

#[test]
fn twenty_moves_to_start_with() {
    let mut game = Game::two_player_game(false);
    let before = game;
    let white = game.get_legal_moves_for(Player::One);
    let black = game.get_legal_moves_for(Player::Two);
    assert_eq!(white.len(), 20);
    assert_eq!(black.len(), 20);
    // Square by square: the pawns of rank 6 come before the knights of rank 7.
    assert_eq!(white[0], ((0, 6), (0, 5)));
    assert_eq!(white[1], ((0, 6), (0, 4)));
    assert_eq!(white[16], ((1, 7), (2, 5)));
    assert_eq!(white[17], ((1, 7), (0, 5)));
    assert_eq!(white[18], ((6, 7), (7, 5)));
    assert_eq!(white[19], ((6, 7), (5, 5)));
    assert_eq!(black[0], ((1, 0), (2, 2)));
    assert_eq!(black[4], ((0, 1), (0, 2)));
    // Asking for the moves of the side that is not to move changes nothing.
    assert_eq!(game, before);
    assert_eq!(game.status(), Status::AwaitingMove(Player::One));
    assert!(!game.is_over());
}

#[test]
fn probing_a_move_leaves_the_game_as_it_is() {
    let mut positions = vec![Game::two_player_game(false), Game::self_play(Some(2))];
    positions.push(game_with(
        vec![
            ((4, 7), Piece::King(King::new(Player::One))),
            ((4, 5), Piece::Queen(Queen::new(Player::One))),
            ((4, 1), Piece::Rook(Rook::new(Player::Two))),
            ((0, 0), Piece::King(King::new(Player::Two))),
        ],
        Player::Two,
    ));
    let squares = [(0, 0), (4, 7), (4, 5), (4, 1), (3, 3), (7, 7), (4, 6), (8, 0), (0, 8), (200, 13), (255, 255)];
    for game in positions.iter_mut() {
        let before = *game;
        for from in squares {
            for to in squares {
                for player in [Player::One, Player::Two] {
                    game.try_move_for_check(from, to, player);
                    assert_eq!(*game, before);
                    assert!(game.board().same_as(before.board()));
                }
            }
        }
    }
}

#[test]
fn probing_a_move_for_check() {
    let mut game = game_with(
        vec![
            ((4, 7), Piece::King(King::new(Player::One))),
            ((4, 5), Piece::Queen(Queen::new(Player::One))),
            ((4, 1), Piece::Rook(Rook::new(Player::Two))),
            ((0, 0), Piece::King(King::new(Player::Two))),
        ],
        Player::One,
    );
    // The queen shields the king: leaving the file uncovers it.
    assert!(game.try_move_for_check((4, 5), (5, 5), Player::One));
    assert!(!game.try_move_for_check((4, 5), (4, 3), Player::One));
    assert!(!game.try_move_for_check((4, 5), (4, 1), Player::One));
    assert!(!game.try_move_for_check((4, 7), (3, 7), Player::One));
    // The move is made whatever it is: here the rook jumps onto the king's file end.
    assert!(game.try_move_for_check((4, 1), (4, 6), Player::One));
    // A move that cannot be made leaves the board, and the answer is that of the board as it is.
    assert!(!game.try_move_for_check((8, 8), (4, 5), Player::One));
    assert!(!game.try_move_for_check((4, 5), (4, 5), Player::One));
    assert!(!game.try_move_for_check((4, 5), (3, 5), Player::Two));
    // The queen, once off the file, looks down the long diagonal at the other king.
    assert!(game.try_move_for_check((4, 5), (5, 5), Player::Two));
    assert!(game.admits(Piece::Queen(Queen::new(Player::One)), (4, 5), (4, 1)));
    assert!(!game.admits(Piece::Queen(Queen::new(Player::One)), (4, 5), (5, 5)));
    assert!(!game.admits(Piece::Queen(Queen::new(Player::One)), (4, 5), (4, 7)));
    assert!(!game.admits(Piece::Queen(Queen::new(Player::One)), (4, 5), (4, 0)));
}

#[test]
fn refused_moves() {
    let mut game = Game::two_player_game(false);
    let before = game;
    assert_eq!(game.apply_move((4, 6), (4, 3)), Err(MoveError::IllegalMove));
    assert_eq!(game.apply_move((4, 6), (4, 6)), Err(MoveError::IllegalMove));
    // Not this side's turn.
    assert_eq!(game.apply_move((4, 1), (4, 2)), Err(MoveError::IllegalMove));
    // Nothing stands there.
    assert_eq!(game.apply_move((4, 4), (4, 3)), Err(MoveError::IllegalMove));
    // Onto a piece of its own.
    assert_eq!(game.apply_move((0, 7), (0, 6)), Err(MoveError::IllegalMove));
    assert_eq!(game.apply_move((8, 6), (4, 5)), Err(MoveError::InvalidSquare));
    assert_eq!(game.apply_move((4, 6), (4, 8)), Err(MoveError::InvalidSquare));
    assert_eq!(game, before);

    let mut kingless = game_with(vec![((4, 6), Piece::Pawn(Pawn::new(Player::One)))], Player::One);
    let before = kingless;
    assert!(!kingless.is_consistent());
    assert_eq!(kingless.apply_move((4, 6), (4, 5)), Err(MoveError::InconsistentState));
    // A coordinate beyond the edge is refused before anything is looked up.
    assert_eq!(kingless.apply_move((4, 6), (4, 8)), Err(MoveError::InvalidSquare));
    assert_eq!(kingless, before);

    let mut two_kings = game_with(
        vec![
            ((4, 7), Piece::King(King::new(Player::One))),
            ((3, 7), Piece::King(King::new(Player::One))),
            ((4, 0), Piece::King(King::new(Player::Two))),
        ],
        Player::One,
    );
    assert_eq!(two_kings.count_kings(Player::One), 2);
    assert_eq!(two_kings.apply_move((4, 7), (4, 6)), Err(MoveError::InconsistentState));
}

#[test]
fn a_move_that_leaves_the_king_attacked_is_refused() {
    let mut game = game_with(
        vec![
            ((4, 7), Piece::King(King::new(Player::One))),
            ((4, 5), Piece::Queen(Queen::new(Player::One))),
            ((4, 1), Piece::Rook(Rook::new(Player::Two))),
            ((0, 0), Piece::King(King::new(Player::Two))),
        ],
        Player::One,
    );
    assert_eq!(game.apply_move((4, 5), (5, 5)), Err(MoveError::IllegalMove));
    assert_eq!(game.apply_move((4, 5), (4, 1)), Ok(Status::AwaitingMove(Player::Two)));
    assert_eq!(game.get((4, 1)), Some(Piece::Queen(Queen::new(Player::One))));
    assert_eq!(game.get((4, 5)), None);
    assert_eq!(game.current_player(), Player::Two);
    assert_eq!(game.plies(), 1);
}

#[test]
fn fools_mate() {
    let mut game = Game::two_player_game(false);
    assert_eq!(game.apply_move((5, 6), (5, 5)), Ok(Status::AwaitingMove(Player::Two)));
    assert_eq!(game.apply_move((4, 1), (4, 3)), Ok(Status::AwaitingMove(Player::One)));
    assert_eq!(game.apply_move((6, 6), (6, 4)), Ok(Status::AwaitingMove(Player::Two)));
    assert_eq!(game.winner(), None);
    assert_eq!(game.apply_move((3, 0), (7, 4)), Ok(Status::Checkmate(Player::Two)));
    assert_eq!(game.winner(), Some(Player::Two));
    assert_eq!(game.status(), Status::Checkmate(Player::Two));
    assert!(game.is_over());
    assert!(game.in_check(Player::One));
    assert_eq!(game.get_legal_moves_for(Player::One), vec![]);
    assert_eq!(game.plies(), 4);
    assert_eq!(game.current_player(), Player::One);
    assert_eq!(game.apply_move((4, 7), (5, 6)), Err(MoveError::IllegalMove));
}

#[test]
fn a_check_that_can_be_answered() {
    let mut game = game_with(
        vec![
            ((4, 7), Piece::King(King::new(Player::One))),
            ((0, 3), Piece::Rook(Rook::new(Player::Two))),
            ((0, 0), Piece::King(King::new(Player::Two))),
        ],
        Player::Two,
    );
    assert_eq!(game.apply_move((0, 3), (4, 3)), Ok(Status::InCheck(Player::One)));
    assert_eq!(game.status(), Status::InCheck(Player::One));
    assert!(!game.is_over());
    assert_eq!(game.winner(), None);
}

#[test]
fn stalemate() {
    let mut game = game_with(
        vec![
            ((0, 0), Piece::King(King::new(Player::Two))),
            ((1, 2), Piece::Queen(Queen::new(Player::One))),
            ((7, 7), Piece::King(King::new(Player::One))),
        ],
        Player::Two,
    );
    assert!(!game.in_check(Player::Two));
    assert_eq!(game.get_legal_moves_for(Player::Two), vec![]);
    assert_eq!(game.status(), Status::Stalemate);
    assert!(game.is_over());
    // The other side, were it to move, would not be stuck.
    game.set_player(Player::One);
    assert_eq!(game.status(), Status::AwaitingMove(Player::One));
}

#[test]
fn back_rank_mate() {
    let mut game = game_with(
        vec![
            ((6, 0), Piece::King(King::new(Player::Two))),
            ((5, 1), Piece::Pawn(Pawn::new(Player::Two))),
            ((6, 1), Piece::Pawn(Pawn::new(Player::Two))),
            ((7, 1), Piece::Pawn(Pawn::new(Player::Two))),
            ((0, 7), Piece::Rook(Rook::new(Player::One))),
            ((4, 7), Piece::King(King::new(Player::One))),
        ],
        Player::One,
    );
    assert_eq!(game.apply_move((0, 7), (0, 0)), Ok(Status::Checkmate(Player::One)));
    assert_eq!(game.winner(), Some(Player::One));
    assert!(game.has_left_rook_moved(Player::One));
    assert!(!game.has_right_rook_moved(Player::One));
}

#[test]
fn a_game_is_drawn_at_the_ply_limit() {
    let mut game = game_with(
        vec![
            ((0, 0), Piece::King(King::new(Player::Two))),
            ((7, 7), Piece::King(King::new(Player::One))),
            ((3, 3), Piece::Knight(Knight::new(Player::One))),
        ],
        Player::One,
    );
    let there_and_back = [((7, 7), (7, 6)), ((0, 0), (0, 1)), ((7, 6), (7, 7)), ((0, 1), (0, 0))];
    for ply in 0..PLY_LIMIT {
        assert_eq!(game.plies(), ply);
        assert!(!game.is_over());
        let (from, to) = there_and_back[(ply % 4) as usize];
        let standing = game.apply_move(from, to);
        if ply + 1 < PLY_LIMIT {
            assert!(matches!(standing, Ok(Status::AwaitingMove(_))));
        } else {
            assert_eq!(standing, Ok(Status::Drawn));
        }
    }
    assert_eq!(game.plies(), PLY_LIMIT);
    assert_eq!(game.status(), Status::Drawn);
    assert!(game.is_over());
    assert_eq!(game.winner(), None);
    // The count stops at the limit.
    game.advance((7, 7), (7, 6));
    assert_eq!(game.plies(), PLY_LIMIT);
}

#[test]
fn castling_marks_only_grow() {
    let rook = Piece::Rook(Rook::new(Player::One));
    let king = Piece::King(King::new(Player::One));
    let pawn = Piece::Pawn(Pawn::new(Player::One));
    assert_eq!(rights_after_move(fresh(), pawn, (0, 6), (0, 5)), fresh());
    assert_eq!(
        rights_after_move(fresh(), rook, (0, 7), (0, 5)),
        CastlingRights { king_moved: false, left_rook_moved: true, right_rook_moved: false }
    );
    assert_eq!(
        rights_after_move(fresh(), rook, (7, 7), (7, 5)),
        CastlingRights { king_moved: false, left_rook_moved: false, right_rook_moved: true }
    );
    // A rook that is not in a corner of its home rank sets no mark.
    assert_eq!(rights_after_move(fresh(), rook, (0, 0), (0, 5)), fresh());
    assert_eq!(rights_after_move(fresh(), rook, (3, 7), (3, 5)), fresh());
    assert_eq!(
        rights_after_move(fresh(), king, (4, 7), (4, 6)),
        CastlingRights { king_moved: true, left_rook_moved: false, right_rook_moved: false }
    );
    assert_eq!(
        rights_after_move(fresh(), king, (4, 7), (2, 7)),
        CastlingRights { king_moved: true, left_rook_moved: true, right_rook_moved: false }
    );
    assert_eq!(
        rights_after_move(fresh(), king, (4, 7), (6, 7)),
        CastlingRights { king_moved: true, left_rook_moved: false, right_rook_moved: true }
    );
    let all = CastlingRights { king_moved: true, left_rook_moved: true, right_rook_moved: true };
    for piece in [rook, king, pawn] {
        assert_eq!(rights_after_move(all, piece, (1, 1), (1, 2)), all);
    }
}

#[test]
fn advancing_without_asking() {
    let mut game = Game::two_player_game(false);
    let before = game;
    game.advance((4, 4), (4, 3));
    game.advance((4, 6), (4, 6));
    game.advance((4, 6), (4, 8));
    assert_eq!(game, before);
    game.advance((4, 6), (4, 2));
    assert_eq!(game.get((4, 2)), Some(Piece::Pawn(Pawn::new(Player::One))));
    assert_eq!(game.get((4, 6)), None);
    assert_eq!(game.current_player(), Player::Two);
    assert_eq!(game.plies(), 1);
    assert_eq!(game.commit((4, 1), (4, 2)), Status::AwaitingMove(Player::One));
    assert_eq!(game.get((4, 2)), Some(Piece::Pawn(Pawn::new(Player::Two))));
}

#[test]
fn looking_for_a_square() {
    let squares = vec![(1, 2), (3, 4), (5, 6)];
    assert!(contains_square(&squares, (3, 4)));
    assert!(!contains_square(&squares, (4, 3)));
    assert!(!contains_square(&vec![], (0, 0)));
}

#[test]
fn queries_of_the_game() {
    let game = Game::two_player_game(false);
    assert_eq!(game.get((4, 7)), Some(Piece::King(King::new(Player::One))));
    assert_eq!(game.get((4, 4)), None);
    assert_eq!(game.get((4, 8)), None);
    assert!(game.square_is_none((4, 4)));
    assert!(!game.square_is_none((4, 7)));
    assert!(!game.square_is_none((8, 4)));
    assert!(game.is_not_player((4, 4), Player::One));
    assert!(game.is_not_player((4, 0), Player::One));
    assert!(!game.is_not_player((4, 7), Player::One));
    assert!(!game.is_not_player((4, 8), Player::One));
    assert!(game.check_horiz((0, 3), (7, 3)));
    assert!(!game.check_horiz((0, 0), (0, 3)));
    assert!(game.check_diag((0, 2), (3, 5)));
    assert!(!game.check_diag((0, 0), (3, 3)));
    assert!(!game.in_check(Player::One));
    assert!(!game.in_check(Player::Two));
}
