use chess::bishop::Bishop;
use chess::board::Board;
use chess::game::Game;
use chess::king::King;
use chess::knight::Knight;
use chess::pawn::Pawn;
use chess::piece::{Move, Piece};
use chess::player::Player;
use chess::position::Status;
use chess::rook::Rook;

fn put(board: &mut Board, square: (u8, u8), piece: Piece) {
    board.place(square, piece).unwrap();
}

/// Kings and rooks on their home squares, nothing else.
fn castling_board() -> Board {
    let mut board = Board::empty();
    put(&mut board, (0, 0), Piece::Rook(Rook::new(Player::Two)));
    put(&mut board, (4, 0), Piece::King(King::new(Player::Two)));
    put(&mut board, (7, 0), Piece::Rook(Rook::new(Player::Two)));
    put(&mut board, (0, 7), Piece::Rook(Rook::new(Player::One)));
    put(&mut board, (4, 7), Piece::King(King::new(Player::One)));
    put(&mut board, (7, 7), Piece::Rook(Rook::new(Player::One)));
    board
}

fn game_on(board: Board) -> Game {
    let mut game = Game::two_player_game(false);
    game.set_board(board);
    game
}

fn white_king() -> King {
    King::new(Player::One)
}

#[test]
fn castling_with_all_conditions_met() {
    let mut game = game_on(castling_board());
    assert!(white_king().can_castle_left((4, 7), &mut game));
    assert!(white_king().can_castle_right((4, 7), &mut game));
    assert_eq!(white_king().valid_move((4, 7), (2, 7), &mut game), Move::Castle);
    assert_eq!(white_king().valid_move((4, 7), (6, 7), &mut game), Move::Castle);
}

#[test]
fn king_moves_are_listed_in_order() {
    let mut game = game_on(castling_board());
    assert_eq!(
        white_king().get_legal_moves((4, 7), &mut game),
        vec![(5, 7), (5, 6), (4, 6), (3, 6), (3, 7), (2, 7), (6, 7)]
    );
}

#[test]
fn no_castling_for_a_king_that_says_it_moved() {
    let mut game = game_on(castling_board());
    let king = King { player: Player::One, moved: true };
    assert!(!king.can_castle_left((4, 7), &mut game));
    assert!(!king.can_castle_right((4, 7), &mut game));
    assert_eq!(king.valid_move((4, 7), (6, 7), &mut game), Move::Invalid);
}

#[test]
fn no_castling_away_from_the_home_square() {
    let mut board = castling_board();
    board.remove((4, 7)).unwrap();
    put(&mut board, (4, 6), Piece::King(King::new(Player::One)));
    let mut game = game_on(board);
    assert!(!white_king().can_castle_left((4, 6), &mut game));
    assert!(!white_king().can_castle_right((4, 6), &mut game));
    assert!(!white_king().can_castle_right((3, 7), &mut game));
}

#[test]
fn no_castling_out_of_check() {
    let mut board = castling_board();
    put(&mut board, (4, 3), Piece::Rook(Rook::new(Player::Two)));
    let mut game = game_on(board);
    assert!(game.in_check(Player::One));
    assert!(!white_king().can_castle_left((4, 7), &mut game));
    assert!(!white_king().can_castle_right((4, 7), &mut game));
}

#[test]
fn no_castling_over_a_piece() {
    let mut board = castling_board();
    put(&mut board, (1, 7), Piece::Knight(Knight::new(Player::One)));
    put(&mut board, (5, 7), Piece::Bishop(Bishop::new(Player::One)));
    let mut game = game_on(board);
    assert!(!white_king().can_castle_left((4, 7), &mut game));
    assert!(!white_king().can_castle_right((4, 7), &mut game));
}

#[test]
fn no_castling_over_an_attacked_square() {
    let mut board = castling_board();
    // Attacks (5, 7), which the king crosses on its way to the right.
    put(&mut board, (5, 3), Piece::Rook(Rook::new(Player::Two)));
    let mut game = game_on(board);
    assert!(white_king().can_castle_left((4, 7), &mut game));
    assert!(!white_king().can_castle_right((4, 7), &mut game));
}

#[test]
fn no_castling_onto_an_attacked_square() {
    let mut board = castling_board();
    // Attacks (2, 7), on which the king lands when it castles to the left.
    put(&mut board, (2, 3), Piece::Rook(Rook::new(Player::Two)));
    let mut game = game_on(board);
    assert!(!white_king().can_castle_left((4, 7), &mut game));
    assert!(white_king().can_castle_right((4, 7), &mut game));
}

#[test]
fn castling_though_the_rook_passes_an_attacked_square() {
    let mut board = castling_board();
    // Attacks (1, 7), which only the rook crosses.
    put(&mut board, (1, 3), Piece::Rook(Rook::new(Player::Two)));
    let mut game = game_on(board);
    assert!(white_king().can_castle_left((4, 7), &mut game));
}

#[test]
fn no_castling_without_the_rook() {
    let mut board = castling_board();
    board.remove((7, 7)).unwrap();
    let mut game = game_on(board);
    assert!(white_king().can_castle_left((4, 7), &mut game));
    assert!(!white_king().can_castle_right((4, 7), &mut game));
}

#[test]
fn no_castling_with_another_piece_in_the_corner() {
    let mut board = castling_board();
    put(&mut board, (0, 7), Piece::Knight(Knight::new(Player::One)));
    let mut game = game_on(board);
    assert!(!white_king().can_castle_left((4, 7), &mut game));
}

#[test]
fn no_castling_with_a_rook_that_says_it_moved() {
    let mut board = castling_board();
    put(&mut board, (0, 7), Piece::Rook(Rook { player: Player::One, moved: true }));
    let mut game = game_on(board);
    assert!(!white_king().can_castle_left((4, 7), &mut game));
    assert!(white_king().can_castle_right((4, 7), &mut game));
}

#[test]
fn no_castling_after_the_rook_has_moved_and_come_back() {
    let mut game = game_on(castling_board());
    assert!(game.apply_move((7, 7), (7, 5)).is_ok());
    assert!(game.apply_move((0, 0), (0, 1)).is_ok());
    assert!(game.apply_move((7, 5), (7, 7)).is_ok());
    assert!(game.apply_move((0, 1), (0, 0)).is_ok());
    assert!(game.has_right_rook_moved(Player::One));
    assert!(!game.has_left_rook_moved(Player::One));
    assert!(game.has_left_rook_moved(Player::Two));
    // The marks of the game stand even when fresh rooks are put on the board.
    game.set_board(castling_board());
    assert!(white_king().can_castle_left((4, 7), &mut game));
    assert!(!white_king().can_castle_right((4, 7), &mut game));
    let black_king = King::new(Player::Two);
    assert!(!black_king.can_castle_left((4, 0), &mut game));
    assert!(black_king.can_castle_right((4, 0), &mut game));
}

#[test]
fn kingside_castle_from_the_starting_position() {
    let mut board = Board::standard();
    board.remove((5, 7)).unwrap();
    board.remove((6, 7)).unwrap();
    let mut game = game_on(board);
    assert!(white_king().can_castle_right((4, 7), &mut game));
    assert!(!white_king().can_castle_left((4, 7), &mut game));
    assert!(white_king().get_legal_moves((4, 7), &mut game).contains(&(6, 7)));

    // Without the rook there is no castling.
    let mut without_rook = board;
    without_rook.remove((7, 7)).unwrap();
    let mut game = game_on(without_rook);
    assert!(!white_king().can_castle_right((4, 7), &mut game));
    assert!(!white_king().get_legal_moves((4, 7), &mut game).contains(&(6, 7)));
}

#[test]
fn no_castling_after_the_king_has_moved_and_come_back() {
    let mut board = Board::standard();
    board.remove((5, 7)).unwrap();
    board.remove((6, 7)).unwrap();
    let mut game = game_on(board);
    assert_eq!(game.apply_move((4, 7), (5, 7)), Ok(Status::AwaitingMove(Player::Two)));
    assert_eq!(game.apply_move((0, 1), (0, 2)), Ok(Status::AwaitingMove(Player::One)));
    assert_eq!(game.apply_move((5, 7), (4, 7)), Ok(Status::AwaitingMove(Player::Two)));
    assert_eq!(game.apply_move((0, 2), (0, 3)), Ok(Status::AwaitingMove(Player::One)));
    assert!(game.has_king_moved(Player::One));
    assert_eq!(game.get((4, 7)), Some(Piece::King(King { player: Player::One, moved: true })));
    let king = match game.get((4, 7)) {
        Some(Piece::King(king)) => king,
        _ => unreachable!(),
    };
    assert!(!king.can_castle_right((4, 7), &mut game));
    assert!(!king.get_legal_moves((4, 7), &mut game).contains(&(6, 7)));
    // The mark of the game stands even for a king that says it has not moved.
    assert!(!white_king().can_castle_right((4, 7), &mut game));
}

#[test]
fn castling_moves_the_rook_too() {
    let mut game = game_on(castling_board());
    assert_eq!(game.apply_move((4, 7), (6, 7)), Ok(Status::AwaitingMove(Player::Two)));
    assert_eq!(game.get((6, 7)), Some(Piece::King(King { player: Player::One, moved: true })));
    assert_eq!(game.get((5, 7)), Some(Piece::Rook(Rook { player: Player::One, moved: true })));
    assert_eq!(game.get((4, 7)), None);
    assert_eq!(game.get((7, 7)), None);
    assert_eq!(game.get((0, 7)), Some(Piece::Rook(Rook::new(Player::One))));
    assert!(game.has_king_moved(Player::One));
    assert!(game.has_right_rook_moved(Player::One));
    assert!(!game.has_left_rook_moved(Player::One));

    assert_eq!(game.apply_move((4, 0), (2, 0)), Ok(Status::AwaitingMove(Player::One)));
    assert_eq!(game.get((2, 0)), Some(Piece::King(King { player: Player::Two, moved: true })));
    assert_eq!(game.get((3, 0)), Some(Piece::Rook(Rook { player: Player::Two, moved: true })));
    assert_eq!(game.get((0, 0)), None);
    assert_eq!(game.get((4, 0)), None);
    assert!(game.has_king_moved(Player::Two));
    assert!(game.has_left_rook_moved(Player::Two));
    assert!(!game.has_right_rook_moved(Player::Two));
}

#[test]
fn knight_takes_away_an_escape_square() {
    let mut board = Board::empty();
    put(&mut board, (0, 7), Piece::King(King::new(Player::One)));
    put(&mut board, (0, 0), Piece::Rook(Rook::new(Player::Two)));
    put(&mut board, (7, 0), Piece::King(King::new(Player::Two)));
    let mut game = game_on(board);
    assert!(game.in_check(Player::One));
    // Without the knight the king has two squares off the file of the rook.
    assert_eq!(white_king().get_legal_moves((0, 7), &mut game), vec![(1, 7), (1, 6)]);

    put(&mut board, (3, 6), Piece::Knight(Knight::new(Player::Two)));
    let mut game = game_on(board);
    let moves = white_king().get_legal_moves((0, 7), &mut game);
    assert!(!moves.contains(&(1, 7)));
    assert!(moves.contains(&(1, 6)));
    assert_eq!(moves, vec![(1, 6)]);
}

#[test]
fn king_may_capture_its_way_out_of_check() {
    let mut board = Board::empty();
    put(&mut board, (0, 7), Piece::King(King::new(Player::One)));
    put(&mut board, (0, 6), Piece::Rook(Rook::new(Player::Two)));
    put(&mut board, (1, 6), Piece::Pawn(Pawn::new(Player::One)));
    put(&mut board, (7, 0), Piece::King(King::new(Player::Two)));
    let mut game = game_on(board);
    assert!(game.in_check(Player::One));
    assert_eq!(white_king().get_legal_moves((0, 7), &mut game), vec![(1, 7), (0, 6)]);
}
