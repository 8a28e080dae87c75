use chess::board::{Board, MoveError};
use chess::cache::{position_key, EvalCache, PositionKey};
use chess::game::{Game, Mode};
use chess::king::King;
use chess::pawn::Pawn;
use chess::piece::Piece;
use chess::play::{is_final, launch_game};
use chess::player::Player;
use chess::position::{Status, PLY_LIMIT};
use chess::queen::Queen;
use chess::rook::Rook;
use chess::search::{search, Evaluator, Material, MATE_SCORE};

fn set_up(mut game: Game, pieces: Vec<((u8, u8), Piece)>, to_move: Player) -> Game {
    let mut board = Board::empty();
    for (square, piece) in pieces {
        board.place(square, piece).unwrap();
    }
    game.set_board(board);
    game.set_player(to_move);
    game
}

fn queen_to_take() -> Vec<((u8, u8), Piece)> {
    vec![
        ((0, 7), Piece::Rook(Rook::new(Player::One))),
        ((4, 7), Piece::King(King::new(Player::One))),
        ((0, 0), Piece::Queen(Queen::new(Player::Two))),
        ((7, 1), Piece::King(King::new(Player::Two))),
    ]
}

fn mate_in_one() -> Vec<((u8, u8), Piece)> {
    vec![
        ((6, 0), Piece::King(King::new(Player::Two))),
        ((5, 1), Piece::Pawn(Pawn::new(Player::Two))),
        ((6, 1), Piece::Pawn(Pawn::new(Player::Two))),
        ((7, 1), Piece::Pawn(Pawn::new(Player::Two))),
        ((0, 7), Piece::Rook(Rook::new(Player::One))),
        ((4, 7), Piece::King(King::new(Player::One))),
    ]
}

#[test]
fn material_is_counted_for_the_side_to_move() {
    let mut game = Game::two_player_game(false);
    assert_eq!(Material.evaluate(&game), 0);
    let mut board = Board::standard();
    board.remove((3, 0)).unwrap();
    game.set_board(board);
    assert_eq!(Material.evaluate(&game), 9);
    game.set_player(Player::Two);
    assert_eq!(Material.evaluate(&game), -9);
    board.remove((0, 7)).unwrap();
    board.remove((0, 6)).unwrap();
    game.set_board(board);
    assert_eq!(Material.evaluate(&game), -3);
    let game = set_up(game, queen_to_take(), Player::One);
    assert_eq!(Material.evaluate(&game), 105 - 109);
    let game = set_up(game, vec![], Player::One);
    assert_eq!(Material.evaluate(&game), 0);
}

#[test]
fn search_at_depth_zero_evaluates() {
    let mut game = set_up(Game::self_play(None), queen_to_take(), Player::One);
    let mut cache = EvalCache::new();
    assert_eq!(search(&mut game, 0, &Material, &mut cache), (None, -4));
    assert_eq!(cache.get(position_key(game.board(), Player::One)), None);
}

#[test]
fn search_takes_the_queen() {
    let mut game = set_up(Game::self_play(None), queen_to_take(), Player::One);
    let before = game;
    let mut cache = EvalCache::new();
    assert_eq!(search(&mut game, 1, &Material, &mut cache), (Some(((0, 7), (0, 0))), 5));
    assert_eq!(game, before);
    // The positions after the moves tried are filed with what they are worth to the other side.
    let mut after = game;
    after.advance((0, 7), (0, 0));
    assert_eq!(cache.get(position_key(after.board(), Player::Two)), Some(-5));
    let mut after = game;
    after.advance((4, 7), (4, 6));
    assert_eq!(cache.get(position_key(after.board(), Player::Two)), Some(4));
    // The root itself is not filed.
    assert_eq!(cache.get(position_key(game.board(), Player::One)), None);
}

#[test]
fn search_finds_mate_in_one() {
    let mut game = set_up(Game::self_play(None), mate_in_one(), Player::One);
    let mut cache = EvalCache::new();
    assert_eq!(search(&mut game, 2, &Material, &mut cache), (Some(((0, 7), (0, 0))), MATE_SCORE));
    // One ply deep the mate is not seen: every move leaves the material as it is.
    let mut cache = EvalCache::new();
    assert_eq!(search(&mut game, 1, &Material, &mut cache), (Some(((0, 7), (1, 7))), 2));
}

#[test]
fn search_of_a_finished_game() {
    let mut game = set_up(Game::self_play(None), mate_in_one(), Player::One);
    game.advance((0, 7), (0, 0));
    let mut cache = EvalCache::new();
    assert_eq!(search(&mut game, 3, &Material, &mut cache), (None, -MATE_SCORE));
    let mut stalemate = set_up(
        Game::self_play(None),
        vec![
            ((0, 0), Piece::King(King::new(Player::Two))),
            ((1, 2), Piece::Queen(Queen::new(Player::One))),
            ((7, 7), Piece::King(King::new(Player::One))),
        ],
        Player::Two,
    );
    assert_eq!(search(&mut stalemate, 3, &Material, &mut cache), (None, 0));
    assert_eq!(search(&mut stalemate, 0, &Material, &mut cache), (None, -9));
}

#[test]
fn search_believes_the_cache() {
    let mut game = set_up(Game::self_play(None), queen_to_take(), Player::One);
    let mut after = game;
    after.advance((4, 7), (4, 6));
    let mut cache = EvalCache::new();
    // The position after the king's step is filed as very bad for the other side.
    cache.insert(position_key(after.board(), Player::Two), -50);
    assert_eq!(search(&mut game, 1, &Material, &mut cache), (Some(((4, 7), (4, 6))), 50));
    // What is filed beyond the mate score is cut down to it.
    cache.insert(position_key(after.board(), Player::Two), i32::MIN);
    assert_eq!(search(&mut game, 1, &Material, &mut cache), (Some(((4, 7), (4, 6))), MATE_SCORE));
    assert_eq!(cache.get(position_key(after.board(), Player::Two)), Some(i32::MIN));
}

#[test]
fn search_gives_the_same_again() {
    for depth in 0..4u8 {
        for pieces in [queen_to_take(), mate_in_one()] {
            let mut game = set_up(Game::self_play(None), pieces, Player::One);
            let before = game;
            let mut shared = EvalCache::new();
            let first = search(&mut game, depth, &Material, &mut shared);
            let second = search(&mut game, depth, &Material, &mut shared);
            let mut fresh = EvalCache::new();
            let third = search(&mut game, depth, &Material, &mut fresh);
            assert_eq!(first, second);
            assert_eq!(first, third);
            assert_eq!(game, before);
        }
    }
    let mut game = Game::self_play(None);
    let mut cache = EvalCache::new();
    let first = search(&mut game, 2, &Material, &mut cache);
    assert_eq!(first, (Some(((0, 6), (0, 5))), 0));
    assert_eq!(search(&mut game, 2, &Material, &mut cache), first);
}

#[test]
fn what_is_filed_is_found() {
    let mut cache = EvalCache::new();
    let one = PositionKey { low: 1, middle: 2, high: 3 };
    let two = PositionKey { low: 1, middle: 2, high: 4 };
    let three = PositionKey { low: 1, middle: 5, high: 3 };
    let four = PositionKey { low: 6, middle: 2, high: 3 };
    assert_eq!(cache.get(one), None);
    cache.insert(one, 10);
    assert_eq!(cache.get(one), Some(10));
    assert_eq!(cache.get(two), None);
    assert_eq!(cache.get(three), None);
    assert_eq!(cache.get(four), None);
    cache.insert(two, 20);
    cache.insert(three, 30);
    cache.insert(four, 40);
    assert_eq!(cache.get(one), Some(10));
    assert_eq!(cache.get(two), Some(20));
    assert_eq!(cache.get(three), Some(30));
    assert_eq!(cache.get(four), Some(40));
    cache.insert(one, -1);
    assert_eq!(cache.get(one), Some(-1));
    assert_eq!(cache.get(two), Some(20));
}

#[test]
fn equal_positions_have_equal_keys() {
    let standard = Board::standard();
    let mut built = Board::empty();
    for (square, piece) in standard.occupied().into_iter().rev() {
        built.place(square, piece).unwrap();
    }
    assert_eq!(position_key(&standard, Player::One), position_key(&built, Player::One));
    assert_eq!(position_key(&standard, Player::Two), position_key(&built, Player::Two));
    assert_ne!(position_key(&standard, Player::One), position_key(&standard, Player::Two));
    assert_eq!(position_key(&Board::empty(), Player::One), PositionKey { low: 0, middle: 0, high: 0 });
    assert_eq!(position_key(&Board::empty(), Player::Two), PositionKey { low: 0, middle: 0, high: 1 });
}

#[test]
fn keys_tell_positions_apart() {
    let pieces = vec![
        Piece::Pawn(Pawn::new(Player::One)),
        Piece::Pawn(Pawn::new(Player::Two)),
        Piece::Queen(Queen::new(Player::One)),
        Piece::Rook(Rook::new(Player::One)),
        Piece::Rook(Rook { player: Player::One, moved: true }),
        Piece::King(King::new(Player::Two)),
        Piece::King(King { player: Player::Two, moved: true }),
    ];
    let mut keys = vec![position_key(&Board::empty(), Player::One)];
    for x in 0..8u8 {
        for y in 0..8u8 {
            for piece in pieces.iter() {
                let mut board = Board::empty();
                board.place((x, y), *piece).unwrap();
                keys.push(position_key(&board, Player::One));
            }
        }
    }
    for i in 0..keys.len() {
        for j in 0..i {
            assert_ne!(keys[i], keys[j]);
        }
    }
    let mut board = Board::empty();
    board.place((0, 0), Piece::Pawn(Pawn::new(Player::One))).unwrap();
    assert_eq!(position_key(&board, Player::One), PositionKey { low: 1 << 120, middle: 0, high: 0 });
    let mut board = Board::empty();
    board.place((7, 7), Piece::King(King { player: Player::Two, moved: true })).unwrap();
    assert_eq!(position_key(&board, Player::Two), PositionKey { low: 0, middle: 0, high: 33 });
    let mut board = Board::empty();
    board.place((1, 3), Piece::Pawn(Pawn::new(Player::Two))).unwrap();
    assert_eq!(position_key(&board, Player::One), PositionKey { low: 0, middle: 2 << 120, high: 0 });
}

#[test]
fn a_turn_of_a_player() {
    let mut game = Game::two_player_game(false);
    let mut cache = EvalCache::new();
    assert!(!game.engine_to_move());
    let before = game;
    assert_eq!(game.turn(None, &Material, &mut cache, None), Err(MoveError::IllegalMove));
    assert_eq!(game.turn(Some(((4, 6), (4, 3))), &Material, &mut cache, None), Err(MoveError::IllegalMove));
    assert_eq!(game.turn(Some(((4, 6), (4, 9))), &Material, &mut cache, Some(3)), Err(MoveError::InvalidSquare));
    assert_eq!(game, before);
    assert_eq!(game.turn(Some(((4, 6), (4, 4))), &Material, &mut cache, None), Ok(false));
    assert_eq!(game.get((4, 4)), Some(Piece::Pawn(Pawn::new(Player::One))));
    assert_eq!(game.current_player(), Player::Two);
    // No hints in this game.
    assert_eq!(game.hint(&Material, &mut cache), None);
    assert_eq!(launch_game(&mut game, &Material, &mut cache), Ok(false));
    assert_eq!(game.current_player(), Player::Two);
}

#[test]
fn a_turn_of_the_engine() {
    let mut game = set_up(Game::single_player_game(Some(Player::One), Some(2)), mate_in_one(), Player::One);
    let mut cache = EvalCache::new();
    assert_eq!(game.mode(), Mode::SinglePlayer(Player::One));
    assert!(game.engine_to_move());
    assert_eq!(game.choose_move(&Material, &mut cache, None), Some(((0, 7), (0, 0))));
    // The request is not looked at when the engine is to move.
    assert_eq!(game.turn(Some(((4, 7), (4, 6))), &Material, &mut cache, None), Ok(true));
    assert_eq!(game.get((0, 0)), Some(Piece::Rook(Rook { player: Player::One, moved: true })));
    assert_eq!(game.winner(), Some(Player::One));
    assert!(!game.engine_to_move());
    // In a game that is over a turn does nothing.
    let before = game;
    assert_eq!(game.turn(None, &Material, &mut cache, None), Ok(true));
    assert_eq!(game.turn(Some(((6, 0), (7, 0))), &Material, &mut cache, Some(1)), Ok(true));
    assert_eq!(game, before);
}

#[test]
fn a_drawn_lot_picks_the_move() {
    let mut game = Game::self_play(Some(2));
    let mut cache = EvalCache::new();
    let moves = game.get_legal_moves_for(Player::One);
    assert_eq!(moves.len(), 20);
    for draw in [0u64, 1, 19, 20, 21, 12345, u64::MAX] {
        let pick = game.choose_move(&Material, &mut cache, Some(draw));
        assert_eq!(pick, Some(moves[(draw % 20) as usize]));
    }
    assert_eq!(game.turn(None, &Material, &mut cache, Some(39)), Ok(false));
    assert_eq!(game.get((5, 5)), Some(Piece::Knight(chess::knight::Knight::new(Player::One))));
    let mut stuck = set_up(game, vec![((0, 0), Piece::King(King::new(Player::One)))], Player::Two);
    assert_eq!(stuck.choose_move(&Material, &mut cache, Some(7)), None);
    assert_eq!(stuck.choose_move(&Material, &mut cache, None), None);
}

#[test]
fn a_depth_of_zero_searches_one_ply() {
    let mut game = set_up(Game::self_play(Some(0)), queen_to_take(), Player::One);
    let mut cache = EvalCache::new();
    assert_eq!(game.choose_move(&Material, &mut cache, None), Some(((0, 7), (0, 0))));
}

#[test]
fn hints_where_they_are_allowed() {
    let mut game = set_up(Game::two_player_game(true), queen_to_take(), Player::One);
    let before = game;
    let mut cache = EvalCache::new();
    assert_eq!(game.hint(&Material, &mut cache), Some(((0, 7), (0, 0))));
    assert_eq!(game, before);
}

#[test]
fn a_turn_on_a_board_without_kings() {
    let mut game = set_up(Game::self_play(None), vec![((0, 0), Piece::Pawn(Pawn::new(Player::Two)))], Player::Two);
    let mut cache = EvalCache::new();
    let before = game;
    assert_eq!(game.turn(None, &Material, &mut cache, None), Err(MoveError::InconsistentState));
    assert_eq!(launch_game(&mut game, &Material, &mut cache), Err(MoveError::InconsistentState));
    assert_eq!(game, before);
}

#[test]
fn the_engine_plays_a_game_to_its_end() {
    let mut game = set_up(Game::self_play(Some(2)), mate_in_one(), Player::One);
    let mut cache = EvalCache::new();
    assert_eq!(launch_game(&mut game, &Material, &mut cache), Ok(true));
    assert_eq!(game.status(), Status::Checkmate(Player::One));
    assert_eq!(game.winner(), Some(Player::One));
    assert_eq!(game.plies(), 1);

    let mut game = Game::self_play(Some(1));
    let mut cache = EvalCache::new();
    assert_eq!(launch_game(&mut game, &Material, &mut cache), Ok(true));
    assert!(game.is_over());
    assert!(game.plies() <= PLY_LIMIT);
}

#[test]
fn the_engine_waits_for_the_player() {
    let mut game = Game::single_player_game(Some(Player::One), Some(1));
    let mut cache = EvalCache::new();
    assert_eq!(launch_game(&mut game, &Material, &mut cache), Ok(false));
    assert_eq!(game.plies(), 1);
    assert_eq!(game.current_player(), Player::Two);
    assert_eq!(launch_game(&mut game, &Material, &mut cache), Ok(false));
    assert_eq!(game.plies(), 1);
    assert_eq!(game.turn(Some(((4, 1), (4, 3))), &Material, &mut cache, None), Ok(false));
    assert_eq!(launch_game(&mut game, &Material, &mut cache), Ok(false));
    assert_eq!(game.plies(), 3);
}

#[test]
fn which_standings_end_a_game() {
    assert!(!is_final(Status::AwaitingMove(Player::One)));
    assert!(!is_final(Status::InCheck(Player::Two)));
    assert!(is_final(Status::Checkmate(Player::One)));
    assert!(is_final(Status::Stalemate));
    assert!(is_final(Status::Drawn));
}
