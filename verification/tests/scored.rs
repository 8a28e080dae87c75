use chess::board::Board;
use chess::cache::EvalCache;
use chess::game::Game;
use chess::king::King;
use chess::piece::Piece;
use chess::player::Player;
use chess::position::PLY_LIMIT;
use chess::queen::Queen;
use chess::rook::Rook;
use chess::search::{collect_frontier, frontier, search, Evaluator, Material, Scored, SCORE_LIMIT};

fn small_game() -> Game {
    let mut board = Board::empty();
    board.place((0, 7), Piece::Rook(Rook::new(Player::One))).unwrap();
    board.place((4, 7), Piece::King(King::new(Player::One))).unwrap();
    board.place((0, 0), Piece::Queen(Queen::new(Player::Two))).unwrap();
    board.place((7, 1), Piece::King(King::new(Player::Two))).unwrap();
    let mut game = Game::self_play(Some(1));
    game.set_board(board);
    game
}

#[test]
fn the_frontier_of_the_starting_position() {
    let mut game = Game::self_play(Some(2));
    let before = game;
    assert_eq!(frontier(&mut game, 0), vec![before]);
    let one = frontier(&mut game, 1);
    assert_eq!(one.len(), 20);
    let mut first = before;
    first.advance((0, 6), (0, 5));
    assert_eq!(one[0], first);
    let mut last = before;
    last.advance((6, 7), (5, 5));
    assert_eq!(one[19], last);
    assert_eq!(frontier(&mut game, 2).len(), 400);
    assert_eq!(game, before);

    let mut leaves = vec![before];
    collect_frontier(&mut game, 1, &mut leaves);
    assert_eq!(leaves.len(), 21);
    assert_eq!(leaves[0], before);
    assert_eq!(leaves[1], first);
}

#[test]
fn a_finished_game_has_no_frontier() {
    let mut board = Board::empty();
    board.place((0, 0), Piece::King(King::new(Player::Two))).unwrap();
    board.place((1, 2), Piece::Queen(Queen::new(Player::One))).unwrap();
    board.place((7, 7), Piece::King(King::new(Player::One))).unwrap();
    let mut game = Game::self_play(None);
    game.set_board(board);
    game.set_player(Player::Two);
    assert_eq!(frontier(&mut game, 1), vec![]);
    assert_eq!(frontier(&mut game, 3), vec![]);
    assert_eq!(frontier(&mut game, 0), vec![game]);

    let mut long = small_game();
    for _ in 0..PLY_LIMIT / 4 {
        for (from, to) in [((4, 7), (4, 6)), ((7, 1), (7, 2)), ((4, 6), (4, 7)), ((7, 2), (7, 1))] {
            long.advance(from, to);
        }
    }
    assert_eq!(long.plies(), PLY_LIMIT);
    assert_eq!(frontier(&mut long, 1), vec![]);
}

#[test]
fn told_scores_come_before_material() {
    let game = small_game();
    let mut scored = Scored::new();
    assert!(!scored.knows(&game));
    assert_eq!(scored.evaluate(&game), -4);
    assert_eq!(scored.evaluate(&game), Material.evaluate(&game));
    scored.record(&game, 77);
    assert!(scored.knows(&game));
    assert_eq!(scored.evaluate(&game), 77);
    let mut other = game;
    other.set_player(Player::Two);
    assert!(!scored.knows(&other));
    assert_eq!(scored.evaluate(&other), 4);
    scored.record(&game, -3);
    assert_eq!(scored.evaluate(&game), -3);
}

#[test]
fn search_goes_by_the_told_scores() {
    let mut game = small_game();
    let mut scored = Scored::new();
    let leaves = frontier(&mut game, 1);
    // Every position is told to be even, but for the one after the king's first step.
    for leaf in leaves.iter() {
        scored.record(leaf, 0);
    }
    let mut liked = game;
    liked.advance((4, 7), (5, 7));
    scored.record(&liked, -300);
    let mut cache = EvalCache::new();
    assert_eq!(search(&mut game, 1, &scored, &mut cache), (Some(((4, 7), (5, 7))), 300));
    // What the evaluator says beyond the limit is cut down to it.
    scored.record(&liked, i32::MIN);
    let mut cache = EvalCache::new();
    assert_eq!(search(&mut game, 1, &scored, &mut cache), (Some(((4, 7), (5, 7))), SCORE_LIMIT));
    // With nothing told the search counts material.
    let mut cache = EvalCache::new();
    assert_eq!(search(&mut game, 1, &Scored::new(), &mut cache), (Some(((0, 7), (0, 0))), 5));
}
