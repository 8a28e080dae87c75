//! The evaluation cache and the key under which a position is filed in it.
use vstd::prelude::*;
use std::collections::HashMap;
use crate::player::Player;
use crate::piece::Piece;
use crate::board::Board;
use crate::rules::Squares;

verus! {

/// The key of a position: the board and the side to move, packed into three
/// numbers. Squares 0 to 24 are the base-32 digits of `low`, squares 25 to 49
/// those of `middle`, and squares 50 to 63 those of half of `high`, whose
/// lowest bit is the side to move.
#[derive(Clone, Copy, Debug, PartialEq, Eq, Structural)]
pub struct PositionKey {
    pub low: u128,
    pub middle: u128,
    pub high: u128,
}

/// The digit that stands for what a square holds: 0 for nothing, and a
/// number of its own for each kind of piece of each side, with and without
/// the mark of having moved.
pub open spec fn code_of(square: Option<Piece>) -> int {
    match square {
        None => 0,
        Some(piece) => {
            let side: int = match piece.owner() {
                Player::One => 0,
                Player::Two => 1,
            };
            match piece {
                Piece::Pawn(_) => 1 + side,
                Piece::Knight(_) => 3 + side,
                Piece::Bishop(_) => 5 + side,
                Piece::Queen(_) => 7 + side,
                Piece::Rook(r) => 9 + 2 * side + if r.moved {
                    1int
                } else {
                    0int
                },
                Piece::King(k) => 13 + 2 * side + if k.moved {
                    1int
                } else {
                    0int
                },
            }
        },
    }
}

/// The number whose base-32 digits are the codes of the `n` squares from
/// index `lo` on, the last square being the lowest digit.
pub open spec fn packed(b: Squares, lo: int, n: int) -> int
    decreases n,
{
    if n <= 0 {
        0
    } else {
        32 * packed(b, lo, n - 1) + code_of(b[lo + n - 1])
    }
}

/// 32 to the power `n`.
pub open spec fn cap(n: int) -> int
    decreases n,
{
    if n <= 0 {
        1
    } else {
        32 * cap(n - 1)
    }
}

/// The bit that stands for the side to move.
pub open spec fn side_bit(player: Player) -> int {
    match player {
        Player::One => 0,
        Player::Two => 1,
    }
}

/// The key of the position with board `b` and `player` to move.
pub open spec fn key_of(b: Squares, player: Player) -> PositionKey {
    PositionKey {
        low: packed(b, 0, 25) as u128,
        middle: packed(b, 25, 25) as u128,
        high: (2 * packed(b, 50, 14) + side_bit(player)) as u128,
    }
}

proof fn lemma_cap_values()
    ensures
        cap(14) == 0x4000_0000_0000_0000_00,
        cap(25) == 0x2000_0000_0000_0000_0000_0000_0000_0000,
{
    assert(cap(0) == 1);
    assert(cap(1) == 32);
    assert(cap(2) == 1024);
    assert(cap(3) == 32768);
    assert(cap(4) == 1048576);
    assert(cap(5) == 33554432);
    assert(cap(6) == 1073741824);
    assert(cap(7) == 34359738368);
    assert(cap(8) == 1099511627776);
    assert(cap(9) == 35184372088832);
    assert(cap(10) == 1125899906842624);
    assert(cap(11) == 36028797018963968);
    assert(cap(12) == 1152921504606846976);
    assert(cap(13) == 36893488147419103232);
    assert(cap(14) == 1180591620717411303424);
    assert(cap(15) == 37778931862957161709568);
    assert(cap(16) == 1208925819614629174706176);
    assert(cap(17) == 38685626227668133590597632);
    assert(cap(18) == 1237940039285380274899124224);
    assert(cap(19) == 39614081257132168796771975168);
    assert(cap(20) == 1267650600228229401496703205376);
    assert(cap(21) == 40564819207303340847894502572032);
    assert(cap(22) == 1298074214633706907132624082305024);
    assert(cap(23) == 41538374868278621028243970633760768);
    assert(cap(24) == 1329227995784915872903807060280344576);
}

proof fn lemma_packed_bound(b: Squares, lo: int, n: int)
    requires
        0 <= n,
    ensures
        0 <= packed(b, lo, n) < cap(n),
    decreases n,
{
    if n > 0 {
        lemma_packed_bound(b, lo, n - 1);
    }
}

proof fn lemma_packed_injective(here: Squares, there: Squares, lo: int, n: int)
    requires
        0 <= n,
        packed(here, lo, n) == packed(there, lo, n),
    ensures
        forall|i: int| lo <= i < lo + n ==> code_of(#[trigger] here[i]) == code_of(there[i]),
    decreases n,
{
    if n > 0 {
        let x = packed(here, lo, n - 1);
        let y = packed(there, lo, n - 1);
        lemma_packed_injective(here, there, lo, n - 1);
    }
}

/// Two boards with the same side to move have the same key exactly when
/// they hold the same piece, with the same mark, on every square; and a
/// position has another key for each side to move.
pub proof fn lemma_key_injective(here: Squares, mover: Player, there: Squares, other: Player)
    requires
        here.len() == 64,
        there.len() == 64,
    ensures
        (key_of(here, mover) == key_of(there, other)) <==> (here == there && mover == other),
{
    lemma_cap_values();
    lemma_packed_bound(here, 0, 25);
    lemma_packed_bound(here, 25, 25);
    lemma_packed_bound(here, 50, 14);
    lemma_packed_bound(there, 0, 25);
    lemma_packed_bound(there, 25, 25);
    lemma_packed_bound(there, 50, 14);
    if key_of(here, mover) == key_of(there, other) {
        lemma_packed_injective(here, there, 0, 25);
        lemma_packed_injective(here, there, 25, 25);
        lemma_packed_injective(here, there, 50, 14);
        assert(forall|i: int| 0 <= i < 64 ==> here[i] == there[i]);
        assert(here =~= there);
    }
}

fn code(square: Option<Piece>) -> (digit: u128)
    ensures
        digit == code_of(square),
        digit < 32,
{
    match square {
        None => 0,
        Some(piece) => {
            let side: u128 = match piece.player() {
                Player::One => 0,
                Player::Two => 1,
            };
            match piece {
                Piece::Pawn(_) => 1 + side,
                Piece::Knight(_) => 3 + side,
                Piece::Bishop(_) => 5 + side,
                Piece::Queen(_) => 7 + side,
                Piece::Rook(r) => 9 + 2 * side + if r.moved {
                    1
                } else {
                    0
                },
                Piece::King(k) => 13 + 2 * side + if k.moved {
                    1
                } else {
                    0
                },
            }
        },
    }
}

fn pack(board: &Board, lo: usize, n: usize) -> (number: u128)
    requires
        lo + n <= 64,
        n <= 25,
    ensures
        number == packed(board@, lo as int, n as int),
{
    let mut number: u128 = 0;
    let mut i: usize = 0;
    while i < n
        invariant
            i <= n,
            n <= 25,
            lo + n <= 64,
            number == packed(board@, lo as int, i as int),
        decreases n - i,
    {
        proof {
            lemma_cap_values();
            lemma_packed_bound(board@, lo as int, i as int);
            lemma_packed_bound(board@, lo as int, i as int + 1);
            lemma_cap_monotonic(i as int + 1, 25);
        }
        number = 32 * number + code(board.squares[lo + i]);
        i += 1;
    }
    number
}

proof fn lemma_cap_monotonic(i: int, j: int)
    requires
        0 <= i <= j,
    ensures
        1 <= cap(i) <= cap(j),
    decreases j,
{
    if i < j {
        lemma_cap_monotonic(i, j - 1);
    } else if i > 0 {
        lemma_cap_monotonic(i - 1, j - 1);
    }
}

/// The key under which the position with this board and `player` to move is
/// filed.
pub fn position_key(board: &Board, player: Player) -> (key: PositionKey)
    ensures
        key == key_of(board@, player),
{
    proof {
        lemma_cap_values();
        lemma_packed_bound(board@, 50, 14);
    }
    let bit: u128 = match player {
        Player::One => 0,
        Player::Two => 1,
    };
    PositionKey { low: pack(board, 0, 25), middle: pack(board, 25, 25), high: 2 * pack(board, 50, 14) + bit }
}

/// A table from position keys to scores. It only grows: a score filed under
/// a key stays until another is filed under the same key.
pub struct EvalCache {
    table: HashMap<u128, HashMap<u128, HashMap<u128, i32>>>,
}

impl View for EvalCache {
    type V = Map<PositionKey, i32>;

    closed spec fn view(&self) -> Map<PositionKey, i32> {
        Map::new(
            |k: PositionKey|
                self.table@.contains_key(k.low) && self.table@[k.low]@.contains_key(k.middle)
                    && self.table@[k.low]@[k.middle]@.contains_key(k.high),
            |k: PositionKey| self.table@[k.low]@[k.middle]@[k.high],
        )
    }
}

impl EvalCache {
    /// A cache with nothing in it.
    pub fn new() -> (cache: EvalCache)
        ensures
            cache@ == Map::<PositionKey, i32>::empty(),
    {
        let cache = EvalCache { table: HashMap::new() };
        cache
    }

    /// The score filed under `key`, if there is one.
    pub fn get(&self, key: PositionKey) -> (found: Option<i32>)
        ensures
            found == (if self@.contains_key(key) {
                Some(self@[key])
            } else {
                None
            }),
    {
        match self.table.get(&key.low) {
            Some(second) => match second.get(&key.middle) {
                Some(third) => match third.get(&key.high) {
                    Some(score) => Some(*score),
                    None => None,
                },
                None => None,
            },
            None => None,
        }
    }

    /// Files `score` under `key`, in place of what was filed there. Every
    /// other key keeps its score.
    pub fn insert(&mut self, key: PositionKey, score: i32)
        ensures
            final(self)@ == old(self)@.insert(key, score),
    {
        let mut second = match self.table.remove(&key.low) {
            Some(second) => second,
            None => HashMap::new(),
        };
        let mut third = match second.remove(&key.middle) {
            Some(third) => third,
            None => HashMap::new(),
        };
        third.insert(key.high, score);
        second.insert(key.middle, third);
        self.table.insert(key.low, second);
    }
}

} // verus!
