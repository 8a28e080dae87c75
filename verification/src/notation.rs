//! Squares and moves as text: a file letter from `a` to `h` and a rank
//! digit from `1` to `8`. Rank 1 is the home rank of side `One`.
use vstd::prelude::*;
use crate::piece::Square;
use crate::position::Ply;
use crate::rules::on_board;

verus! {

/// The square that a file letter and a rank digit name, if they name one.
pub open spec fn named_square(file: u8, rank: u8) -> Option<Square> {
    if 'a' as u8 <= file <= 'h' as u8 && '1' as u8 <= rank <= '8' as u8 {
        Some(((file - 'a' as u8) as u8, ('8' as u8 - rank) as u8))
    } else {
        None
    }
}

/// The file letter and the rank digit of a square of the board.
pub open spec fn square_name(square: Square) -> (u8, u8) {
    (('a' as u8 + square.0) as u8, ('8' as u8 - square.1) as u8)
}

/// The move that `text` names: two squares, written one after the other or
/// with one space between them. Anything else names no move.
pub open spec fn named_ply(text: Seq<u8>) -> Option<Ply> {
    let second: int = if text.len() == 5 {
        3
    } else {
        2
    };
    if text.len() == 4 || (text.len() == 5 && text[2] == ' ' as u8) {
        match (named_square(text[0], text[1]), named_square(text[second], text[second + 1])) {
            (Some(from), Some(to)) => Some((from, to)),
            _ => None,
        }
    } else {
        None
    }
}

/// The text of a move between two squares of the board.
pub open spec fn ply_name(ply: Ply) -> Seq<u8> {
    seq![
        square_name(ply.0).0,
        square_name(ply.0).1,
        square_name(ply.1).0,
        square_name(ply.1).1,
    ]
}

/// The square that a file letter and a rank digit name.
pub fn parse_square(file: u8, rank: u8) -> (square: Option<Square>)
    ensures
        square == named_square(file, rank),
        square matches Some(sq) ==> on_board(sq.0 as int, sq.1 as int),
{
    if 97 <= file && file <= 104 && 49 <= rank && rank <= 56 {
        Some((file - 97, 56 - rank))
    } else {
        None
    }
}

/// The move that `text` names: four characters such as `e2e4`, or five with
/// a space in the middle. `None` for any other text.
pub fn parse_ply(text: &Vec<u8>) -> (ply: Option<Ply>)
    ensures
        ply == named_ply(text@),
{
    let n = text.len();
    if n == 4 || (n == 5 && text[2] == 32) {
        let second = if n == 5 {
            3
        } else {
            2
        };
        match parse_square(text[0], text[1]) {
            Some(from) => match parse_square(text[second], text[second + 1]) {
                Some(to) => Some((from, to)),
                None => None,
            },
            None => None,
        }
    } else {
        None
    }
}

/// The text of a move: the four characters that `parse_ply` reads back.
/// `None` for a move that leaves the board.
pub fn write_ply(ply: Ply) -> (text: Option<Vec<u8>>)
    ensures
        text is Some <==> on_board(ply.0.0 as int, ply.0.1 as int) && on_board(
            ply.1.0 as int,
            ply.1.1 as int,
        ),
        text matches Some(written) ==> written@ == ply_name(ply),
{
    let (from, to) = ply;
    if from.0 < 8 && from.1 < 8 && to.0 < 8 && to.1 < 8 {
        let mut text: Vec<u8> = Vec::new();
        text.push(97 + from.0);
        text.push(56 - from.1);
        text.push(97 + to.0);
        text.push(56 - to.1);
        Some(text)
    } else {
        None
    }
}

/// A move that has been written is read back as it was.
pub proof fn lemma_written_reads_back(ply: Ply)
    requires
        on_board(ply.0.0 as int, ply.0.1 as int),
        on_board(ply.1.0 as int, ply.1.1 as int),
    ensures
        named_ply(ply_name(ply)) == Some(ply),
{
}

} // verus!
