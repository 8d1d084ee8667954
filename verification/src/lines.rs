//! The moves along a line, square by square: a piece that moves along a line
//! reaches a square exactly when the squares before it are empty and the
//! square itself holds no piece of its own side.

use vstd::prelude::*;
use crate::location::Location;
use crate::moves::{LocationState, Move};
use crate::piece::Piece;
use crate::position::Position;
use crate::rules::room;

verus! {

/// The square `k` steps from `from` in the direction `d`, if it is on the
/// board.
pub open spec fn steps(from: Location, d: (i8, i8), k: int) -> Option<Location> {
    from.shift(k * d.0, k * d.1)
}

/// The move of `piece` from `from` onto `to`: a capture of what stands
/// there, if anything does.
pub open spec fn move_onto(pos: Position, piece: Piece, from: Location, to: Location) -> Move {
    match pos.at(to) {
        Some(victim) => Move::capture(piece, from, to, victim),
        None => Move::plain(piece, from, to),
    }
}

/// One step more is one step from where the steps before it lead.
proof fn lemma_one_more_step(from: Location, d: (i8, i8), m: int, cur: Location)
    requires
        steps(from, d, m) == Some(cur),
    ensures
        steps(from, d, m + 1) == cur.shift(d.0 as int, d.1 as int),
{
    assert((m + 1) * d.0 == m * d.0 + d.0) by (nonlinear_arith);
    assert((m + 1) * d.1 == m * d.1 + d.1) by (nonlinear_arith);
}

/// Beyond the square `m` steps away, the `i`-th move of a line goes onto the
/// square `m + i + 1` steps away, over empty squares.
proof fn lemma_line_from(
    pos: Position,
    piece: Piece,
    from: Location,
    d: (i8, i8),
    m: int,
    cur: Location,
    i: int,
)
    requires
        d.0 != 0 || d.1 != 0,
        0 <= m,
        steps(from, d, m) == Some(cur),
        0 <= i < pos.ray(piece, from, cur, d, true).len(),
    ensures
        steps(from, d, m + i + 1) is Some,
        pos.ray(piece, from, cur, d, true)[i] == move_onto(
            pos,
            piece,
            from,
            steps(from, d, m + i + 1)->0,
        ),
        forall|j: int| m < j <= m + i ==> pos.vacant(#[trigger] steps(from, d, j)),
    decreases room(cur, d),
{
    lemma_one_more_step(from, d, m, cur);
    let next = cur.shift(d.0 as int, d.1 as int)->0;
    if i > 0 {
        lemma_line_from(pos, piece, from, d, m + 1, next, i - 1);
        assert forall|j: int| m < j <= m + i implies pos.vacant(#[trigger] steps(from, d, j)) by {
            if j == m + 1 {
            } else {
                assert(m + 1 < j <= (m + 1) + (i - 1));
            }
        }
    }
}

/// Beyond the square `m` steps away, a line reaches the square `k` steps
/// away if the squares between are empty and the square holds no piece of
/// the mover's side.
proof fn lemma_line_reaches(
    pos: Position,
    piece: Piece,
    from: Location,
    d: (i8, i8),
    m: int,
    cur: Location,
    k: int,
)
    requires
        d.0 != 0 || d.1 != 0,
        0 <= m < k,
        steps(from, d, m) == Some(cur),
        forall|j: int| m < j < k ==> pos.vacant(#[trigger] steps(from, d, j)),
        pos.state(steps(from, d, k), piece.color) is Empty || pos.state(
            steps(from, d, k),
            piece.color,
        ) is Opponent,
    ensures
        k - m <= pos.ray(piece, from, cur, d, true).len(),
    decreases k - m,
{
    lemma_one_more_step(from, d, m, cur);
    if m + 1 < k {
        let next = cur.shift(d.0 as int, d.1 as int);
        assert(pos.vacant(steps(from, d, m + 1)));
        lemma_line_reaches(pos, piece, from, d, m + 1, next->0, k);
    }
}

/// The `i`-th move along a line goes `i + 1` steps from the origin, over
/// empty squares, and takes what stands where it ends.
pub proof fn line_move_goes_straight(pos: Position, piece: Piece, from: Location, d: (i8, i8), i: int)
    requires
        d.0 != 0 || d.1 != 0,
        0 <= i < pos.ray(piece, from, from, d, true).len(),
    ensures
        steps(from, d, i + 1) is Some,
        pos.ray(piece, from, from, d, true)[i] == move_onto(
            pos,
            piece,
            from,
            steps(from, d, i + 1)->0,
        ),
        forall|j: int| 0 < j <= i ==> pos.vacant(#[trigger] steps(from, d, j)),
{
    if from.valid() {
        assert(steps(from, d, 0) == Some(from));
        lemma_line_from(pos, piece, from, d, 0, from, i);
    } else {
        lemma_line_off_board(pos, piece, from, d, i);
    }
}

/// The same, from an origin off the board.
proof fn lemma_line_off_board(pos: Position, piece: Piece, from: Location, d: (i8, i8), i: int)
    requires
        d.0 != 0 || d.1 != 0,
        !from.valid(),
        0 <= i < pos.ray(piece, from, from, d, true).len(),
    ensures
        steps(from, d, i + 1) is Some,
        pos.ray(piece, from, from, d, true)[i] == move_onto(
            pos,
            piece,
            from,
            steps(from, d, i + 1)->0,
        ),
        forall|j: int| 0 < j <= i ==> pos.vacant(#[trigger] steps(from, d, j)),
{
    let next = from.shift(d.0 as int, d.1 as int)->0;
    assert(steps(from, d, 1) == Some(next));
    if i > 0 {
        lemma_line_from(pos, piece, from, d, 1, next, i - 1);
        assert forall|j: int| 0 < j <= i implies pos.vacant(#[trigger] steps(from, d, j)) by {
            if j == 1 {
            } else {
                assert(1 < j <= 1 + (i - 1));
            }
        }
    }
}

/// A line reaches every square that lies `k` steps from a square of the
/// board over empty squares and holds no piece of the mover's side: the
/// move onto it is the `k`-th of the line.
pub proof fn line_reaches(pos: Position, piece: Piece, from: Location, d: (i8, i8), k: int)
    requires
        from.valid(),
        d.0 != 0 || d.1 != 0,
        1 <= k,
        forall|j: int| 0 < j < k ==> pos.vacant(#[trigger] steps(from, d, j)),
        pos.state(steps(from, d, k), piece.color) is Empty || pos.state(
            steps(from, d, k),
            piece.color,
        ) is Opponent,
    ensures
        k <= pos.ray(piece, from, from, d, true).len(),
        pos.ray(piece, from, from, d, true)[k - 1] == move_onto(
            pos,
            piece,
            from,
            steps(from, d, k)->0,
        ),
{
    assert(steps(from, d, 0) == Some(from));
    lemma_line_reaches(pos, piece, from, d, 0, from, k);
    line_move_goes_straight(pos, piece, from, d, k - 1);
}

/// A piece that makes one step at most reaches the next square in its
/// direction exactly when that square is on the board and holds no piece of
/// its own side.
pub proof fn single_step_reaches(pos: Position, piece: Piece, from: Location, d: (i8, i8))
    ensures
        pos.ray(piece, from, from, d, false) == (match pos.state(
            from.shift(d.0 as int, d.1 as int),
            piece.color,
        ) {
            LocationState::Empty => seq![
                move_onto(pos, piece, from, from.shift(d.0 as int, d.1 as int)->0),
            ],
            LocationState::Opponent(_) => seq![
                move_onto(pos, piece, from, from.shift(d.0 as int, d.1 as int)->0),
            ],
            _ => Seq::empty(),
        }),
{
}

} // verus!
