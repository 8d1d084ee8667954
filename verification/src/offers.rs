//! What every event has in common that a card offers.

use vstd::prelude::*;
use crate::event::Event;
use crate::location::Location;
use crate::mutation::{array8, of_kind, queen_splits, ranks, rook_pair, rook_pairs, swapped};
use crate::piece::{Piece, PieceType};
use crate::position::{final_rank, forward, lemma_pieces_of_on_board, Position};
use crate::rules::room;
use crate::seqs::lemma_flat_map_source;

verus! {

/// A piece found among those of one kind is one of the pieces, and of that
/// kind.
pub proof fn lemma_of_kind(pieces: Seq<(Location, Piece)>, typ: PieceType, k: int) -> (i: int)
    requires
        0 <= k < of_kind(pieces, typ).len(),
    ensures
        0 <= i < pieces.len(),
        of_kind(pieces, typ)[k] == pieces[i],
        pieces[i].1.typ == typ,
{
    let pick = |x: (Location, Piece)|
        if x.1.typ == typ {
            seq![x]
        } else {
            Seq::empty()
        };
    let at = lemma_flat_map_source(pieces, pick, pieces.len() as int, k);
    at.0
}

/// A piece of one kind of the side to move stands on the board where the
/// position has it.
pub proof fn lemma_own_kind(pos: Position, typ: PieceType, k: int)
    requires
        0 <= k < of_kind(pos.pieces_of(pos.active), typ).len(),
    ensures
        of_kind(pos.pieces_of(pos.active), typ)[k].0.valid(),
        pos.at(of_kind(pos.pieces_of(pos.active), typ)[k].0) == Some(
            Piece { typ, color: pos.active },
        ),
        of_kind(pos.pieces_of(pos.active), typ)[k].1 == (Piece { typ, color: pos.active }),
{
    let i = lemma_of_kind(pos.pieces_of(pos.active), typ, k);
    lemma_pieces_of_on_board(pos, pos.active, i);
}

/// The empty squares are squares of the board on which nothing stands.
pub proof fn lemma_empty_locations(pos: Position, k: int)
    requires
        0 <= k < pos.empty_locations().len(),
    ensures
        pos.empty_locations()[k].valid(),
        pos.at(pos.empty_locations()[k]) is None,
{
    let vacant = |x: (Location, Option<Piece>)|
        match x.1 {
            Some(_) => Seq::empty(),
            None => seq![x.0],
        };
    let at = lemma_flat_map_source(pos.locations(), vacant, pos.locations().len() as int, k);
}

/// A glide ends on the board: where it began, or on an empty square outside
/// the barred rank. Along a file it stays in the file, along a rank in the
/// rank.
pub proof fn lemma_glide(pos: Position, cur: Location, d: (i8, i8), bar: int)
    requires
        cur.valid(),
    ensures
        pos.glide(cur, d, bar).valid(),
        pos.glide(cur, d, bar) != cur ==> pos.at(pos.glide(cur, d, bar)) is None && pos.glide(
            cur,
            d,
            bar,
        ).rank != bar,
        d.0 == 0 ==> pos.glide(cur, d, bar).file == cur.file,
        d.1 == 0 ==> pos.glide(cur, d, bar).rank == cur.rank,
    decreases room(cur, d),
{
    match cur.shift(d.0 as int, d.1 as int) {
        None => {},
        Some(next) => {
            if pos.at(next) is None && next.rank != bar && (d.0 != 0 || d.1 != 0) {
                lemma_glide(pos, next, d, bar);
            }
        },
    }
}

/// Every swap on offer is made as the events of the position are.
pub proof fn lemma_swaps_suit(pos: Position, k: int)
    requires
        0 <= k < pos.swap_candidates().len(),
    ensures
        pos.suits(pos.swap_candidates()[k]),
{
    let pieces = pos.pieces_of(pos.active);
    let outer = |i: int| pos.swaps_of(pieces, i);
    let indices = Seq::new(pieces.len(), |i: int| i);
    let a = lemma_flat_map_source(indices, outer, indices.len() as int, k);
    let i = a.0;
    let inner = |y: (Location, Piece)| pos.swap_pair(pieces[i], y);
    let b = lemma_flat_map_source(pieces, inner, i, a.1);
    lemma_pieces_of_on_board(pos, pos.active, i);
    lemma_pieces_of_on_board(pos, pos.active, b.0);
}

/// Every change of a knight into a bishop on offer, and of a bishop into a
/// knight, is made as the events of the position are.
pub proof fn lemma_recasts_suit(pos: Position, k: int)
    ensures
        0 <= k < pos.n2b_candidates().len() ==> pos.suits(pos.n2b_candidates()[k]),
        0 <= k < pos.b2n_candidates().len() ==> pos.suits(pos.b2n_candidates()[k]),
{
    if 0 <= k < pos.n2b_candidates().len() {
        lemma_own_kind(pos, PieceType::Knight, k);
    }
    if 0 <= k < pos.b2n_candidates().len() {
        lemma_own_kind(pos, PieceType::Bishop, k);
    }
}

/// Every fusion of two rooks on offer is made as the events of the position
/// are.
pub proof fn lemma_fusions_suit(pos: Position, k: int)
    requires
        0 <= k < pos.r2q_candidates().len(),
    ensures
        pos.suits(pos.r2q_candidates()[k]),
{
    let rooks = of_kind(pos.pieces_of(pos.active), PieceType::Rook);
    let outer = |a: (Location, Piece)| rook_pairs(rooks, a);
    let a = lemma_flat_map_source(rooks, outer, rooks.len() as int, k);
    let inner = |b: (Location, Piece)| rook_pair(rooks[a.0], b);
    let b = lemma_flat_map_source(rooks, inner, rooks.len() as int, a.1);
    lemma_own_kind(pos, PieceType::Rook, a.0);
    lemma_own_kind(pos, PieceType::Rook, b.0);
}

/// Every split of a queen on offer is made as the events of the position
/// are.
pub proof fn lemma_splits_suit(pos: Position, k: int)
    requires
        0 <= k < pos.q2r_candidates().len(),
    ensures
        pos.suits(pos.q2r_candidates()[k]),
{
    let queens = of_kind(pos.pieces_of(pos.active), PieceType::Queen);
    let empty = pos.empty_locations();
    let outer = |q: (Location, Piece)| queen_splits(empty, q);
    let a = lemma_flat_map_source(queens, outer, queens.len() as int, k);
    lemma_own_kind(pos, PieceType::Queen, a.0);
    lemma_empty_locations(pos, a.1);
}

/// Every run of a pawn on offer is made as the events of the position are.
pub proof fn lemma_runs_suit(pos: Position, k: int)
    requires
        0 <= k < pos.pawn_run_candidates().len(),
    ensures
        pos.suits(pos.pawn_run_candidates()[k]),
{
    let pawns = of_kind(pos.pieces_of(pos.active), PieceType::Pawn);
    let run = |x: (Location, Piece)| pos.pawn_run(x);
    let a = lemma_flat_map_source(pawns, run, pawns.len() as int, k);
    lemma_own_kind(pos, PieceType::Pawn, a.0);
    lemma_glide(pos, pawns[a.0].0, (0i8, forward(pos.active) as i8), final_rank(pos.active));
}

/// Every fusion of eight pawns on offer is made as the events of the
/// position are.
pub proof fn lemma_pawn_fusions_suit(pos: Position, k: int)
    requires
        0 <= k < pos.p2q_candidates().len(),
    ensures
        pos.suits(pos.p2q_candidates()[k]),
{
    let squares = swapped(pos.first_pawns(), k);
    let ls = array8(squares);
    assert(exists|a: [Location; 8]| a@ == squares) by {
        lemma_some_array(squares);
    }
    assert(ls@ == squares);
    assert forall|i: int| 0 <= i < 8 implies (#[trigger] ls[i]).valid() && pos.at(ls[i]) == Some(
        Piece { typ: PieceType::Pawn, color: pos.active },
    ) by {
        let j = if i == 0 {
            k
        } else if i == k {
            0
        } else {
            i
        };
        assert(ls[i] == pos.first_pawns()[j]);
        lemma_own_kind(pos, PieceType::Pawn, j);
    }
}

/// Eight squares can be held in an array.
pub proof fn lemma_some_array(squares: Seq<Location>)
    requires
        squares.len() == 8,
    ensures
        exists|a: [Location; 8]| a@ == squares,
{
    let a = [
        squares[0],
        squares[1],
        squares[2],
        squares[3],
        squares[4],
        squares[5],
        squares[6],
        squares[7],
    ];
    assert(a@ =~= squares);
}

/// Every split of a queen into pawns on offer is made as the events of the
/// position are.
pub proof fn lemma_pawn_splits_suit(pos: Position, k: int)
    requires
        0 <= k < pos.q2p_candidates().len(),
    ensures
        pos.suits(pos.q2p_candidates()[k]),
{
    let queens = of_kind(pos.pieces_of(pos.active), PieceType::Queen);
    let outer = |q: (Location, Piece)| pos.ranks_of_pawns(q);
    let a = lemma_flat_map_source(queens, outer, queens.len() as int, k);
    let inner = |rank: i8| pos.rank_of_pawns(queens[a.0].0, rank);
    let b = lemma_flat_map_source(ranks(), inner, 8, a.1);
    lemma_own_kind(pos, PieceType::Queen, a.0);
}

/// Every rotation on offer is made as the events of the position are.
pub proof fn lemma_rotations_suit(pos: Position, k: int)
    requires
        0 <= k < pos.rotate_candidates().len(),
    ensures
        pos.suits(pos.rotate_candidates()[k]),
{
    let pieces = pos.pieces_of(pos.active);
    let turn = |x: (Location, Piece)| pos.rotation(x);
    let a = lemma_flat_map_source(pieces, turn, pieces.len() as int, k);
    lemma_pieces_of_on_board(pos, pos.active, a.0);
}

/// The slide of the king on offer is made as the events of the position
/// are.
pub proof fn lemma_slides_suit(pos: Position, k: int)
    requires
        0 <= k < pos.king_move_candidates().len(),
    ensures
        pos.suits(pos.king_move_candidates()[k]),
{
    let kings = of_kind(pos.pieces_of(pos.active), PieceType::King);
    lemma_own_kind(pos, PieceType::King, 0);
    let from = kings[0].0;
    let d = if from.file < 4 {
        (1i8, 0i8)
    } else {
        (-1i8, 0i8)
    };
    lemma_glide(pos, from, d, -1);
}

/// Every event that a card offers is made as the events of the position
/// are.
pub proof fn lemma_candidates_suit(pos: Position, card: usize, k: int)
    requires
        0 <= k < pos.candidates(card).len(),
    ensures
        pos.suits(pos.candidates(card)[k]),
        pos.accepts(pos.candidates(card)[k]),
{
    if card == 1 || card == 2 {
        lemma_recasts_suit(pos, k);
    } else if card == 3 {
        lemma_fusions_suit(pos, k);
    } else if card == 4 {
        lemma_splits_suit(pos, k);
    } else if card == 5 {
        lemma_pawn_fusions_suit(pos, k);
    } else if card == 6 {
        lemma_pawn_splits_suit(pos, k);
    } else if card == 7 {
        lemma_swaps_suit(pos, k);
    } else if card == 8 {
        lemma_rotations_suit(pos, k);
    } else if card == 9 {
        lemma_runs_suit(pos, k);
    } else {
        lemma_slides_suit(pos, k);
    }
    lemma_suits_accepted(pos, pos.candidates(card)[k]);
}

/// An event made as the events of the position are can be applied to it.
pub proof fn lemma_suits_accepted(pos: Position, e: Event)
    requires
        pos.suits(e),
    ensures
        pos.accepts(e),
{
}

} // verus!
