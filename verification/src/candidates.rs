//! The events that each card offers on the board.

use vstd::prelude::*;
use crate::board::Board;
use crate::event::Event;
use crate::location::Location;
use crate::mutation::{array8, of_kind, queen_splits, ranks, rook_pair, rook_pairs, swapped};
use crate::piece::{Piece, PieceType};
use crate::position::lemma_pieces_of_on_board;
use crate::rules::room;
use crate::seqs::flat_map_upto;

verus! {

/// The pieces of one kind among `pieces`, in their order.
pub fn pieces_of_kind(pieces: &Vec<(Location, Piece)>, typ: PieceType) -> (found: Vec<
    (Location, Piece),
>)
    ensures
        found@ == of_kind(pieces@, typ),
{
    let mut found: Vec<(Location, Piece)> = Vec::new();
    let mut i: usize = 0;
    while i < pieces.len()
        invariant
            i <= pieces.len(),
            found@ == flat_map_upto(
                pieces@,
                |x: (Location, Piece)|
                    if x.1.typ == typ {
                        seq![x]
                    } else {
                        Seq::empty()
                    },
                i as int,
            ),
        decreases pieces.len() - i,
    {
        if pieces[i].1.typ == typ {
            found.push(pieces[i]);
        }
        i += 1;
    }
    found
}

impl Board {
    /// Where a piece comes to rest that glides from `from` in the direction
    /// `d` over empty squares, without entering the rank `bar`.
    pub fn glide(&self, from: Location, d: (i8, i8), bar: i8) -> (end: Location)
        ensures
            end == self.pos().glide(from, d, bar as int),
    {
        let mut cur = from;
        loop
            invariant_except_break
                self.pos().glide(cur, d, bar as int) == self.pos().glide(from, d, bar as int),
            ensures
                cur == self.pos().glide(from, d, bar as int),
            decreases room(cur, d),
        {
            match cur.offset(d.0, d.1) {
                None => {
                    break ;
                },
                Some(next) => {
                    if !self.is_empty(next) || next.rank == bar || (d.0 == 0 && d.1 == 0) {
                        break ;
                    }
                    cur = next;
                },
            }
        }
        cur
    }

    /// The swaps of any two pieces of the side to move.
    pub fn swap_candidates(&self) -> (cands: Vec<Event>)
        ensures
            cands@ == self.pos().swap_candidates(),
    {
        let pieces = self.iter_active_pieces();
        let final_rank = self.final_rank();
        let mut cands: Vec<Event> = Vec::new();
        let mut i: usize = 0;
        while i < pieces.len()
            invariant
                i <= pieces.len(),
                pieces@ == self.pos().pieces_of(self.active),
                final_rank == crate::position::final_rank(self.active),
                cands@ == flat_map_upto(
                    Seq::new(pieces@.len(), |i: int| i),
                    |i: int| self.pos().swaps_of(pieces@, i),
                    i as int,
                ),
            decreases pieces.len() - i,
        {
            let (l1, first) = pieces[i];
            let ghost base = cands@;
            let mut j: usize = 0;
            while j < i
                invariant
                    j <= i < pieces.len(),
                    (l1, first) == pieces@[i as int],
                    final_rank == crate::position::final_rank(self.active),
                    cands@ == base + flat_map_upto(
                        pieces@,
                        |y: (Location, Piece)| self.pos().swap_pair(pieces@[i as int], y),
                        j as int,
                    ),
                decreases i - j,
            {
                let (l2, second) = pieces[j];
                let ghost before = cands@;
                if first.typ == second.typ || first.is_king() || second.is_king() {
                } else if first.is_pawn() && l2.rank == final_rank {
                } else if second.is_pawn() && l1.rank == final_rank {
                } else {
                    cands.push(Event::Swap(l1, l2));
                }
                j += 1;
                assert(cands@ =~= base + flat_map_upto(
                    pieces@,
                    |y: (Location, Piece)| self.pos().swap_pair(pieces@[i as int], y),
                    j as int,
                ));
            }
            i += 1;
        }
        cands
    }

    /// Each knight of the side to move as a bishop.
    pub fn n2b_candidates(&self) -> (cands: Vec<Event>)
        ensures
            cands@ == self.pos().n2b_candidates(),
    {
        let pieces = self.iter_active_pieces();
        let knights = pieces_of_kind(&pieces, PieceType::Knight);
        let mut cands: Vec<Event> = Vec::new();
        let mut i: usize = 0;
        while i < knights.len()
            invariant
                i <= knights.len(),
                cands@.len() == i,
                forall|k: int| 0 <= k < i ==> cands@[k] == Event::KnightToBishop(knights@[k].0),
            decreases knights.len() - i,
        {
            cands.push(Event::KnightToBishop(knights[i].0));
            i += 1;
        }
        assert(cands@ =~= self.pos().n2b_candidates());
        cands
    }

    /// Each bishop of the side to move as a knight.
    pub fn b2n_candidates(&self) -> (cands: Vec<Event>)
        ensures
            cands@ == self.pos().b2n_candidates(),
    {
        let pieces = self.iter_active_pieces();
        let bishops = pieces_of_kind(&pieces, PieceType::Bishop);
        let mut cands: Vec<Event> = Vec::new();
        let mut i: usize = 0;
        while i < bishops.len()
            invariant
                i <= bishops.len(),
                cands@.len() == i,
                forall|k: int| 0 <= k < i ==> cands@[k] == Event::BishopToKnight(bishops@[k].0),
            decreases bishops.len() - i,
        {
            cands.push(Event::BishopToKnight(bishops[i].0));
            i += 1;
        }
        assert(cands@ =~= self.pos().b2n_candidates());
        cands
    }

    /// Each rook of the side to move as a queen at the cost of each other
    /// rook.
    pub fn r2q_candidates(&self) -> (cands: Vec<Event>)
        ensures
            cands@ == self.pos().r2q_candidates(),
    {
        let pieces = self.iter_active_pieces();
        let rooks = pieces_of_kind(&pieces, PieceType::Rook);
        let mut cands: Vec<Event> = Vec::new();
        let mut i: usize = 0;
        while i < rooks.len()
            invariant
                i <= rooks.len(),
                cands@ == flat_map_upto(
                    rooks@,
                    |a: (Location, Piece)| rook_pairs(rooks@, a),
                    i as int,
                ),
            decreases rooks.len() - i,
        {
            let ghost base = cands@;
            let mut j: usize = 0;
            while j < rooks.len()
                invariant
                    j <= rooks.len(),
                    i < rooks.len(),
                    cands@ == base + flat_map_upto(
                        rooks@,
                        |b: (Location, Piece)| rook_pair(rooks@[i as int], b),
                        j as int,
                    ),
                decreases rooks.len() - j,
            {
                if rooks[i].0 != rooks[j].0 {
                    cands.push(Event::RooksToQueen(rooks[i].0, rooks[j].0));
                }
                j += 1;
                assert(cands@ =~= base + flat_map_upto(
                    rooks@,
                    |b: (Location, Piece)| rook_pair(rooks@[i as int], b),
                    j as int,
                ));
            }
            i += 1;
        }
        cands
    }

    /// Each queen of the side to move as a rook, with a second rook on each
    /// empty square.
    pub fn q2r_candidates(&self) -> (cands: Vec<Event>)
        ensures
            cands@ == self.pos().q2r_candidates(),
    {
        let pieces = self.iter_active_pieces();
        let queens = pieces_of_kind(&pieces, PieceType::Queen);
        let emptys = self.iter_empty_locations();
        let mut cands: Vec<Event> = Vec::new();
        let mut i: usize = 0;
        while i < queens.len()
            invariant
                i <= queens.len(),
                emptys@ == self.pos().empty_locations(),
                cands@ == flat_map_upto(
                    queens@,
                    |q: (Location, Piece)| queen_splits(emptys@, q),
                    i as int,
                ),
            decreases queens.len() - i,
        {
            let ghost base = cands@;
            let mut j: usize = 0;
            while j < emptys.len()
                invariant
                    j <= emptys.len(),
                    i < queens.len(),
                    cands@.len() == base.len() + j,
                    forall|k: int| 0 <= k < base.len() ==> cands@[k] == base[k],
                    forall|k: int|
                        0 <= k < j ==> cands@[base.len() + k] == Event::QueenToRooks(
                            queens@[i as int].0,
                            emptys@[k],
                        ),
                decreases emptys.len() - j,
            {
                cands.push(Event::QueenToRooks(queens[i].0, emptys[j]));
                j += 1;
            }
            assert(cands@ =~= base + queen_splits(emptys@, queens@[i as int]));
            i += 1;
        }
        cands
    }

    /// The run of each pawn of the side to move to the last empty square
    /// ahead of it, short of the furthest rank.
    pub fn pawn_run_candidates(&self) -> (cands: Vec<Event>)
        ensures
            cands@ == self.pos().pawn_run_candidates(),
    {
        let pieces = self.iter_active_pieces();
        let pawns = pieces_of_kind(&pieces, PieceType::Pawn);
        let dy: i8 = if self.active.is_white() {
            1
        } else {
            -1
        };
        let final_rank = self.final_rank();
        let mut cands: Vec<Event> = Vec::new();
        let mut i: usize = 0;
        while i < pawns.len()
            invariant
                i <= pawns.len(),
                dy == crate::position::forward(self.active),
                final_rank == crate::position::final_rank(self.active),
                cands@ == flat_map_upto(
                    pawns@,
                    |x: (Location, Piece)| self.pos().pawn_run(x),
                    i as int,
                ),
            decreases pawns.len() - i,
        {
            let l = pawns[i].0;
            let nloc = self.glide(l, (0, dy), final_rank);
            if l != nloc {
                cands.push(Event::PawnRun(l, nloc));
            }
            i += 1;
        }
        cands
    }

    /// Where the side to move has eight pawns: each of the first eight as a
    /// queen at the cost of the other seven.
    pub fn p2q_candidates(&self) -> (cands: Vec<Event>)
        ensures
            cands@ == self.pos().p2q_candidates(),
    {
        let pieces = self.iter_active_pieces();
        let pawns = pieces_of_kind(&pieces, PieceType::Pawn);
        let mut cands: Vec<Event> = Vec::new();
        if pawns.len() < 8 {
            return cands;
        }
        let first: [Location; 8] = [
            pawns[0].0,
            pawns[1].0,
            pawns[2].0,
            pawns[3].0,
            pawns[4].0,
            pawns[5].0,
            pawns[6].0,
            pawns[7].0,
        ];
        assert(first@ =~= self.pos().first_pawns());
        let mut i: usize = 0;
        while i < 8
            invariant
                i <= 8,
                first@ == self.pos().first_pawns(),
                cands@.len() == i,
                forall|k: int|
                    0 <= k < i ==> cands@[k] == Event::PawnsToQueen(
                        array8(swapped(self.pos().first_pawns(), k)),
                    ),
            decreases 8 - i,
        {
            let mut v = first;
            let head = v[0];
            v[0] = v[i];
            v[i] = head;
            proof {
                let want = swapped(self.pos().first_pawns(), i as int);
                assert(v@ =~= want);
                assert(array8(want)@ == want);
                assert(v =~= array8(want));
            }
            cands.push(Event::PawnsToQueen(v));
            i += 1;
        }
        assert(cands@ =~= self.pos().p2q_candidates());
        cands
    }

    /// Whether a rank is empty, but for the square `except`.
    pub fn rank_clear(&self, rank: i8, except: Location) -> (clear: bool)
        requires
            0 <= rank < 8,
        ensures
            clear == self.pos().rank_clear(rank, except),
    {
        let mut file: i8 = 0;
        while file < 8
            invariant
                0 <= file <= 8,
                0 <= rank < 8,
                forall|f: int|
                    0 <= f < file ==> {
                        let loc = Location { file: f as i8, rank };
                        loc == except || (#[trigger] self.pos().cells[rank as int][f]) is None
                    },
            decreases 8 - file,
        {
            let location = Location::new(file, rank);
            if location != except && !self.is_empty(location) {
                assert(self.pos().cells[rank as int][file as int] is Some);
                return false;
            }
            file += 1;
        }
        true
    }

    /// Each queen of the side to move as eight pawns on each rank, other
    /// than the furthest, that is empty but for the queen.
    pub fn q2p_candidates(&self) -> (cands: Vec<Event>)
        ensures
            cands@ == self.pos().q2p_candidates(),
    {
        let pieces = self.iter_active_pieces();
        let queens = pieces_of_kind(&pieces, PieceType::Queen);
        let final_rank = self.final_rank();
        let mut cands: Vec<Event> = Vec::new();
        let mut i: usize = 0;
        while i < queens.len()
            invariant
                i <= queens.len(),
                final_rank == crate::position::final_rank(self.active),
                cands@ == flat_map_upto(
                    queens@,
                    |q: (Location, Piece)| self.pos().ranks_of_pawns(q),
                    i as int,
                ),
            decreases queens.len() - i,
        {
            let l = queens[i].0;
            let ghost base = cands@;
            let mut rank: i8 = 0;
            while rank < 8
                invariant
                    0 <= rank <= 8,
                    final_rank == crate::position::final_rank(self.active),
                    cands@ == base + flat_map_upto(
                        ranks(),
                        |rank: i8| self.pos().rank_of_pawns(l, rank),
                        rank as int,
                    ),
                decreases 8 - rank,
            {
                if rank != final_rank && self.rank_clear(rank, l) {
                    cands.push(Event::QueenToPawns(l, rank));
                }
                rank += 1;
                assert(cands@ =~= base + flat_map_upto(
                    ranks(),
                    |rank: i8| self.pos().rank_of_pawns(l, rank),
                    rank as int,
                ));
            }
            i += 1;
        }
        cands
    }

    /// The jump of each piece of the side to move that stands on an edge
    /// file to the other edge of its rank, if the square there is empty.
    pub fn rotate_candidates(&self) -> (cands: Vec<Event>)
        ensures
            cands@ == self.pos().rotate_candidates(),
    {
        let pieces = self.iter_active_pieces();
        let mut cands: Vec<Event> = Vec::new();
        let mut i: usize = 0;
        while i < pieces.len()
            invariant
                i <= pieces.len(),
                pieces@ == self.pos().pieces_of(self.active),
                cands@ == flat_map_upto(
                    pieces@,
                    |x: (Location, Piece)| self.pos().rotation(x),
                    i as int,
                ),
            decreases pieces.len() - i,
        {
            let l = pieces[i].0;
            proof {
                lemma_pieces_of_on_board(self.pos(), self.active, i as int);
            }
            if l.file == 0 {
                let loc = Location::new(7, l.rank);
                if self.is_empty(loc) {
                    cands.push(Event::Rotate(l, loc));
                }
            } else if l.file == 7 {
                let loc = Location::new(0, l.rank);
                if self.is_empty(loc) {
                    cands.push(Event::Rotate(l, loc));
                }
            }
            i += 1;
        }
        cands
    }

    /// The slide of the king of the side to move along its rank, away from
    /// the nearer edge, as far as the squares are empty.
    pub fn king_move_candidates(&self) -> (cands: Vec<Event>)
        ensures
            cands@ == self.pos().king_move_candidates(),
    {
        let pieces = self.iter_active_pieces();
        let kings = pieces_of_kind(&pieces, PieceType::King);
        let mut cands: Vec<Event> = Vec::new();
        if kings.len() == 0 {
            return cands;
        }
        let l = kings[0].0;
        let dx: i8 = if l.file < 4 {
            1
        } else {
            -1
        };
        let nloc = self.glide(l, (dx, 0), -1);
        if l != nloc {
            cands.push(Event::KingMove(l, nloc));
        }
        assert(cands@ =~= self.pos().king_move_candidates());
        cands
    }
}

} // verus!
