//! What the cards do: the change that each event makes to a position, the
//! events that each card offers, and which of them may be played.

use vstd::prelude::*;
use crate::event::Event;
use crate::location::Location;
use crate::piece::{Piece, PieceType};
use crate::position::{final_rank, forward, Position};
use crate::rules::room;
use crate::seqs::{flat_map, flat_map_upto, retain};

verus! {

/// The same piece as another kind, where there is a piece.
pub open spec fn recast(piece: Option<Piece>, typ: PieceType) -> Option<Piece> {
    match piece {
        Some(p) => Some(Piece { typ, color: p.color }),
        None => None,
    }
}

/// The array that holds the eight squares of a sequence.
pub open spec fn array8(squares: Seq<Location>) -> [Location; 8] {
    choose|a: [Location; 8]| a@ == squares
}

/// The sequence with its first item and its `i`-th exchanged.
pub open spec fn swapped(squares: Seq<Location>, i: int) -> Seq<Location> {
    squares.update(0, squares[i]).update(i, squares[0])
}

/// The pieces of one kind among `pieces`, in their order.
pub open spec fn of_kind(pieces: Seq<(Location, Piece)>, typ: PieceType) -> Seq<(Location, Piece)> {
    flat_map(
        pieces,
        |x: (Location, Piece)|
            if x.1.typ == typ {
                seq![x]
            } else {
                Seq::empty()
            },
    )
}

/// The fusion of the rook `a` with the rook `b`, unless they are the same.
pub open spec fn rook_pair(a: (Location, Piece), b: (Location, Piece)) -> Seq<Event> {
    if a.0 != b.0 {
        seq![Event::RooksToQueen(a.0, b.0)]
    } else {
        Seq::empty()
    }
}

/// The fusions of the rook `a` with each of the other rooks.
pub open spec fn rook_pairs(rooks: Seq<(Location, Piece)>, a: (Location, Piece)) -> Seq<Event> {
    flat_map(rooks, |b: (Location, Piece)| rook_pair(a, b))
}

/// The splits of the queen `q` that put the second rook on each of the
/// empty squares.
pub open spec fn queen_splits(empty: Seq<Location>, q: (Location, Piece)) -> Seq<Event> {
    empty.map_values(|e: Location| Event::QueenToRooks(q.0, e))
}

/// The eight ranks from White's side.
pub open spec fn ranks() -> Seq<i8> {
    Seq::new(8, |r: int| r as i8)
}

impl Position {
    /// Whether an event names squares of the board and finds the piece that
    /// it transforms.
    pub open spec fn accepts(self, e: Event) -> bool {
        match e {
            Event::Swap(a, b) => a.valid() && b.valid(),
            Event::KnightToBishop(l) => l.valid() && self.at(l) is Some,
            Event::BishopToKnight(l) => l.valid() && self.at(l) is Some,
            Event::RooksToQueen(a, b) => a.valid() && b.valid() && self.at(a) is Some,
            Event::QueenToRooks(a, b) => a.valid() && b.valid() && self.at(a) is Some,
            Event::PawnRun(a, b) => a.valid() && b.valid() && self.at(a) is Some,
            Event::PawnsToQueen(ls) => self.at(ls[0]) is Some && forall|i: int|
                0 <= i < 8 ==> (#[trigger] ls[i]).valid(),
            Event::QueenToPawns(l, rank) => l.valid() && 0 <= rank < 8 && self.at(l) is Some,
            Event::Rotate(a, b) => a.valid() && b.valid() && self.at(a) is Some,
            Event::KingMove(a, b) => a.valid() && b.valid() && self.at(a) is Some,
        }
    }

    /// Whether an event is made as the events of this position are: it works
    /// on pieces of the side to move, of the kinds that it names, and puts
    /// pieces only on squares that are empty or that it has emptied itself.
    pub open spec fn suits(self, e: Event) -> bool {
        let me = self.active;
        let mine = |l: Location, typ: PieceType| l.valid() && self.at(l) == Some(Piece { typ, color: me });
        match e {
            Event::Swap(a, b) => {
                &&& a.valid() && b.valid() && a != b
                &&& self.at(a) matches Some(p) && p.color == me && p.typ != PieceType::King
                &&& self.at(b) matches Some(q) && q.color == me && q.typ != PieceType::King
            },
            Event::KnightToBishop(l) => mine(l, PieceType::Knight),
            Event::BishopToKnight(l) => mine(l, PieceType::Bishop),
            Event::RooksToQueen(a, b) => a != b && mine(a, PieceType::Rook) && mine(
                b,
                PieceType::Rook,
            ),
            Event::QueenToRooks(a, b) => mine(a, PieceType::Queen) && b.valid() && self.at(b) is None,
            Event::PawnRun(a, b) => {
                &&& mine(a, PieceType::Pawn)
                &&& b.valid() && a != b && self.at(b) is None
                &&& b.file == a.file && b.rank != final_rank(me)
            },
            Event::PawnsToQueen(ls) => forall|i: int|
                0 <= i < 8 ==> mine(#[trigger] ls[i], PieceType::Pawn),
            Event::QueenToPawns(l, rank) => {
                &&& mine(l, PieceType::Queen)
                &&& 0 <= rank < 8 && rank != final_rank(me)
                &&& self.rank_clear(rank, l)
            },
            Event::Rotate(a, b) => {
                &&& a.valid() && b.valid()
                &&& self.at(a) matches Some(p) && p.color == me
                &&& self.at(b) is None
                &&& b.rank == a.rank && (a.file == 0 || a.file == 7) && b.file == 7 - a.file
            },
            Event::KingMove(a, b) => {
                &&& mine(a, PieceType::King)
                &&& b.valid() && a != b && self.at(b) is None
                &&& b.rank == a.rank
            },
        }
    }

    /// What stands on a square once an event has taken place.
    pub open spec fn cell_after_event(self, e: Event, loc: Location) -> Option<Piece> {
        match e {
            Event::Swap(a, b) => if loc == b {
                self.at(a)
            } else if loc == a {
                self.at(b)
            } else {
                self.at(loc)
            },
            Event::KnightToBishop(l) => if loc == l {
                recast(self.at(l), PieceType::Bishop)
            } else {
                self.at(loc)
            },
            Event::BishopToKnight(l) => if loc == l {
                recast(self.at(l), PieceType::Knight)
            } else {
                self.at(loc)
            },
            Event::RooksToQueen(a, b) => if loc == b {
                None
            } else if loc == a {
                recast(self.at(a), PieceType::Queen)
            } else {
                self.at(loc)
            },
            Event::QueenToRooks(a, b) => if loc == a || loc == b {
                recast(self.at(a), PieceType::Rook)
            } else {
                self.at(loc)
            },
            Event::PawnsToQueen(ls) => if ls@.subrange(1, 8).contains(loc) {
                None
            } else if loc == ls[0] {
                recast(self.at(ls[0]), PieceType::Queen)
            } else {
                self.at(loc)
            },
            Event::QueenToPawns(l, rank) => if loc.rank == rank {
                recast(self.at(l), PieceType::Pawn)
            } else if loc == l {
                None
            } else {
                self.at(loc)
            },
            Event::PawnRun(a, b) => self.cell_relocated(a, b, loc),
            Event::Rotate(a, b) => self.cell_relocated(a, b, loc),
            Event::KingMove(a, b) => self.cell_relocated(a, b, loc),
        }
    }

    /// What stands on a square once the piece on `a` has gone to `b`.
    pub open spec fn cell_relocated(self, a: Location, b: Location, loc: Location) -> Option<Piece> {
        if loc == b {
            self.at(a)
        } else if loc == a {
            None
        } else {
            self.at(loc)
        }
    }

    /// The castling rights once an event has taken place, on the squares as
    /// they were. A swap or a rotation that moves a piece off a corner of the
    /// side to move costs the right of that corner; the fusion of two rooks
    /// and the slide of the king cost both rights of that side.
    pub open spec fn rights_after_event(self, e: Event) -> Position {
        match e {
            Event::Swap(a, b) => self.without_corner(a, self.active).without_corner(b, self.active),
            Event::RooksToQueen(_, _) => self.without_castling(self.active),
            Event::Rotate(a, _) => self.without_corner(a, self.active),
            Event::KingMove(_, _) => self.without_castling(self.active),
            _ => self,
        }
    }

    /// The position after an event. The side to move stays the same.
    pub open spec fn after_event(self, e: Event) -> Position {
        Position {
            cells: Seq::new(
                8,
                |r: int|
                    Seq::new(
                        8,
                        |f: int| self.cell_after_event(e, Location { file: f as i8, rank: r as i8 }),
                    ),
            ),
            ..self.rights_after_event(e)
        }
    }

    /// Where a piece comes to rest that glides from `cur` in the direction
    /// `d` over empty squares, without entering the rank `bar`.
    pub open spec fn glide(self, cur: Location, d: (i8, i8), bar: int) -> Location
        decreases room(cur, d),
    {
        match cur.shift(d.0 as int, d.1 as int) {
            None => cur,
            Some(next) => if self.at(next) is None && next.rank != bar && (d.0 != 0 || d.1 != 0) {
                self.glide(next, d, bar)
            } else {
                cur
            },
        }
    }

    /// Whether two pieces of the side to move may change places: they are of
    /// different kinds, neither is a king, and no pawn comes to stand on the
    /// furthest rank.
    pub open spec fn may_swap(self, x: (Location, Piece), y: (Location, Piece)) -> bool {
        &&& x.1.typ != y.1.typ
        &&& x.1.typ != PieceType::King
        &&& y.1.typ != PieceType::King
        &&& !(x.1.typ == PieceType::Pawn && y.0.rank == final_rank(self.active))
        &&& !(y.1.typ == PieceType::Pawn && x.0.rank == final_rank(self.active))
    }

    /// The swap of two pieces, if they may change places.
    pub open spec fn swap_pair(self, x: (Location, Piece), y: (Location, Piece)) -> Seq<Event> {
        if self.may_swap(x, y) {
            seq![Event::Swap(x.0, y.0)]
        } else {
            Seq::empty()
        }
    }

    /// The swaps of the `i`-th piece with each of the pieces before it.
    pub open spec fn swaps_of(self, pieces: Seq<(Location, Piece)>, i: int) -> Seq<Event> {
        flat_map_upto(pieces, |y: (Location, Piece)| self.swap_pair(pieces[i], y), i)
    }

    /// The swaps of any two pieces of the side to move.
    pub open spec fn swap_candidates(self) -> Seq<Event> {
        let pieces = self.pieces_of(self.active);
        flat_map(Seq::new(pieces.len(), |i: int| i), |i: int| self.swaps_of(pieces, i))
    }

    /// Each knight of the side to move as a bishop.
    pub open spec fn n2b_candidates(self) -> Seq<Event> {
        of_kind(self.pieces_of(self.active), PieceType::Knight).map_values(
            |x: (Location, Piece)| Event::KnightToBishop(x.0),
        )
    }

    /// Each bishop of the side to move as a knight.
    pub open spec fn b2n_candidates(self) -> Seq<Event> {
        of_kind(self.pieces_of(self.active), PieceType::Bishop).map_values(
            |x: (Location, Piece)| Event::BishopToKnight(x.0),
        )
    }

    /// Each rook of the side to move as a queen at the cost of each other
    /// rook.
    pub open spec fn r2q_candidates(self) -> Seq<Event> {
        let rooks = of_kind(self.pieces_of(self.active), PieceType::Rook);
        flat_map(rooks, |a: (Location, Piece)| rook_pairs(rooks, a))
    }

    /// Each queen of the side to move as a rook, with a second rook on each
    /// empty square.
    pub open spec fn q2r_candidates(self) -> Seq<Event> {
        let empty = self.empty_locations();
        flat_map(
            of_kind(self.pieces_of(self.active), PieceType::Queen),
            |q: (Location, Piece)| queen_splits(empty, q),
        )
    }

    /// The run of a pawn of the side to move to the last empty square ahead
    /// of it, short of the furthest rank, if it can advance at all.
    pub open spec fn pawn_run(self, x: (Location, Piece)) -> Seq<Event> {
        let end = self.glide(x.0, (0i8, forward(self.active) as i8), final_rank(self.active));
        if end != x.0 {
            seq![Event::PawnRun(x.0, end)]
        } else {
            Seq::empty()
        }
    }

    /// The run of each pawn of the side to move.
    pub open spec fn pawn_run_candidates(self) -> Seq<Event> {
        flat_map(
            of_kind(self.pieces_of(self.active), PieceType::Pawn),
            |x: (Location, Piece)| self.pawn_run(x),
        )
    }

    /// The squares of the first eight pawns of the side to move.
    pub open spec fn first_pawns(self) -> Seq<Location> {
        Seq::new(8, |k: int| of_kind(self.pieces_of(self.active), PieceType::Pawn)[k].0)
    }

    /// Where the side to move has eight pawns: each of the first eight as a
    /// queen at the cost of the other seven.
    pub open spec fn p2q_candidates(self) -> Seq<Event> {
        if of_kind(self.pieces_of(self.active), PieceType::Pawn).len() < 8 {
            Seq::empty()
        } else {
            Seq::new(8, |i: int| Event::PawnsToQueen(array8(swapped(self.first_pawns(), i))))
        }
    }

    /// Whether a rank is empty, but for the square `except`.
    pub open spec fn rank_clear(self, rank: i8, except: Location) -> bool {
        forall|f: int|
            0 <= f < 8 ==> {
                let loc = Location { file: f as i8, rank };
                loc == except || (#[trigger] self.cells[rank as int][f]) is None
            }
    }

    /// The queen on `l` as eight pawns on a rank, if the rank is not the
    /// furthest and is empty but for the queen.
    pub open spec fn rank_of_pawns(self, l: Location, rank: i8) -> Seq<Event> {
        if rank != final_rank(self.active) && self.rank_clear(rank, l) {
            seq![Event::QueenToPawns(l, rank)]
        } else {
            Seq::empty()
        }
    }

    /// The queen as eight pawns on each rank that can take them.
    pub open spec fn ranks_of_pawns(self, q: (Location, Piece)) -> Seq<Event> {
        flat_map(ranks(), |rank: i8| self.rank_of_pawns(q.0, rank))
    }

    /// Each queen of the side to move as eight pawns.
    pub open spec fn q2p_candidates(self) -> Seq<Event> {
        flat_map(
            of_kind(self.pieces_of(self.active), PieceType::Queen),
            |q: (Location, Piece)| self.ranks_of_pawns(q),
        )
    }

    /// The jump of a piece on an edge file to the other edge of its rank, if
    /// the square there is empty.
    pub open spec fn rotation(self, x: (Location, Piece)) -> Seq<Event> {
        let across = Location { file: (7 - x.0.file) as i8, rank: x.0.rank };
        if (x.0.file == 0 || x.0.file == 7) && self.at(across) is None {
            seq![Event::Rotate(x.0, across)]
        } else {
            Seq::empty()
        }
    }

    /// The jump of each piece of the side to move that stands on an edge
    /// file.
    pub open spec fn rotate_candidates(self) -> Seq<Event> {
        flat_map(self.pieces_of(self.active), |x: (Location, Piece)| self.rotation(x))
    }

    /// The slide of the king of the side to move along its rank, towards the
    /// higher files from the lower half of the board and towards the lower
    /// files from the upper half, as far as the squares are empty.
    pub open spec fn king_move_candidates(self) -> Seq<Event> {
        let kings = of_kind(self.pieces_of(self.active), PieceType::King);
        if kings.len() == 0 {
            Seq::empty()
        } else {
            let from = kings[0].0;
            let d = if from.file < 4 {
                (1i8, 0i8)
            } else {
                (-1i8, 0i8)
            };
            let end = self.glide(from, d, -1);
            if end != from {
                seq![Event::KingMove(from, end)]
            } else {
                Seq::empty()
            }
        }
    }

    /// The events that a card offers. Card 0 offers none.
    pub open spec fn candidates(self, card: usize) -> Seq<Event> {
        if card == 0 {
            Seq::empty()
        } else if card == 1 {
            self.b2n_candidates()
        } else if card == 2 {
            self.n2b_candidates()
        } else if card == 3 {
            self.r2q_candidates()
        } else if card == 4 {
            self.q2r_candidates()
        } else if card == 5 {
            self.p2q_candidates()
        } else if card == 6 {
            self.q2p_candidates()
        } else if card == 7 {
            self.swap_candidates()
        } else if card == 8 {
            self.rotate_candidates()
        } else if card == 9 {
            self.pawn_run_candidates()
        } else {
            self.king_move_candidates()
        }
    }

    /// Whether an event may be played: after it the opponent cannot take the
    /// king of the side to move, and the side to move has a legal move.
    pub open spec fn event_ok(self, e: Event) -> bool {
        let after = self.after_event(e);
        &&& !after.attacks_king(after.active.opponent())
        &&& after.listing().len() > 0
    }

    /// The events among `cands` that may be played, in their order.
    pub open spec fn playable(self, cands: Seq<Event>) -> Seq<Event> {
        retain(cands, |e: Event| self.event_ok(e))
    }
}

} // verus!
