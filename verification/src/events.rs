//! Applying an event to the board.

use vstd::prelude::*;
use crate::board::{Board, BoardView};
use crate::event::Event;
use crate::location::Location;
use crate::piece::{Piece, PieceType};
use crate::position::Position;

verus! {

impl BoardView {
    /// The board after an event: the position has changed and the event is
    /// on record as the last one. The side to move and the number of moves
    /// made stay as they are.
    pub open spec fn mutated(self, e: Event) -> BoardView {
        BoardView { position: self.position.after_event(e), last_event: Some(e), ..self }
    }
}

/// Two boards of eight by eight squares that hold the same on every square
/// are the same.
pub proof fn lemma_same_cells(got: Seq<Seq<Option<Piece>>>, want: Seq<Seq<Option<Piece>>>)
    requires
        got.len() == 8,
        want.len() == 8,
        forall|r: int| 0 <= r < 8 ==> (#[trigger] got[r]).len() == 8,
        forall|r: int| 0 <= r < 8 ==> (#[trigger] want[r]).len() == 8,
        forall|r: int, f: int| 0 <= r < 8 && 0 <= f < 8 ==> got[r][f] == want[r][f],
    ensures
        got == want,
{
    assert forall|r: int| 0 <= r < 8 implies #[trigger] got[r] =~= want[r] by {}
    assert(got =~= want);
}

impl Board {
    /// Moves the piece on `a` to `b`.
    fn relocate(&mut self, a: Location, b: Location)
        requires
            a.valid(),
            b.valid(),
        ensures
            final(self)@ == (BoardView {
                position: Position {
                    cells: Seq::new(
                        8,
                        |r: int|
                            Seq::new(
                                8,
                                |f: int|
                                    old(self).pos().cell_relocated(
                                        a,
                                        b,
                                        Location { file: f as i8, rank: r as i8 },
                                    ),
                            ),
                    ),
                    ..old(self).pos()
                },
                ..old(self)@
            }),
    {
        let piece = self.piece(a);
        self.set_piece(a, None);
        self.set_piece(b, piece);
        proof {
            lemma_same_cells(
                self.pos().cells,
                Seq::new(
                    8,
                    |r: int|
                        Seq::new(
                            8,
                            |f: int|
                                old(self).pos().cell_relocated(
                                    a,
                                    b,
                                    Location { file: f as i8, rank: r as i8 },
                                ),
                        ),
                ),
            );
        }
    }

    /// Takes the pieces off all the squares of `ls` but the first.
    fn clear_rest(&mut self, ls: &[Location; 8])
        requires
            forall|i: int| 0 <= i < 8 ==> (#[trigger] ls[i]).valid(),
        ensures
            final(self)@ == (BoardView {
                position: Position {
                    cells: Seq::new(
                        8,
                        |r: int|
                            Seq::new(
                                8,
                                |f: int|
                                    if ls@.subrange(1, 8).contains(
                                        Location { file: f as i8, rank: r as i8 },
                                    ) {
                                        None
                                    } else {
                                        old(self).pos().cells[r][f]
                                    },
                            ),
                    ),
                    ..old(self).pos()
                },
                ..old(self)@
            }),
    {
        let mut i: usize = 1;
        while i < 8
            invariant
                1 <= i <= 8,
                forall|k: int| 0 <= k < 8 ==> (#[trigger] ls[k]).valid(),
                self@ == (BoardView {
                    position: Position { cells: self.pos().cells, ..old(self).pos() },
                    ..old(self)@
                }),
                forall|r: int, f: int|
                    0 <= r < 8 && 0 <= f < 8 ==> #[trigger] self.pos().cells[r][f] == (if ls@.subrange(
                        1,
                        i as int,
                    ).contains(Location { file: f as i8, rank: r as i8 }) {
                        None
                    } else {
                        old(self).pos().cells[r][f]
                    }),
            decreases 8 - i,
        {
            let ghost before = self.pos();
            self.set_piece(ls[i], None);
            proof {
                let seen = ls@.subrange(1, i as int);
                let more = ls@.subrange(1, i + 1);
                assert(more =~= seen.push(ls[i as int]));
                assert forall|r: int, f: int| 0 <= r < 8 && 0 <= f < 8 implies #[trigger] self.pos().cells[r][f]
                    == (if more.contains(Location { file: f as i8, rank: r as i8 }) {
                    None
                } else {
                    old(self).pos().cells[r][f]
                }) by {
                    let loc = Location { file: f as i8, rank: r as i8 };
                    if loc == ls[i as int] {
                        assert(more[i - 1] == loc);
                    } else if seen.contains(loc) {
                        let k = choose|k: int| 0 <= k < seen.len() && seen[k] == loc;
                        assert(more[k] == loc);
                    } else {
                        if more.contains(loc) {
                            let k = choose|k: int| 0 <= k < more.len() && more[k] == loc;
                            assert(seen[k] == loc);
                        }
                    }
                }
            }
            i += 1;
        }
        proof {
            lemma_same_cells(
                self.pos().cells,
                Seq::new(
                    8,
                    |r: int|
                        Seq::new(
                            8,
                            |f: int|
                                if ls@.subrange(1, 8).contains(
                                    Location { file: f as i8, rank: r as i8 },
                                ) {
                                    None
                                } else {
                                    old(self).pos().cells[r][f]
                                },
                        ),
                ),
            );
        }
    }

    /// Puts `piece` on every square of a rank.
    fn fill_rank(&mut self, rank: i8, piece: Option<Piece>)
        requires
            0 <= rank < 8,
        ensures
            final(self)@ == (BoardView {
                position: Position {
                    cells: Seq::new(
                        8,
                        |r: int|
                            Seq::new(
                                8,
                                |f: int|
                                    if r == rank {
                                        piece
                                    } else {
                                        old(self).pos().cells[r][f]
                                    },
                            ),
                    ),
                    ..old(self).pos()
                },
                ..old(self)@
            }),
    {
        let mut i: i8 = 0;
        while i < 8
            invariant
                0 <= i <= 8,
                0 <= rank < 8,
                self@ == (BoardView {
                    position: Position { cells: self.pos().cells, ..old(self).pos() },
                    ..old(self)@
                }),
                forall|r: int, f: int|
                    0 <= r < 8 && 0 <= f < 8 ==> #[trigger] self.pos().cells[r][f] == (if r == rank
                        && f < i {
                        piece
                    } else {
                        old(self).pos().cells[r][f]
                    }),
            decreases 8 - i,
        {
            let loc = Location::new(i, rank);
            self.set_piece(loc, piece);
            i += 1;
        }
        proof {
            lemma_same_cells(
                self.pos().cells,
                Seq::new(
                    8,
                    |r: int|
                        Seq::new(
                            8,
                            |f: int|
                                if r == rank {
                                    piece
                                } else {
                                    old(self).pos().cells[r][f]
                                },
                        ),
                ),
            );
        }
    }

    /// Makes the change of an event in the position and leaves the record of
    /// the game as it is.
    fn transform(&mut self, event: Event)
        requires
            old(self).pos().accepts(event),
        ensures
            final(self)@ == (BoardView {
                position: old(self).pos().after_event(event),
                ..old(self)@
            }),
    {
        let active = self.active;
        match event {
            Event::Swap(l1, l2) => {
                let first = self.piece(l1);
                let second = self.piece(l2);
                self.set_piece(l1, second);
                self.set_piece(l2, first);
                self.update_castle(l1, active);
                self.update_castle(l2, active);
            },
            Event::KnightToBishop(l) => {
                let mut piece = self.piece(l).unwrap();
                piece.typ = PieceType::Bishop;
                self.set_piece(l, Some(piece));
            },
            Event::BishopToKnight(l) => {
                let mut piece = self.piece(l).unwrap();
                piece.typ = PieceType::Knight;
                self.set_piece(l, Some(piece));
            },
            Event::RooksToQueen(l1, l2) => {
                let mut piece = self.piece(l1).unwrap();
                piece.typ = PieceType::Queen;
                self.set_piece(l1, Some(piece));
                self.set_piece(l2, None);
                self.forfeit_castling(active);
            },
            Event::QueenToRooks(l1, l2) => {
                let mut piece = self.piece(l1).unwrap();
                piece.typ = PieceType::Rook;
                self.set_piece(l1, Some(piece));
                self.set_piece(l2, Some(piece));
            },
            Event::PawnRun(l1, l2) => {
                self.relocate(l1, l2);
            },
            Event::PawnsToQueen(ls) => {
                let mut piece = self.piece(ls[0]).unwrap();
                piece.typ = PieceType::Queen;
                self.set_piece(ls[0], Some(piece));
                self.clear_rest(&ls);
            },
            Event::QueenToPawns(l, rank) => {
                let mut piece = self.piece(l).unwrap();
                piece.typ = PieceType::Pawn;
                self.set_piece(l, None);
                self.fill_rank(rank, Some(piece));
            },
            Event::Rotate(l1, l2) => {
                self.relocate(l1, l2);
                self.update_castle(l1, active);
            },
            Event::KingMove(l1, l2) => {
                self.relocate(l1, l2);
                self.forfeit_castling(active);
            },
        }
        proof {
            lemma_same_cells(self.pos().cells, old(self).pos().after_event(event).cells);
        }
    }

    /// The board after an event.
    pub fn event_applied(&self, event: Event) -> (board: Board)
        requires
            self.pos().accepts(event),
        ensures
            board@ == self@.mutated(event),
    {
        let mut new_board = self.clone();
        new_board.transform(event);
        new_board.last_event = Some(event);
        new_board
    }

    /// Lets an event take place.
    pub fn apply_event(&mut self, event: Event)
        requires
            old(self).pos().accepts(event),
        ensures
            final(self)@ == old(self)@.mutated(event),
    {
        *self = self.event_applied(event);
    }
}

} // verus!
