//! Making a move on the board.

use vstd::prelude::*;
use crate::board::{Board, BoardView};
use crate::location::Location;
use crate::moves::Move;
use crate::piece::{Color, Piece, PieceType};
use crate::position::Position;
use crate::sound::lemma_played_move_keeps_sound;

verus! {

impl BoardView {
    /// The board after a move: the position has changed hands, the move is
    /// on record as the last one and no event is.
    pub open spec fn moved(self, mv: Move) -> BoardView {
        BoardView {
            position: self.position.after_move(mv),
            half_moves: self.half_moves + 1,
            last_move: Some(mv),
            last_event: None,
            ..self
        }
    }
}

impl Board {
    /// Gives up the castling right of `color` that belongs to the corner
    /// `loc`, if `loc` is such a corner.
    pub fn update_castle(&mut self, loc: Location, color: Color)
        ensures
            final(self)@ == (BoardView {
                position: old(self).pos().without_corner(loc, color),
                ..old(self)@
            }),
    {
        if color.is_white() {
            if loc.rank == 0 {
                if loc.file == 0 {
                    self.wq_castle = false;
                } else if loc.file == 7 {
                    self.wk_castle = false;
                }
            }
        } else if loc.rank == 7 {
            if loc.file == 0 {
                self.bq_castle = false;
            } else if loc.file == 7 {
                self.bk_castle = false;
            }
        }
    }

    /// Gives up both castling rights of `color`.
    pub fn forfeit_castling(&mut self, color: Color)
        ensures
            final(self)@ == (BoardView {
                position: old(self).pos().without_castling(color),
                ..old(self)@
            }),
    {
        if color.is_white() {
            self.wk_castle = false;
            self.wq_castle = false;
        } else {
            self.bk_castle = false;
            self.bq_castle = false;
        }
    }

    /// Takes off the board what a move takes off, and puts the rook down
    /// where the move castles.
    fn lift_pieces(&mut self, mv: &Move)
        requires
            mv.in_bounds(),
        ensures
            final(self)@ == (BoardView {
                position: Position {
                    cells: Seq::new(
                        8,
                        |r: int|
                            Seq::new(
                                8,
                                |f: int|
                                    old(self).pos().cell_lifted(
                                        *mv,
                                        Location { file: f as i8, rank: r as i8 },
                                    ),
                            ),
                    ),
                    ..old(self).pos()
                },
                ..old(self)@
            }),
    {
        if let Some((loc, _)) = mv.attack {
            self.set_piece(loc, None);
        }
        self.set_piece(mv.from, None);
        if let Some((from, to)) = mv.castle {
            self.set_piece(from, None);
            self.set_piece(to, Some(Piece::new(PieceType::Rook, mv.piece.color)));
        }
        proof {
            let got = self.pos().cells;
            let want = Seq::new(
                8,
                |r: int|
                    Seq::new(
                        8,
                        |f: int|
                            old(self).pos().cell_lifted(*mv, Location { file: f as i8, rank: r as i8 }),
                    ),
            );
            assert forall|r: int| 0 <= r < 8 implies #[trigger] got[r] =~= want[r] by {}
            assert(got =~= want);
        }
    }

    /// Records what a move does to the castling rights and to the square
    /// open to a capture in passing.
    fn settle_rights(&mut self, mv: &Move)
        requires
            mv.in_bounds(),
        ensures
            final(self)@ == (BoardView {
                position: Position {
                    cells: old(self).pos().cells,
                    active: old(self).pos().active,
                    ..old(self).pos().after_move(*mv)
                },
                ..old(self)@
            }),
    {
        self.en_passant = None;
        let piece = mv.piece;
        match piece.typ {
            PieceType::Pawn => {
                let dy: i8 = mv.to.rank - mv.from.rank;
                if dy == 2 {
                    self.en_passant = Some(Location::new(mv.from.file, mv.from.rank + 1));
                } else if dy == -2 {
                    self.en_passant = Some(Location::new(mv.from.file, mv.from.rank - 1));
                }
            },
            PieceType::Rook => {
                self.update_castle(mv.from, piece.color);
            },
            PieceType::King => {
                self.forfeit_castling(piece.color);
            },
            _ => {},
        }
        if let Some((loc, attacked)) = mv.attack {
            self.update_castle(loc, attacked.color);
        }
    }

    /// Makes a move in the position and leaves the record of the game as it
    /// is.
    pub fn shift_pieces(&mut self, mv: &Move)
        requires
            mv.in_bounds(),
        ensures
            final(self)@ == (BoardView {
                position: old(self).pos().after_move(*mv),
                ..old(self)@
            }),
    {
        self.lift_pieces(mv);
        self.settle_rights(mv);
        let mut piece = mv.piece;
        if let Some(typ) = mv.promote_to {
            piece.typ = typ;
        }
        self.set_piece(mv.to, Some(piece));
        self.active = self.active.other();
        proof {
            let got = self.pos().cells;
            let want = old(self).pos().after_move(*mv).cells;
            assert forall|r: int| 0 <= r < 8 implies #[trigger] got[r] =~= want[r] by {}
            assert(got =~= want);
        }
    }

    /// The board after a move.
    pub fn piece_moved(&self, mv: &Move) -> (board: Board)
        requires
            mv.in_bounds(),
            self.half_moves < usize::MAX,
        ensures
            board@ == self@.moved(*mv),
            self.pos().sound() && self.pos().plays(*mv) ==> board.pos().sound(),
    {
        proof {
            if self.pos().sound() && self.pos().plays(*mv) {
                lemma_played_move_keeps_sound(self.pos(), *mv);
            }
        }
        let mut board = self.clone();
        board.shift_pieces(mv);
        board.last_move = Some(*mv);
        board.last_event = None;
        board.half_moves += 1;
        board
    }

    /// Makes a move.
    pub fn move_piece(&mut self, mv: &Move)
        requires
            mv.in_bounds(),
            old(self).half_moves < usize::MAX,
        ensures
            final(self)@ == old(self)@.moved(*mv),
            old(self).pos().sound() && old(self).pos().plays(*mv) ==> final(self).pos().sound(),
    {
        *self = self.piece_moved(mv);
    }
}

} // verus!
