//! The mathematical model of a position: what stands where, whose turn it
//! is, which castling rights remain and where a pawn may be taken in passing.

use vstd::prelude::*;
use crate::location::Location;
use crate::moves::LocationState;
use crate::piece::{Color, Piece, PieceType};
use crate::seqs::{flat_map, lemma_flat_map_source};

verus! {

/// The state that the rules of movement depend on.
pub struct Position {
    /// The board by rank, then file.
    pub cells: Seq<Seq<Option<Piece>>>,
    /// The side to move.
    pub active: Color,
    pub wk_castle: bool,
    pub wq_castle: bool,
    pub bk_castle: bool,
    pub bq_castle: bool,
    /// The square that a pawn skipped in the move just made.
    pub en_passant: Option<Location>,
}

/// The `n`-th square when the board is read rank by rank from White's side,
/// each rank from the a-file.
pub open spec fn square(n: int) -> Location {
    Location { file: (n % 8) as i8, rank: (n / 8) as i8 }
}

/// The direction in which the pawns of a side advance.
pub open spec fn forward(color: Color) -> int {
    if color == Color::White {
        1
    } else {
        -1
    }
}

/// The rank on which the pawns of a side start.
pub open spec fn pawn_rank(color: Color) -> int {
    if color == Color::White {
        1
    } else {
        6
    }
}

/// The rank on which the pawns of a side promote.
pub open spec fn final_rank(color: Color) -> int {
    if color == Color::White {
        7
    } else {
        0
    }
}

/// The rank on which the pieces of a side start.
pub open spec fn back_rank(color: Color) -> int {
    if color == Color::White {
        0
    } else {
        7
    }
}

/// The square on which the rook of a castling right starts.
pub open spec fn corner(color: Color, kingside: bool) -> Location {
    Location { file: if kingside { 7i8 } else { 0i8 }, rank: back_rank(color) as i8 }
}

/// The square on which the king of a side starts.
pub open spec fn king_home(color: Color) -> Location {
    Location { file: 4, rank: back_rank(color) as i8 }
}

/// The piece that starts on a file of the back rank.
pub open spec fn back_rank_kind(file: int) -> PieceType {
    if file == 0 || file == 7 {
        PieceType::Rook
    } else if file == 1 || file == 6 {
        PieceType::Knight
    } else if file == 2 || file == 5 {
        PieceType::Bishop
    } else if file == 3 {
        PieceType::Queen
    } else {
        PieceType::King
    }
}

/// What stands on a square when the game begins.
pub open spec fn initial_cell(file: int, rank: int) -> Option<Piece> {
    if rank == 0 {
        Some(Piece { typ: back_rank_kind(file), color: Color::White })
    } else if rank == 1 {
        Some(Piece { typ: PieceType::Pawn, color: Color::White })
    } else if rank == 6 {
        Some(Piece { typ: PieceType::Pawn, color: Color::Black })
    } else if rank == 7 {
        Some(Piece { typ: back_rank_kind(file), color: Color::Black })
    } else {
        None
    }
}

impl Position {
    /// The position in which a game begins.
    pub open spec fn initial() -> Position {
        Position {
            cells: Seq::new(8, |r: int| Seq::new(8, |f: int| initial_cell(f, r))),
            active: Color::White,
            wk_castle: true,
            wq_castle: true,
            bk_castle: true,
            bq_castle: true,
            en_passant: None,
        }
    }

    /// The board has eight ranks of eight squares.
    pub open spec fn shaped(self) -> bool {
        &&& self.cells.len() == 8
        &&& forall|r: int| 0 <= r < 8 ==> (#[trigger] self.cells[r]).len() == 8
    }

    /// What stands on a square.
    pub open spec fn at(self, loc: Location) -> Option<Piece> {
        self.cells[loc.rank as int][loc.file as int]
    }

    /// The position with the content of one square replaced.
    pub open spec fn put(self, loc: Location, piece: Option<Piece>) -> Position {
        Position {
            cells: self.cells.update(
                loc.rank as int,
                self.cells[loc.rank as int].update(loc.file as int, piece),
            ),
            ..self
        }
    }

    /// What a square holds from the point of view of `color`; `None` is a
    /// square off the board.
    pub open spec fn state(self, loc: Option<Location>, color: Color) -> LocationState {
        match loc {
            None => LocationState::Invalid,
            Some(l) => if !l.valid() {
                LocationState::Invalid
            } else {
                match self.at(l) {
                    Some(piece) => if piece.color == color {
                        LocationState::Friendly
                    } else {
                        LocationState::Opponent(piece)
                    },
                    None => LocationState::Empty,
                }
            },
        }
    }

    /// Whether the square is on the board and nothing stands on it.
    pub open spec fn vacant(self, loc: Option<Location>) -> bool {
        loc matches Some(l) && l.valid() && self.at(l) is None
    }

    /// Every square with what stands on it, in reading order.
    pub open spec fn locations(self) -> Seq<(Location, Option<Piece>)> {
        Seq::new(64, |n: int| (square(n), self.at(square(n))))
    }

    /// The empty squares, in reading order.
    pub open spec fn empty_locations(self) -> Seq<Location> {
        flat_map(
            self.locations(),
            |x: (Location, Option<Piece>)|
                match x.1 {
                    Some(_) => Seq::empty(),
                    None => seq![x.0],
                },
        )
    }

    /// The pieces with their squares, in reading order.
    pub open spec fn pieces(self) -> Seq<(Location, Piece)> {
        flat_map(
            self.locations(),
            |x: (Location, Option<Piece>)|
                match x.1 {
                    Some(piece) => seq![(x.0, piece)],
                    None => Seq::empty(),
                },
        )
    }

    /// The pieces of one side with their squares, in reading order.
    pub open spec fn pieces_of(self, color: Color) -> Seq<(Location, Piece)> {
        flat_map(
            self.pieces(),
            |x: (Location, Piece)|
                if x.1.color == color {
                    seq![x]
                } else {
                    Seq::empty()
                },
        )
    }

    /// Whether a castling right of a side is still standing.
    pub open spec fn may_castle(self, color: Color, kingside: bool) -> bool {
        if color == Color::White {
            if kingside {
                self.wk_castle
            } else {
                self.wq_castle
            }
        } else {
            if kingside {
                self.bk_castle
            } else {
                self.bq_castle
            }
        }
    }

    /// The position without the castling right that belongs to `color` and
    /// to the corner `loc`, if `loc` is such a corner.
    pub open spec fn without_corner(self, loc: Location, color: Color) -> Position {
        Position {
            wk_castle: self.wk_castle && !(color == Color::White && loc == corner(color, true)),
            wq_castle: self.wq_castle && !(color == Color::White && loc == corner(color, false)),
            bk_castle: self.bk_castle && !(color == Color::Black && loc == corner(color, true)),
            bq_castle: self.bq_castle && !(color == Color::Black && loc == corner(color, false)),
            ..self
        }
    }

    /// The position without the castling rights of `color`.
    pub open spec fn without_castling(self, color: Color) -> Position {
        Position {
            wk_castle: self.wk_castle && color != Color::White,
            wq_castle: self.wq_castle && color != Color::White,
            bk_castle: self.bk_castle && color != Color::Black,
            bq_castle: self.bq_castle && color != Color::Black,
            ..self
        }
    }
}

/// The pieces of a side stand on squares of the board, each where the
/// position has it.
pub proof fn lemma_pieces_of_on_board(pos: Position, color: Color, k: int)
    requires
        0 <= k < pos.pieces_of(color).len(),
    ensures
        pos.pieces_of(color)[k].0.valid(),
        pos.at(pos.pieces_of(color)[k].0) == Some(pos.pieces_of(color)[k].1),
        pos.pieces_of(color)[k].1.color == color,
{
    let of_color = |x: (Location, Piece)|
        if x.1.color == color {
            seq![x]
        } else {
            Seq::empty()
        };
    let occupied = |x: (Location, Option<Piece>)|
        match x.1 {
            Some(piece) => seq![(x.0, piece)],
            None => Seq::empty(),
        };
    let a = lemma_flat_map_source(pos.pieces(), of_color, pos.pieces().len() as int, k);
    let b = lemma_flat_map_source(pos.locations(), occupied, pos.locations().len() as int, a.0);
}

} // verus!
