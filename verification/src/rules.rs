//! How the pieces move: the moves that the shape of each piece allows, what
//! a move does to a position, and which moves leave the mover's king safe.

use vstd::prelude::*;
use crate::location::Location;
use crate::moves::{GameState, LocationState, Move};
use crate::piece::{Color, Piece, PieceType};
use crate::position::{corner, final_rank, forward, pawn_rank, Position};
use crate::seqs::{flat_map, retain};

verus! {

/// The images of the step `(dfile, drank)` under exchanging the two
/// coordinates and reversing either, in the order in which the moves of a
/// piece are listed.
pub open spec fn directions(dfile: i8, drank: i8) -> Seq<(i8, i8)> {
    let swap = dfile != drank;
    let turned = |d: (i8, i8)|
        if swap {
            seq![d]
        } else {
            Seq::empty()
        };
    seq![(dfile, drank)] + turned((drank, dfile)) + (if dfile != 0 {
        seq![((-dfile) as i8, drank)] + turned((drank, (-dfile) as i8))
    } else {
        Seq::empty()
    }) + (if drank != 0 {
        seq![(dfile, (-drank) as i8)] + turned(((-drank) as i8, dfile))
    } else {
        Seq::empty()
    }) + (if dfile != 0 && drank != 0 {
        seq![((-dfile) as i8, (-drank) as i8)] + turned(((-drank) as i8, (-dfile) as i8))
    } else {
        Seq::empty()
    })
}

/// The steps of a queen, and of a king: along the diagonals, then along the
/// ranks and files.
pub open spec fn all_around() -> Seq<(i8, i8)> {
    directions(1, 1) + directions(1, 0)
}

/// How many squares lie ahead of `cur` in direction `d`, at the most.
pub open spec fn room(cur: Location, d: (i8, i8)) -> int {
    if d.0 > 0 {
        8 - cur.file
    } else if d.0 < 0 {
        cur.file + 1
    } else if d.1 > 0 {
        8 - cur.rank
    } else if d.1 < 0 {
        cur.rank + 1
    } else {
        0
    }
}

/// A pawn's move from `from` to `to`, marked as a promotion when it reaches
/// the furthest rank.
pub open spec fn pawn_step(piece: Piece, from: Location, to: Location) -> Move {
    Move { is_promotion: to.rank == final_rank(piece.color), ..Move::plain(piece, from, to) }
}

/// The square half-way between the origin and the destination of a move
/// along a rank.
pub open spec fn midpoint(mv: Move) -> Location {
    Location { file: ((mv.from.file + mv.to.file) / 2) as i8, rank: mv.from.rank }
}

/// The piece that a move puts on its destination.
pub open spec fn arriving(mv: Move) -> Piece {
    Piece {
        typ: match mv.promote_to {
            Some(typ) => typ,
            None => mv.piece.typ,
        },
        color: mv.piece.color,
    }
}

/// Whether a move leaves a castling right standing: it does not if it moves
/// the king of that side, moves the rook away from the corner, or captures
/// on the corner a piece of that side.
pub open spec fn keeps_right(mv: Move, color: Color, kingside: bool) -> bool {
    &&& !(mv.piece.color == color && mv.piece.typ == PieceType::King)
    &&& !(mv.piece.color == color && mv.piece.typ == PieceType::Rook && mv.from == corner(
        color,
        kingside,
    ))
    &&& !(mv.attack matches Some((loc, victim)) && victim.color == color && loc == corner(
        color,
        kingside,
    ))
}

/// The square of the king that a move takes, if it takes one.
pub open spec fn king_taken(mv: Move) -> Seq<Location> {
    match mv.attack {
        Some((loc, victim)) => if victim.typ == PieceType::King {
            seq![loc]
        } else {
            Seq::empty()
        },
        None => Seq::empty(),
    }
}

/// The squares of the kings that the moves would take.
pub open spec fn king_hits_in(moves: Seq<Move>) -> Seq<Location> {
    flat_map(moves, |mv: Move| king_taken(mv))
}

impl Position {
    /// The moves of `piece` from `from` along the direction `d`, beyond the
    /// square `cur`: onto each empty square in turn and, where the first
    /// occupied square holds an opponent, onto that one too. Without `repeat`
    /// the piece makes one step at most.
    pub open spec fn ray(
        self,
        piece: Piece,
        from: Location,
        cur: Location,
        d: (i8, i8),
        repeat: bool,
    ) -> Seq<Move>
        decreases room(cur, d),
    {
        match cur.shift(d.0 as int, d.1 as int) {
            None => Seq::empty(),
            Some(next) => match self.state(Some(next), piece.color) {
                LocationState::Empty => {
                    let step = seq![Move::plain(piece, from, next)];
                    if repeat && (d.0 != 0 || d.1 != 0) {
                        step + self.ray(piece, from, next, d, repeat)
                    } else {
                        step
                    }
                },
                LocationState::Opponent(victim) => seq![Move::capture(piece, from, next, victim)],
                _ => Seq::empty(),
            },
        }
    }

    /// The moves of `piece` from `from` along each of the directions in turn.
    pub open spec fn sweep(self, piece: Piece, from: Location, dirs: Seq<(i8, i8)>, repeat: bool) -> Seq<
        Move,
    > {
        flat_map(dirs, |d: (i8, i8)| self.ray(piece, from, from, d, repeat))
    }

    /// A pawn's moves straight ahead: one square if it is empty, and from the
    /// starting rank a second one if that is empty too.
    pub open spec fn pawn_advances(self, piece: Piece, from: Location) -> Seq<Move> {
        let dir = forward(piece.color);
        let one = from.shift(0, dir);
        let two = from.shift(0, 2 * dir);
        if self.vacant(one) {
            if from.rank == pawn_rank(piece.color) && self.vacant(two) {
                seq![pawn_step(piece, from, one->0), pawn_step(piece, from, two->0)]
            } else {
                seq![pawn_step(piece, from, one->0)]
            }
        } else {
            Seq::empty()
        }
    }

    /// A pawn's capture towards the neighbouring file `dfile`: of the
    /// opponent on the square diagonally ahead, or, where that square is
    /// empty and is the one that a pawn has just skipped, of the pawn beside
    /// the capturing pawn.
    pub open spec fn pawn_capture(self, piece: Piece, from: Location, dfile: int) -> Seq<Move> {
        match from.shift(dfile, forward(piece.color)) {
            None => Seq::empty(),
            Some(to) => match self.state(Some(to), piece.color) {
                LocationState::Empty => if self.en_passant == Some(to) {
                    let beside = Location { file: to.file, rank: from.rank };
                    let victim = Piece { typ: PieceType::Pawn, color: piece.color.opponent() };
                    seq![Move { attack: Some((beside, victim)), ..pawn_step(piece, from, to) }]
                } else {
                    Seq::empty()
                },
                LocationState::Opponent(victim) => seq![
                    Move { attack: Some((to, victim)), ..pawn_step(piece, from, to) },
                ],
                _ => Seq::empty(),
            },
        }
    }

    /// The moves of a pawn: straight ahead, then the captures towards the
    /// higher and the lower file.
    pub open spec fn pawn_moves(self, piece: Piece, from: Location) -> Seq<Move> {
        self.pawn_advances(piece, from) + self.pawn_capture(piece, from, 1) + self.pawn_capture(
            piece,
            from,
            -1,
        )
    }

    /// Castling towards the higher files: the right stands and the two
    /// squares between king and rook are empty. The king goes two files over,
    /// the rook from three files away to the square that the king crossed.
    pub open spec fn castle_kingside(self, piece: Piece, from: Location) -> Seq<Move> {
        if self.may_castle(piece.color, true) && self.vacant(from.shift(1, 0)) && self.vacant(
            from.shift(2, 0),
        ) && from.shift(3, 0) is Some {
            seq![
                Move {
                    castle: Some((from.shift(3, 0)->0, from.shift(1, 0)->0)),
                    ..Move::plain(piece, from, from.shift(2, 0)->0)
                },
            ]
        } else {
            Seq::empty()
        }
    }

    /// Castling towards the lower files: the right stands and the three
    /// squares between king and rook are empty. The king goes two files over,
    /// the rook from four files away to the square that the king crossed.
    pub open spec fn castle_queenside(self, piece: Piece, from: Location) -> Seq<Move> {
        if self.may_castle(piece.color, false) && self.vacant(from.shift(-1, 0)) && self.vacant(
            from.shift(-2, 0),
        ) && self.vacant(from.shift(-3, 0)) && from.shift(-4, 0) is Some {
            seq![
                Move {
                    castle: Some((from.shift(-4, 0)->0, from.shift(-1, 0)->0)),
                    ..Move::plain(piece, from, from.shift(-2, 0)->0)
                },
            ]
        } else {
            Seq::empty()
        }
    }

    /// The moves of a king: one step all around, then castling on either
    /// side.
    pub open spec fn king_moves(self, piece: Piece, from: Location) -> Seq<Move> {
        self.sweep(piece, from, all_around(), false) + self.castle_kingside(piece, from)
            + self.castle_queenside(piece, from)
    }

    /// The moves that the shape of `piece` allows from `from`, whether or not
    /// they leave its king safe.
    pub open spec fn pseudo_moves(self, from: Location, piece: Piece) -> Seq<Move> {
        match piece.typ {
            PieceType::Pawn => self.pawn_moves(piece, from),
            PieceType::Knight => self.sweep(piece, from, directions(1, 2), false),
            PieceType::Bishop => self.sweep(piece, from, directions(1, 1), true),
            PieceType::Rook => self.sweep(piece, from, directions(1, 0), true),
            PieceType::Queen => self.sweep(piece, from, all_around(), true),
            PieceType::King => self.king_moves(piece, from),
        }
    }

    /// What stands on a square once a move has taken its pieces off the
    /// board and, in castling, has put the rook down: the rook's destination
    /// holds a rook; the origin of the piece and of the rook and the square
    /// of the capture are empty.
    pub open spec fn cell_lifted(self, mv: Move, loc: Location) -> Option<Piece> {
        if mv.castle matches Some((_, rook_to)) && loc == rook_to {
            Some(Piece { typ: PieceType::Rook, color: mv.piece.color })
        } else if loc == mv.from || (mv.castle matches Some((rook_from, _)) && loc == rook_from) || (
        mv.attack matches Some((taken, _)) && loc == taken) {
            None
        } else {
            self.at(loc)
        }
    }

    /// What stands on a square once a move has been made: the destination
    /// holds the arriving piece, and the other squares what the move left
    /// when it took its pieces off.
    pub open spec fn cell_after_move(self, mv: Move, loc: Location) -> Option<Piece> {
        if loc == mv.to {
            Some(arriving(mv))
        } else {
            self.cell_lifted(mv, loc)
        }
    }

    /// What stood on a square before a move was made, read off the move and
    /// the board after it: the origin held the piece that moved, the rook's
    /// origin a rook, the square of the capture the piece that was taken; the
    /// destination, unless the capture was there, and the rook's destination
    /// were empty.
    pub open spec fn cell_taken_back(self, mv: Move, loc: Location) -> Option<Piece> {
        if loc == mv.from {
            Some(mv.piece)
        } else if mv.castle matches Some((rook_from, _)) && loc == rook_from {
            Some(Piece { typ: PieceType::Rook, color: mv.piece.color })
        } else if mv.attack matches Some((taken, _)) && loc == taken {
            match mv.attack {
                Some((_, victim)) => Some(victim),
                None => None,
            }
        } else if loc == mv.to || (mv.castle matches Some((_, rook_to)) && loc == rook_to) {
            None
        } else {
            self.at(loc)
        }
    }

    /// The square that a move makes available for a capture in passing: the
    /// one that a pawn skips when it advances two ranks.
    pub open spec fn skipped_by(mv: Move) -> Option<Location> {
        if mv.piece.typ == PieceType::Pawn && (mv.to.rank - mv.from.rank == 2 || mv.to.rank
            - mv.from.rank == -2) {
            Some(Location { file: mv.from.file, rank: ((mv.from.rank + mv.to.rank) / 2) as i8 })
        } else {
            None
        }
    }

    /// The position after a move.
    pub open spec fn after_move(self, mv: Move) -> Position {
        Position {
            cells: Seq::new(
                8,
                |r: int|
                    Seq::new(
                        8,
                        |f: int| self.cell_after_move(mv, Location { file: f as i8, rank: r as i8 }),
                    ),
            ),
            active: self.active.opponent(),
            wk_castle: self.wk_castle && keeps_right(mv, Color::White, true),
            wq_castle: self.wq_castle && keeps_right(mv, Color::White, false),
            bk_castle: self.bk_castle && keeps_right(mv, Color::Black, true),
            bq_castle: self.bq_castle && keeps_right(mv, Color::Black, false),
            en_passant: Self::skipped_by(mv),
        }
    }

    /// The squares of the kings that a piece could take from its square.
    pub open spec fn hits_from(self, x: (Location, Piece)) -> Seq<Location> {
        king_hits_in(self.pseudo_moves(x.0, x.1))
    }

    /// The squares of the kings that `color` could take with the moves that
    /// the shapes of its pieces allow.
    pub open spec fn king_hits(self, color: Color) -> Seq<Location> {
        flat_map(self.pieces_of(color), |x: (Location, Piece)| self.hits_from(x))
    }

    /// Whether `color` could take a king.
    pub open spec fn attacks_king(self, color: Color) -> bool {
        self.king_hits(color).len() > 0
    }

    /// Whether a move leaves the mover's king safe: after it the opponent
    /// cannot take a king. Castling is safe only if, besides, the opponent
    /// cannot take a king as the position stands, nor after the king has gone
    /// to the square that it crosses.
    pub open spec fn is_safe(self, mv: Move) -> bool {
        let foe = mv.piece.color.opponent();
        &&& !self.after_move(mv).attacks_king(foe)
        &&& mv.castle is Some ==> {
            &&& !self.attacks_king(foe)
            &&& !self.after_move(Move::plain(mv.piece, mv.from, midpoint(mv))).attacks_king(foe)
        }
    }

    /// The moves of `piece` from `from` that leave its king safe.
    pub open spec fn legal_moves(self, from: Location, piece: Piece) -> Seq<Move> {
        retain(self.pseudo_moves(from, piece), |mv: Move| self.is_safe(mv))
    }

    /// The moves of `piece` from `from`: all that its shape allows, or only
    /// those that leave its king safe.
    pub open spec fn moves_from(self, from: Location, piece: Piece, safe: bool) -> Seq<Move> {
        if safe {
            self.legal_moves(from, piece)
        } else {
            self.pseudo_moves(from, piece)
        }
    }

    /// The legal moves of a piece with its square, if it has any.
    pub open spec fn listed(self, x: (Location, Piece)) -> Seq<(Location, Seq<Move>)> {
        if self.legal_moves(x.0, x.1).len() > 0 {
            seq![(x.0, self.legal_moves(x.0, x.1))]
        } else {
            Seq::empty()
        }
    }

    /// The legal moves of the side to move, by origin in reading order, the
    /// origins without a legal move left out.
    pub open spec fn listing(self) -> Seq<(Location, Seq<Move>)> {
        flat_map(self.pieces_of(self.active), |x: (Location, Piece)| self.listed(x))
    }

    /// How the game stands when the side to move has some legal move, or
    /// none: with none it is checkmated if the opponent could take its king,
    /// and stalemated otherwise.
    pub open spec fn verdict(self, none_left: bool) -> GameState {
        if none_left {
            if self.attacks_king(self.active.opponent()) {
                GameState::Checkmate(self.active)
            } else {
                GameState::Stalemate
            }
        } else {
            GameState::Normal
        }
    }

    /// Whether the game is over for the side to move.
    pub open spec fn is_over(self) -> bool {
        self.listing().len() == 0
    }
}

} // verus!
