//! Moves, and what a square holds from one side's point of view.

use vstd::prelude::*;
use crate::location::Location;
use crate::piece::{Color, Piece, PieceType};

verus! {

/// What a square holds, seen by one side. `Invalid` stands for a square off
/// the board.
#[derive(Debug, Copy, Clone, PartialEq, Eq, Structural)]
pub enum LocationState {
    Invalid,
    Empty,
    Opponent(Piece),
    Friendly,
}

/// One move of one piece.
///
/// `attack` names the square that is cleared by a capture and the piece that
/// stood there; for en passant that square is not `to`. `castle` names the
/// rook's origin and destination. `is_promotion` marks a pawn move onto the
/// furthest rank; the player then fills in `promote_to`.
#[derive(Debug, Copy, Clone, PartialEq, Eq)]
pub struct Move {
    pub piece: Piece,
    pub from: Location,
    pub to: Location,
    pub attack: Option<(Location, Piece)>,
    pub castle: Option<(Location, Location)>,
    pub is_promotion: bool,
    pub promote_to: Option<PieceType>,
}

impl Move {
    /// A move that neither captures, castles nor promotes.
    pub open spec fn plain(piece: Piece, from: Location, to: Location) -> Move {
        Move {
            piece,
            from,
            to,
            attack: None,
            castle: None,
            is_promotion: false,
            promote_to: None,
        }
    }

    /// A capture of `victim` on the destination square.
    pub open spec fn capture(piece: Piece, from: Location, to: Location, victim: Piece) -> Move {
        Move { attack: Some((to, victim)), ..Move::plain(piece, from, to) }
    }

    /// Every square that the move names lies on the board.
    pub open spec fn in_bounds(self) -> bool {
        &&& self.from.valid()
        &&& self.to.valid()
        &&& self.attack matches Some((loc, _)) ==> loc.valid()
        &&& self.castle matches Some((rook_from, rook_to)) ==> rook_from.valid()
            && rook_to.valid()
    }

    /// Whether the move takes a king.
    pub open spec fn takes_king(self) -> bool {
        self.attack matches Some((_, victim)) && victim.typ == PieceType::King
    }

    /// The same move with the player's choice of promotion filled in.
    pub open spec fn promoting(self, choice: Option<PieceType>) -> Move {
        Move { promote_to: choice, ..self }
    }

    /// Whether every square that the move names lies on the board.
    pub fn is_in_bounds(&self) -> (inside: bool)
        ensures
            inside == self.in_bounds(),
    {
        if !self.from.is_valid() || !self.to.is_valid() {
            return false;
        }
        if let Some((loc, _)) = self.attack {
            if !loc.is_valid() {
                return false;
            }
        }
        if let Some((rook_from, rook_to)) = self.castle {
            if !rook_from.is_valid() || !rook_to.is_valid() {
                return false;
            }
        }
        true
    }

    /// A move that neither captures, castles nor promotes.
    pub fn new(piece: Piece, from: Location, to: Location) -> (mv: Move)
        ensures
            mv == Move::plain(piece, from, to),
    {
        Move {
            piece,
            from,
            to,
            attack: None,
            castle: None,
            is_promotion: false,
            promote_to: None,
        }
    }

    /// The move as a capture of `piece` on `loc`.
    pub fn with_attack(self, loc: Location, piece: Piece) -> (mv: Move)
        ensures
            mv == (Move { attack: Some((loc, piece)), ..self }),
    {
        let mut mv = self;
        mv.attack = Some((loc, piece));
        mv
    }

    /// The move as castling with the rook that goes from `rook_from` to
    /// `rook_to`.
    pub fn with_castle(self, rook_from: Location, rook_to: Location) -> (mv: Move)
        ensures
            mv == (Move { castle: Some((rook_from, rook_to)), ..self }),
    {
        let mut mv = self;
        mv.castle = Some((rook_from, rook_to));
        mv
    }
}

/// How the game stands for the side to move. `Checkmate` carries the side
/// that has lost: the one that is in check and has no move.
#[derive(Debug, Copy, Clone, PartialEq, Eq, Structural)]
pub enum GameState {
    Normal,
    Checkmate(Color),
    Stalemate,
}

} // verus!
