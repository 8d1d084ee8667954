//! Colors, piece kinds and pieces.

use vstd::prelude::*;

verus! {

/// The two sides.
#[derive(Debug, Copy, Clone, PartialEq, Eq, Structural)]
pub enum Color {
    White,
    Black,
}

impl Color {
    /// The opposing side.
    pub open spec fn opponent(self) -> Color {
        match self {
            Color::White => Color::Black,
            Color::Black => Color::White,
        }
    }

    /// The opposing side.
    pub fn other(self) -> (c: Color)
        ensures
            c == self.opponent(),
            c != self,
    {
        match self {
            Color::White => Color::Black,
            Color::Black => Color::White,
        }
    }

    /// Whether this is the side that moves first.
    pub fn is_white(self) -> (b: bool)
        ensures
            b == (self == Color::White),
    {
        self == Color::White
    }
}

/// The six kinds of chess piece.
#[derive(Debug, Copy, Clone, PartialEq, Eq, Structural)]
pub enum PieceType {
    Pawn,
    Knight,
    Bishop,
    Rook,
    Queen,
    King,
}

/// A piece: its kind and the side it belongs to.
#[derive(Debug, Copy, Clone, PartialEq, Eq, Structural)]
pub struct Piece {
    pub typ: PieceType,
    pub color: Color,
}

impl Piece {
    /// A piece of a kind and a side.
    pub fn new(typ: PieceType, color: Color) -> (p: Piece)
        ensures
            p.typ == typ,
            p.color == color,
    {
        Piece { typ, color }
    }

    /// Whether the piece is a pawn.
    pub fn is_pawn(self) -> (b: bool)
        ensures
            b == (self.typ == PieceType::Pawn),
    {
        self.typ == PieceType::Pawn
    }

    /// Whether the piece is a knight.
    pub fn is_knight(self) -> (b: bool)
        ensures
            b == (self.typ == PieceType::Knight),
    {
        self.typ == PieceType::Knight
    }

    /// Whether the piece is a bishop.
    pub fn is_bishop(self) -> (b: bool)
        ensures
            b == (self.typ == PieceType::Bishop),
    {
        self.typ == PieceType::Bishop
    }

    /// Whether the piece is a rook.
    pub fn is_rook(self) -> (b: bool)
        ensures
            b == (self.typ == PieceType::Rook),
    {
        self.typ == PieceType::Rook
    }

    /// Whether the piece is a queen.
    pub fn is_queen(self) -> (b: bool)
        ensures
            b == (self.typ == PieceType::Queen),
    {
        self.typ == PieceType::Queen
    }

    /// Whether the piece is a king.
    pub fn is_king(self) -> (b: bool)
        ensures
            b == (self.typ == PieceType::King),
    {
        self.typ == PieceType::King
    }
}

} // verus!
