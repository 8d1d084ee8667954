//! The changes that a drawn card can make to the pieces of the side to move.

use vstd::prelude::*;
use crate::location::Location;

verus! {

/// A change to the pieces of the side to move.
#[derive(Debug, Clone, Copy, PartialEq, Eq)]
pub enum Event {
    /// Two pieces change places.
    Swap(Location, Location),
    /// The knight on the square becomes a bishop.
    KnightToBishop(Location),
    /// The bishop on the square becomes a knight.
    BishopToKnight(Location),
    /// The rook on the first square becomes a queen, the rook on the second
    /// leaves the board.
    RooksToQueen(Location, Location),
    /// The queen on the first square becomes a rook, and a second rook
    /// appears on the second, empty square.
    QueenToRooks(Location, Location),
    /// The pawn on the first square runs ahead to the second.
    PawnRun(Location, Location),
    /// The pawn on the first square becomes a queen, the other seven leave
    /// the board.
    PawnsToQueen([Location; 8]),
    /// The queen leaves the board and the rank fills with pawns.
    QueenToPawns(Location, i8),
    /// A piece on one edge file jumps to the other edge of its rank.
    Rotate(Location, Location),
    /// The king slides along its rank from the first square to the second.
    KingMove(Location, Location),
}

} // verus!
