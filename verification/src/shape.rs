//! What every move has in common that the shape of a piece allows.

use vstd::prelude::*;
use crate::location::Location;
use crate::moves::Move;
use crate::piece::{Piece, PieceType};
use crate::position::{final_rank, forward, pawn_rank, Position};
use crate::rules::{all_around, directions};
use crate::seqs::lemma_flat_map_source;

verus! {

/// Whether `cur` is `from` or lies beyond it in the direction `d`.
pub open spec fn beyond(from: Location, cur: Location, d: (i8, i8)) -> bool {
    &&& d.0 > 0 ==> cur.file >= from.file
    &&& d.0 < 0 ==> cur.file <= from.file
    &&& d.0 == 0 && d.1 > 0 ==> cur.rank >= from.rank
    &&& d.0 == 0 && d.1 < 0 ==> cur.rank <= from.rank
}

impl Position {
    /// Whether a move is made as the moves of this position are: its squares
    /// are on the board, it goes to an empty square or takes the opponent
    /// that stands there, or takes in passing the pawn beside the origin; a
    /// castling move is a king's, two files along the rank past the empty
    /// square where the rook lands; a pawn goes one rank ahead, or two from
    /// its starting rank; and no promotion has been chosen yet.
    pub open spec fn fits(self, mv: Move) -> bool {
        let color = mv.piece.color;
        &&& mv.in_bounds()
        &&& mv.to != mv.from
        &&& mv.promote_to is None
        &&& mv.is_promotion <==> mv.piece.typ == PieceType::Pawn && mv.to.rank == final_rank(color)
        &&& match mv.attack {
            None => self.at(mv.to) is None,
            Some((taken, victim)) => {
                &&& victim.color != color
                &&& mv.castle is None
                &&& if taken == mv.to {
                    self.at(mv.to) == Some(victim)
                } else {
                    &&& mv.piece.typ == PieceType::Pawn
                    &&& self.at(mv.to) is None
                    &&& self.en_passant == Some(mv.to)
                    &&& taken == (Location { file: mv.to.file, rank: mv.from.rank })
                    &&& victim == (Piece { typ: PieceType::Pawn, color: color.opponent() })
                }
            },
        }
        &&& mv.castle matches Some((rook_from, rook_to)) ==> {
            &&& mv.piece.typ == PieceType::King
            &&& mv.to.rank == mv.from.rank
            &&& rook_from.rank == mv.from.rank
            &&& rook_to.rank == mv.from.rank
            &&& self.at(rook_to) is None
            &&& {
                ||| {
                    &&& self.may_castle(color, true)
                    &&& rook_to.file == mv.from.file + 1
                    &&& mv.to.file == mv.from.file + 2
                    &&& rook_from.file == mv.from.file + 3
                }
                ||| {
                    &&& self.may_castle(color, false)
                    &&& rook_to.file == mv.from.file - 1
                    &&& mv.to.file == mv.from.file - 2
                    &&& rook_from.file == mv.from.file - 4
                }
            }
        }
        &&& mv.piece.typ == PieceType::Pawn ==> {
            ||| {
                &&& mv.to.rank == mv.from.rank + forward(color)
                &&& mv.attack is None ==> mv.to.file == mv.from.file
                &&& mv.attack is Some ==> mv.to.file != mv.from.file
            }
            ||| {
                &&& mv.to.rank == mv.from.rank + 2 * forward(color)
                &&& mv.from.rank == pawn_rank(color)
                &&& mv.to.file == mv.from.file
                &&& mv.attack is None
            }
        }
    }
}

/// No step in a table of directions stands still, provided the step it is
/// made from does not.
pub proof fn lemma_directions_move(dfile: i8, drank: i8, k: int)
    requires
        -128 < dfile,
        -128 < drank,
        dfile != 0 || drank != 0,
        0 <= k < directions(dfile, drank).len(),
    ensures
        directions(dfile, drank)[k].0 != 0 || directions(dfile, drank)[k].1 != 0,
{
}

/// No step all around stands still.
pub proof fn lemma_all_around_move(k: int)
    requires
        0 <= k < all_around().len(),
    ensures
        all_around()[k].0 != 0 || all_around()[k].1 != 0,
{
    let diagonal = directions(1, 1);
    if k < diagonal.len() {
        lemma_directions_move(1, 1, k);
    } else {
        lemma_directions_move(1, 0, k - diagonal.len());
    }
}

/// The moves along a ray are made as the moves of the position are.
pub proof fn lemma_ray_fits(
    pos: Position,
    piece: Piece,
    from: Location,
    cur: Location,
    d: (i8, i8),
    repeat: bool,
    i: int,
)
    requires
        piece.typ != PieceType::Pawn,
        from.valid(),
        d.0 != 0 || d.1 != 0,
        beyond(from, cur, d),
        0 <= i < pos.ray(piece, from, cur, d, repeat).len(),
    ensures
        pos.ray(piece, from, cur, d, repeat)[i].piece == piece,
        pos.ray(piece, from, cur, d, repeat)[i].from == from,
        pos.ray(piece, from, cur, d, repeat)[i].castle is None,
        pos.fits(pos.ray(piece, from, cur, d, repeat)[i]),
    decreases crate::rules::room(cur, d),
{
    let next = cur.shift(d.0 as int, d.1 as int)->0;
    if i > 0 {
        lemma_ray_fits(pos, piece, from, next, d, repeat, i - 1);
    }
}

/// The moves along the directions of a table are made as the moves of the
/// position are.
pub proof fn lemma_sweep_fits(
    pos: Position,
    piece: Piece,
    from: Location,
    dirs: Seq<(i8, i8)>,
    repeat: bool,
    i: int,
)
    requires
        piece.typ != PieceType::Pawn,
        from.valid(),
        forall|k: int| 0 <= k < dirs.len() ==> (#[trigger] dirs[k]).0 != 0 || dirs[k].1 != 0,
        0 <= i < pos.sweep(piece, from, dirs, repeat).len(),
    ensures
        pos.sweep(piece, from, dirs, repeat)[i].piece == piece,
        pos.sweep(piece, from, dirs, repeat)[i].from == from,
        pos.sweep(piece, from, dirs, repeat)[i].castle is None,
        pos.fits(pos.sweep(piece, from, dirs, repeat)[i]),
{
    let along = |d: (i8, i8)| pos.ray(piece, from, from, d, repeat);
    let at = lemma_flat_map_source(dirs, along, dirs.len() as int, i);
    lemma_ray_fits(pos, piece, from, from, dirs[at.0], repeat, at.1);
}

/// No step in the table of a piece stands still.
pub proof fn lemma_table_moves(dfile: i8, drank: i8)
    requires
        -128 < dfile,
        -128 < drank,
        dfile != 0 || drank != 0,
    ensures
        forall|k: int|
            0 <= k < directions(dfile, drank).len() ==> (#[trigger] directions(dfile, drank)[k]).0
                != 0 || directions(dfile, drank)[k].1 != 0,
{
    assert forall|k: int| 0 <= k < directions(dfile, drank).len() implies (#[trigger] directions(
        dfile,
        drank,
    )[k]).0 != 0 || directions(dfile, drank)[k].1 != 0 by {
        lemma_directions_move(dfile, drank, k);
    }
}

/// A pawn's moves straight ahead are made as the moves of the position are.
pub proof fn lemma_pawn_advances_fit(pos: Position, from: Location, piece: Piece, i: int)
    requires
        from.valid(),
        piece.typ == PieceType::Pawn,
        0 <= i < pos.pawn_advances(piece, from).len(),
    ensures
        pos.pawn_advances(piece, from)[i].piece == piece,
        pos.pawn_advances(piece, from)[i].from == from,
        pos.fits(pos.pawn_advances(piece, from)[i]),
{
}

/// A pawn's capture is made as the moves of the position are.
pub proof fn lemma_pawn_capture_fits(pos: Position, from: Location, piece: Piece, dfile: int, i: int)
    requires
        from.valid(),
        piece.typ == PieceType::Pawn,
        dfile == 1 || dfile == -1,
        0 <= i < pos.pawn_capture(piece, from, dfile).len(),
    ensures
        pos.pawn_capture(piece, from, dfile)[i].piece == piece,
        pos.pawn_capture(piece, from, dfile)[i].from == from,
        pos.fits(pos.pawn_capture(piece, from, dfile)[i]),
{
}

/// Castling is made as the moves of the position are.
pub proof fn lemma_castling_fits(pos: Position, from: Location, piece: Piece, kingside: bool, i: int)
    requires
        from.valid(),
        piece.typ == PieceType::King,
        0 <= i < (if kingside {
            pos.castle_kingside(piece, from)
        } else {
            pos.castle_queenside(piece, from)
        }).len(),
    ensures
        ({
            let mv = (if kingside {
                pos.castle_kingside(piece, from)
            } else {
                pos.castle_queenside(piece, from)
            })[i];
            mv.piece == piece && mv.from == from && pos.fits(mv)
        }),
{
}

/// Every move that the shape of a piece allows is made as the moves of the
/// position are, by that piece and from its square.
pub proof fn lemma_pseudo_moves_fit(pos: Position, from: Location, piece: Piece, i: int)
    requires
        from.valid(),
        0 <= i < pos.pseudo_moves(from, piece).len(),
    ensures
        pos.pseudo_moves(from, piece)[i].piece == piece,
        pos.pseudo_moves(from, piece)[i].from == from,
        pos.fits(pos.pseudo_moves(from, piece)[i]),
{
    match piece.typ {
        PieceType::Pawn => {
            let ahead = pos.pawn_advances(piece, from);
            let right = pos.pawn_capture(piece, from, 1);
            if i < ahead.len() {
                lemma_pawn_advances_fit(pos, from, piece, i);
            } else if i < ahead.len() + right.len() {
                lemma_pawn_capture_fits(pos, from, piece, 1, i - ahead.len());
            } else {
                lemma_pawn_capture_fits(pos, from, piece, -1, i - ahead.len() - right.len());
            }
        },
        PieceType::Knight => {
            lemma_table_moves(1, 2);
            lemma_sweep_fits(pos, piece, from, directions(1, 2), false, i);
        },
        PieceType::Bishop => {
            lemma_table_moves(1, 1);
            lemma_sweep_fits(pos, piece, from, directions(1, 1), true, i);
        },
        PieceType::Rook => {
            lemma_table_moves(1, 0);
            lemma_sweep_fits(pos, piece, from, directions(1, 0), true, i);
        },
        PieceType::Queen => {
            assert forall|k: int| 0 <= k < all_around().len() implies (#[trigger] all_around()[k]).0
                != 0 || all_around()[k].1 != 0 by {
                lemma_all_around_move(k);
            }
            lemma_sweep_fits(pos, piece, from, all_around(), true, i);
        },
        PieceType::King => {
            assert forall|k: int| 0 <= k < all_around().len() implies (#[trigger] all_around()[k]).0
                != 0 || all_around()[k].1 != 0 by {
                lemma_all_around_move(k);
            }
            let steps = pos.sweep(piece, from, all_around(), false);
            let short = pos.castle_kingside(piece, from);
            if i < steps.len() {
                lemma_sweep_fits(pos, piece, from, all_around(), false, i);
            } else if i < steps.len() + short.len() {
                lemma_castling_fits(pos, from, piece, true, i - steps.len());
            } else {
                lemma_castling_fits(pos, from, piece, false, i - steps.len() - short.len());
            }
        },
    }
}

} // verus!
