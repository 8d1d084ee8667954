//! Positions that can arise in a game, and why moves and events keep them so.

use vstd::prelude::*;
use crate::event::Event;
use crate::location::Location;
use crate::moves::Move;
use crate::piece::{Color, Piece, PieceType};
use crate::position::{corner, forward, king_home, Position};
use crate::rules::{arriving, keeps_right};

verus! {

impl Move {
    /// Whether the player may choose this promotion for the move: none, or,
    /// for a pawn that reaches the furthest rank, a knight, a bishop, a rook
    /// or a queen.
    pub open spec fn may_promote_to(self, choice: Option<PieceType>) -> bool {
        choice matches Some(typ) ==> self.is_promotion && typ != PieceType::King && typ
            != PieceType::Pawn
    }
}

impl Position {
    /// Whether the king of `color` stands on `loc`.
    pub open spec fn king_on(self, color: Color, loc: Location) -> bool {
        loc.valid() && self.at(loc) == Some(Piece { typ: PieceType::King, color })
    }

    /// Whether `color` has one king on the board, and only one.
    pub open spec fn one_king(self, color: Color) -> bool {
        exists|loc: Location|
            #![trigger self.king_on(color, loc)]
            self.king_on(color, loc) && forall|other: Location| #[trigger]
                self.king_on(color, other) ==> other == loc
    }

    /// Whether a castling right that stands has its king and its rook on the
    /// squares where they began.
    pub open spec fn right_founded(self, color: Color, kingside: bool) -> bool {
        self.may_castle(color, kingside) ==> {
            &&& self.at(king_home(color)) == Some(Piece { typ: PieceType::King, color })
            &&& self.at(corner(color, kingside)) == Some(Piece { typ: PieceType::Rook, color })
        }
    }

    /// Whether every castling right that stands has its king and its rook on
    /// the squares where they began.
    pub open spec fn rights_founded(self) -> bool {
        &&& self.right_founded(Color::White, true)
        &&& self.right_founded(Color::White, false)
        &&& self.right_founded(Color::Black, true)
        &&& self.right_founded(Color::Black, false)
    }

    /// Whether the square open to a capture in passing, if there is one, lies
    /// behind a pawn of the side that has just moved.
    pub open spec fn passing_founded(self) -> bool {
        self.en_passant matches Some(loc) ==> {
            let ahead = Location { file: loc.file, rank: (loc.rank - forward(self.active)) as i8 };
            &&& loc.valid()
            &&& ahead.valid()
            &&& self.at(ahead) == Some(
                Piece { typ: PieceType::Pawn, color: self.active.opponent() },
            )
        }
    }

    /// Whether the position is one that can arise in a game: each side has
    /// exactly one king, the castling rights that stand have their king and
    /// rook in place, and a square open to a capture in passing lies behind
    /// the pawn that skipped it.
    pub open spec fn sound(self) -> bool {
        &&& self.shaped()
        &&& self.one_king(Color::White)
        &&& self.one_king(Color::Black)
        &&& self.rights_founded()
        &&& self.passing_founded()
    }

    /// Whether `mv` is a move of the side to move with the piece on its
    /// origin, made as the moves of this position are.
    pub open spec fn allows(self, mv: Move) -> bool {
        &&& self.at(mv.from) == Some(mv.piece)
        &&& mv.piece.color == self.active
        &&& self.fits(mv)
    }

    /// Whether `mv` is a move of the side to move with the piece on its
    /// origin, made as the moves of this position are, that takes no king.
    pub open spec fn offers(self, mv: Move) -> bool {
        self.allows(mv) && !mv.takes_king()
    }

    /// Whether `mv` is a move that the position offers, with a promotion
    /// filled in that the player may choose for it.
    pub open spec fn plays(self, mv: Move) -> bool {
        self.offers(mv.promoting(None)) && mv.promoting(None).may_promote_to(mv.promote_to)
    }
}

/// What stands on a square of the board after a move.
pub proof fn lemma_at_after_move(pos: Position, mv: Move, loc: Location)
    requires
        loc.valid(),
    ensures
        pos.after_move(mv).at(loc) == pos.cell_after_move(mv, loc),
        pos.after_move(mv).shaped(),
{
}

/// What stands on a square of the board after an event.
pub proof fn lemma_at_after_event(pos: Position, e: Event, loc: Location)
    requires
        loc.valid(),
    ensures
        pos.after_event(e).at(loc) == pos.cell_after_event(e, loc),
        pos.after_event(e).shaped(),
{
}

/// Where the king of a side stands.
pub open spec fn king_square(pos: Position, color: Color) -> Location {
    choose|loc: Location|
        #![trigger pos.king_on(color, loc)]
        pos.king_on(color, loc) && forall|other: Location| #[trigger]
            pos.king_on(color, other) ==> other == loc
}

/// A side with one king has it on its king's square and nowhere else.
pub proof fn lemma_king_square(pos: Position, color: Color)
    requires
        pos.one_king(color),
    ensures
        pos.king_on(color, king_square(pos, color)),
        forall|other: Location| #[trigger]
            pos.king_on(color, other) ==> other == king_square(pos, color),
{
}

/// A king stands on `loc` and nowhere else: the side has one king.
pub proof fn lemma_one_king(pos: Position, color: Color, loc: Location)
    requires
        pos.king_on(color, loc),
        forall|other: Location| #[trigger] pos.king_on(color, other) ==> other == loc,
    ensures
        pos.one_king(color),
{
}

/// In a sound position, what a move names to be taken is what stands there,
/// and a castling move finds its rook.
pub proof fn lemma_move_finds(pos: Position, mv: Move)
    requires
        pos.sound(),
        pos.allows(mv),
    ensures
        mv.attack matches Some((taken, victim)) ==> pos.at(taken) == Some(victim),
        mv.castle matches Some((rook_from, _)) ==> pos.at(rook_from) == Some(
            Piece { typ: PieceType::Rook, color: mv.piece.color },
        ) && mv.from == king_home(mv.piece.color),
{
    if mv.castle is Some {
        lemma_king_square(pos, mv.piece.color);
        assert(pos.king_on(mv.piece.color, mv.from));
        let color = mv.piece.color;
        let kingside = mv.to.file == mv.from.file + 2;
        assert(pos.may_castle(color, kingside));
        assert(pos.right_founded(color, kingside));
        assert(pos.king_on(color, king_home(color)));
    }
}

/// After a move that the position offers, each side has its one king.
pub proof fn lemma_move_keeps_king(pos: Position, mv: Move, choice: Option<PieceType>, color: Color)
    requires
        pos.sound(),
        pos.offers(mv),
        mv.may_promote_to(choice),
    ensures
        pos.after_move(mv.promoting(choice)).one_king(color),
{
    let played = mv.promoting(choice);
    let after = pos.after_move(played);
    lemma_move_finds(pos, mv);
    lemma_king_square(pos, color);
    let was = king_square(pos, color);
    let now = if mv.piece == (Piece { typ: PieceType::King, color }) {
        mv.to
    } else {
        was
    };
    lemma_at_after_move(pos, played, now);
    assert(after.king_on(color, now));
    assert forall|other: Location| #[trigger] after.king_on(color, other) implies other == now by {
        lemma_at_after_move(pos, played, other);
        let king = Piece { typ: PieceType::King, color };
        if other == mv.to {
            assert(arriving(played) == king);
            assert(mv.piece == king);
        } else {
            assert(pos.cell_lifted(played, other) == Some(king));
            assert(pos.at(other) == Some(king));
            assert(pos.king_on(color, other));
            if mv.piece == king {
                assert(pos.king_on(color, mv.from));
            }
        }
    }
    lemma_one_king(after, color, now);
}

/// After a move that the position offers, a castling right that still
/// stands has its king and its rook in place.
pub proof fn lemma_move_keeps_right(
    pos: Position,
    mv: Move,
    choice: Option<PieceType>,
    color: Color,
    kingside: bool,
)
    requires
        pos.sound(),
        pos.offers(mv),
        mv.may_promote_to(choice),
    ensures
        pos.after_move(mv.promoting(choice)).right_founded(color, kingside),
{
    let played = mv.promoting(choice);
    let after = pos.after_move(played);
    lemma_move_finds(pos, mv);
    if after.may_castle(color, kingside) {
        assert(pos.may_castle(color, kingside));
        assert(keeps_right(played, color, kingside));
        assert(pos.right_founded(color, kingside));
        lemma_at_after_move(pos, played, king_home(color));
        lemma_at_after_move(pos, played, corner(color, kingside));
    }
}

/// After a move that the position offers, the square open to a capture in
/// passing lies behind the pawn that has just skipped it.
pub proof fn lemma_move_keeps_passing(pos: Position, mv: Move, choice: Option<PieceType>)
    requires
        pos.sound(),
        pos.offers(mv),
        mv.may_promote_to(choice),
    ensures
        pos.after_move(mv.promoting(choice)).passing_founded(),
{
    let played = mv.promoting(choice);
    let after = pos.after_move(played);
    if after.en_passant is Some {
        lemma_at_after_move(pos, played, mv.to);
    }
}

/// A move that the position offers leaves a sound position sound.
pub proof fn lemma_move_keeps_sound(pos: Position, mv: Move, choice: Option<PieceType>)
    requires
        pos.sound(),
        pos.offers(mv),
        mv.may_promote_to(choice),
    ensures
        pos.after_move(mv.promoting(choice)).sound(),
{
    lemma_move_keeps_king(pos, mv, choice, Color::White);
    lemma_move_keeps_king(pos, mv, choice, Color::Black);
    lemma_move_keeps_right(pos, mv, choice, Color::White, true);
    lemma_move_keeps_right(pos, mv, choice, Color::White, false);
    lemma_move_keeps_right(pos, mv, choice, Color::Black, true);
    lemma_move_keeps_right(pos, mv, choice, Color::Black, false);
    lemma_move_keeps_passing(pos, mv, choice);
}

/// The square from which an event carries a piece, of whatever kind, to
/// another square.
pub open spec fn carried_from(e: Event) -> Option<Location> {
    match e {
        Event::Rotate(a, _) => Some(a),
        Event::KingMove(a, _) => Some(a),
        _ => None,
    }
}

/// The square to which an event carries a piece, of whatever kind.
pub open spec fn carried_to(e: Event) -> Option<Location> {
    match e {
        Event::Rotate(_, b) => Some(b),
        Event::KingMove(_, b) => Some(b),
        _ => None,
    }
}

/// A move that the position offers, with the promotion that the player has
/// chosen, leaves a sound position sound.
pub proof fn lemma_played_move_keeps_sound(pos: Position, mv: Move)
    requires
        pos.sound(),
        pos.plays(mv),
    ensures
        pos.after_move(mv).sound(),
{
    lemma_move_keeps_sound(pos, mv.promoting(None), mv.promote_to);
    assert(mv.promoting(None).promoting(mv.promote_to) == mv);
}

/// An event that suits the position changes only squares that are empty or
/// hold a piece of the side to move that is no king, but for the square that
/// a king leaves when it is moved.
pub proof fn lemma_event_spares(pos: Position, e: Event, loc: Location)
    requires
        pos.suits(e),
        loc.valid(),
        pos.at(loc) matches Some(p) && (p.color != pos.active || p.typ == PieceType::King),
    ensures
        pos.cell_after_event(e, loc) == pos.at(loc) || (pos.cell_after_event(e, loc) is None
            && carried_from(e) == Some(loc)),
{
    match e {
        Event::PawnsToQueen(ls) => {
            if ls@.subrange(1, 8).contains(loc) {
                let i = choose|i: int| 0 <= i < 7 && ls@.subrange(1, 8)[i] == loc;
                assert(ls[i + 1] == loc);
            }
        },
        Event::QueenToPawns(l, rank) => {
            if loc.rank == rank {
                assert(pos.cells[rank as int][loc.file as int] is None || loc == l);
            }
        },
        _ => {},
    }
}

/// An event that suits the position puts a king on no square but the one to
/// which it moves the king of the side to move.
pub proof fn lemma_event_crowns(pos: Position, e: Event, loc: Location, color: Color)
    requires
        pos.suits(e),
        loc.valid(),
        pos.cell_after_event(e, loc) == Some(Piece { typ: PieceType::King, color }),
    ensures
        pos.at(loc) == Some(Piece { typ: PieceType::King, color }) || (color == pos.active
            && carried_to(e) == Some(loc) && pos.king_on(color, carried_from(e)->0)),
{
    match e {
        Event::PawnsToQueen(ls) => {
            assert(pos.at(ls[0]) is Some);
        },
        _ => {},
    }
}

/// After an event that suits the position, each side has its one king.
pub proof fn lemma_event_keeps_king(pos: Position, e: Event, color: Color)
    requires
        pos.sound(),
        pos.suits(e),
    ensures
        pos.after_event(e).one_king(color),
{
    let after = pos.after_event(e);
    let king = Piece { typ: PieceType::King, color };
    lemma_king_square(pos, color);
    let was = king_square(pos, color);
    let now = if carried_from(e) == Some(was) {
        carried_to(e)->0
    } else {
        was
    };
    lemma_event_spares(pos, e, was);
    lemma_at_after_event(pos, e, now);
    assert(after.king_on(color, now));
    assert forall|other: Location| #[trigger] after.king_on(color, other) implies other == now by {
        lemma_at_after_event(pos, e, other);
        lemma_event_crowns(pos, e, other, color);
        if pos.at(other) == Some(king) {
            assert(pos.king_on(color, other));
            lemma_event_spares(pos, e, other);
        } else {
            assert(pos.king_on(color, carried_from(e)->0));
        }
    }
    lemma_one_king(after, color, now);
}

/// After an event that suits the position, a castling right that still
/// stands has its king and its rook in place.
pub proof fn lemma_event_keeps_right(pos: Position, e: Event, color: Color, kingside: bool)
    requires
        pos.sound(),
        pos.suits(e),
    ensures
        pos.after_event(e).right_founded(color, kingside),
{
    let after = pos.after_event(e);
    if after.may_castle(color, kingside) {
        assert(pos.may_castle(color, kingside));
        assert(pos.right_founded(color, kingside));
        let home = king_home(color);
        let rook = corner(color, kingside);
        lemma_at_after_event(pos, e, home);
        lemma_at_after_event(pos, e, rook);
        lemma_event_spares(pos, e, home);
        match e {
            Event::PawnsToQueen(ls) => {
                if ls@.subrange(1, 8).contains(rook) {
                    let i = choose|i: int| 0 <= i < 7 && ls@.subrange(1, 8)[i] == rook;
                    assert(ls[i + 1] == rook);
                }
            },
            Event::QueenToPawns(l, rank) => {
                if rook.rank == rank {
                    assert(pos.cells[rank as int][rook.file as int] is None || rook == l);
                }
            },
            _ => {},
        }
    }
}

/// After an event that suits the position, the square open to a capture in
/// passing still lies behind the pawn that skipped it.
pub proof fn lemma_event_keeps_passing(pos: Position, e: Event)
    requires
        pos.sound(),
        pos.suits(e),
    ensures
        pos.after_event(e).passing_founded(),
{
    if let Some(loc) = pos.en_passant {
        let ahead = Location { file: loc.file, rank: (loc.rank - forward(pos.active)) as i8 };
        lemma_at_after_event(pos, e, ahead);
        lemma_event_spares(pos, e, ahead);
    }
}

/// An event that suits the position leaves a sound position sound.
pub proof fn lemma_event_keeps_sound(pos: Position, e: Event)
    requires
        pos.sound(),
        pos.suits(e),
    ensures
        pos.after_event(e).sound(),
{
    lemma_event_keeps_king(pos, e, Color::White);
    lemma_event_keeps_king(pos, e, Color::Black);
    lemma_event_keeps_right(pos, e, Color::White, true);
    lemma_event_keeps_right(pos, e, Color::White, false);
    lemma_event_keeps_right(pos, e, Color::Black, true);
    lemma_event_keeps_right(pos, e, Color::Black, false);
    lemma_event_keeps_passing(pos, e);
    lemma_at_after_event(pos, e, Location { file: 0, rank: 0 });
}

} // verus!
