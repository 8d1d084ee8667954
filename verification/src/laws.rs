//! What holds of every game: the laws that the rules of movement and the
//! cards obey together.

use vstd::prelude::*;
use crate::event::Event;
use crate::location::Location;
use crate::moves::{GameState, Move};
use crate::offers::lemma_candidates_suit;
use crate::piece::{Color, Piece, PieceType};
use crate::position::{lemma_pieces_of_on_board, Position};
use crate::rules::{directions, king_taken};
use crate::seqs::{
    lemma_flat_map_empty,
    lemma_flat_map_holds,
    lemma_flat_map_source,
    lemma_retain_holds,
    lemma_retain_source,
};
use crate::shape::lemma_pseudo_moves_fit;
use crate::sound::{
    lemma_at_after_move,
    lemma_event_keeps_sound,
    lemma_move_finds,
    lemma_move_keeps_sound,
    lemma_one_king,
};

verus! {

/// Every legal move of a piece is one of the moves that its shape allows,
/// and leaves the mover's king safe: after it the opponent cannot take a
/// king.
pub proof fn legal_move_is_safe(pos: Position, from: Location, piece: Piece, k: int) -> (i: int)
    requires
        from.valid(),
        0 <= k < pos.legal_moves(from, piece).len(),
    ensures
        0 <= i < pos.pseudo_moves(from, piece).len(),
        pos.legal_moves(from, piece)[k] == pos.pseudo_moves(from, piece)[i],
        pos.legal_moves(from, piece)[k].piece == piece,
        pos.is_safe(pos.legal_moves(from, piece)[k]),
        !pos.after_move(pos.legal_moves(from, piece)[k]).attacks_king(piece.color.opponent()),
{
    let i = lemma_retain_source(pos.pseudo_moves(from, piece), |mv: Move| pos.is_safe(mv), k);
    lemma_pseudo_moves_fit(pos, from, piece, i);
    i
}

/// Every move that the shape of a piece allows and that leaves its king
/// safe is among its legal moves.
pub proof fn safe_move_is_legal(pos: Position, from: Location, piece: Piece, i: int)
    requires
        0 <= i < pos.pseudo_moves(from, piece).len(),
        pos.is_safe(pos.pseudo_moves(from, piece)[i]),
    ensures
        pos.legal_moves(from, piece).contains(pos.pseudo_moves(from, piece)[i]),
{
    let k = lemma_retain_holds(pos.pseudo_moves(from, piece), |mv: Move| pos.is_safe(mv), i);
}

/// Every event on offer that leaves the king of the side to move out of
/// reach, and the side to move a legal move, may be played.
pub proof fn safe_event_is_playable(pos: Position, cands: Seq<Event>, i: int)
    requires
        0 <= i < cands.len(),
        pos.event_ok(cands[i]),
    ensures
        pos.playable(cands).contains(cands[i]),
{
    let k = lemma_retain_holds(cands, |e: Event| pos.event_ok(e), i);
}

/// Every move in the listing of the side to move is a legal move of one of
/// its pieces from the square where it stands.
pub proof fn listed_move_is_legal(pos: Position, i: int, j: int) -> (origin: (Location, Piece))
    requires
        0 <= i < pos.listing().len(),
        0 <= j < pos.listing()[i].1.len(),
    ensures
        origin.0 == pos.listing()[i].0,
        origin.0.valid(),
        pos.at(origin.0) == Some(origin.1),
        origin.1.color == pos.active,
        pos.listing()[i].1 == pos.legal_moves(origin.0, origin.1),
{
    let pieces = pos.pieces_of(pos.active);
    let at = lemma_flat_map_source(
        pieces,
        |x: (Location, Piece)| pos.listed(x),
        pieces.len() as int,
        i,
    );
    lemma_pieces_of_on_board(pos, pos.active, at.0);
    pieces[at.0]
}

/// No move in the listing of the side to move leaves its own king open to
/// capture.
pub proof fn listed_move_is_safe(pos: Position, i: int, j: int)
    requires
        0 <= i < pos.listing().len(),
        0 <= j < pos.listing()[i].1.len(),
    ensures
        !pos.after_move(pos.listing()[i].1[j]).attacks_king(pos.active.opponent()),
{
    let origin = listed_move_is_legal(pos, i, j);
    legal_move_is_safe(pos, origin.0, origin.1, j);
}

/// Every move in the listing of the side to move is one that the position
/// allows: a move of the piece on its origin, made as the moves of the
/// position are.
pub proof fn listed_move_is_allowed(pos: Position, i: int, j: int)
    requires
        0 <= i < pos.listing().len(),
        0 <= j < pos.listing()[i].1.len(),
    ensures
        pos.allows(pos.listing()[i].1[j]),
{
    let origin = listed_move_is_legal(pos, i, j);
    let k = legal_move_is_safe(pos, origin.0, origin.1, j);
    lemma_pseudo_moves_fit(pos, origin.0, origin.1, k);
}

/// A side could take a king exactly when one of its pieces has a move,
/// allowed by its shape, that takes one.
pub proof fn attack_is_a_move_that_takes_a_king(pos: Position, color: Color)
    ensures
        pos.attacks_king(color) <==> exists|k: int, i: int|
            0 <= k < pos.pieces_of(color).len() && 0 <= i < pos.pseudo_moves(
                pos.pieces_of(color)[k].0,
                pos.pieces_of(color)[k].1,
            ).len() && (#[trigger] pos.pseudo_moves(
                pos.pieces_of(color)[k].0,
                pos.pieces_of(color)[k].1,
            )[i]).takes_king(),
{
    let pieces = pos.pieces_of(color);
    let hits = |x: (Location, Piece)| pos.hits_from(x);
    let taken = |mv: Move| king_taken(mv);
    if pos.attacks_king(color) {
        let a = lemma_flat_map_source(pieces, hits, pieces.len() as int, 0);
        let moves = pos.pseudo_moves(pieces[a.0].0, pieces[a.0].1);
        let b = lemma_flat_map_source(moves, taken, moves.len() as int, a.1);
        assert(moves[b.0].takes_king());
    }
    if exists|k: int, i: int|
        0 <= k < pos.pieces_of(color).len() && 0 <= i < pos.pseudo_moves(
            pos.pieces_of(color)[k].0,
            pos.pieces_of(color)[k].1,
        ).len() && (#[trigger] pos.pseudo_moves(
            pos.pieces_of(color)[k].0,
            pos.pieces_of(color)[k].1,
        )[i]).takes_king() {
        let (k, i) = choose|k: int, i: int|
            0 <= k < pos.pieces_of(color).len() && 0 <= i < pos.pseudo_moves(
                pos.pieces_of(color)[k].0,
                pos.pieces_of(color)[k].1,
            ).len() && (#[trigger] pos.pseudo_moves(
                pos.pieces_of(color)[k].0,
                pos.pieces_of(color)[k].1,
            )[i]).takes_king();
        let moves = pos.pseudo_moves(pieces[k].0, pieces[k].1);
        let j = lemma_flat_map_holds(moves, taken, moves.len() as int, i, 0);
        let h = lemma_flat_map_holds(pieces, hits, pieces.len() as int, k, j);
    }
}

/// Every square on which a side could take a king holds the king of the
/// other side.
pub proof fn check_is_on_the_king(pos: Position, color: Color, h: int)
    requires
        0 <= h < pos.king_hits(color).len(),
    ensures
        pos.king_on(color.opponent(), pos.king_hits(color)[h]),
{
    let pieces = pos.pieces_of(color);
    let hits = |x: (Location, Piece)| pos.hits_from(x);
    let taken = |mv: Move| king_taken(mv);
    let a = lemma_flat_map_source(pieces, hits, pieces.len() as int, h);
    lemma_pieces_of_on_board(pos, color, a.0);
    let moves = pos.pseudo_moves(pieces[a.0].0, pieces[a.0].1);
    let b = lemma_flat_map_source(moves, taken, moves.len() as int, a.1);
    lemma_pseudo_moves_fit(pos, pieces[a.0].0, pieces[a.0].1, b.0);
}

/// Where the side to move cannot take a king, none of the moves that the
/// shape of one of its pieces allows takes one.
pub proof fn no_king_to_take(pos: Position, k: int, i: int)
    requires
        !pos.attacks_king(pos.active),
        0 <= k < pos.pieces_of(pos.active).len(),
        0 <= i < pos.pseudo_moves(pos.pieces_of(pos.active)[k].0, pos.pieces_of(pos.active)[k].1).len(),
    ensures
        !pos.pseudo_moves(pos.pieces_of(pos.active)[k].0, pos.pieces_of(pos.active)[k].1)[i].takes_king(),
{
    let pieces = pos.pieces_of(pos.active);
    let moves = pos.pseudo_moves(pieces[k].0, pieces[k].1);
    let hits = |x: (Location, Piece)| pos.hits_from(x);
    lemma_flat_map_empty(pieces, hits, pieces.len() as int);
    assert(hits(pieces[k]).len() == 0);
    let taken = |mv: Move| king_taken(mv);
    lemma_flat_map_empty(moves, taken, moves.len() as int);
    assert(taken(moves[i]).len() == 0);
}

/// A sound position stays sound, with one king for each side, after any
/// move of the listing that takes no king, whatever promotion the player
/// chooses for it.
pub proof fn move_keeps_kings(pos: Position, i: int, j: int, choice: Option<PieceType>)
    requires
        pos.sound(),
        0 <= i < pos.listing().len(),
        0 <= j < pos.listing()[i].1.len(),
        !pos.listing()[i].1[j].takes_king(),
        pos.listing()[i].1[j].may_promote_to(choice),
    ensures
        pos.after_move(pos.listing()[i].1[j].promoting(choice)).sound(),
        pos.after_move(pos.listing()[i].1[j].promoting(choice)).one_king(Color::White),
        pos.after_move(pos.listing()[i].1[j].promoting(choice)).one_king(Color::Black),
{
    listed_move_is_allowed(pos, i, j);
    lemma_move_keeps_sound(pos, pos.listing()[i].1[j], choice);
}

/// A sound position stays sound, with one king for each side, after any
/// event that a card offers.
pub proof fn event_keeps_kings(pos: Position, card: usize, k: int)
    requires
        pos.sound(),
        0 <= k < pos.candidates(card).len(),
    ensures
        pos.after_event(pos.candidates(card)[k]).sound(),
        pos.after_event(pos.candidates(card)[k]).one_king(Color::White),
        pos.after_event(pos.candidates(card)[k]).one_king(Color::Black),
{
    lemma_candidates_suit(pos, card, k);
    lemma_event_keeps_sound(pos, pos.candidates(card)[k]);
}

/// An event that may be played is one of those on offer, leaves the king of
/// the side to move out of the opponent's reach, and leaves the side to move
/// a legal move.
pub proof fn playable_event_is_safe(pos: Position, cands: Seq<Event>, k: int) -> (i: int)
    requires
        0 <= k < pos.playable(cands).len(),
    ensures
        0 <= i < cands.len(),
        pos.playable(cands)[k] == cands[i],
        !pos.after_event(cands[i]).attacks_king(pos.active.opponent()),
        pos.after_event(cands[i]).listing().len() > 0,
        pos.after_event(cands[i]).verdict(pos.after_event(cands[i]).is_over()) == GameState::Normal,
{
    lemma_retain_source(cands, |e: Event| pos.event_ok(e), k)
}

/// When a pawn advances two ranks, the square that it skips is the one open
/// to a capture in passing after the move.
pub proof fn double_step_opens_passing(pos: Position, mv: Move)
    requires
        mv.piece.typ == PieceType::Pawn,
        mv.to.rank == mv.from.rank + 2 || mv.to.rank == mv.from.rank - 2,
    ensures
        pos.after_move(mv).en_passant == Some(
            Location { file: mv.from.file, rank: ((mv.from.rank + mv.to.rank) / 2) as i8 },
        ),
{
}

/// After any other move, no square is open to a capture in passing,
/// whatever square was before.
pub proof fn other_moves_close_passing(pos: Position, mv: Move)
    requires
        !(mv.piece.typ == PieceType::Pawn && (mv.to.rank == mv.from.rank + 2 || mv.to.rank
            == mv.from.rank - 2)),
    ensures
        pos.after_move(mv).en_passant is None,
{
}

/// A pawn's capture onto an empty square is a capture in passing: the square
/// is the one that a pawn has just skipped, and the move takes the pawn that
/// stands beside the capturing pawn, in the file of the destination. After
/// the move that square is empty and the capturing pawn stands on the
/// destination.
pub proof fn passing_takes_pawn_beside(pos: Position, from: Location, piece: Piece, dfile: int)
    requires
        from.valid(),
        dfile == 1 || dfile == -1,
        pos.pawn_capture(piece, from, dfile).len() > 0,
        pos.at(pos.pawn_capture(piece, from, dfile)[0].to) is None,
    ensures
        ({
            let mv = pos.pawn_capture(piece, from, dfile)[0];
            let beside = Location { file: mv.to.file, rank: from.rank };
            &&& pos.en_passant == Some(mv.to)
            &&& beside != mv.to
            &&& mv.attack == Some(
                (beside, Piece { typ: PieceType::Pawn, color: piece.color.opponent() }),
            )
            &&& pos.after_move(mv).at(beside) is None
            &&& pos.after_move(mv).at(mv.to) == Some(piece)
        }),
{
    let mv = pos.pawn_capture(piece, from, dfile)[0];
    let beside = Location { file: mv.to.file, rank: from.rank };
    lemma_at_after_move(pos, mv, beside);
    lemma_at_after_move(pos, mv, mv.to);
}

/// A castling right never comes back: one that stands after a move stood
/// before it.
pub proof fn move_restores_no_right(pos: Position, mv: Move, color: Color, kingside: bool)
    ensures
        pos.after_move(mv).may_castle(color, kingside) ==> pos.may_castle(color, kingside),
{
}

/// A castling right never comes back: one that stands after an event stood
/// before it.
pub proof fn event_restores_no_right(pos: Position, e: Event, color: Color, kingside: bool)
    ensures
        pos.after_event(e).may_castle(color, kingside) ==> pos.may_castle(color, kingside),
{
}

/// After a move of a king, castling or not, its side has no castling right
/// left.
pub proof fn king_move_forfeits_castling(pos: Position, mv: Move, kingside: bool)
    requires
        mv.piece.typ == PieceType::King,
    ensures
        !pos.after_move(mv).may_castle(mv.piece.color, kingside),
{
}

/// Castling, as the position allows it, takes the king two files along its
/// rank and puts the rook on the square that the king has crossed; the
/// squares that they have left are empty.
pub proof fn castling_moves_king_and_rook(
    pos: Position,
    mv: Move,
    rook_from: Location,
    rook_to: Location,
)
    requires
        pos.sound(),
        pos.allows(mv),
        mv.castle == Some((rook_from, rook_to)),
    ensures
        mv.to.rank == mv.from.rank,
        mv.to.file == mv.from.file + 2 || mv.to.file == mv.from.file - 2,
        rook_to == crate::rules::midpoint(mv),
        pos.after_move(mv).at(mv.to) == Some(mv.piece),
        pos.after_move(mv).at(rook_to) == Some(
            Piece { typ: PieceType::Rook, color: mv.piece.color },
        ),
        pos.after_move(mv).at(mv.from) is None,
        pos.after_move(mv).at(rook_from) is None,
{
    lemma_at_after_move(pos, mv, mv.to);
    lemma_at_after_move(pos, mv, rook_to);
    lemma_at_after_move(pos, mv, mv.from);
    lemma_at_after_move(pos, mv, rook_from);
}

/// A move records enough to take it back: from the board after a move that
/// the position allows, and from the move, what stood on every square before
/// the move can be read off, whatever promotion was chosen.
pub proof fn move_can_be_taken_back(
    pos: Position,
    mv: Move,
    choice: Option<PieceType>,
    loc: Location,
)
    requires
        pos.sound(),
        pos.allows(mv),
        loc.valid(),
    ensures
        pos.after_move(mv.promoting(choice)).cell_taken_back(mv.promoting(choice), loc) == pos.at(
            loc,
        ),
{
    let played = mv.promoting(choice);
    lemma_move_finds(pos, mv);
    lemma_at_after_move(pos, played, loc);
}

/// The initial position is sound.
pub proof fn initial_position_is_sound()
    ensures
        Position::initial().sound(),
{
    let pos = Position::initial();
    let white = Location { file: 4, rank: 0 };
    let black = Location { file: 4, rank: 7 };
    assert(pos.king_on(Color::White, white));
    assert(pos.king_on(Color::Black, black));
    lemma_one_king(pos, Color::White, white);
    lemma_one_king(pos, Color::Black, black);
}

/// Whether one position comes of another by a step of the game: by a move
/// of the listing that takes no king, with a promotion that the player may
/// choose, or by an event that a card offers.
pub open spec fn step(before: Position, after: Position) -> bool {
    ||| exists|i: int, j: int, choice: Option<PieceType>|
        {
            &&& 0 <= i < before.listing().len()
            &&& 0 <= j < before.listing()[i].1.len()
            &&& !before.listing()[i].1[j].takes_king()
            &&& before.listing()[i].1[j].may_promote_to(choice)
            &&& after == before.after_move(#[trigger] before.listing()[i].1[j].promoting(choice))
        }
    ||| exists|card: usize, k: int|
        0 <= k < before.candidates(card).len() && after == before.after_event(
            #[trigger] before.candidates(card)[k],
        )
}

/// Whether the positions are those of a game from its beginning: the first
/// is the initial position, and each of the others comes of the one before
/// it by a step of the game.
pub open spec fn game(positions: Seq<Position>) -> bool {
    &&& positions.len() > 0
    &&& positions[0] == Position::initial()
    &&& forall|n: int| 0 <= n < positions.len() - 1 ==> step(positions[n], #[trigger] positions[n + 1])
}

/// Every position of a game is sound: each side has exactly one king, before
/// and after every move and every event.
pub proof fn every_position_of_a_game_is_sound(positions: Seq<Position>, n: int)
    requires
        game(positions),
        0 <= n < positions.len(),
    ensures
        positions[n].sound(),
        positions[n].one_king(Color::White),
        positions[n].one_king(Color::Black),
    decreases n,
{
    if n == 0 {
        initial_position_is_sound();
    } else {
        every_position_of_a_game_is_sound(positions, n - 1);
        let before = positions[n - 1];
        let after = positions[n - 1 + 1];
        assert(step(before, after));
        if exists|card: usize, k: int|
            0 <= k < before.candidates(card).len() && after == before.after_event(
                #[trigger] before.candidates(card)[k],
            ) {
            let (card, k) = choose|card: usize, k: int|
                0 <= k < before.candidates(card).len() && after == before.after_event(
                    #[trigger] before.candidates(card)[k],
                );
            event_keeps_kings(before, card, k);
        } else {
            let (i, j, choice) = choose|i: int, j: int, choice: Option<PieceType>|
                {
                    &&& 0 <= i < before.listing().len()
                    &&& 0 <= j < before.listing()[i].1.len()
                    &&& !before.listing()[i].1[j].takes_king()
                    &&& before.listing()[i].1[j].may_promote_to(choice)
                    &&& after == before.after_move(
                        #[trigger] before.listing()[i].1[j].promoting(choice),
                    )
                };
            move_keeps_kings(before, i, j, choice);
        }
    }
}

/// Whether `d` is the step `(dfile, drank)` with its coordinates exchanged
/// or not, and each of them reversed or not.
pub open spec fn is_image(d: (i8, i8), dfile: i8, drank: i8) -> bool {
    let same = |x: i8, y: i8| x == y || x == -y;
    (same(d.0, dfile) && same(d.1, drank)) || (same(d.0, drank) && same(d.1, dfile))
}

/// A table of directions holds the images of its step, and nothing else.
pub proof fn directions_are_the_images(dfile: i8, drank: i8, d: (i8, i8))
    requires
        -128 < dfile,
        -128 < drank,
    ensures
        directions(dfile, drank).contains(d) <==> is_image(d, dfile, drank),
{
    let dirs = directions(dfile, drank);
    if dirs.contains(d) {
        let k = choose|k: int| 0 <= k < dirs.len() && dirs[k] == d;
        assert(is_image(dirs[k], dfile, drank));
    }
    if is_image(d, dfile, drank) {
        let swap = dfile != drank;
        let turned: int = if swap {
            1
        } else {
            0
        };
        let flip: int = if dfile != 0 {
            1 + turned
        } else {
            0
        };
        let flop: int = if drank != 0 {
            1 + turned
        } else {
            0
        };
        let a = dfile;
        let b = drank;
        let na = (-dfile) as i8;
        let nb = (-drank) as i8;
        if d == (a, b) {
            assert(dirs[0] == d);
        } else if d == (b, a) {
            assert(dirs[1] == d);
        } else if d == (na, b) {
            assert(dirs[1 + turned] == d);
        } else if d == (b, na) {
            assert(dirs[2 + turned] == d);
        } else if d == (a, nb) {
            assert(dirs[1 + turned + flip] == d);
        } else if d == (nb, a) {
            assert(dirs[2 + turned + flip] == d);
        } else if d == (na, nb) {
            assert(dirs[1 + turned + flip + flop] == d);
        } else {
            assert(d == (nb, na));
            assert(dirs[2 + turned + flip + flop] == d);
        }
    }
}

} // verus!
