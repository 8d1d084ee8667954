//! Listing the moves of a position.

use vstd::prelude::*;
use crate::board::Board;
use crate::laws::{check_is_on_the_king, directions_are_the_images, is_image, listed_move_is_safe};
use crate::location::Location;
use crate::moves::{GameState, LocationState, Move};
use crate::piece::{Color, Piece, PieceType};
use crate::position::lemma_pieces_of_on_board;
use crate::rules::{directions, king_hits_in, king_taken, room};
use crate::seqs::{flat_map_upto, lemma_flat_map_prefix, only_if};
use crate::shape::lemma_pseudo_moves_fit;

verus! {

/// The images of the step `(dfile, drank)` under exchanging the two
/// coordinates and reversing either.
pub fn all_directions(dfile: i8, drank: i8) -> (dirs: Vec<(i8, i8)>)
    requires
        -128 < dfile,
        -128 < drank,
    ensures
        dirs@ == directions(dfile, drank),
        forall|d: (i8, i8)| #[trigger] dirs@.contains(d) <==> is_image(d, dfile, drank),
{
    let mut dirs: Vec<(i8, i8)> = Vec::new();
    let swap = dfile != drank;
    dirs.push((dfile, drank));
    if swap {
        dirs.push((drank, dfile));
    }
    if dfile != 0 {
        dirs.push((-dfile, drank));
        if swap {
            dirs.push((drank, -dfile));
        }
    }
    if drank != 0 {
        dirs.push((dfile, -drank));
        if swap {
            dirs.push((-drank, dfile));
        }
    }
    if dfile != 0 && drank != 0 {
        dirs.push((-dfile, -drank));
        if swap {
            dirs.push((-drank, -dfile));
        }
    }
    assert(dirs@ =~= directions(dfile, drank));
    proof {
        assert forall|d: (i8, i8)| #[trigger] dirs@.contains(d) <==> is_image(d, dfile, drank) by {
            directions_are_the_images(dfile, drank, d);
        }
    }
    dirs
}

/// The moves of a listing, each list of moves by what it holds.
pub open spec fn listing_view(listing: Seq<(Location, Vec<Move>)>) -> Seq<(Location, Seq<Move>)> {
    listing.map_values(|x: (Location, Vec<Move>)| (x.0, x.1@))
}

/// The square of the first king that the moves would take, if any.
pub fn first_king_hit(moves: &Vec<Move>) -> (hit: Option<Location>)
    ensures
        match hit {
            Some(loc) => king_hits_in(moves@).len() > 0 && king_hits_in(moves@)[0] == loc,
            None => king_hits_in(moves@).len() == 0,
        },
{
    let mut j: usize = 0;
    while j < moves.len()
        invariant
            j <= moves.len(),
            flat_map_upto(moves@, |mv: Move| king_taken(mv), j as int).len() == 0,
        decreases moves.len() - j,
    {
        if let Some((loc, piece)) = moves[j].attack {
            if piece.is_king() {
                proof {
                    let taken = |mv: Move| king_taken(mv);
                    lemma_flat_map_prefix(moves@, taken, j + 1, moves.len() as int);
                    assert(flat_map_upto(moves@, taken, j + 1) =~= seq![loc]);
                    assert(king_hits_in(moves@).take(1)[0] == loc);
                }
                return Some(loc);
            }
        }
        j += 1;
    }
    None
}

impl Board {
    /// The moves of `piece` from `loc` along each of the directions in turn:
    /// onto each empty square and onto the first opponent in the way; one
    /// step only unless `repeat` is set.
    pub fn moves_to_directions(
        &self,
        loc: Location,
        piece: Piece,
        directions: &[(i8, i8)],
        repeat: bool,
    ) -> (moves: Vec<Move>)
        ensures
            moves@ == self.pos().sweep(piece, loc, directions@, repeat),
    {
        let mut moves: Vec<Move> = Vec::new();
        let mut k: usize = 0;
        while k < directions.len()
            invariant
                k <= directions.len(),
                moves@ == flat_map_upto(
                    directions@,
                    |d: (i8, i8)| self.pos().ray(piece, loc, loc, d, repeat),
                    k as int,
                ),
            decreases directions.len() - k,
        {
            let d = directions[k];
            let ghost base = moves@;
            let mut cur = loc;
            loop
                invariant_except_break
                    base + self.pos().ray(piece, loc, loc, d, repeat) == moves@ + self.pos().ray(
                        piece,
                        loc,
                        cur,
                        d,
                        repeat,
                    ),
                ensures
                    moves@ == base + self.pos().ray(piece, loc, loc, d, repeat),
                decreases room(cur, d),
            {
                let next = cur.offset(d.0, d.1);
                let ghost before = moves@;
                let ghost rest = self.pos().ray(piece, loc, cur, d, repeat);
                match self.get_state(next, piece.color) {
                    LocationState::Empty => {
                        moves.push(Move::new(piece, loc, next.unwrap()));
                    },
                    LocationState::Opponent(opponent) => {
                        moves.push(
                            Move::new(piece, loc, next.unwrap()).with_attack(next.unwrap(), opponent),
                        );
                        assert(moves@ =~= before + rest);
                        break ;
                    },
                    _ => {
                        assert(moves@ =~= before + rest);
                        break ;
                    },
                }
                if !(repeat && (d.0 != 0 || d.1 != 0)) {
                    assert(moves@ =~= before + rest);
                    break ;
                }
                cur = next.unwrap();
                assert(moves@ + self.pos().ray(piece, loc, cur, d, repeat) =~= before + rest);
            }
            k += 1;
        }
        moves
    }

    /// A pawn's move, marked as a promotion when it reaches the furthest
    /// rank.
    fn pawn_step(piece: Piece, from: Location, to: Location) -> (mv: Move)
        ensures
            mv == crate::rules::pawn_step(piece, from, to),
    {
        let mut mv = Move::new(piece, from, to);
        let eighth_rank: i8 = if piece.color.is_white() {
            7
        } else {
            0
        };
        if to.rank == eighth_rank {
            mv.is_promotion = true;
        }
        mv
    }

    /// A pawn's capture towards the neighbouring file `dx`, if it has one.
    fn pawn_capture(&self, loc: Location, piece: Piece, dx: i8, moves: &mut Vec<Move>)
        requires
            dx == 1 || dx == -1,
        ensures
            final(moves)@ == old(moves)@ + self.pos().pawn_capture(piece, loc, dx as int),
    {
        let color = piece.color;
        let dir: i8 = if color.is_white() {
            1
        } else {
            -1
        };
        let nloc = loc.offset(dx, dir);
        match self.get_state(nloc, color) {
            LocationState::Empty => {
                let to = nloc.unwrap();
                if let Some(en_passant) = self.en_passant {
                    if en_passant == to {
                        let aloc = Location { file: to.file, rank: loc.rank };
                        let opponent = Piece::new(PieceType::Pawn, color.other());
                        moves.push(Self::pawn_step(piece, loc, to).with_attack(aloc, opponent));
                    }
                }
            },
            LocationState::Opponent(opponent) => {
                let to = nloc.unwrap();
                moves.push(Self::pawn_step(piece, loc, to).with_attack(to, opponent));
            },
            _ => {},
        }
        assert(moves@ =~= old(moves)@ + self.pos().pawn_capture(piece, loc, dx as int));
    }

    /// The moves of a pawn.
    fn pawn_moves(&self, loc: Location, piece: Piece) -> (moves: Vec<Move>)
        ensures
            moves@ == self.pos().pawn_moves(piece, loc),
    {
        let color = piece.color;
        let mut moves: Vec<Move> = Vec::new();
        let dir: i8 = if color.is_white() {
            1
        } else {
            -1
        };
        let nloc = loc.offset(0, dir);
        if self.get_state(nloc, color) == LocationState::Empty {
            let one = nloc.unwrap();
            moves.push(Self::pawn_step(piece, loc, one));
            let second_rank: i8 = if color.is_white() {
                1
            } else {
                6
            };
            if loc.rank == second_rank {
                let nloc = one.offset(0, dir);
                if self.get_state(nloc, color) == LocationState::Empty {
                    moves.push(Self::pawn_step(piece, loc, nloc.unwrap()));
                }
            }
        }
        assert(moves@ =~= self.pos().pawn_advances(piece, loc));
        self.pawn_capture(loc, piece, 1, &mut moves);
        self.pawn_capture(loc, piece, -1, &mut moves);
        moves
    }

    /// The moves of a king.
    fn king_moves(&self, loc: Location, piece: Piece) -> (moves: Vec<Move>)
        ensures
            moves@ == self.pos().king_moves(piece, loc),
    {
        let color = piece.color;
        let mut dirs = all_directions(1, 1);
        let mut straight = all_directions(1, 0);
        dirs.append(&mut straight);
        let mut moves = self.moves_to_directions(loc, piece, dirs.as_slice(), false);
        let ghost steps = moves@;
        let kingside = if color.is_white() {
            self.wk_castle
        } else {
            self.bk_castle
        };
        if kingside && self.get_state(loc.offset(1, 0), color) == LocationState::Empty
            && self.get_state(loc.offset(2, 0), color) == LocationState::Empty {
            if let Some(rook_from) = loc.offset(3, 0) {
                moves.push(
                    Move::new(piece, loc, loc.offset(2, 0).unwrap()).with_castle(
                        rook_from,
                        loc.offset(1, 0).unwrap(),
                    ),
                );
            }
        }
        assert(moves@ =~= steps + self.pos().castle_kingside(piece, loc));
        let queenside = if color.is_white() {
            self.wq_castle
        } else {
            self.bq_castle
        };
        if queenside && self.get_state(loc.offset(-1, 0), color) == LocationState::Empty
            && self.get_state(loc.offset(-2, 0), color) == LocationState::Empty
            && self.get_state(loc.offset(-3, 0), color) == LocationState::Empty {
            if let Some(rook_from) = loc.offset(-4, 0) {
                moves.push(
                    Move::new(piece, loc, loc.offset(-2, 0).unwrap()).with_castle(
                        rook_from,
                        loc.offset(-1, 0).unwrap(),
                    ),
                );
            }
        }
        assert(moves@ =~= steps + self.pos().castle_kingside(piece, loc)
            + self.pos().castle_queenside(piece, loc));
        moves
    }

    /// The moves that the shape of `piece` allows from `loc`, whether or not
    /// they leave its king safe.
    pub fn pseudo_legal_moves(&self, loc: Location, piece: Piece) -> (moves: Vec<Move>)
        ensures
            moves@ == self.pos().pseudo_moves(loc, piece),
    {
        match piece.typ {
            PieceType::Pawn => self.pawn_moves(loc, piece),
            PieceType::Knight => {
                let dirs = all_directions(1, 2);
                self.moves_to_directions(loc, piece, dirs.as_slice(), false)
            },
            PieceType::Bishop => {
                let dirs = all_directions(1, 1);
                self.moves_to_directions(loc, piece, dirs.as_slice(), true)
            },
            PieceType::Rook => {
                let dirs = all_directions(1, 0);
                self.moves_to_directions(loc, piece, dirs.as_slice(), true)
            },
            PieceType::Queen => {
                let mut dirs = all_directions(1, 1);
                let mut straight = all_directions(1, 0);
                dirs.append(&mut straight);
                self.moves_to_directions(loc, piece, dirs.as_slice(), true)
            },
            PieceType::King => self.king_moves(loc, piece),
        }
    }

    /// The square of the first king that `color` could take, going through
    /// its pieces in reading order and through the moves of each.
    pub fn king_hit(&self, color: Color) -> (hit: Option<Location>)
        ensures
            match hit {
                Some(loc) => self.pos().king_hits(color).len() > 0 && self.pos().king_hits(
                    color,
                )[0] == loc,
                None => self.pos().king_hits(color).len() == 0,
            },
    {
        let pieces = self.iter_pieces_of(color);
        let mut i: usize = 0;
        while i < pieces.len()
            invariant
                i <= pieces.len(),
                pieces@ == self.pos().pieces_of(color),
                flat_map_upto(
                    pieces@,
                    |x: (Location, Piece)| self.pos().hits_from(x),
                    i as int,
                ).len() == 0,
            decreases pieces.len() - i,
        {
            let (loc, piece) = pieces[i];
            let moves = self.pseudo_legal_moves(loc, piece);
            if let Some(hit) = first_king_hit(&moves) {
                proof {
                    let hits = |x: (Location, Piece)| self.pos().hits_from(x);
                    lemma_flat_map_prefix(pieces@, hits, i + 1, pieces.len() as int);
                    let here = flat_map_upto(pieces@, hits, i + 1);
                    assert(here =~= king_hits_in(moves@));
                    assert(self.pos().king_hits(color).take(here.len() as int)[0] == hit);
                }
                return Some(hit);
            }
            i += 1;
        }
        None
    }

    /// The square of the king of the side to move, if the opponent could
    /// take it.
    pub fn get_check(&self) -> (check: Option<Location>)
        ensures
            match check {
                Some(loc) => self.pos().attacks_king(self.active.opponent())
                    && self.pos().king_hits(self.active.opponent())[0] == loc
                    && self.pos().king_on(self.active, loc),
                None => !self.pos().attacks_king(self.active.opponent()),
            },
    {
        let check = self.king_hit(self.active.other());
        proof {
            if check is Some {
                check_is_on_the_king(self.pos(), self.active.opponent(), 0);
            }
        }
        check
    }

    /// Whether `color` could take a king with a move that the shapes of its
    /// pieces allow.
    pub fn can_attack_king(&self, color: Color) -> (attacked: bool)
        ensures
            attacked == self.pos().attacks_king(color),
    {
        self.king_hit(color).is_some()
    }

    /// Whether a move leaves the mover's king safe.
    pub fn is_safe(&self, mv: &Move) -> (safe: bool)
        requires
            mv.in_bounds(),
        ensures
            safe == self.pos().is_safe(*mv),
    {
        let opponent = mv.piece.color.other();
        let mut new_board = self.clone();
        new_board.shift_pieces(mv);
        if new_board.can_attack_king(opponent) {
            return false;
        }
        if mv.castle.is_some() {
            if self.can_attack_king(opponent) {
                return false;
            }
            let middle = Location::new(
                ((mv.from.file as u8 + mv.to.file as u8) / 2) as i8,
                mv.from.rank,
            );
            let middle_mv = Move::new(mv.piece, mv.from, middle);
            let mut new_board = self.clone();
            new_board.shift_pieces(&middle_mv);
            if new_board.can_attack_king(opponent) {
                return false;
            }
        }
        true
    }

    /// The moves of `piece` from `loc`: with `safe`, only those that leave
    /// its king safe.
    pub fn possible_moves(&self, loc: Location, piece: Piece, safe: bool) -> (moves: Vec<Move>)
        requires
            loc.valid(),
        ensures
            moves@ == self.pos().moves_from(loc, piece, safe),
    {
        let all = self.pseudo_legal_moves(loc, piece);
        if !safe {
            return all;
        }
        let mut moves: Vec<Move> = Vec::new();
        let mut i: usize = 0;
        while i < all.len()
            invariant
                i <= all.len(),
                loc.valid(),
                all@ == self.pos().pseudo_moves(loc, piece),
                moves@ == flat_map_upto(all@, only_if(|mv: Move| self.pos().is_safe(mv)), i as int),
            decreases all.len() - i,
        {
            proof {
                lemma_pseudo_moves_fit(self.pos(), loc, piece, i as int);
            }
            if self.is_safe(&all[i]) {
                moves.push(all[i]);
            }
            i += 1;
        }
        moves
    }

    /// The legal moves of the side to move, by origin in reading order; an
    /// origin without a legal move is left out.
    pub fn all_possible_moves(&self) -> (listing: Vec<(Location, Vec<Move>)>)
        ensures
            listing_view(listing@) == self.pos().listing(),
            forall|i: int, j: int|
                0 <= i < listing@.len() && 0 <= j < listing@[i].1@.len()
                    ==> !self.pos().after_move(#[trigger] listing@[i].1@[j]).attacks_king(
                    self.active.opponent(),
                ),
    {
        let pieces = self.iter_pieces_of(self.active);
        let mut listing: Vec<(Location, Vec<Move>)> = Vec::new();
        let mut i: usize = 0;
        while i < pieces.len()
            invariant
                i <= pieces.len(),
                pieces@ == self.pos().pieces_of(self.active),
                listing_view(listing@) == flat_map_upto(
                    pieces@,
                    |x: (Location, Piece)| self.pos().listed(x),
                    i as int,
                ),
            decreases pieces.len() - i,
        {
            let (loc, piece) = pieces[i];
            proof {
                lemma_pieces_of_on_board(self.pos(), self.active, i as int);
            }
            let moves = self.possible_moves(loc, piece, true);
            let ghost before = listing@;
            if moves.len() > 0 {
                listing.push((loc, moves));
                assert(listing_view(listing@) =~= listing_view(before) + seq![
                    (loc, self.pos().legal_moves(loc, piece)),
                ]);
            }
            i += 1;
        }
        proof {
            assert forall|i: int, j: int|
                0 <= i < listing@.len() && 0 <= j < listing@[i].1@.len()
                    implies !self.pos().after_move(#[trigger] listing@[i].1@[j]).attacks_king(
                self.active.opponent(),
            ) by {
                assert(listing_view(listing@)[i] == (listing@[i].0, listing@[i].1@));
                listed_move_is_safe(self.pos(), i, j);
            }
        }
        listing
    }

    /// How the game stands for the side to move, given the listing of its
    /// legal moves.
    pub fn game_state(&self, possible_moves: &[(Location, Vec<Move>)]) -> (state: GameState)
        ensures
            state == self.pos().verdict(possible_moves@.len() == 0),
    {
        if possible_moves.len() == 0 {
            let other = self.active.other();
            if self.can_attack_king(other) {
                GameState::Checkmate(self.active)
            } else {
                GameState::Stalemate
            }
        } else {
            GameState::Normal
        }
    }

    /// Whether the side to move has no legal move.
    pub fn is_game_over(&self) -> (over: bool)
        ensures
            over == self.pos().is_over(),
            over == (self.pos().verdict(self.pos().is_over()) != GameState::Normal),
    {
        let possible_moves = self.all_possible_moves();
        let st = self.game_state(possible_moves.as_slice());
        st != GameState::Normal
    }
}

} // verus!
