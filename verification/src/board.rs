//! The board: the position together with the record of the game.

use vstd::prelude::*;
use crate::event::Event;
use crate::laws::initial_position_is_sound;
use crate::location::Location;
use crate::moves::{LocationState, Move};
use crate::piece::{Color, Piece, PieceType};
use crate::position::{final_rank, square, Position};
use crate::seqs::flat_map_upto;

verus! {

/// A game in progress.
#[derive(Debug)]
pub struct Board {
    /// The squares by rank, then file.
    pub pieces: [[Option<Piece>; 8]; 8],
    /// The side to move.
    pub active: Color,
    pub wk_castle: bool,
    pub wq_castle: bool,
    pub bk_castle: bool,
    pub bq_castle: bool,
    /// The square that a pawn skipped in the move just made.
    pub en_passant: Option<Location>,
    /// How many moves have been made.
    pub half_moves: usize,
    pub last_move: Option<Move>,
    pub last_event: Option<Event>,
    pub last_card: Option<usize>,
    /// White's cards; the next one to be drawn is the last.
    pub white_cards: Vec<usize>,
    /// Black's cards; the next one to be drawn is the last.
    pub black_cards: Vec<usize>,
}

/// What a board stands for: the position and the record of the game.
pub struct BoardView {
    pub position: Position,
    pub half_moves: nat,
    pub last_move: Option<Move>,
    pub last_event: Option<Event>,
    pub last_card: Option<usize>,
    pub white_cards: Seq<usize>,
    pub black_cards: Seq<usize>,
}

impl BoardView {
    /// The cards of a side.
    pub open spec fn cards(self, color: Color) -> Seq<usize> {
        if color == Color::White {
            self.white_cards
        } else {
            self.black_cards
        }
    }
}

impl View for Board {
    type V = BoardView;

    open spec fn view(&self) -> BoardView {
        BoardView {
            position: self.pos(),
            half_moves: self.half_moves as nat,
            last_move: self.last_move,
            last_event: self.last_event,
            last_card: self.last_card,
            white_cards: self.white_cards@,
            black_cards: self.black_cards@,
        }
    }
}

impl Clone for Board {
    fn clone(&self) -> (copy: Self)
        ensures
            copy@ == self@,
    {
        Board {
            pieces: self.pieces,
            active: self.active,
            wk_castle: self.wk_castle,
            wq_castle: self.wq_castle,
            bk_castle: self.bk_castle,
            bq_castle: self.bq_castle,
            en_passant: self.en_passant,
            half_moves: self.half_moves,
            last_move: self.last_move,
            last_event: self.last_event,
            last_card: self.last_card,
            white_cards: self.white_cards.clone(),
            black_cards: self.black_cards.clone(),
        }
    }
}

/// The pieces as they stand when a game begins.
pub fn initial_pieces() -> (pieces: [[Option<Piece>; 8]; 8])
    ensures
        Seq::new(8, |r: int| pieces[r]@) == Position::initial().cells,
{
    let white = |typ: PieceType| -> (p: Option<Piece>)
        ensures
            p == Some(Piece { typ, color: Color::White }),
        { Some(Piece::new(typ, Color::White)) };
    let black = |typ: PieceType| -> (p: Option<Piece>)
        ensures
            p == Some(Piece { typ, color: Color::Black }),
        { Some(Piece::new(typ, Color::Black)) };
    let wp = white(PieceType::Pawn);
    let bp = black(PieceType::Pawn);
    let no: Option<Piece> = None;
    let pieces = [
        [
            white(PieceType::Rook),
            white(PieceType::Knight),
            white(PieceType::Bishop),
            white(PieceType::Queen),
            white(PieceType::King),
            white(PieceType::Bishop),
            white(PieceType::Knight),
            white(PieceType::Rook),
        ],
        [wp, wp, wp, wp, wp, wp, wp, wp],
        [no, no, no, no, no, no, no, no],
        [no, no, no, no, no, no, no, no],
        [no, no, no, no, no, no, no, no],
        [no, no, no, no, no, no, no, no],
        [bp, bp, bp, bp, bp, bp, bp, bp],
        [
            black(PieceType::Rook),
            black(PieceType::Knight),
            black(PieceType::Bishop),
            black(PieceType::Queen),
            black(PieceType::King),
            black(PieceType::Bishop),
            black(PieceType::Knight),
            black(PieceType::Rook),
        ],
    ];
    proof {
        let got = Seq::new(8, |r: int| pieces[r]@);
        let want = Position::initial().cells;
        assert(got[0] =~= want[0]);
        assert(got[1] =~= want[1]);
        assert(got[2] =~= want[2]);
        assert(got[3] =~= want[3]);
        assert(got[4] =~= want[4]);
        assert(got[5] =~= want[5]);
        assert(got[6] =~= want[6]);
        assert(got[7] =~= want[7]);
        assert(got =~= want);
    }
    pieces
}

impl Board {
    /// The position that the board holds.
    pub open spec fn pos(&self) -> Position {
        Position {
            cells: Seq::new(8, |r: int| self.pieces[r]@),
            active: self.active,
            wk_castle: self.wk_castle,
            wq_castle: self.wq_castle,
            bk_castle: self.bk_castle,
            bq_castle: self.bq_castle,
            en_passant: self.en_passant,
        }
    }

    /// A board in the initial position with the given cards.
    pub fn with_decks(white_cards: Vec<usize>, black_cards: Vec<usize>) -> (board: Board)
        ensures
            board@ == (BoardView {
                position: Position::initial(),
                half_moves: 0,
                last_move: None,
                last_event: None,
                last_card: None,
                white_cards: white_cards@,
                black_cards: black_cards@,
            }),
            board.pos().sound(),
    {
        proof {
            initial_position_is_sound();
        }
        Board {
            pieces: initial_pieces(),
            active: Color::White,
            wk_castle: true,
            wq_castle: true,
            bk_castle: true,
            bq_castle: true,
            en_passant: None,
            half_moves: 0,
            last_move: None,
            last_event: None,
            last_card: None,
            white_cards,
            black_cards,
        }
    }

    /// What stands on a square.
    pub fn piece(&self, loc: Location) -> (piece: Option<Piece>)
        requires
            loc.valid(),
        ensures
            piece == self.pos().at(loc),
    {
        self.pieces[loc.rank as usize][loc.file as usize]
    }

    /// Whether nothing stands on a square.
    pub fn is_empty(&self, loc: Location) -> (empty: bool)
        requires
            loc.valid(),
        ensures
            empty == (self.pos().at(loc) is None),
    {
        self.piece(loc).is_none()
    }

    /// Replaces what stands on a square.
    pub fn set_piece(&mut self, loc: Location, piece: Option<Piece>)
        requires
            loc.valid(),
        ensures
            final(self)@ == (BoardView { position: old(self).pos().put(loc, piece), ..old(self)@ }),
    {
        self.pieces[loc.rank as usize][loc.file as usize] = piece;
        assert(self.pos().cells =~= old(self).pos().put(loc, piece).cells);
    }

    /// What a square holds from the point of view of `color`; `None` is a
    /// square off the board.
    pub fn get_state(&self, loc: Option<Location>, color: Color) -> (state: LocationState)
        ensures
            state == self.pos().state(loc, color),
    {
        match loc {
            None => LocationState::Invalid,
            Some(l) => {
                if !l.is_valid() {
                    return LocationState::Invalid;
                }
                match self.piece(l) {
                    Some(piece) => {
                        if piece.color == color {
                            LocationState::Friendly
                        } else {
                            LocationState::Opponent(piece)
                        }
                    },
                    None => LocationState::Empty,
                }
            },
        }
    }

    /// The rank on which the pawns of the side to move promote.
    pub fn final_rank(&self) -> (rank: i8)
        ensures
            rank == final_rank(self.active),
    {
        if self.active.is_white() {
            7
        } else {
            0
        }
    }

    /// Every square with what stands on it, in reading order.
    pub fn iter_locations(&self) -> (all: Vec<(Location, Option<Piece>)>)
        ensures
            all@ == self.pos().locations(),
    {
        let mut all: Vec<(Location, Option<Piece>)> = Vec::new();
        let mut n: u8 = 0;
        while n < 64
            invariant
                n <= 64,
                all@.len() == n,
                forall|k: int| 0 <= k < n ==> all@[k] == self.pos().locations()[k],
            decreases 64 - n,
        {
            let loc = Location::new((n % 8) as i8, (n / 8) as i8);
            assert(loc == square(n as int));
            all.push((loc, self.piece(loc)));
            n += 1;
        }
        assert(all@ =~= self.pos().locations());
        all
    }

    /// The empty squares, in reading order.
    pub fn iter_empty_locations(&self) -> (empty: Vec<Location>)
        ensures
            empty@ == self.pos().empty_locations(),
    {
        let all = self.iter_locations();
        let mut empty: Vec<Location> = Vec::new();
        let mut i: usize = 0;
        while i < all.len()
            invariant
                i <= all.len(),
                all@ == self.pos().locations(),
                empty@ == flat_map_upto(
                    all@,
                    |x: (Location, Option<Piece>)|
                        match x.1 {
                            Some(_) => Seq::empty(),
                            None => seq![x.0],
                        },
                    i as int,
                ),
            decreases all.len() - i,
        {
            if all[i].1.is_none() {
                empty.push(all[i].0);
            }
            i += 1;
        }
        empty
    }

    /// The pieces with their squares, in reading order.
    pub fn iter_pieces(&self) -> (found: Vec<(Location, Piece)>)
        ensures
            found@ == self.pos().pieces(),
    {
        let all = self.iter_locations();
        let mut found: Vec<(Location, Piece)> = Vec::new();
        let mut i: usize = 0;
        while i < all.len()
            invariant
                i <= all.len(),
                all@ == self.pos().locations(),
                found@ == flat_map_upto(
                    all@,
                    |x: (Location, Option<Piece>)|
                        match x.1 {
                            Some(piece) => seq![(x.0, piece)],
                            None => Seq::empty(),
                        },
                    i as int,
                ),
            decreases all.len() - i,
        {
            if let Some(piece) = all[i].1 {
                found.push((all[i].0, piece));
            }
            i += 1;
        }
        found
    }

    /// The pieces of one side with their squares, in reading order.
    pub fn iter_pieces_of(&self, color: Color) -> (found: Vec<(Location, Piece)>)
        ensures
            found@ == self.pos().pieces_of(color),
    {
        let all = self.iter_pieces();
        let mut found: Vec<(Location, Piece)> = Vec::new();
        let mut i: usize = 0;
        while i < all.len()
            invariant
                i <= all.len(),
                all@ == self.pos().pieces(),
                found@ == flat_map_upto(
                    all@,
                    |x: (Location, Piece)|
                        if x.1.color == color {
                            seq![x]
                        } else {
                            Seq::empty()
                        },
                    i as int,
                ),
            decreases all.len() - i,
        {
            if all[i].1.color == color {
                found.push(all[i]);
            }
            i += 1;
        }
        found
    }

    /// The pieces of the side to move with their squares, in reading order.
    pub fn iter_active_pieces(&self) -> (found: Vec<(Location, Piece)>)
        ensures
            found@ == self.pos().pieces_of(self.active),
    {
        self.iter_pieces_of(self.active)
    }
}

} // verus!
