//! The board in writing: one line in the notation that chess programs share,
//! with the ranks from Black's side, whose turn it is, the castling rights
//! and the square open to a capture in passing.

use vstd::prelude::*;
use crate::board::Board;
use crate::location::Location;
use crate::piece::{Color, Piece, PieceType};
use crate::position::Position;

verus! {

/// Calls `String::push`, which appends one character to the end of the
/// string.
#[verifier::external_body]
fn push_char(text: &mut String, c: char)
    ensures
        final(text)@ == old(text)@.push(c),
{
    text.push(c);
}

/// The letter of a side.
pub open spec fn color_char(color: Color) -> char {
    if color == Color::White {
        'w'
    } else {
        'b'
    }
}

/// The letter of a kind of piece, in lower case.
pub open spec fn kind_char(typ: PieceType) -> char {
    match typ {
        PieceType::Pawn => 'p',
        PieceType::Knight => 'n',
        PieceType::Bishop => 'b',
        PieceType::Rook => 'r',
        PieceType::Queen => 'q',
        PieceType::King => 'k',
    }
}

/// The letter of a kind of piece, in upper case.
pub open spec fn kind_capital(typ: PieceType) -> char {
    match typ {
        PieceType::Pawn => 'P',
        PieceType::Knight => 'N',
        PieceType::Bishop => 'B',
        PieceType::Rook => 'R',
        PieceType::Queen => 'Q',
        PieceType::King => 'K',
    }
}

/// The letter of a piece: in upper case for White, in lower case for Black.
pub open spec fn piece_char(piece: Piece) -> char {
    if piece.color == Color::White {
        kind_capital(piece.typ)
    } else {
        kind_char(piece.typ)
    }
}

/// The figure for a number below ten.
pub open spec fn digit(n: int) -> char {
    if n == 0 {
        '0'
    } else if n == 1 {
        '1'
    } else if n == 2 {
        '2'
    } else if n == 3 {
        '3'
    } else if n == 4 {
        '4'
    } else if n == 5 {
        '5'
    } else if n == 6 {
        '6'
    } else if n == 7 {
        '7'
    } else if n == 8 {
        '8'
    } else {
        '9'
    }
}

/// The letter of a file.
pub open spec fn file_char(file: int) -> char {
    if file == 0 {
        'a'
    } else if file == 1 {
        'b'
    } else if file == 2 {
        'c'
    } else if file == 3 {
        'd'
    } else if file == 4 {
        'e'
    } else if file == 5 {
        'f'
    } else if file == 6 {
        'g'
    } else {
        'h'
    }
}

/// A square in writing: the letter of its file and the number of its rank,
/// counted from one.
pub open spec fn location_text(loc: Location) -> Seq<char> {
    seq![file_char(loc.file as int), digit(loc.rank + 1)]
}

/// The count of empty squares in writing, if there are any.
pub open spec fn gap_text(empty: int) -> Seq<char> {
    if empty > 0 {
        seq![digit(empty)]
    } else {
        Seq::empty()
    }
}

/// A castling right in writing: its letter if it stands, a dash if not.
pub open spec fn right_char(stands: bool, letter: char) -> char {
    if stands {
        letter
    } else {
        '-'
    }
}

impl Position {
    /// A rank in writing from the file `file` on, after `empty` empty
    /// squares: each piece by its letter, each run of empty squares by its
    /// length.
    pub open spec fn rank_text(self, rank: int, file: int, empty: int) -> Seq<char>
        decreases 8 - file,
    {
        if file >= 8 {
            gap_text(empty)
        } else {
            match self.cells[rank][file] {
                Some(piece) => gap_text(empty) + seq![piece_char(piece)] + self.rank_text(
                    rank,
                    file + 1,
                    0,
                ),
                None => self.rank_text(rank, file + 1, empty + 1),
            }
        }
    }

    /// The ranks from `rank` down to the first in writing, with a stroke
    /// between one rank and the next.
    pub open spec fn ranks_text(self, rank: int) -> Seq<char>
        decreases rank,
    {
        if rank < 0 {
            Seq::empty()
        } else if rank == 0 {
            self.rank_text(0, 0, 0)
        } else {
            self.rank_text(rank, 0, 0) + seq!['/'] + self.ranks_text(rank - 1)
        }
    }

    /// The square open to a capture in passing in writing, or a dash.
    pub open spec fn passing_text(self) -> Seq<char> {
        match self.en_passant {
            Some(loc) => location_text(loc),
            None => seq!['-'],
        }
    }

    /// The side to move and the four castling rights in writing.
    pub open spec fn turn_text(self) -> Seq<char> {
        seq![
            ' ',
            color_char(self.active),
            ' ',
            right_char(self.wk_castle, 'K'),
            right_char(self.wq_castle, 'Q'),
            right_char(self.bk_castle, 'k'),
            right_char(self.bq_castle, 'q'),
            ' ',
        ]
    }

    /// The position in writing: the ranks from the eighth down, the side to
    /// move, the four castling rights, the square open to a capture in
    /// passing, and the two counters, which always read 0 and 1.
    pub open spec fn text(self) -> Seq<char> {
        self.ranks_text(7) + self.turn_text() + self.passing_text() + seq![' ', '0', ' ', '1']
    }
}

impl Color {
    /// The letter of the side.
    pub fn to_char(self) -> (c: char)
        ensures
            c == color_char(self),
    {
        if self.is_white() {
            'w'
        } else {
            'b'
        }
    }

    /// The side in writing.
    pub fn to_string(self) -> (text: String)
        ensures
            text@ == seq![color_char(self)],
    {
        let mut text = String::new();
        push_char(&mut text, self.to_char());
        text
    }
}

impl Piece {
    /// The letter of the piece: in upper case for White, in lower case for
    /// Black.
    pub fn to_char(self) -> (c: char)
        ensures
            c == piece_char(self),
    {
        if self.color.is_white() {
            match self.typ {
                PieceType::Pawn => 'P',
                PieceType::Knight => 'N',
                PieceType::Bishop => 'B',
                PieceType::Rook => 'R',
                PieceType::Queen => 'Q',
                PieceType::King => 'K',
            }
        } else {
            match self.typ {
                PieceType::Pawn => 'p',
                PieceType::Knight => 'n',
                PieceType::Bishop => 'b',
                PieceType::Rook => 'r',
                PieceType::Queen => 'q',
                PieceType::King => 'k',
            }
        }
    }

    /// The piece in writing.
    pub fn to_string(self) -> (text: String)
        ensures
            text@ == seq![piece_char(self)],
    {
        let mut text = String::new();
        push_char(&mut text, self.to_char());
        text
    }
}

/// The figure for a number below ten.
fn digit_char(n: u8) -> (c: char)
    requires
        n < 10,
    ensures
        c == digit(n as int),
{
    if n == 0 {
        '0'
    } else if n == 1 {
        '1'
    } else if n == 2 {
        '2'
    } else if n == 3 {
        '3'
    } else if n == 4 {
        '4'
    } else if n == 5 {
        '5'
    } else if n == 6 {
        '6'
    } else if n == 7 {
        '7'
    } else if n == 8 {
        '8'
    } else {
        '9'
    }
}

impl Location {
    /// Appends the square in writing to a text.
    fn write_to(self, text: &mut String)
        requires
            self.valid(),
        ensures
            final(text)@ == old(text)@ + location_text(self),
    {
        let file = if self.file == 0 {
            'a'
        } else if self.file == 1 {
            'b'
        } else if self.file == 2 {
            'c'
        } else if self.file == 3 {
            'd'
        } else if self.file == 4 {
            'e'
        } else if self.file == 5 {
            'f'
        } else if self.file == 6 {
            'g'
        } else {
            'h'
        };
        push_char(text, file);
        push_char(text, digit_char((self.rank + 1) as u8));
        assert(text@ =~= old(text)@ + location_text(self));
    }

    /// The square in writing: the letter of its file and the number of its
    /// rank, counted from one.
    pub fn to_string(self) -> (text: String)
        requires
            self.valid(),
        ensures
            text@ == location_text(self),
    {
        let mut text = String::new();
        self.write_to(&mut text);
        assert(text@ =~= location_text(self));
        text
    }
}

impl Board {
    /// Appends a rank in writing to a text.
    fn write_rank(&self, rank: usize, text: &mut String)
        requires
            rank < 8,
        ensures
            final(text)@ == old(text)@ + self.pos().rank_text(rank as int, 0, 0),
    {
        let mut empty: u8 = 0;
        let mut file: usize = 0;
        while file < 8
            invariant
                file <= 8,
                rank < 8,
                empty <= file,
                text@ + self.pos().rank_text(rank as int, file as int, empty as int) == old(text)@
                    + self.pos().rank_text(rank as int, 0, 0),
            decreases 8 - file,
        {
            let ghost before = text@;
            let ghost rest = self.pos().rank_text(rank as int, file as int, empty as int);
            match self.pieces[rank][file] {
                Some(piece) => {
                    if empty > 0 {
                        push_char(text, digit_char(empty));
                        empty = 0;
                    }
                    push_char(text, piece.to_char());
                },
                None => {
                    empty += 1;
                },
            }
            file += 1;
            assert(text@ + self.pos().rank_text(rank as int, file as int, empty as int) =~= before
                + rest);
        }
        if empty > 0 {
            push_char(text, digit_char(empty));
        }
        assert(text@ =~= old(text)@ + self.pos().rank_text(rank as int, 0, 0));
    }

    /// Appends the ranks in writing, from the eighth down, to a text.
    fn write_ranks(&self, text: &mut String)
        ensures
            final(text)@ == old(text)@ + self.pos().ranks_text(7),
    {
        let mut left: usize = 8;
        while left > 0
            invariant
                left <= 8,
                text@ + self.pos().ranks_text(left - 1) == old(text)@ + self.pos().ranks_text(7),
            decreases left,
        {
            let ghost before = text@;
            let ghost rest = self.pos().ranks_text(left - 1);
            left -= 1;
            self.write_rank(left, text);
            if left > 0 {
                push_char(text, '/');
            }
            assert(text@ + self.pos().ranks_text(left - 1) =~= before + rest);
        }
        assert(text@ =~= old(text)@ + self.pos().ranks_text(7));
    }

    /// Appends the side to move and the castling rights in writing to a
    /// text.
    fn write_turn(&self, text: &mut String)
        ensures
            final(text)@ == old(text)@ + self.pos().turn_text(),
    {
        push_char(text, ' ');
        push_char(text, self.active.to_char());
        push_char(text, ' ');
        push_char(text, if self.wk_castle { 'K' } else { '-' });
        push_char(text, if self.wq_castle { 'Q' } else { '-' });
        push_char(text, if self.bk_castle { 'k' } else { '-' });
        push_char(text, if self.bq_castle { 'q' } else { '-' });
        push_char(text, ' ');
        assert(text@ =~= old(text)@ + self.pos().turn_text());
    }

    /// Appends the square open to a capture in passing, or a dash, and the
    /// two counters to a text.
    fn write_passing(&self, text: &mut String)
        requires
            self.en_passant matches Some(loc) ==> loc.valid(),
        ensures
            final(text)@ == old(text)@ + self.pos().passing_text() + seq![' ', '0', ' ', '1'],
    {
        match self.en_passant {
            Some(loc) => {
                loc.write_to(text);
            },
            None => {
                push_char(text, '-');
            },
        }
        assert(text@ =~= old(text)@ + self.pos().passing_text());
        push_char(text, ' ');
        push_char(text, '0');
        push_char(text, ' ');
        push_char(text, '1');
        assert(text@ =~= old(text)@ + self.pos().passing_text() + seq![' ', '0', ' ', '1']);
    }

    /// The board in writing: the ranks from the eighth down, each piece by
    /// its letter and each run of empty squares by its length; then the side
    /// to move, the castling rights, and the square open to a capture in
    /// passing.
    pub fn to_string(&self) -> (text: String)
        requires
            self.en_passant matches Some(loc) ==> loc.valid(),
        ensures
            text@ == self.pos().text(),
    {
        let mut text = String::new();
        self.write_ranks(&mut text);
        self.write_turn(&mut text);
        self.write_passing(&mut text);
        assert(text@ =~= self.pos().text());
        text
    }
}

} // verus!
