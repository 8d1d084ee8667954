//! Squares of the board.

use vstd::prelude::*;

verus! {

/// A square, by file (0 is the a-file) and rank (0 is White's back rank).
#[derive(Debug, Copy, Clone, PartialEq, Eq, Hash, Structural)]
pub struct Location {
    pub file: i8,
    pub rank: i8,
}

/// Whether the coordinates name one of the sixty-four squares.
pub open spec fn on_board(file: int, rank: int) -> bool {
    0 <= file < 8 && 0 <= rank < 8
}

impl Location {
    /// Whether the square lies on the board.
    pub open spec fn valid(self) -> bool {
        on_board(self.file as int, self.rank as int)
    }

    /// The square `dfile` files and `drank` ranks away, if it is on the board.
    pub open spec fn shift(self, dfile: int, drank: int) -> Option<Location> {
        if on_board(self.file + dfile, self.rank + drank) {
            Some(Location { file: (self.file + dfile) as i8, rank: (self.rank + drank) as i8 })
        } else {
            None
        }
    }

    /// The square on a file and a rank of the board.
    pub fn new(file: i8, rank: i8) -> (loc: Location)
        requires
            on_board(file as int, rank as int),
        ensures
            loc.file == file,
            loc.rank == rank,
            loc.valid(),
    {
        Location { file, rank }
    }

    /// Whether the square lies on the board.
    pub fn is_valid(self) -> (b: bool)
        ensures
            b == self.valid(),
    {
        0 <= self.file && self.file < 8 && 0 <= self.rank && self.rank < 8
    }

    /// The square `dfile` files and `drank` ranks away, or `None` when that
    /// would leave the board.
    pub fn offset(self, dfile: i8, drank: i8) -> (r: Option<Location>)
        ensures
            r == self.shift(dfile as int, drank as int),
            r matches Some(l) ==> l.valid(),
    {
        let file: i16 = self.file as i16 + dfile as i16;
        let rank: i16 = self.rank as i16 + drank as i16;
        if 0 <= file && file < 8 && 0 <= rank && rank < 8 {
            Some(Location { file: file as i8, rank: rank as i8 })
        } else {
            None
        }
    }
}

} // verus!
