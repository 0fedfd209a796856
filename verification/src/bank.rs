use vstd::prelude::*;

use crate::piece::{Color, Piece, Player, Size};

verus! {

/// Why the bank refused a request.
#[derive(Clone, Copy, Debug, PartialEq, Eq, Structural)]
pub enum BankError {
    PieceUnavailable,
    OwnedPiece,
    TooManyPieces { color: Color, size: Size, count: u8, max: u8 },
}

/// The supply of unowned pieces, counted by color and size.
#[derive(Clone, Copy, Debug, PartialEq, Eq)]
pub struct Bank {
    counts: [[u8; 3]; 4],
}

/// The number of copies of each color and size in a full bank.
pub open spec fn spec_copies_per_piece() -> u8 {
    3
}

/// Position of a color and size in the bank's row-major order.
pub open spec fn kind_rank(color: Color, size: Size) -> int {
    color.spec_index() * 3 + size.spec_index()
}

/// The color whose index is `i` (for `i < 4`).
pub open spec fn color_at(i: int) -> Color {
    if i == 0 { Color::Red } else if i == 1 { Color::Yellow } else if i == 2 { Color::Green } else { Color::Blue }
}

/// The size whose index is `i` (for `i < 3`).
pub open spec fn size_at(i: int) -> Size {
    if i == 0 { Size::Small } else if i == 1 { Size::Medium } else { Size::Large }
}

/// The count that a raw table gives a color and size.
pub open spec fn table_count(counts: [[u8; 3]; 4], color: Color, size: Size) -> u8 {
    counts@[color.spec_index() as int]@[size.spec_index() as int]
}

/// The error that `Bank::from_counts` reports for a table, if any: the first
/// color and size, in `Color::ALL` then `Size::ALL` order, above the limit.
pub open spec fn table_excess(counts: [[u8; 3]; 4], color: Color, size: Size) -> bool {
    &&& table_count(counts, color, size) > spec_copies_per_piece()
    &&& forall|c: Color, s: Size|
        kind_rank(c, s) < kind_rank(color, size) ==> table_count(counts, c, s)
            <= spec_copies_per_piece()
}

impl Bank {
    /// How many pieces of this color and size the bank holds.
    pub closed spec fn spec_count(&self, color: Color, size: Size) -> u8 {
        table_count(self.counts, color, size)
    }

    /// Two banks that count every color and size alike are the same bank.
    pub proof fn lemma_counts_determine_bank(b1: Bank, b2: Bank)
        requires
            forall|c: Color, s: Size| #[trigger] b1.spec_count(c, s) == b2.spec_count(c, s),
        ensures
            b1 == b2,
    {
        broadcast use vstd::array::group_array_axioms;

        assert forall|i: int| 0 <= i < 4 implies b1.counts[i] == b2.counts[i] by {
            let c = color_at(i);
            assert(c.spec_index() == i);
            assert forall|j: int| 0 <= j < 3 implies b1.counts[i][j] == b2.counts[i][j] by {
                let z = size_at(j);
                assert(z.spec_index() == j);
                assert(b1.spec_count(c, z) == b2.spec_count(c, z));
            }
            assert(b1.counts[i] =~= b2.counts[i]);
        }
        assert(b1.counts =~= b2.counts);
    }

    /// Every count is the full number of copies.
    pub open spec fn is_full(&self) -> bool {
        forall|c: Color, s: Size| self.spec_count(c, s) == spec_copies_per_piece()
    }

    /// `self` equals `other` except that one color and size has `delta` more.
    pub open spec fn changed_by(&self, other: &Bank, color: Color, size: Size, delta: int) -> bool {
        forall|c: Color, s: Size|
            #[trigger] self.spec_count(c, s) == if c == color && s == size {
                other.spec_count(c, s) + delta
            } else {
                other.spec_count(c, s) as int
            }
    }

    pub fn new() -> (bank: Bank)
        ensures
            bank.is_full(),
    {
        Bank { counts: [[3u8; 3]; 4] }
    }

    pub fn copies_per_piece() -> (n: u8)
        ensures
            n == spec_copies_per_piece(),
    {
        3
    }

    #[verifier::when_used_as_spec(spec_count)]
    pub fn count(&self, color: Color, size: Size) -> (n: u8)
        ensures
            n == self.spec_count(color, size),
    {
        self.counts[color.index()][size.index()]
    }

    /// A bank with the given counts, refused if any count exceeds the number
    /// of copies of a piece.
    pub fn from_counts(counts: [[u8; 3]; 4]) -> (result: Result<Bank, BankError>)
        ensures
            match result {
                Ok(bank) => {
                    &&& forall|c: Color, s: Size| #[trigger] bank.spec_count(c, s) == table_count(counts, c, s)
                    &&& forall|c: Color, s: Size| table_count(counts, c, s) <= spec_copies_per_piece()
                },
                Err(error) => exists|c: Color, s: Size| {
                    &&& table_excess(counts, c, s)
                    &&& error == BankError::TooManyPieces {
                        color: c,
                        size: s,
                        count: table_count(counts, c, s),
                        max: spec_copies_per_piece(),
                    }
                },
            },
    {
        let colors = Color::ALL;
        let sizes = Size::ALL;
        let mut ci: usize = 0;
        while ci < 4
            invariant
                0 <= ci <= 4,
                colors@ == seq![Color::Red, Color::Yellow, Color::Green, Color::Blue],
                sizes@ == seq![Size::Small, Size::Medium, Size::Large],
                forall|c: Color, s: Size| c.spec_index() < ci ==> table_count(counts, c, s) <= 3,
            decreases 4 - ci,
        {
            let color = colors[ci];
            let mut si: usize = 0;
            while si < 3
                invariant
                    0 <= ci < 4,
                    0 <= si <= 3,
                    color == colors@[ci as int],
                    colors@ == seq![Color::Red, Color::Yellow, Color::Green, Color::Blue],
                    sizes@ == seq![Size::Small, Size::Medium, Size::Large],
                    forall|c: Color, s: Size| c.spec_index() < ci ==> table_count(counts, c, s) <= 3,
                    forall|s: Size| s.spec_index() < si ==> table_count(counts, color, s) <= 3,
                decreases 3 - si,
            {
                let size = sizes[si];
                let count = counts[ci][si];
                if count > 3 {
                    assert(table_excess(counts, color, size));
                    return Err(BankError::TooManyPieces { color, size, count, max: 3 });
                }
                si += 1;
            }
            ci += 1;
        }
        Ok(Bank { counts })
    }

    /// Takes one unowned piece of the given color and size out of the bank.
    pub fn draw(&mut self, color: Color, size: Size) -> (result: Result<Piece, BankError>)
        ensures
            old(self).spec_count(color, size) == 0 ==> {
                &&& result == Err::<Piece, BankError>(BankError::PieceUnavailable)
                &&& *final(self) == *old(self)
            },
            old(self).spec_count(color, size) > 0 ==> {
                &&& result == Ok::<Piece, BankError>(Piece::make(color, size, None))
                &&& final(self).changed_by(old(self), color, size, -1)
            },
    {
        let ci = color.index();
        let si = size.index();
        let count = self.counts[ci][si];
        if count == 0 {
            return Err(BankError::PieceUnavailable);
        }
        let mut row = self.counts[ci];
        row[si] = count - 1;
        self.counts[ci] = row;
        Ok(Piece::new(color, size))
    }

    /// Puts an unowned piece back into the bank; an owned piece is refused.
    pub fn return_piece(&mut self, piece: Piece) -> (result: Result<(), BankError>)
        requires
            piece.owner is None ==> old(self).spec_count(piece.color, piece.size) < 255,
        ensures
            piece.owner is Some ==> {
                &&& result == Err::<(), BankError>(BankError::OwnedPiece)
                &&& *final(self) == *old(self)
            },
            piece.owner is None ==> {
                &&& result == Ok::<(), BankError>(())
                &&& final(self).changed_by(old(self), piece.color, piece.size, 1)
            },
    {
        if piece.is_owned() {
            return Err(BankError::OwnedPiece);
        }
        let ci = piece.color().index();
        let si = piece.size().index();
        let mut row = self.counts[ci];
        row[si] = row[si] + 1;
        self.counts[ci] = row;
        Ok(())
    }
}

} // verus!
