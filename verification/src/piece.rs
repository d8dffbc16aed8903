//! Colors, piece kinds and pieces.

use vstd::prelude::*;

verus! {

/// One of the two sides.
#[derive(Clone, Copy, Debug, PartialEq, Eq, Structural)]
pub enum Color {
    White,
    Black,
}

/// One of the six kinds of chess piece.
#[derive(Clone, Copy, Debug, PartialEq, Eq, Structural)]
pub enum PieceType {
    Pawn,
    Rook,
    Knight,
    Bishop,
    Queen,
    King,
}

/// A piece: its color and its kind.
#[derive(Clone, Copy, Debug, PartialEq, Eq, Structural)]
pub struct Piece(pub Color, pub PieceType);

impl Color {
    /// Index of the color: 0 for White, 1 for Black.
    pub open spec fn index_spec(self) -> int {
        match self {
            Color::White => 0,
            Color::Black => 1,
        }
    }

    /// The other color.
    pub open spec fn flip_spec(self) -> Color {
        match self {
            Color::White => Color::Black,
            Color::Black => Color::White,
        }
    }

    /// Index of the color, for constant-time table lookups.
    pub fn index(self) -> (r: usize)
        ensures
            r == self.index_spec(),
    {
        match self {
            Color::White => 0,
            Color::Black => 1,
        }
    }

    /// The other color.
    #[verifier::when_used_as_spec(flip_spec)]
    pub fn flip(self) -> (r: Color)
        ensures
            r == self.flip_spec(),
            r != self,
            r.flip_spec() == self,
    {
        match self {
            Color::White => Color::Black,
            Color::Black => Color::White,
        }
    }

    /// The lower-case English name of the color.
    pub fn name(self) -> (r: &'static str)
        ensures
            r@ == (match self {
                Color::White => "white"@,
                Color::Black => "black"@,
            }),
    {
        match self {
            Color::White => "white",
            Color::Black => "black",
        }
    }
}

impl PieceType {
    /// Index of the kind: Pawn 0, Rook 1, Knight 2, Bishop 3, Queen 4, King 5.
    pub open spec fn index_spec(self) -> int {
        match self {
            PieceType::Pawn => 0,
            PieceType::Rook => 1,
            PieceType::Knight => 2,
            PieceType::Bishop => 3,
            PieceType::Queen => 4,
            PieceType::King => 5,
        }
    }

    /// Index of the kind.
    pub fn index(self) -> (r: usize)
        ensures
            r == self.index_spec(),
    {
        match self {
            PieceType::Pawn => 0,
            PieceType::Rook => 1,
            PieceType::Knight => 2,
            PieceType::Bishop => 3,
            PieceType::Queen => 4,
            PieceType::King => 5,
        }
    }
}

impl Piece {
    /// Index of the piece in `[0, 12)`: twice the kind's index plus the color's.
    pub open spec fn index_spec(self) -> int {
        2 * self.1.index_spec() + self.0.index_spec()
    }

    /// The color of the piece.
    pub fn color(&self) -> (r: &Color)
        ensures
            *r == self.0,
    {
        &self.0
    }

    /// The kind of the piece.
    pub fn kind(&self) -> (r: &PieceType)
        ensures
            *r == self.1,
    {
        &self.1
    }

    /// Index of the piece in `[0, 12)`, distinct for distinct pieces.
    pub fn index(self) -> (r: usize)
        ensures
            r == self.index_spec(),
            r < 12,
    {
        2 * self.1.index() + self.0.index()
    }

    /// The pawn of the given color.
    pub fn pawn_of(color: Color) -> (r: Piece)
        ensures
            r == Piece(color, PieceType::Pawn),
    {
        Piece(color, PieceType::Pawn)
    }

    /// The one-letter symbol of the piece: upper case for White, lower case
    /// for Black.
    pub fn symbol(&self) -> (r: char)
        ensures
            r == self.symbol_spec(),
    {
        match (self.0, self.1) {
            (Color::White, PieceType::Pawn) => 'P',
            (Color::White, PieceType::Rook) => 'R',
            (Color::White, PieceType::Knight) => 'N',
            (Color::White, PieceType::Bishop) => 'B',
            (Color::White, PieceType::Queen) => 'Q',
            (Color::White, PieceType::King) => 'K',
            (Color::Black, PieceType::Pawn) => 'p',
            (Color::Black, PieceType::Rook) => 'r',
            (Color::Black, PieceType::Knight) => 'n',
            (Color::Black, PieceType::Bishop) => 'b',
            (Color::Black, PieceType::Queen) => 'q',
            (Color::Black, PieceType::King) => 'k',
        }
    }

    /// The symbol that `symbol` returns.
    pub open spec fn symbol_spec(self) -> char {
        match (self.0, self.1) {
            (Color::White, PieceType::Pawn) => 'P',
            (Color::White, PieceType::Rook) => 'R',
            (Color::White, PieceType::Knight) => 'N',
            (Color::White, PieceType::Bishop) => 'B',
            (Color::White, PieceType::Queen) => 'Q',
            (Color::White, PieceType::King) => 'K',
            (Color::Black, PieceType::Pawn) => 'p',
            (Color::Black, PieceType::Rook) => 'r',
            (Color::Black, PieceType::Knight) => 'n',
            (Color::Black, PieceType::Bishop) => 'b',
            (Color::Black, PieceType::Queen) => 'q',
            (Color::Black, PieceType::King) => 'k',
        }
    }
}

/// The piece with index `i`.
pub open spec fn piece_of_index(i: int) -> Piece {
    let color = if i % 2 == 0 {
        Color::White
    } else {
        Color::Black
    };
    let kind = if i / 2 == 0 {
        PieceType::Pawn
    } else if i / 2 == 1 {
        PieceType::Rook
    } else if i / 2 == 2 {
        PieceType::Knight
    } else if i / 2 == 3 {
        PieceType::Bishop
    } else if i / 2 == 4 {
        PieceType::Queen
    } else {
        PieceType::King
    };
    Piece(color, kind)
}

/// Every index in `[0, 12)` is the index of a piece.
pub proof fn lemma_piece_of_index(i: int)
    requires
        0 <= i < 12,
    ensures
        piece_of_index(i).index_spec() == i,
{
}

/// Distinct pieces have distinct indices.
pub proof fn lemma_piece_index_injective(p: Piece, q: Piece)
    ensures
        0 <= p.index_spec() < 12,
        p.index_spec() == q.index_spec() <==> p == q,
{
}

} // verus!
