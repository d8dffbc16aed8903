//! The board: one set of squares per piece and, redundantly, the piece on
//! each square, kept consistent by every operation.

use vstd::prelude::*;
use crate::bitset::BitSet;
use crate::piece::{
    Color, Piece, PieceType, lemma_piece_index_injective, lemma_piece_of_index, piece_of_index,
};

verus! {

/// Whether rank `r` and file `f` name a square of the board.
pub open spec fn on_board(r: int, f: int) -> bool {
    0 <= r < 8 && 0 <= f < 8
}

/// The piece on rank `r`, file `f`; `None` off the board.
pub open spec fn piece_on(squares: Seq<Option<Piece>>, r: int, f: int) -> Option<Piece> {
    if on_board(r, f) {
        squares[8 * r + f]
    } else {
        None
    }
}

/// The kind of piece that starts on file `f` of a back rank.
pub open spec fn back_rank_kind(f: int) -> PieceType {
    if f == 0 || f == 7 {
        PieceType::Rook
    } else if f == 1 || f == 6 {
        PieceType::Knight
    } else if f == 2 || f == 5 {
        PieceType::Bishop
    } else if f == 3 {
        PieceType::Queen
    } else {
        PieceType::King
    }
}

/// What stands on square `s` at the start of a game.
pub open spec fn initial_piece(s: int) -> Option<Piece> {
    let r = s / 8;
    let f = s % 8;
    if r == 0 {
        Some(Piece(Color::White, back_rank_kind(f)))
    } else if r == 1 {
        Some(Piece(Color::White, PieceType::Pawn))
    } else if r == 6 {
        Some(Piece(Color::Black, PieceType::Pawn))
    } else if r == 7 {
        Some(Piece(Color::Black, back_rank_kind(f)))
    } else {
        None
    }
}

/// The 64 squares at the start of a game, a1 first, rank by rank.
pub open spec fn initial_squares() -> Seq<Option<Piece>> {
    Seq::new(64, |s: int| initial_piece(s))
}

/// The lowest square at or above `s` that holds `p`; 64 if there is none.
pub open spec fn first_square_of(squares: Seq<Option<Piece>>, p: Piece, s: int) -> int
    decreases 64 - s,
{
    if s >= 64 || s < 0 {
        64
    } else if squares[s] == Some(p) {
        s
    } else {
        first_square_of(squares, p, s + 1)
    }
}

/// The position of the square with index `s`.
pub open spec fn position_of(s: int) -> Position {
    Position((s / 8) as i8, (s % 8) as i8)
}

/// A place given by rank and file, each in `[0, 8)` when on the board:
/// `Position(0, 0)` is a1, `Position(0, 7)` is h1, `Position(7, 7)` is h8.
#[derive(Clone, Copy, Debug, PartialEq, Eq, Structural)]
pub struct Position(pub i8, pub i8);

impl Position {
    /// Whether the position is on the board.
    pub open spec fn valid(&self) -> bool {
        on_board(self.0 as int, self.1 as int)
    }

    /// The square index of the position: eight times the rank plus the file.
    pub open spec fn square_spec(self) -> int {
        8 * self.0 + self.1
    }

    /// Whether the position is on the board.
    #[verifier::when_used_as_spec(valid)]
    pub fn is_valid(&self) -> (r: bool)
        ensures
            r == self.valid(),
    {
        0 <= self.0 && self.0 < 8 && 0 <= self.1 && self.1 < 8
    }

    /// The square index in `[0, 64)`: a1 is 0, h1 is 7, a8 is 56, h8 is 63.
    pub fn square(&self) -> (r: u8)
        requires
            self.valid(),
        ensures
            r == self.square_spec(),
            r < 64,
    {
        (self.0 as u8) * 8 + (self.1 as u8)
    }

    /// The position of square `sq`.
    pub fn from_square(sq: u8) -> (r: Position)
        requires
            sq < 64,
        ensures
            r == position_of(sq as int),
            r.valid(),
            r.square_spec() == sq,
    {
        Position((sq / 8) as i8, (sq % 8) as i8)
    }

    /// The letter of the file, `a` to `h`.
    pub fn file_letter(&self) -> (r: char)
        requires
            self.valid(),
        ensures
            r as int == 'a' as int + self.1,
    {
        match self.1 {
            0 => 'a',
            1 => 'b',
            2 => 'c',
            3 => 'd',
            4 => 'e',
            5 => 'f',
            6 => 'g',
            _ => 'h',
        }
    }
}

/// The pieces on the 64 squares.
#[derive(Clone, Copy, Debug, PartialEq, Eq)]
pub struct Board {
    pieces: [BitSet; 12],
    mailbox: [Option<Piece>; 64],
}

impl View for Board {
    type V = Seq<Option<Piece>>;

    /// What stands on each of the 64 squares, a1 first, rank by rank.
    closed spec fn view(&self) -> Seq<Option<Piece>> {
        self.mailbox@
    }
}

impl Board {
    /// The squares in the set kept for piece `p`.
    pub closed spec fn piece_set(&self, p: Piece) -> Set<int> {
        self.pieces@[p.index_spec()]@
    }

    /// The per-square array and the per-piece sets agree: square `s` holds
    /// piece `p` exactly when `s` is in the set kept for `p`.
    pub open spec fn consistent(&self) -> bool {
        forall|s: int, p: Piece|
            0 <= s < 64 ==> ((self@[s] == Some(p)) <==> #[trigger] self.piece_set(p).contains(s))
    }

    /// No square is in the sets of two different pieces.
    pub open spec fn disjoint(&self) -> bool {
        forall|s: int, p: Piece, q: Piece|
            #![trigger self.piece_set(p).contains(s), self.piece_set(q).contains(s)]
            self.piece_set(p).contains(s) && self.piece_set(q).contains(s) ==> p == q
    }

    /// The invariant of the board.
    pub open spec fn wf(&self) -> bool {
        &&& self@.len() == 64
        &&& self.consistent()
        &&& self.disjoint()
    }

    /// The two representations have their fixed sizes, and every member of a
    /// piece's set is a square of the board.
    pub proof fn lemma_shape(&self)
        ensures
            self@.len() == 64,
            forall|s: int, p: Piece| #[trigger] self.piece_set(p).contains(s) ==> 0 <= s < 64,
    {
        assert forall|s: int, p: Piece| #[trigger] self.piece_set(p).contains(s) implies 0 <= s
            < 64 by {
            lemma_piece_index_injective(p, p);
        }
    }

    /// The squares determine the whole board: two boards that satisfy the
    /// invariant and hold the same piece on every square are the same value,
    /// per-piece sets included.
    pub proof fn lemma_view_determines_board(self, other: Board)
        requires
            self.wf(),
            other.wf(),
            self@ == other@,
        ensures
            self == other,
    {
        self.lemma_shape();
        other.lemma_shape();
        assert forall|i: int| 0 <= i < 12 implies self.pieces[i] == other.pieces[i] by {
            let p = piece_of_index(i);
            lemma_piece_of_index(i);
            assert forall|s: int| self.piece_set(p).contains(s) == other.piece_set(p).contains(
                s,
            ) by {
                if 0 <= s < 64 {
                    assert(self.piece_set(p).contains(s) <==> self@[s] == Some(p));
                    assert(other.piece_set(p).contains(s) <==> other@[s] == Some(p));
                }
            }
            assert(self.piece_set(p) == self.pieces[i]@);
            assert(other.piece_set(p) == other.pieces[i]@);
            assert(self.pieces[i]@ =~= other.pieces[i]@);
            self.pieces[i].lemma_same_members(other.pieces[i]);
        }
        assert(self.pieces =~= other.pieces);
        assert(self.mailbox =~= other.mailbox);
    }

    /// A board without pieces.
    pub fn empty() -> (r: Board)
        ensures
            r.wf(),
            r@ == Seq::new(64, |s: int| None::<Piece>),
    {
        let none = BitSet::empty();
        let r = Board { pieces: [none; 12], mailbox: [None; 64] };
        proof {
            assert(r@ =~= Seq::new(64, |s: int| None::<Piece>));
            assert forall|s: int, p: Piece| !#[trigger] r.piece_set(p).contains(s) by {
                lemma_piece_index_injective(p, p);
            }
        }
        r
    }

    /// The piece on square `sq`.
    pub fn piece_at(&self, sq: u8) -> (r: Option<Piece>)
        requires
            sq < 64,
        ensures
            r == self@[sq as int],
    {
        self.mailbox[sq as usize]
    }

    /// The set of squares that hold piece `p`.
    pub fn pieces(&self, p: Piece) -> (r: BitSet)
        ensures
            r@ == self.piece_set(p),
    {
        self.pieces[p.index()]
    }

    /// Writes `piece` to square `sq`, replacing what stood there.
    fn put(&mut self, sq: u8, piece: Option<Piece>)
        requires
            old(self).wf(),
            sq < 64,
        ensures
            final(self).wf(),
            final(self)@ == old(self)@.update(sq as int, piece),
    {
        let prior = self.mailbox[sq as usize];
        if let Some(gone) = prior {
            let i = gone.index();
            let less = self.pieces[i].without(sq);
            self.pieces[i] = less;
        }
        let ghost mid = *self;
        if let Some(p) = piece {
            let i = p.index();
            let more = self.pieces[i].with(sq);
            self.pieces[i] = more;
        }
        self.mailbox[sq as usize] = piece;
        proof {
            assert(self@ =~= old(self)@.update(sq as int, piece));
            assert forall|s: int, q: Piece| 0 <= s < 64 implies ((self@[s] == Some(q))
                <==> #[trigger] self.piece_set(q).contains(s)) by {
                lemma_piece_index_injective(q, q);
                if let Some(gone) = prior {
                    lemma_piece_index_injective(q, gone);
                }
                if let Some(p) = piece {
                    lemma_piece_index_injective(q, p);
                }
                assert(old(self).piece_set(q).contains(s) <==> old(self)@[s] == Some(q));
            }
            assert forall|s: int, p: Piece, q: Piece|
                #![trigger self.piece_set(p).contains(s), self.piece_set(q).contains(s)]
                self.piece_set(p).contains(s) && self.piece_set(q).contains(s) implies p == q by {
                self.lemma_shape();
            }
        }
    }

    /// Puts `piece` on square `sq`, replacing any piece that stood there.
    pub fn set(&mut self, sq: u8, piece: Piece)
        requires
            old(self).wf(),
            sq < 64,
        ensures
            final(self).wf(),
            final(self)@ == old(self)@.update(sq as int, Some(piece)),
    {
        self.put(sq, Some(piece));
    }

    /// Empties square `sq`.
    pub fn clear(&mut self, sq: u8)
        requires
            old(self).wf(),
            sq < 64,
        ensures
            final(self).wf(),
            final(self)@ == old(self)@.update(sq as int, None),
    {
        self.put(sq, None);
    }

    /// Moves the piece on `from` to `to`. Returns the piece that moved and the
    /// piece that it displaced; with no piece on `from` the board is left
    /// unchanged and both are `None`.
    pub fn move_piece(&mut self, from: u8, to: u8) -> (r: (Option<Piece>, Option<Piece>))
        requires
            old(self).wf(),
            from < 64,
            to < 64,
        ensures
            final(self).wf(),
            r == moved_and_captured(old(self)@, from as int, to as int),
            final(self)@ == after_move(old(self)@, from as int, to as int),
    {
        let moved = self.mailbox[from as usize];
        if moved.is_none() {
            return (None, None);
        }
        let captured = self.mailbox[to as usize];
        self.put(from, None);
        self.put(to, moved);
        (moved, captured)
    }

    /// The board at the start of a game.
    pub fn new() -> (r: Board)
        ensures
            r.wf(),
            r@ == initial_squares(),
    {
        let mut board = Board::empty();
        let mut f: u8 = 0;
        while f < 8
            invariant
                f <= 8,
                board.wf(),
                forall|s: int|
                    0 <= s < 64 ==> board@[s] == if s % 8 < f {
                        initial_piece(s)
                    } else {
                        None
                    },
            decreases 8 - f,
        {
            let kind = if f == 0 || f == 7 {
                PieceType::Rook
            } else if f == 1 || f == 6 {
                PieceType::Knight
            } else if f == 2 || f == 5 {
                PieceType::Bishop
            } else if f == 3 {
                PieceType::Queen
            } else {
                PieceType::King
            };
            board.put(f, Some(Piece(Color::White, kind)));
            board.put(8 + f, Some(Piece(Color::White, PieceType::Pawn)));
            board.put(48 + f, Some(Piece(Color::Black, PieceType::Pawn)));
            board.put(56 + f, Some(Piece(Color::Black, kind)));
            f = f + 1;
        }
        proof {
            assert(board@ =~= initial_squares());
        }
        board
    }

    /// The piece on `position`; `None` when the position is off the board.
    pub fn get_piece(&self, position: &Position) -> (r: &Option<Piece>)
        ensures
            *r == piece_on(self@, position.0 as int, position.1 as int),
    {
        if position.is_valid() {
            &self.mailbox[position.square() as usize]
        } else {
            &None
        }
    }

    /// Writes `piece` to `position`: a piece replaces what stood there, `None`
    /// empties the square. Off the board nothing changes.
    pub fn set_piece(&mut self, position: &Position, piece: Option<Piece>)
        requires
            old(self).wf(),
        ensures
            final(self).wf(),
            final(self)@ == if position.valid() {
                old(self)@.update(position.square_spec(), piece)
            } else {
                old(self)@
            },
    {
        if position.is_valid() {
            self.put(position.square(), piece);
        }
    }

    /// Calls `f` on each of the 64 squares, a1 first, rank by rank, with the
    /// square's position and what stands on it.
    pub fn for_each<F>(&self, mut f: F) where F: FnMut(&Position, &Option<Piece>)
        requires
            forall|g: F, p: Position, q: Option<Piece>| call_requires(g, (&p, &q)),
    {
        let mut sq: u8 = 0;
        while sq < 64
            invariant
                sq <= 64,
                forall|g: F, p: Position, q: Option<Piece>| call_requires(g, (&p, &q)),
            decreases 64 - sq,
        {
            let position = Position::from_square(sq);
            f(&position, &self.mailbox[sq as usize]);
            sq = sq + 1;
        }
    }

    /// Whether `position` is on the board and empty.
    pub fn is_position_empty(&self, position: &Position) -> (r: bool)
        ensures
            r == (position.valid() && self@[position.square_spec()] is None),
    {
        position.is_valid() && self.get_piece(position).is_none()
    }

    /// Whether `piece` stands on `position`.
    pub fn is_position_piece(&self, position: &Position, piece: &Piece) -> (r: bool)
        ensures
            r == (piece_on(self@, position.0 as int, position.1 as int) == Some(*piece)),
    {
        match self.get_piece(position) {
            Some(got) => got.0 == piece.0 && got.1 == piece.1,
            None => false,
        }
    }

    /// Whether a piece of kind `piece_type` stands on `position`.
    pub fn is_position_piece_type(&self, position: &Position, piece_type: &PieceType) -> (r: bool)
        ensures
            r == match piece_on(self@, position.0 as int, position.1 as int) {
                Some(p) => p.1 == *piece_type,
                None => false,
            },
    {
        match self.get_piece(position) {
            Some(got) => got.1 == *piece_type,
            None => false,
        }
    }

    /// Whether a piece of color `color` stands on `position`.
    pub fn is_position_color(&self, position: &Position, color: &Color) -> (r: bool)
        ensures
            r == match piece_on(self@, position.0 as int, position.1 as int) {
                Some(p) => p.0 == *color,
                None => false,
            },
    {
        match self.get_piece(position) {
            Some(got) => got.0 == *color,
            None => false,
        }
    }

    /// Whether `position` is on the board and either empty or held by a piece
    /// of color `color`.
    pub fn is_position_empty_or_color(&self, position: &Position, color: &Color) -> (r: bool)
        ensures
            r == (position.valid() && match self@[position.square_spec()] {
                Some(p) => p.0 == *color,
                None => true,
            }),
    {
        self.is_position_empty(position) || self.is_position_color(position, color)
    }

    /// The squares held by pieces of color `color`.
    pub fn occupancy(&self, color: Color) -> (r: BitSet)
        requires
            self.wf(),
        ensures
            r@ == Set::new(
                |s: int|
                    0 <= s < 64 && match self@[s] {
                        Some(p) => p.0 == color,
                        None => false,
                    },
            ),
    {
        let pawns = self.pieces(Piece(color, PieceType::Pawn));
        let rooks = self.pieces(Piece(color, PieceType::Rook));
        let knights = self.pieces(Piece(color, PieceType::Knight));
        let bishops = self.pieces(Piece(color, PieceType::Bishop));
        let queens = self.pieces(Piece(color, PieceType::Queen));
        let kings = self.pieces(Piece(color, PieceType::King));
        let r = pawns.union(&rooks).union(&knights).union(&bishops).union(&queens).union(&kings);
        proof {
            self.lemma_shape();
            assert forall|s: int|
                r@.contains(s) == (0 <= s < 64 && match self@[s] {
                    Some(p) => p.0 == color,
                    None => false,
                }) by {
                if 0 <= s < 64 {
                    assert(self.piece_set(Piece(color, PieceType::Pawn)).contains(s) <==> self@[s]
                        == Some(Piece(color, PieceType::Pawn)));
                    assert(self.piece_set(Piece(color, PieceType::Rook)).contains(s) <==> self@[s]
                        == Some(Piece(color, PieceType::Rook)));
                    assert(self.piece_set(Piece(color, PieceType::Knight)).contains(s) <==> self@[s]
                        == Some(Piece(color, PieceType::Knight)));
                    assert(self.piece_set(Piece(color, PieceType::Bishop)).contains(s) <==> self@[s]
                        == Some(Piece(color, PieceType::Bishop)));
                    assert(self.piece_set(Piece(color, PieceType::Queen)).contains(s) <==> self@[s]
                        == Some(Piece(color, PieceType::Queen)));
                    assert(self.piece_set(Piece(color, PieceType::King)).contains(s) <==> self@[s]
                        == Some(Piece(color, PieceType::King)));
                }
            }
            assert(r@ =~= Set::new(
                |s: int|
                    0 <= s < 64 && match self@[s] {
                        Some(p) => p.0 == color,
                        None => false,
                    },
            ));
        }
        r
    }

    /// The position of the king of color `color`: the lowest square that holds
    /// one, `None` when there is none.
    pub fn king_position(&self, color: Color) -> (r: Option<Position>)
        requires
            self.wf(),
        ensures
            match r {
                Some(p) => p.valid() && p.square_spec() == king_square(self@, color),
                None => king_square(self@, color) == 64,
            },
    {
        let king = Piece(color, PieceType::King);
        let mut kings = self.pieces(king);
        let found = kings.pop_lowest();
        proof {
            self.lemma_shape();
            match found {
                Some(s) => {
                    assert(self.piece_set(king).contains(s as int));
                    assert forall|j: int| 0 <= j < s implies self@[j] != Some(king) by {
                        assert(!self.piece_set(king).contains(j));
                    }
                    lemma_first_square_of(self@, king, 0, s as int);
                },
                None => {
                    assert forall|j: int| 0 <= j < 64 implies self@[j] != Some(king) by {
                        assert(!self.piece_set(king).contains(j));
                    }
                    lemma_first_square_of(self@, king, 0, 64);
                },
            }
        }
        match found {
            Some(s) => Some(Position::from_square(s)),
            None => None,
        }
    }
}

/// The square of the king of color `c`: the lowest square that holds one, 64
/// when there is none.
pub open spec fn king_square(squares: Seq<Option<Piece>>, c: Color) -> int {
    first_square_of(squares, Piece(c, PieceType::King), 0)
}

/// What `move_piece` returns: the piece on `from` and, if there is one, what
/// stood on `to`.
pub open spec fn moved_and_captured(squares: Seq<Option<Piece>>, from: int, to: int) -> (
    Option<Piece>,
    Option<Piece>,
) {
    if squares[from] is Some {
        (squares[from], squares[to])
    } else {
        (None, None)
    }
}

/// The squares after the piece on `from`, if there is one, has moved to `to`.
pub open spec fn after_move(squares: Seq<Option<Piece>>, from: int, to: int) -> Seq<
    Option<Piece>,
> {
    if squares[from] is Some {
        squares.update(from, None).update(to, squares[from])
    } else {
        squares
    }
}

/// If no square in `[from, upto)` holds `p`, the search from `from` gives what
/// the search from `upto` gives; if `upto` holds `p`, that is `upto`.
pub proof fn lemma_first_square_of(squares: Seq<Option<Piece>>, p: Piece, from: int, upto: int)
    requires
        0 <= from <= upto <= 64,
        forall|j: int| from <= j < upto ==> squares[j] != Some(p),
        upto < 64 ==> squares[upto] == Some(p),
    ensures
        first_square_of(squares, p, from) == upto,
    decreases upto - from,
{
    if from < upto {
        lemma_first_square_of(squares, p, from + 1, upto);
    }
}

} // verus!
