//! Moves, their 16-bit encoding, and castling rights.

use vstd::prelude::*;
use crate::board::{Position, position_of};
use crate::piece::{Color, Piece, PieceType};

verus! {

/// Kind of a move that is neither a pawn's special move nor castling.
pub const QUIET: u8 = 0;

/// Kind of a pawn's advance by two squares.
pub const DOUBLE_PUSH: u8 = 1;

/// Kind of a capture en passant.
pub const EN_PASSANT: u8 = 2;

/// Kind of a promotion to a rook.
pub const PROMOTE_ROOK: u8 = 3;

/// Kind of a promotion to a knight.
pub const PROMOTE_KNIGHT: u8 = 4;

/// Kind of a promotion to a bishop.
pub const PROMOTE_BISHOP: u8 = 5;

/// Kind of a promotion to a queen.
pub const PROMOTE_QUEEN: u8 = 6;

/// Kind of castling on the king's side.
pub const KING_CASTLE: u8 = 7;

/// Kind of castling on the queen's side.
pub const QUEEN_CASTLE: u8 = 8;

/// The rights to castle that are left.
#[derive(Clone, Copy, Debug, PartialEq, Eq, Structural)]
pub struct CastlingRights {
    pub white_king: bool,
    pub white_queen: bool,
    pub black_king: bool,
    pub black_queen: bool,
}

impl CastlingRights {
    /// The rights as a 4-bit word: bit 0 for White's king side, bit 1 for
    /// White's queen side, bit 2 for Black's king side, bit 3 for Black's
    /// queen side.
    pub open spec fn bits_spec(self) -> int {
        (if self.white_king { 1int } else { 0 }) + (if self.white_queen { 2int } else { 0 }) + (
        if self.black_king { 4int } else { 0 }) + (if self.black_queen { 8int } else { 0 })
    }

    /// The rights that a move from or to square `s` leaves in place: a
    /// corner takes away the right on its side, a king's starting square both
    /// rights of its color, any other square none.
    pub open spec fn mask_spec(s: int) -> CastlingRights {
        CastlingRights {
            white_king: s != 4 && s != 7,
            white_queen: s != 4 && s != 0,
            black_king: s != 60 && s != 63,
            black_queen: s != 60 && s != 56,
        }
    }

    /// The rights that are in both.
    pub open spec fn meet(self, other: CastlingRights) -> CastlingRights {
        CastlingRights {
            white_king: self.white_king && other.white_king,
            white_queen: self.white_queen && other.white_queen,
            black_king: self.black_king && other.black_king,
            black_queen: self.black_queen && other.black_queen,
        }
    }

    /// The rights left after a move from square `from` to square `to`.
    pub open spec fn after(self, from: int, to: int) -> CastlingRights {
        self.meet(Self::mask_spec(from)).meet(Self::mask_spec(to))
    }

    /// Whether every right in `self` is also in `other`.
    pub open spec fn within(self, other: CastlingRights) -> bool {
        &&& self.white_king ==> other.white_king
        &&& self.white_queen ==> other.white_queen
        &&& self.black_king ==> other.black_king
        &&& self.black_queen ==> other.black_queen
    }

    /// Whether `color` may still castle on the king's side.
    pub open spec fn king_side(self, color: Color) -> bool {
        match color {
            Color::White => self.white_king,
            Color::Black => self.black_king,
        }
    }

    /// Whether `color` may still castle on the queen's side.
    pub open spec fn queen_side(self, color: Color) -> bool {
        match color {
            Color::White => self.white_queen,
            Color::Black => self.black_queen,
        }
    }

    /// All four rights, as at the start of a game.
    pub fn new() -> (r: CastlingRights)
        ensures
            r.white_king && r.white_queen && r.black_king && r.black_queen,
            r.bits_spec() == 15,
    {
        CastlingRights { white_king: true, white_queen: true, black_king: true, black_queen: true }
    }

    /// Takes away `color`'s right to castle on the king's side.
    pub fn disable_king_side(&mut self, color: &Color)
        ensures
            *final(self) == match *color {
                Color::White => CastlingRights { white_king: false, ..*old(self) },
                Color::Black => CastlingRights { black_king: false, ..*old(self) },
            },
    {
        match color {
            Color::White => self.white_king = false,
            Color::Black => self.black_king = false,
        }
    }

    /// Takes away `color`'s right to castle on the queen's side.
    pub fn disable_queen_side(&mut self, color: &Color)
        ensures
            *final(self) == match *color {
                Color::White => CastlingRights { white_queen: false, ..*old(self) },
                Color::Black => CastlingRights { black_queen: false, ..*old(self) },
            },
    {
        match color {
            Color::White => self.white_queen = false,
            Color::Black => self.black_queen = false,
        }
    }

    /// Takes away both of `color`'s rights to castle.
    pub fn disable_both_sides(&mut self, color: &Color)
        ensures
            *final(self) == match *color {
                Color::White => CastlingRights {
                    white_king: false,
                    white_queen: false,
                    ..*old(self)
                },
                Color::Black => CastlingRights {
                    black_king: false,
                    black_queen: false,
                    ..*old(self)
                },
            },
    {
        match color {
            Color::White => {
                self.white_king = false;
                self.white_queen = false;
            },
            Color::Black => {
                self.black_king = false;
                self.black_queen = false;
            },
        }
    }

    /// The rights as a 4-bit word.
    pub fn bits(&self) -> (r: u8)
        ensures
            r == self.bits_spec(),
            r < 16,
    {
        let mut r: u8 = 0;
        if self.white_king {
            r = r + 1;
        }
        if self.white_queen {
            r = r + 2;
        }
        if self.black_king {
            r = r + 4;
        }
        if self.black_queen {
            r = r + 8;
        }
        r
    }

    /// The rights that the low four bits of `bits` stand for.
    pub fn from_bits(bits: u8) -> (r: CastlingRights)
        ensures
            r.bits_spec() == bits % 16,
    {
        let low = bits % 16;
        CastlingRights {
            white_king: low % 2 == 1,
            white_queen: (low / 2) % 2 == 1,
            black_king: (low / 4) % 2 == 1,
            black_queen: low / 8 == 1,
        }
    }

    /// The rights that a move from or to square `sq` leaves in place.
    pub fn mask(sq: u8) -> (r: CastlingRights)
        ensures
            r == Self::mask_spec(sq as int),
    {
        CastlingRights {
            white_king: sq != 4 && sq != 7,
            white_queen: sq != 4 && sq != 0,
            black_king: sq != 60 && sq != 63,
            black_queen: sq != 60 && sq != 56,
        }
    }

    /// Keeps the rights that a move from square `from` to square `to` leaves
    /// in place.
    pub fn update(&mut self, from: u8, to: u8)
        ensures
            *final(self) == old(self).after(from as int, to as int),
            final(self).within(*old(self)),
    {
        let a = CastlingRights::mask(from);
        let b = CastlingRights::mask(to);
        self.white_king = self.white_king && a.white_king && b.white_king;
        self.white_queen = self.white_queen && a.white_queen && b.white_queen;
        self.black_king = self.black_king && a.black_king && b.black_king;
        self.black_queen = self.black_queen && a.black_queen && b.black_queen;
    }
}

/// A move of a piece from one square to another that is neither a pawn's
/// special move nor castling.
#[derive(Clone, Copy, Debug, PartialEq, Eq, Structural)]
pub struct StandardMove {
    pub from: Position,
    pub to: Position,
}

/// A pawn's advance by two squares from its starting rank.
#[derive(Clone, Copy, Debug, PartialEq, Eq, Structural)]
pub struct PawnDoubleAdvanceMove {
    pub from: Position,
    pub to: Position,
}

/// A pawn's capture en passant; `to` is the square that the pawn moves to.
#[derive(Clone, Copy, Debug, PartialEq, Eq, Structural)]
pub struct PawnEnPassantMove {
    pub from: Position,
    pub to: Position,
}

/// A pawn's move to the last rank and the piece that it becomes.
#[derive(Clone, Copy, Debug, PartialEq, Eq, Structural)]
pub struct PawnPromotionMove {
    pub pawn: StandardMove,
    pub promotion: Piece,
}

/// One of the four ways to castle.
#[derive(Clone, Copy, Debug, PartialEq, Eq, Structural)]
pub enum CastlingMove {
    WhiteKing,
    WhiteQueen,
    BlackKing,
    BlackQueen,
}

/// A move.
#[derive(Clone, Copy, Debug, PartialEq, Eq, Structural)]
pub enum Move {
    Standard(StandardMove),
    PawnDoubleAdvance(PawnDoubleAdvanceMove),
    PawnEnPassant(PawnEnPassantMove),
    PawnPromotion(PawnPromotionMove),
    Castling(CastlingMove),
}

impl CastlingMove {
    /// The side that castles.
    pub open spec fn color_spec(self) -> Color {
        match self {
            CastlingMove::WhiteKing | CastlingMove::WhiteQueen => Color::White,
            CastlingMove::BlackKing | CastlingMove::BlackQueen => Color::Black,
        }
    }

    /// Whether the king castles on its own side of the board.
    pub open spec fn is_king_side(self) -> bool {
        self == CastlingMove::WhiteKing || self == CastlingMove::BlackKing
    }

    /// The rank on which the move takes place.
    pub open spec fn rank_spec(self) -> int {
        match self.color_spec() {
            Color::White => 0,
            Color::Black => 7,
        }
    }

    /// The file that the king moves to.
    pub open spec fn king_file(self) -> int {
        if self.is_king_side() {
            6
        } else {
            2
        }
    }

    /// The file of the corner that the rook leaves.
    pub open spec fn rook_file(self) -> int {
        if self.is_king_side() {
            7
        } else {
            0
        }
    }

    /// The file that the rook moves to, which is the file that the king passes
    /// over.
    pub open spec fn pass_file(self) -> int {
        if self.is_king_side() {
            5
        } else {
            3
        }
    }

    /// The side that castles.
    pub fn color(&self) -> (r: Color)
        ensures
            r == self.color_spec(),
    {
        match self {
            CastlingMove::WhiteKing | CastlingMove::WhiteQueen => Color::White,
            CastlingMove::BlackKing | CastlingMove::BlackQueen => Color::Black,
        }
    }

    /// The squares of the move: where the king starts, the square that it
    /// passes over and the rook moves to, where the king ends, and the corner
    /// that the rook leaves.
    pub fn squares(&self) -> (r: (Position, Position, Position, Position))
        ensures
            r.0 == Position(self.rank_spec() as i8, 4),
            r.1 == Position(self.rank_spec() as i8, self.pass_file() as i8),
            r.2 == Position(self.rank_spec() as i8, self.king_file() as i8),
            r.3 == Position(self.rank_spec() as i8, self.rook_file() as i8),
    {
        match self {
            CastlingMove::WhiteKing => (
                Position(0, 4),
                Position(0, 5),
                Position(0, 6),
                Position(0, 7),
            ),
            CastlingMove::WhiteQueen => (
                Position(0, 4),
                Position(0, 3),
                Position(0, 2),
                Position(0, 0),
            ),
            CastlingMove::BlackKing => (
                Position(7, 4),
                Position(7, 5),
                Position(7, 6),
                Position(7, 7),
            ),
            CastlingMove::BlackQueen => (
                Position(7, 4),
                Position(7, 3),
                Position(7, 2),
                Position(7, 0),
            ),
        }
    }
}

/// The kind of a promotion to a piece of kind `k`; 6, the queen's, for a kind
/// that a pawn cannot become.
pub open spec fn promotion_kind(k: PieceType) -> int {
    match k {
        PieceType::Rook => 3,
        PieceType::Knight => 4,
        PieceType::Bishop => 5,
        _ => 6,
    }
}

/// Whether a pawn can become a piece of kind `k`.
pub open spec fn can_promote_to(k: PieceType) -> bool {
    k == PieceType::Rook || k == PieceType::Knight || k == PieceType::Bishop || k
        == PieceType::Queen
}

/// The 16-bit word for a move from square `from` to square `to` of kind
/// `kind`: the kind in bits 0 to 3, `to` in bits 4 to 9, `from` in bits 10 to
/// 15.
pub open spec fn pack(from: int, to: int, kind: int) -> int {
    kind + 16 * to + 1024 * from
}

/// The origin, target and kind that a 16-bit word stands for; `None` when its
/// kind field is 9 or more.
pub open spec fn unpack(word: int) -> Option<(int, int, int)> {
    if word % 16 < 9 {
        Some((word / 1024, (word / 16) % 64, word % 16))
    } else {
        None
    }
}

/// Packing a move and unpacking the word gives the move back: for every
/// origin and target in `[0, 64)` and every kind in `[0, 9)`.
pub proof fn lemma_pack_unpack(from: int, to: int, kind: int)
    requires
        0 <= from < 64,
        0 <= to < 64,
        0 <= kind < 9,
    ensures
        0 <= pack(from, to, kind) < 65536,
        unpack(pack(from, to, kind)) == Some((from, to, kind)),
{
}

/// A word that unpacks was packed from what it unpacks to.
pub proof fn lemma_unpack_pack(word: int)
    requires
        0 <= word < 65536,
        unpack(word) is Some,
    ensures
        ({
            let (from, to, kind) = unpack(word).unwrap();
            0 <= from < 64 && 0 <= to < 64 && 0 <= kind < 9 && pack(from, to, kind) == word
        }),
{
}

/// Packs origin, target and kind into a 16-bit word.
pub fn encode(from: u8, to: u8, kind: u8) -> (word: u16)
    requires
        from < 64,
        to < 64,
        kind < 9,
    ensures
        word == pack(from as int, to as int, kind as int),
        unpack(word as int) == Some((from as int, to as int, kind as int)),
{
    let (f, t, k) = (from as u16, to as u16, kind as u16);
    let word = (f << 10) | (t << 4) | k;
    assert(word == k + 16 * t + 1024 * f) by (bit_vector)
        requires
            f < 64,
            t < 64,
            k < 9,
            word == (f << 10) | (t << 4) | k,
    ;
    word
}

/// Unpacks a 16-bit word into origin, target and kind; `None` when the kind
/// field is 9 or more.
pub fn decode(word: u16) -> (r: Option<(u8, u8, u8)>)
    ensures
        match r {
            Some((from, to, kind)) => unpack(word as int) == Some(
                (from as int, to as int, kind as int),
            ) && from < 64 && to < 64 && kind < 9 && pack(from as int, to as int, kind as int)
                == word,
            None => unpack(word as int) is None,
        },
{
    let kind = word & 0xf;
    let to = (word >> 4) & 0x3f;
    let from = word >> 10;
    assert(kind == word % 16 && to == (word / 16) % 64 && from == word / 1024) by (bit_vector)
        requires
            kind == word & 0xf,
            to == (word >> 4) & 0x3f,
            from == word >> 10,
    ;
    if kind < 9 {
        Some((from as u8, to as u8, kind as u8))
    } else {
        None
    }
}

impl Move {
    /// The square that the moving piece leaves; for castling, the king's.
    pub open spec fn origin(self) -> Position {
        match self {
            Move::Standard(m) => m.from,
            Move::PawnDoubleAdvance(m) => m.from,
            Move::PawnEnPassant(m) => m.from,
            Move::PawnPromotion(m) => m.pawn.from,
            Move::Castling(c) => Position(c.rank_spec() as i8, 4),
        }
    }

    /// The square that the moving piece arrives on; for castling, the king's.
    pub open spec fn target(self) -> Position {
        match self {
            Move::Standard(m) => m.to,
            Move::PawnDoubleAdvance(m) => m.to,
            Move::PawnEnPassant(m) => m.to,
            Move::PawnPromotion(m) => m.pawn.to,
            Move::Castling(c) => Position(c.rank_spec() as i8, c.king_file() as i8),
        }
    }

    /// The kind of the move, in `[0, 9)`.
    pub open spec fn kind(self) -> int {
        match self {
            Move::Standard(_) => 0,
            Move::PawnDoubleAdvance(_) => 1,
            Move::PawnEnPassant(_) => 2,
            Move::PawnPromotion(m) => promotion_kind(m.promotion.1),
            Move::Castling(c) => if c.is_king_side() {
                7
            } else {
                8
            },
        }
    }

    /// Whether origin and target are on the board and, for a promotion, the
    /// new piece is one that a pawn can become.
    pub open spec fn valid(&self) -> bool {
        &&& self.origin().valid()
        &&& self.target().valid()
        &&& match *self {
            Move::PawnPromotion(m) => can_promote_to(m.promotion.1),
            _ => true,
        }
    }

    /// The 16-bit word of a valid move.
    pub open spec fn word(self) -> int {
        pack(self.origin().square_spec(), self.target().square_spec(), self.kind())
    }

    /// The move that origin `from`, target `to` and kind `kind` stand for. A
    /// promotion is given the color whose pawns move from `from` towards `to`:
    /// White when `to` is the higher square. Castling has a move only between
    /// the squares on which a king castles.
    pub open spec fn of_parts(from: int, to: int, kind: int) -> Option<Move> {
        let a = position_of(from);
        let b = position_of(to);
        let plain = StandardMove { from: a, to: b };
        let color = if from < to {
            Color::White
        } else {
            Color::Black
        };
        if kind == 0 {
            Some(Move::Standard(plain))
        } else if kind == 1 {
            Some(Move::PawnDoubleAdvance(PawnDoubleAdvanceMove { from: a, to: b }))
        } else if kind == 2 {
            Some(Move::PawnEnPassant(PawnEnPassantMove { from: a, to: b }))
        } else if kind == 3 {
            Some(Move::promotion(plain, Piece(color, PieceType::Rook)))
        } else if kind == 4 {
            Some(Move::promotion(plain, Piece(color, PieceType::Knight)))
        } else if kind == 5 {
            Some(Move::promotion(plain, Piece(color, PieceType::Bishop)))
        } else if kind == 6 {
            Some(Move::promotion(plain, Piece(color, PieceType::Queen)))
        } else if kind == 7 && from == 4 && to == 6 {
            Some(Move::Castling(CastlingMove::WhiteKing))
        } else if kind == 7 && from == 60 && to == 62 {
            Some(Move::Castling(CastlingMove::BlackKing))
        } else if kind == 8 && from == 4 && to == 2 {
            Some(Move::Castling(CastlingMove::WhiteQueen))
        } else if kind == 8 && from == 60 && to == 58 {
            Some(Move::Castling(CastlingMove::BlackQueen))
        } else {
            None
        }
    }

    /// The promotion of the pawn that makes the move `pawn` to `piece`.
    pub open spec fn promotion(pawn: StandardMove, piece: Piece) -> Move {
        Move::PawnPromotion(PawnPromotionMove { pawn: pawn, promotion: piece })
    }

    /// The move that a 16-bit word stands for, if it stands for one.
    pub open spec fn of_word(word: int) -> Option<Move> {
        match unpack(word) {
            Some((from, to, kind)) => Self::of_parts(from, to, kind),
            None => None,
        }
    }

    /// Whether the move is valid.
    #[verifier::when_used_as_spec(valid)]
    pub fn is_valid(&self) -> (r: bool)
        ensures
            r == self.valid(),
    {
        match self {
            Move::Standard(m) => m.from.is_valid() && m.to.is_valid(),
            Move::PawnDoubleAdvance(m) => m.from.is_valid() && m.to.is_valid(),
            Move::PawnEnPassant(m) => m.from.is_valid() && m.to.is_valid(),
            Move::PawnPromotion(m) => m.pawn.from.is_valid() && m.pawn.to.is_valid() && (
            m.promotion.1 == PieceType::Rook || m.promotion.1 == PieceType::Knight
                || m.promotion.1 == PieceType::Bishop || m.promotion.1 == PieceType::Queen),
            Move::Castling(_) => true,
        }
    }

    /// The square that the moving piece leaves; for castling, the king's.
    pub fn from(&self) -> (r: Position)
        ensures
            r == self.origin(),
    {
        match self {
            Move::Standard(m) => m.from,
            Move::PawnDoubleAdvance(m) => m.from,
            Move::PawnEnPassant(m) => m.from,
            Move::PawnPromotion(m) => m.pawn.from,
            Move::Castling(c) => c.squares().0,
        }
    }

    /// The square that the moving piece arrives on; for castling, the king's.
    pub fn to(&self) -> (r: Position)
        ensures
            r == self.target(),
    {
        match self {
            Move::Standard(m) => m.to,
            Move::PawnDoubleAdvance(m) => m.to,
            Move::PawnEnPassant(m) => m.to,
            Move::PawnPromotion(m) => m.pawn.to,
            Move::Castling(c) => c.squares().2,
        }
    }

    /// The kind of the move, in `[0, 9)`.
    pub fn kind_code(&self) -> (r: u8)
        ensures
            r == self.kind(),
            r < 9,
    {
        match self {
            Move::Standard(_) => QUIET,
            Move::PawnDoubleAdvance(_) => DOUBLE_PUSH,
            Move::PawnEnPassant(_) => EN_PASSANT,
            Move::PawnPromotion(m) => match m.promotion.1 {
                PieceType::Rook => PROMOTE_ROOK,
                PieceType::Knight => PROMOTE_KNIGHT,
                PieceType::Bishop => PROMOTE_BISHOP,
                _ => PROMOTE_QUEEN,
            },
            Move::Castling(c) => match c {
                CastlingMove::WhiteKing | CastlingMove::BlackKing => KING_CASTLE,
                CastlingMove::WhiteQueen | CastlingMove::BlackQueen => QUEEN_CASTLE,
            },
        }
    }

    /// The 16-bit word of the move.
    pub fn to_word(&self) -> (r: u16)
        requires
            self.valid(),
        ensures
            r == self.word(),
    {
        encode(self.from().square(), self.to().square(), self.kind_code())
    }

    /// The move that a 16-bit word stands for: `None` when its kind field is 9
    /// or more, and for castling between other squares than those on which a
    /// king castles.
    pub fn from_word(word: u16) -> (r: Option<Move>)
        ensures
            r == Self::of_word(word as int),
            r is Some ==> r.unwrap().valid() && r.unwrap().word() == word,
    {
        let (from, to, kind) = match decode(word) {
            Some(parts) => parts,
            None => {
                return None;
            },
        };
        let a = Position::from_square(from);
        let b = Position::from_square(to);
        let plain = StandardMove { from: a, to: b };
        let color = if from < to {
            Color::White
        } else {
            Color::Black
        };
        if kind == QUIET {
            Some(Move::Standard(plain))
        } else if kind == DOUBLE_PUSH {
            Some(Move::PawnDoubleAdvance(PawnDoubleAdvanceMove { from: a, to: b }))
        } else if kind == EN_PASSANT {
            Some(Move::PawnEnPassant(PawnEnPassantMove { from: a, to: b }))
        } else if kind == PROMOTE_ROOK {
            Some(
                Move::PawnPromotion(
                    PawnPromotionMove { pawn: plain, promotion: Piece(color, PieceType::Rook) },
                ),
            )
        } else if kind == PROMOTE_KNIGHT {
            Some(
                Move::PawnPromotion(
                    PawnPromotionMove { pawn: plain, promotion: Piece(color, PieceType::Knight) },
                ),
            )
        } else if kind == PROMOTE_BISHOP {
            Some(
                Move::PawnPromotion(
                    PawnPromotionMove { pawn: plain, promotion: Piece(color, PieceType::Bishop) },
                ),
            )
        } else if kind == PROMOTE_QUEEN {
            Some(
                Move::PawnPromotion(
                    PawnPromotionMove { pawn: plain, promotion: Piece(color, PieceType::Queen) },
                ),
            )
        } else if kind == KING_CASTLE && from == 4 && to == 6 {
            Some(Move::Castling(CastlingMove::WhiteKing))
        } else if kind == KING_CASTLE && from == 60 && to == 62 {
            Some(Move::Castling(CastlingMove::BlackKing))
        } else if kind == QUEEN_CASTLE && from == 4 && to == 2 {
            Some(Move::Castling(CastlingMove::WhiteQueen))
        } else if kind == QUEEN_CASTLE && from == 60 && to == 58 {
            Some(Move::Castling(CastlingMove::BlackQueen))
        } else {
            None
        }
    }

    /// The four promotions of the pawn that makes the move `pawn`, to a rook,
    /// a knight, a bishop and a queen of color `color`, in this order.
    pub fn all_pawn_promotions(pawn: &StandardMove, color: &Color) -> (r: Vec<Move>)
        ensures
            r@ == seq![
                Move::promotion(*pawn, Piece(*color, PieceType::Rook)),
                Move::promotion(*pawn, Piece(*color, PieceType::Knight)),
                Move::promotion(*pawn, Piece(*color, PieceType::Bishop)),
                Move::promotion(*pawn, Piece(*color, PieceType::Queen)),
            ],
    {
        let mut r: Vec<Move> = Vec::new();
        r.push(
            Move::PawnPromotion(
                PawnPromotionMove { pawn: *pawn, promotion: Piece(*color, PieceType::Rook) },
            ),
        );
        r.push(
            Move::PawnPromotion(
                PawnPromotionMove { pawn: *pawn, promotion: Piece(*color, PieceType::Knight) },
            ),
        );
        r.push(
            Move::PawnPromotion(
                PawnPromotionMove { pawn: *pawn, promotion: Piece(*color, PieceType::Bishop) },
            ),
        );
        r.push(
            Move::PawnPromotion(
                PawnPromotionMove { pawn: *pawn, promotion: Piece(*color, PieceType::Queen) },
            ),
        );
        proof {
            assert(r@ =~= seq![
                Move::promotion(*pawn, Piece(*color, PieceType::Rook)),
                Move::promotion(*pawn, Piece(*color, PieceType::Knight)),
                Move::promotion(*pawn, Piece(*color, PieceType::Bishop)),
                Move::promotion(*pawn, Piece(*color, PieceType::Queen)),
            ]);
        }
        r
    }
}

/// A valid move is the move that its word stands for, provided that a
/// promotion names a piece of the color whose pawns move from its origin
/// towards its target.
pub proof fn lemma_move_word_round_trip(mv: Move)
    requires
        mv.valid(),
        mv matches Move::PawnPromotion(m) ==> (m.promotion.0 == Color::White
            <==> m.pawn.from.square_spec() < m.pawn.to.square_spec()),
    ensures
        0 <= mv.word() < 65536,
        Move::of_word(mv.word()) == Some(mv),
{
    let from = mv.origin().square_spec();
    let to = mv.target().square_spec();
    lemma_pack_unpack(from, to, mv.kind());
    assert(position_of(from) == mv.origin());
    assert(position_of(to) == mv.target());
}

} // verus!
