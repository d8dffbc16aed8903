//! Generating the moves of a position.

use vstd::prelude::*;
use crate::attack::{is_king_step, is_knight_jump, ray_clear, ray_piece, step};
use crate::board::Position;
use crate::moves::{CastlingMove, Move, PawnDoubleAdvanceMove, PawnEnPassantMove, StandardMove};
use crate::piece::{Color, Piece, PieceType};
use crate::rules::{at, distance, king_index, knight_index, lemma_slide_runs};
use crate::state::{State, StateView};

verus! {

/// What a sequence holds after one more element is pushed.
pub proof fn lemma_push_contains<A>(s: Seq<A>, v: A)
    ensures
        forall|x: A| #[trigger] s.push(v).contains(x) <==> (s.contains(x) || x == v),
        s.no_duplicates() && !s.contains(v) ==> s.push(v).no_duplicates(),
{
    assert forall|x: A| #[trigger] s.push(v).contains(x) <==> (s.contains(x) || x == v) by {
        if s.contains(x) {
            let i = choose|i: int| 0 <= i < s.len() && s[i] == x;
            assert(s.push(v)[i] == x);
        }
        if x == v {
            assert(s.push(v)[s.len() as int] == x);
        }
    }
}

/// What two sequences hold when one is put after the other.
pub proof fn lemma_concat_contains<A>(a: Seq<A>, b: Seq<A>)
    ensures
        forall|x: A| #[trigger] (a + b).contains(x) <==> (a.contains(x) || b.contains(x)),
        a.no_duplicates() && b.no_duplicates() && (forall|x: A|
            !(a.contains(x) && #[trigger] b.contains(x))) ==> (a + b).no_duplicates(),
{
    assert forall|x: A| #[trigger] (a + b).contains(x) <==> (a.contains(x) || b.contains(x)) by {
        if a.contains(x) {
            let i = choose|i: int| 0 <= i < a.len() && a[i] == x;
            assert((a + b)[i] == x);
        }
        if b.contains(x) {
            let i = choose|i: int| 0 <= i < b.len() && b[i] == x;
            assert((a + b)[a.len() + i] == x);
        }
    }
    if a.no_duplicates() && b.no_duplicates() && (forall|x: A|
        !(a.contains(x) && #[trigger] b.contains(x))) {
        assert forall|i: int, j: int| 0 <= i < (a + b).len() && 0 <= j < (a + b).len() && i
            != j implies (a + b)[i] != (a + b)[j] by {
            if i < a.len() && j >= a.len() {
                assert(a.contains(a[i]));
                assert(b.contains(b[j - a.len()]));
            }
            if j < a.len() && i >= a.len() {
                assert(a.contains(a[j]));
                assert(b.contains(b[i - a.len()]));
            }
        }
    }
}

/// Whether `mv` is a standard move from `from`, in direction `(dr, df)` over
/// empty squares, to a square that holds no piece of the side to move.
pub open spec fn ray_move(s: StateView, from: Position, dr: int, df: int, mv: Move) -> bool {
    s.plain_from(mv, from) && s.runs(from, mv.target(), dr, df)
}

/// Whether `mv` is a standard move from `from`, along a rank or file
/// (`straight`) or along a diagonal over empty squares, to a square that holds
/// no piece of the side to move.
pub open spec fn slide_move(s: StateView, from: Position, straight: bool, mv: Move) -> bool {
    s.plain_from(mv, from) && s.slide(from, mv.target(), straight)
}

/// Whether `mv` is a standard move from `from`, by a knight's jump (`knight`)
/// or by a king's step, to a square that holds no piece of the side to move.
pub open spec fn jump_move(s: StateView, from: Position, knight: bool, mv: Move) -> bool {
    let to = mv.target();
    s.plain_from(mv, from) && if knight {
        is_knight_jump(to.0 - from.0, to.1 - from.1)
    } else {
        is_king_step(to.0 - from.0, to.1 - from.1)
    }
}

/// The place of the jump from `from` to `to` in the order in which jumps are
/// tried; 8 if it is none.
pub open spec fn jump_index(from: Position, to: Position, knight: bool) -> int {
    if knight {
        knight_index(to.0 - from.0, to.1 - from.1)
    } else {
        king_index(to.0 - from.0, to.1 - from.1)
    }
}

/// The jump that is tried at place `j`: a knight's (`knight`) or a king's.
pub fn jump_offset(j: u8, knight: bool) -> (r: (i8, i8))
    requires
        j < 8,
    ensures
        -2 <= r.0 <= 2,
        -2 <= r.1 <= 2,
        if knight {
            knight_index(r.0 as int, r.1 as int) == j
        } else {
            king_index(r.0 as int, r.1 as int) == j
        },
{
    if knight {
        match j {
            0 => (1, -2),
            1 => (2, -1),
            2 => (2, 1),
            3 => (1, 2),
            4 => (-1, 2),
            5 => (-2, 1),
            6 => (-2, -1),
            _ => (-1, -2),
        }
    } else {
        match j {
            0 => (1, -1),
            1 => (1, 0),
            2 => (1, 1),
            3 => (0, -1),
            4 => (0, 1),
            5 => (-1, -1),
            6 => (-1, 0),
            _ => (-1, 1),
        }
    }
}

impl State {
    /// The standard moves from `position` in direction `(dr, df)`: to each
    /// empty square up to the first piece, and onto that piece if it belongs
    /// to the other side.
    pub fn gen_ray_moves(&self, position: &Position, dr: i8, df: i8) -> (r: Vec<Move>)
        requires
            position.valid(),
            is_king_step(dr as int, df as int),
        ensures
            forall|mv: Move| #[trigger]
                r@.contains(mv) <==> ray_move(self@, *position, dr as int, df as int, mv),
            r@.no_duplicates(),
    {
        let x = position.0;
        let y = position.1;
        let ghost s = self@;
        let ghost pos = *position;
        let ghost (da, db) = (dr as int, df as int);
        let mut moves: Vec<Move> = Vec::new();
        let mut i: i8 = 1;
        let mut cr: i8 = x + dr;
        let mut cf: i8 = y + df;
        while i < 8
            invariant
                1 <= i <= 8,
                s == self@,
                pos == *position,
                pos.valid(),
                x == pos.0,
                y == pos.1,
                da == dr,
                db == df,
                is_king_step(da, db),
                cr == x + step(da, i as int),
                cf == y + step(db, i as int),
                ray_clear(s.squares, x as int, y as int, da, db, i as int),
                forall|mv: Move| #[trigger]
                    moves@.contains(mv) <==> (ray_move(s, pos, da, db, mv) && distance(
                        pos,
                        mv.target(),
                    ) < i),
                moves@.no_duplicates(),
            decreases 8 - i,
        {
            let here = Position(cr, cf);
            if !here.is_valid() {
                return moves;
            }
            let mv = Move::Standard(StandardMove { from: Position(x, y), to: here });
            let ghost before = moves@;
            proof {
                lemma_push_contains(before, mv);
            }
            match self.board.get_piece(&here) {
                None => {
                    moves.push(mv);
                    proof {
                        assert(ray_piece(s.squares, x as int, y as int, da, db, i as int) is None);
                    }
                },
                Some(p) => {
                    if p.0 != self.side_to_move {
                        moves.push(mv);
                    }
                    proof {
                        assert(ray_piece(s.squares, x as int, y as int, da, db, i as int) is Some);
                        assert forall|m: Move| #[trigger]
                            moves@.contains(m) <==> ray_move(s, pos, da, db, m) by {
                            if ray_move(s, pos, da, db, m) && distance(pos, m.target()) > i {
                                assert(!ray_clear(
                                    s.squares,
                                    x as int,
                                    y as int,
                                    da,
                                    db,
                                    distance(pos, m.target()),
                                ));
                            }
                        }
                    }
                    return moves;
                },
            }
            i = i + 1;
            cr = cr + dr;
            cf = cf + df;
        }
        moves
    }

    /// The standard moves of a piece that slides from `position` along ranks
    /// and files (`straight`) or along diagonals.
    pub fn gen_sliding_moves(&self, position: &Position, straight: bool) -> (r: Vec<Move>)
        requires
            position.valid(),
        ensures
            forall|mv: Move| #[trigger]
                r@.contains(mv) <==> slide_move(self@, *position, straight, mv),
            r@.no_duplicates(),
    {
        let (mut a, mut b, mut c, mut d) = if straight {
            (
                self.gen_ray_moves(position, 1, 0),
                self.gen_ray_moves(position, -1, 0),
                self.gen_ray_moves(position, 0, 1),
                self.gen_ray_moves(position, 0, -1),
            )
        } else {
            (
                self.gen_ray_moves(position, 1, 1),
                self.gen_ray_moves(position, 1, -1),
                self.gen_ray_moves(position, -1, 1),
                self.gen_ray_moves(position, -1, -1),
            )
        };
        proof {
            lemma_concat_contains(a@, b@);
            lemma_concat_contains(a@ + b@, c@);
            lemma_concat_contains(a@ + b@ + c@, d@);
            assert forall|mv: Move| #[trigger]
                (a@ + b@ + c@ + d@).contains(mv) <==> slide_move(self@, *position, straight, mv) by {
                lemma_slide_runs(self@, *position, mv.target(), straight);
            }
        }
        a.append(&mut b);
        a.append(&mut c);
        a.append(&mut d);
        a
    }

    /// The standard moves of a rook on `position`.
    pub fn gen_rook_moves(&self, position: &Position) -> (r: Vec<Move>)
        requires
            position.valid(),
        ensures
            forall|mv: Move| #[trigger] r@.contains(mv) <==> slide_move(self@, *position, true, mv),
            r@.no_duplicates(),
    {
        self.gen_sliding_moves(position, true)
    }

    /// The standard moves of a bishop on `position`.
    pub fn gen_bishop_moves(&self, position: &Position) -> (r: Vec<Move>)
        requires
            position.valid(),
        ensures
            forall|mv: Move| #[trigger]
                r@.contains(mv) <==> slide_move(self@, *position, false, mv),
            r@.no_duplicates(),
    {
        self.gen_sliding_moves(position, false)
    }

    /// The standard moves of a queen on `position`: a rook's, then a
    /// bishop's.
    pub fn gen_queen_moves(&self, position: &Position) -> (r: Vec<Move>)
        requires
            position.valid(),
        ensures
            forall|mv: Move| #[trigger]
                r@.contains(mv) <==> (slide_move(self@, *position, true, mv) || slide_move(
                    self@,
                    *position,
                    false,
                    mv,
                )),
            r@.no_duplicates(),
    {
        let mut moves = self.gen_rook_moves(position);
        let mut diagonal = self.gen_bishop_moves(position);
        proof {
            lemma_concat_contains(moves@, diagonal@);
            assert forall|mv: Move| !(moves@.contains(mv) && #[trigger] diagonal@.contains(mv)) by {
                lemma_slide_runs(self@, *position, mv.target(), true);
            }
        }
        moves.append(&mut diagonal);
        moves
    }

    /// The standard moves from `position` by a knight's jump (`knight`) or by
    /// a king's step.
    pub fn gen_jump_moves(&self, position: &Position, knight: bool) -> (r: Vec<Move>)
        requires
            position.valid(),
        ensures
            forall|mv: Move| #[trigger] r@.contains(mv) <==> jump_move(self@, *position, knight, mv),
            r@.no_duplicates(),
    {
        let x = position.0;
        let y = position.1;
        let ghost s = self@;
        let ghost pos = *position;
        let mut moves: Vec<Move> = Vec::new();
        let mut j: u8 = 0;
        while j < 8
            invariant
                j <= 8,
                s == self@,
                pos == *position,
                pos.valid(),
                x == pos.0,
                y == pos.1,
                forall|mv: Move| #[trigger]
                    moves@.contains(mv) <==> (jump_move(s, pos, knight, mv) && jump_index(
                        pos,
                        mv.target(),
                        knight,
                    ) < j),
                moves@.no_duplicates(),
            decreases 8 - j,
        {
            let (dx, dy) = jump_offset(j, knight);
            let here = Position(x + dx, y + dy);
            if here.is_valid() && !self.board.is_position_color(&here, &self.side_to_move) {
                let mv = Move::Standard(StandardMove { from: Position(x, y), to: here });
                proof {
                    lemma_push_contains(moves@, mv);
                }
                moves.push(mv);
            }
            j = j + 1;
        }
        moves
    }

    /// The standard moves of a knight on `position`.
    pub fn gen_knight_moves(&self, position: &Position) -> (r: Vec<Move>)
        requires
            position.valid(),
        ensures
            forall|mv: Move| #[trigger] r@.contains(mv) <==> jump_move(self@, *position, true, mv),
            r@.no_duplicates(),
    {
        self.gen_jump_moves(position, true)
    }

    /// The moves by which the pawn of the side to move on `mv.from` steps to
    /// `mv.to`: the standard move or, onto its last rank, the four promotions.
    pub fn gen_pawn_step_moves(&self, mv: &StandardMove) -> (r: Vec<Move>)
        requires
            self@.pawn_step(mv.from, mv.to),
        ensures
            forall|m: Move| #[trigger]
                r@.contains(m) <==> (self@.pseudo_legal(m) && m.origin() == mv.from && m.target()
                    == mv.to && (m is Standard || m is PawnPromotion)),
            r@.no_duplicates(),
    {
        let us = self.side_to_move;
        let last_rank: i8 = match us {
            Color::White => 7,
            Color::Black => 0,
        };
        if mv.to.0 == last_rank {
            let r = Move::all_pawn_promotions(mv, &us);
            proof {
                assert(r@[0] == Move::promotion(*mv, Piece(us, PieceType::Rook)));
                assert(r@[1] == Move::promotion(*mv, Piece(us, PieceType::Knight)));
                assert(r@[2] == Move::promotion(*mv, Piece(us, PieceType::Bishop)));
                assert(r@[3] == Move::promotion(*mv, Piece(us, PieceType::Queen)));
            }
            r
        } else {
            let mut r: Vec<Move> = Vec::new();
            r.push(Move::Standard(*mv));
            proof {
                assert(r@[0] == Move::Standard(*mv));
            }
            r
        }
    }

    /// The capture en passant from `from` to `to`, if `to` is the en-passant
    /// square.
    pub fn gen_en_passant_move(&self, from: &Position, to: &Position) -> (r: Vec<Move>)
        ensures
            forall|m: Move| #[trigger]
                r@.contains(m) <==> (self.en_passant == Some(*to) && to.valid() && m
                    == Move::PawnEnPassant(PawnEnPassantMove { from: *from, to: *to })),
            r@.no_duplicates(),
    {
        let mut r: Vec<Move> = Vec::new();
        let is_target = match self.en_passant {
            Some(t) => t.0 == to.0 && t.1 == to.1,
            None => false,
        };
        if is_target && to.is_valid() {
            r.push(Move::PawnEnPassant(PawnEnPassantMove { from: *from, to: *to }));
            proof {
                assert(r@[0] == Move::PawnEnPassant(PawnEnPassantMove { from: *from, to: *to }));
            }
        }
        r
    }

    /// The moves of the pawn of the side to move on `position`: the step
    /// ahead, the double advance, and to either side the capture and the
    /// capture en passant.
    pub fn gen_pawn_moves(&self, position: &Position) -> (r: Vec<Move>)
        requires
            position.valid(),
            at(self@.squares, *position) == Some(Piece(self.side_to_move, PieceType::Pawn)),
        ensures
            forall|mv: Move| #[trigger]
                r@.contains(mv) <==> (self@.pseudo_legal(mv) && mv.origin() == *position),
            r@.no_duplicates(),
    {
        let x = position.0;
        let y = position.1;
        let from = Position(x, y);
        let us = self.side_to_move;
        let them = us.flip();
        let (starting_rank, forward_one, forward_two, capture_left, capture_right) = match us {
            Color::White => (
                1,
                Position(x + 1, y),
                Position(x + 2, y),
                Position(x + 1, y - 1),
                Position(x + 1, y + 1),
            ),
            Color::Black => (
                6,
                Position(x - 1, y),
                Position(x - 2, y),
                Position(x - 1, y - 1),
                Position(x - 1, y + 1),
            ),
        };
        let mut moves: Vec<Move> = Vec::new();
        let mut double: Vec<Move> = Vec::new();
        if self.board.is_position_empty(&forward_one) {
            moves = self.gen_pawn_step_moves(&StandardMove { from, to: forward_one });
            if x == starting_rank && self.board.is_position_empty(&forward_two) {
                double.push(Move::PawnDoubleAdvance(PawnDoubleAdvanceMove { from, to: forward_two }));
            }
        }
        let mut left: Vec<Move> = Vec::new();
        if self.board.is_position_color(&capture_left, &them) {
            left = self.gen_pawn_step_moves(&StandardMove { from, to: capture_left });
        }
        let mut left_passing = self.gen_en_passant_move(&from, &capture_left);
        let mut right: Vec<Move> = Vec::new();
        if self.board.is_position_color(&capture_right, &them) {
            right = self.gen_pawn_step_moves(&StandardMove { from, to: capture_right });
        }
        let mut right_passing = self.gen_en_passant_move(&from, &capture_right);
        proof {
            let s = self@;
            let (a, b, c, d, e, f) = (
                moves@,
                double@,
                left@,
                left_passing@,
                right@,
                right_passing@,
            );
            lemma_concat_contains(a, b);
            lemma_concat_contains(a + b, c);
            lemma_concat_contains(a + b + c, d);
            lemma_concat_contains(a + b + c + d, e);
            lemma_concat_contains(a + b + c + d + e, f);
            assert forall|m: Move| #[trigger]
                b.contains(m) <==> (s.pseudo_legal(m) && m.origin() == from
                    && m is PawnDoubleAdvance) by {
                if b.len() > 0 {
                    assert(b[0] == Move::PawnDoubleAdvance(
                        PawnDoubleAdvanceMove { from, to: forward_two },
                    ));
                }
            }
            assert forall|m: Move| #[trigger]
                d.contains(m) <==> (s.pseudo_legal(m) && m.origin() == from && m is PawnEnPassant
                    && m.target() == capture_left) by {}
            assert forall|m: Move| #[trigger]
                f.contains(m) <==> (s.pseudo_legal(m) && m.origin() == from && m is PawnEnPassant
                    && m.target() == capture_right) by {}
            assert forall|m: Move| #[trigger]
                a.contains(m) <==> (s.pseudo_legal(m) && m.origin() == from && m.target()
                    == forward_one && (m is Standard || m is PawnPromotion)) by {}
            assert forall|m: Move| #[trigger]
                c.contains(m) <==> (s.pseudo_legal(m) && m.origin() == from && m.target()
                    == capture_left && (m is Standard || m is PawnPromotion)) by {}
            assert forall|m: Move| #[trigger]
                e.contains(m) <==> (s.pseudo_legal(m) && m.origin() == from && m.target()
                    == capture_right && (m is Standard || m is PawnPromotion)) by {}
            assert forall|m: Move| #[trigger]
                (a + b + c + d + e + f).contains(m) <==> (s.pseudo_legal(m) && m.origin()
                    == from) by {}
        }
        moves.append(&mut double);
        moves.append(&mut left);
        moves.append(&mut left_passing);
        moves.append(&mut right);
        moves.append(&mut right_passing);
        moves
    }

    /// The moves of the king of the side to move on `position`: its steps
    /// and, from its starting square, castling to either side.
    pub fn gen_king_moves(&self, position: &Position) -> (r: Vec<Move>)
        requires
            position.valid(),
            at(self@.squares, *position) == Some(Piece(self.side_to_move, PieceType::King)),
        ensures
            forall|mv: Move| #[trigger]
                r@.contains(mv) <==> (self@.pseudo_legal(mv) && mv.origin() == *position),
            r@.no_duplicates(),
    {
        let mut moves = self.gen_jump_moves(position, false);
        if self.can_castle_from(position, &CastlingMove::WhiteKing) {
            proof {
                lemma_push_contains(moves@, Move::Castling(CastlingMove::WhiteKing));
            }
            moves.push(Move::Castling(CastlingMove::WhiteKing));
        }
        if self.can_castle_from(position, &CastlingMove::WhiteQueen) {
            proof {
                lemma_push_contains(moves@, Move::Castling(CastlingMove::WhiteQueen));
            }
            moves.push(Move::Castling(CastlingMove::WhiteQueen));
        }
        if self.can_castle_from(position, &CastlingMove::BlackKing) {
            proof {
                lemma_push_contains(moves@, Move::Castling(CastlingMove::BlackKing));
            }
            moves.push(Move::Castling(CastlingMove::BlackKing));
        }
        if self.can_castle_from(position, &CastlingMove::BlackQueen) {
            proof {
                lemma_push_contains(moves@, Move::Castling(CastlingMove::BlackQueen));
            }
            moves.push(Move::Castling(CastlingMove::BlackQueen));
        }
        moves
    }

    /// Whether the king on `position` stands where castling `mv` starts and
    /// castling `mv` obeys the rules of movement.
    pub fn can_castle_from(&self, position: &Position, mv: &CastlingMove) -> (r: bool)
        ensures
            r == (self@.castling_ok(*mv) && Move::Castling(*mv).origin() == *position),
    {
        let start = mv.squares().0;
        start.0 == position.0 && start.1 == position.1 && self.validate_castling_move(mv)
    }

    /// The moves of the piece on square `sq`, if it belongs to the side to
    /// move.
    pub fn gen_moves_from(&self, sq: u8) -> (r: Vec<Move>)
        requires
            self.board.wf(),
            sq < 64,
        ensures
            forall|mv: Move| #[trigger]
                r@.contains(mv) <==> (self@.pseudo_legal(mv) && mv.origin().valid()
                    && mv.origin().square_spec() == sq),
            r@.no_duplicates(),
    {
        let position = Position::from_square(sq);
        proof {
            self.board.lemma_shape();
            assert forall|mv: Move|
                mv.origin().valid() && mv.origin().square_spec() == sq implies mv.origin()
                == position by {}
        }
        match self.board.piece_at(sq) {
            Some(piece) => {
                if piece.0 != self.side_to_move {
                    return Vec::new();
                }
                match piece.1 {
                    PieceType::Pawn => self.gen_pawn_moves(&position),
                    PieceType::Rook => self.gen_rook_moves(&position),
                    PieceType::Knight => self.gen_knight_moves(&position),
                    PieceType::Bishop => self.gen_bishop_moves(&position),
                    PieceType::Queen => self.gen_queen_moves(&position),
                    PieceType::King => self.gen_king_moves(&position),
                }
            },
            None => Vec::new(),
        }
    }

    /// The moves that obey the rules of movement, whether or not they leave
    /// the mover's king attacked, each once.
    pub fn gen_potential_legal_moves(&self) -> (r: Vec<Move>)
        requires
            self.board.wf(),
        ensures
            forall|mv: Move| #[trigger] r@.contains(mv) <==> self@.pseudo_legal(mv),
            r@.no_duplicates(),
    {
        let ghost s = self@;
        let mut moves: Vec<Move> = Vec::new();
        let mut sq: u8 = 0;
        while sq < 64
            invariant
                sq <= 64,
                s == self@,
                self.board.wf(),
                forall|mv: Move| #[trigger]
                    moves@.contains(mv) <==> (s.pseudo_legal(mv) && mv.origin().valid()
                        && mv.origin().square_spec() < sq),
                moves@.no_duplicates(),
            decreases 64 - sq,
        {
            let mut more = self.gen_moves_from(sq);
            proof {
                lemma_concat_contains(moves@, more@);
            }
            moves.append(&mut more);
            sq = sq + 1;
        }
        proof {
            assert forall|mv: Move| s.pseudo_legal(mv) implies mv.origin().valid() by {}
        }
        moves
    }

    /// The legal moves, each once and each with the position that it leads
    /// to.
    pub fn gen_legal_moves(&self) -> (r: Vec<(Move, State)>)
        requires
            self.board.wf(),
            self.halfmove_clock < usize::MAX,
            self.fullmove_number < usize::MAX,
        ensures
            forall|i: int|
                0 <= i < r@.len() ==> {
                    let (mv, next) = #[trigger] r@[i];
                    &&& self@.legal(mv)
                    &&& self@.pseudo_legal(mv)
                    &&& next@ == self@.make(mv)
                    &&& next.board.wf()
                    &&& !next@.in_check(self.side_to_move)
                },
            forall|mv: Move|
                self@.legal(mv) ==> exists|i: int| 0 <= i < r@.len() && (#[trigger] r@[i]).0 == mv,
            forall|i: int, j: int|
                0 <= i < j < r@.len() ==> (#[trigger] r@[i]).0 != (#[trigger] r@[j]).0,
    {
        let moves = self.gen_potential_legal_moves();
        let ghost s = self@;
        let mut moves_and_states: Vec<(Move, State)> = Vec::new();
        let ghost mut picked: Seq<int> = Seq::empty();
        let mut k: usize = 0;
        while k < moves.len()
            invariant
                k <= moves.len(),
                s == self@,
                self.board.wf(),
                self.halfmove_clock < usize::MAX,
                self.fullmove_number < usize::MAX,
                forall|mv: Move| #[trigger] moves@.contains(mv) <==> s.pseudo_legal(mv),
                moves@.no_duplicates(),
                picked.len() == moves_and_states@.len(),
                forall|i: int|
                    0 <= i < picked.len() ==> 0 <= #[trigger] picked[i] < k
                        && moves_and_states@[i].0 == moves@[picked[i]],
                forall|i: int, j: int| 0 <= i < j < picked.len() ==> picked[i] < picked[j],
                forall|i: int|
                    0 <= i < moves_and_states@.len() ==> {
                        let (mv, next) = #[trigger] moves_and_states@[i];
                        &&& s.legal(mv)
                        &&& next@ == s.make(mv)
                        &&& next.board.wf()
                    },
                forall|j: int|
                    0 <= j < k && s.legal(#[trigger] moves@[j]) ==> exists|i: int|
                        0 <= i < picked.len() && picked[i] == j,
            decreases moves.len() - k,
        {
            let mv = moves[k];
            proof {
                assert(moves@.contains(mv));
                assert(mv.valid());
            }
            let new_state = self.make_move_copy(&mv);
            if new_state.is_king_safe(&self.side_to_move) {
                let ghost before = picked;
                moves_and_states.push((mv, new_state));
                proof {
                    picked = picked.push(k as int);
                    assert forall|j: int|
                        0 <= j < k + 1 && s.legal(#[trigger] moves@[j]) implies exists|i: int|
                        0 <= i < picked.len() && picked[i] == j by {
                        if j < k {
                            let i = choose|i: int| 0 <= i < before.len() && before[i] == j;
                            assert(picked[i] == j);
                        } else {
                            assert(picked[picked.len() - 1] == j);
                        }
                    }
                }
            }
            k = k + 1;
        }
        proof {
            assert forall|mv: Move| s.legal(mv) implies exists|i: int|
                0 <= i < moves_and_states@.len() && (#[trigger] moves_and_states@[i]).0 == mv by {
                assert(moves@.contains(mv));
                let j = choose|j: int| 0 <= j < moves@.len() && moves@[j] == mv;
                let i = choose|i: int| 0 <= i < picked.len() && picked[i] == j;
                assert(moves_and_states@[i].0 == mv);
            }
            assert forall|i: int, j: int| 0 <= i < j < moves_and_states@.len() implies (
            #[trigger] moves_and_states@[i]).0 != (#[trigger] moves_and_states@[j]).0 by {
                assert(picked[i] < picked[j]);
            }
        }
        moves_and_states
    }
}

} // verus!
