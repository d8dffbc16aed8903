//! The rules of movement: which moves a position allows, and what holds of
//! every position that a game can reach.

use vstd::prelude::*;
use crate::attack::{
    attacked, attacked_by_bishop_or_queen, attacked_by_king, attacked_by_knight,
    attacked_by_pawn, attacked_by_rook_or_queen, is_diagonal, is_king_step, is_knight_jump,
    is_straight, piece_offset, ray_clear, ray_piece, slider_along, slider_at, slider_kind, step,
};
use crate::board::{
    Position, first_square_of, initial_squares, king_square, lemma_first_square_of, on_board,
    piece_on,
};
use crate::moves::{
    CastlingMove, Move, PawnDoubleAdvanceMove, PawnEnPassantMove, PawnPromotionMove,
    StandardMove, can_promote_to,
};
use crate::piece::{Color, Piece, PieceType};
use crate::state::StateView;

verus! {

/// The direction in which the pawns of color `c` advance: up the ranks for
/// White, down for Black.
pub open spec fn forward(c: Color) -> int {
    match c {
        Color::White => 1,
        Color::Black => -1,
    }
}

/// The rank on which the pawns of color `c` start.
pub open spec fn start_rank(c: Color) -> int {
    match c {
        Color::White => 1,
        Color::Black => 6,
    }
}

/// The rank on which the pawns of color `c` promote.
pub open spec fn promotion_rank(c: Color) -> int {
    match c {
        Color::White => 7,
        Color::Black => 0,
    }
}

/// What stands on position `p`; `None` off the board.
pub open spec fn at(squares: Seq<Option<Piece>>, p: Position) -> Option<Piece> {
    piece_on(squares, p.0 as int, p.1 as int)
}

/// Whether a piece of color `c` stands on `(r, f)`.
pub open spec fn color_on(squares: Seq<Option<Piece>>, r: int, f: int, c: Color) -> bool {
    match piece_on(squares, r, f) {
        Some(p) => p.0 == c,
        None => false,
    }
}

/// Whether `(r, f)` is on the board and empty.
pub open spec fn empty_on(squares: Seq<Option<Piece>>, r: int, f: int) -> bool {
    on_board(r, f) && piece_on(squares, r, f) is None
}

/// The number of king's steps from `from` to `to`: the larger of the
/// distances in rank and in file.
pub open spec fn distance(from: Position, to: Position) -> int {
    let dr = if to.0 >= from.0 {
        to.0 - from.0
    } else {
        from.0 - to.0
    };
    let df = if to.1 >= from.1 {
        to.1 - from.1
    } else {
        from.1 - to.1
    };
    if dr >= df {
        dr
    } else {
        df
    }
}

/// The place of the jump `(dr, df)` in the order in which a knight's jumps
/// are tried; 8 if it is no knight's jump.
pub open spec fn knight_index(dr: int, df: int) -> int {
    if dr == 1 && df == -2 {
        0
    } else if dr == 2 && df == -1 {
        1
    } else if dr == 2 && df == 1 {
        2
    } else if dr == 1 && df == 2 {
        3
    } else if dr == -1 && df == 2 {
        4
    } else if dr == -2 && df == 1 {
        5
    } else if dr == -2 && df == -1 {
        6
    } else if dr == -1 && df == -2 {
        7
    } else {
        8
    }
}

/// The place of the step `(dr, df)` in the order in which a king's steps are
/// tried; 8 if it is no king's step.
pub open spec fn king_index(dr: int, df: int) -> int {
    if dr == 1 && df == -1 {
        0
    } else if dr == 1 && df == 0 {
        1
    } else if dr == 1 && df == 1 {
        2
    } else if dr == 0 && df == -1 {
        3
    } else if dr == 0 && df == 1 {
        4
    } else if dr == -1 && df == -1 {
        5
    } else if dr == -1 && df == 0 {
        6
    } else if dr == -1 && df == 1 {
        7
    } else {
        8
    }
}

/// Whether exactly one king of color `c` is on the board.
pub open spec fn one_king(squares: Seq<Option<Piece>>, c: Color) -> bool {
    &&& king_square(squares, c) < 64
    &&& forall|s: int|
        0 <= s < 64 && #[trigger] squares[s] == Some(Piece(c, PieceType::King)) ==> s
            == king_square(squares, c)
}

impl StateView {
    /// Whether a pawn of the side to move stands on `from` and `to` is a
    /// square that it can step to: the empty square straight ahead, or a
    /// square diagonally ahead that holds a piece of the other side.
    pub open spec fn pawn_step(self, from: Position, to: Position) -> bool {
        let us = self.side_to_move;
        &&& from.valid()
        &&& to.valid()
        &&& at(self.squares, from) == Some(Piece(us, PieceType::Pawn))
        &&& to.0 == from.0 + forward(us)
        &&& if to.1 == from.1 {
            at(self.squares, to) is None
        } else {
            (to.1 == from.1 + 1 || to.1 == from.1 - 1) && color_on(
                self.squares,
                to.0 as int,
                to.1 as int,
                us.flip_spec(),
            )
        }
    }

    /// Whether `to` lies `n` steps from `from` in direction `(dr, df)`,
    /// along a rank or file (`straight`) or along a diagonal, with only empty
    /// squares between them.
    pub open spec fn slides(
        self,
        from: Position,
        to: Position,
        dr: int,
        df: int,
        n: int,
        straight: bool,
    ) -> bool {
        &&& if straight {
            is_straight(dr, df)
        } else {
            is_diagonal(dr, df)
        }
        &&& 1 <= n
        &&& to.0 == from.0 + step(dr, n)
        &&& to.1 == from.1 + step(df, n)
        &&& ray_clear(self.squares, from.0 as int, from.1 as int, dr, df, n)
    }

    /// Whether a piece that moves along ranks and files (`straight`) or along
    /// diagonals can slide from `from` to `to` over empty squares.
    pub open spec fn slide(self, from: Position, to: Position, straight: bool) -> bool {
        exists|dr: int, df: int, n: int| #[trigger] self.slides(from, to, dr, df, n, straight)
    }

    /// Whether `to` lies in direction `(dr, df)` from `from`, with only empty
    /// squares between them.
    pub open spec fn runs(self, from: Position, to: Position, dr: int, df: int) -> bool {
        let n = distance(from, to);
        &&& 1 <= n
        &&& to.0 == from.0 + step(dr, n)
        &&& to.1 == from.1 + step(df, n)
        &&& ray_clear(self.squares, from.0 as int, from.1 as int, dr, df, n)
    }

    /// Whether `mv` is a standard move from `from` to a square of the board
    /// that holds no piece of the side to move.
    pub open spec fn plain_from(self, mv: Move, from: Position) -> bool {
        match mv {
            Move::Standard(m) => m.from == from && m.to.valid() && !color_on(
                self.squares,
                m.to.0 as int,
                m.to.1 as int,
                self.side_to_move,
            ),
            _ => false,
        }
    }

    /// Whether a piece of kind `kind`, not a pawn, moves from `from` to `to`
    /// on this board, whatever stands on `to`.
    pub open spec fn reaches(self, kind: PieceType, from: Position, to: Position) -> bool {
        match kind {
            PieceType::Pawn => false,
            PieceType::Knight => is_knight_jump(to.0 - from.0, to.1 - from.1),
            PieceType::King => is_king_step(to.0 - from.0, to.1 - from.1),
            PieceType::Rook => self.slide(from, to, true),
            PieceType::Bishop => self.slide(from, to, false),
            PieceType::Queen => self.slide(from, to, true) || self.slide(from, to, false),
        }
    }

    /// Whether the standard move `m` obeys the rules of movement: a piece of
    /// the side to move goes the way that its kind moves, to a square that
    /// holds no piece of its own side; a pawn steps, and not onto its last
    /// rank.
    pub open spec fn standard_ok(self, m: StandardMove) -> bool {
        let us = self.side_to_move;
        &&& m.from.valid()
        &&& m.to.valid()
        &&& !color_on(self.squares, m.to.0 as int, m.to.1 as int, us)
        &&& match at(self.squares, m.from) {
            Some(p) => p.0 == us && if p.1 == PieceType::Pawn {
                self.pawn_step(m.from, m.to) && m.to.0 != promotion_rank(us)
            } else {
                self.reaches(p.1, m.from, m.to)
            },
            None => false,
        }
    }

    /// Whether the double advance `m` obeys the rules of movement: a pawn of
    /// the side to move goes from its starting rank two squares ahead, over
    /// an empty square to an empty square.
    pub open spec fn double_advance_ok(self, m: PawnDoubleAdvanceMove) -> bool {
        let us = self.side_to_move;
        &&& m.from.valid()
        &&& m.to.valid()
        &&& at(self.squares, m.from) == Some(Piece(us, PieceType::Pawn))
        &&& m.from.0 == start_rank(us)
        &&& m.to.0 == m.from.0 + 2 * forward(us)
        &&& m.to.1 == m.from.1
        &&& empty_on(self.squares, m.from.0 + forward(us), m.from.1 as int)
        &&& at(self.squares, m.to) is None
    }

    /// Whether the capture en passant `m` obeys the rules of movement: a pawn
    /// of the side to move goes diagonally ahead to the en-passant square.
    pub open spec fn en_passant_ok(self, m: PawnEnPassantMove) -> bool {
        let us = self.side_to_move;
        &&& m.from.valid()
        &&& m.to.valid()
        &&& at(self.squares, m.from) == Some(Piece(us, PieceType::Pawn))
        &&& self.en_passant == Some(m.to)
        &&& m.to.0 == m.from.0 + forward(us)
        &&& (m.to.1 == m.from.1 + 1 || m.to.1 == m.from.1 - 1)
    }

    /// Whether the promotion `m` obeys the rules of movement: a pawn of the
    /// side to move steps onto its last rank and becomes a rook, knight,
    /// bishop or queen of its color.
    pub open spec fn promotion_ok(self, m: PawnPromotionMove) -> bool {
        let us = self.side_to_move;
        &&& self.pawn_step(m.pawn.from, m.pawn.to)
        &&& m.pawn.to.0 == promotion_rank(us)
        &&& m.promotion.0 == us
        &&& can_promote_to(m.promotion.1)
    }

    /// Whether castling `c` obeys the rules of movement: it is the turn of
    /// the side that castles, which still has the right; king and rook stand
    /// on their starting squares with only empty squares between them; and
    /// the other side attacks neither the king's square, nor the square that
    /// it passes over, nor the square on which it arrives.
    pub open spec fn castling_ok(self, c: CastlingMove) -> bool {
        let us = self.side_to_move;
        let rank = c.rank_spec();
        &&& c.color_spec() == us
        &&& if c.is_king_side() {
            self.castling_rights.king_side(us)
        } else {
            self.castling_rights.queen_side(us)
        }
        &&& piece_on(self.squares, rank, 4) == Some(Piece(us, PieceType::King))
        &&& piece_on(self.squares, rank, c.rook_file()) == Some(Piece(us, PieceType::Rook))
        &&& piece_on(self.squares, rank, c.pass_file()) is None
        &&& piece_on(self.squares, rank, c.king_file()) is None
        &&& (c.is_king_side() || piece_on(self.squares, rank, 1) is None)
        &&& !attacked(self.squares, rank, 4, us.flip_spec())
        &&& !attacked(self.squares, rank, c.pass_file(), us.flip_spec())
        &&& !attacked(self.squares, rank, c.king_file(), us.flip_spec())
    }

    /// Whether `mv` obeys the rules of movement in this position, whether or
    /// not it leaves the mover's king attacked.
    pub open spec fn pseudo_legal(self, mv: Move) -> bool {
        match mv {
            Move::Standard(m) => self.standard_ok(m),
            Move::PawnDoubleAdvance(m) => self.double_advance_ok(m),
            Move::PawnEnPassant(m) => self.en_passant_ok(m),
            Move::PawnPromotion(m) => self.promotion_ok(m),
            Move::Castling(c) => self.castling_ok(c),
        }
    }

    /// Whether the king of color `c` is attacked.
    pub open spec fn in_check(self, c: Color) -> bool {
        let k = king_square(self.squares, c);
        k < 64 && attacked(self.squares, k / 8, k % 8, c.flip_spec())
    }

    /// Whether `mv` is legal: it obeys the rules of movement and does not
    /// leave the mover's king attacked.
    pub open spec fn legal(self, mv: Move) -> bool {
        self.pseudo_legal(mv) && !self.make(mv).in_check(self.side_to_move)
    }

    /// Whether the en-passant square, if there is one, lies behind a pawn
    /// that has just advanced two squares: it is empty, on the third rank of
    /// the side that moved, and that side's pawn stands just beyond it.
    pub open spec fn en_passant_wf(self) -> bool {
        match self.en_passant {
            Some(t) => {
                let us = self.side_to_move;
                &&& t.valid()
                &&& t.0 == start_rank(us.flip_spec()) - forward(us)
                &&& at(self.squares, t) is None
                &&& piece_on(self.squares, t.0 - forward(us), t.1 as int) == Some(
                    Piece(us.flip_spec(), PieceType::Pawn),
                )
            },
            None => true,
        }
    }

    /// What holds of every position that a game reaches: the board has 64
    /// squares and one king of each color, the side that has just moved has
    /// not left its king attacked, the en-passant square lies behind a pawn
    /// that has just advanced two squares, and the count of full moves starts
    /// at 1.
    pub open spec fn wf(self) -> bool {
        &&& self.squares.len() == 64
        &&& one_king(self.squares, Color::White)
        &&& one_king(self.squares, Color::Black)
        &&& !self.in_check(self.side_to_move.flip_spec())
        &&& self.en_passant_wf()
        &&& self.fullmove_number >= 1
    }

    /// Whether each of the moves `moves`, made in order from this position,
    /// is legal where it is made, and is made before either counter has
    /// reached the largest number that it can hold.
    pub open spec fn legal_line(self, moves: Seq<Move>) -> bool
        decreases moves.len(),
    {
        moves.len() == 0 || {
            let before = self.play(moves.drop_last());
            &&& self.legal_line(moves.drop_last())
            &&& before.legal(moves.last())
            &&& before.halfmove_clock < usize::MAX
            &&& before.fullmove_number < usize::MAX
        }
    }

    /// The position after the moves `moves`, made in order.
    pub open spec fn play(self, moves: Seq<Move>) -> StateView
        decreases moves.len(),
    {
        if moves.len() == 0 {
            self
        } else {
            self.play(moves.drop_last()).make(moves.last())
        }
    }
}

/// A piece slides from `from` to `to` exactly when `to` lies in one of the
/// four directions along which the piece moves, with only empty squares
/// between them.
pub proof fn lemma_slide_runs(s: StateView, from: Position, to: Position, straight: bool)
    ensures
        s.slide(from, to, true) <==> (s.runs(from, to, 1, 0) || s.runs(from, to, -1, 0) || s.runs(
            from,
            to,
            0,
            1,
        ) || s.runs(from, to, 0, -1)),
        s.slide(from, to, false) <==> (s.runs(from, to, 1, 1) || s.runs(from, to, 1, -1) || s.runs(
            from,
            to,
            -1,
            1,
        ) || s.runs(from, to, -1, -1)),
{
    let n = distance(from, to);
    if s.runs(from, to, 1, 0) {
        assert(s.slides(from, to, 1, 0, n, true));
    }
    if s.runs(from, to, -1, 0) {
        assert(s.slides(from, to, -1, 0, n, true));
    }
    if s.runs(from, to, 0, 1) {
        assert(s.slides(from, to, 0, 1, n, true));
    }
    if s.runs(from, to, 0, -1) {
        assert(s.slides(from, to, 0, -1, n, true));
    }
    if s.runs(from, to, 1, 1) {
        assert(s.slides(from, to, 1, 1, n, false));
    }
    if s.runs(from, to, 1, -1) {
        assert(s.slides(from, to, 1, -1, n, false));
    }
    if s.runs(from, to, -1, 1) {
        assert(s.slides(from, to, -1, 1, n, false));
    }
    if s.runs(from, to, -1, -1) {
        assert(s.slides(from, to, -1, -1, n, false));
    }
}

/// Taking back a move that obeys the rules of movement restores the position
/// from which it was made: the board, the side to move, the en-passant
/// square, the castling rights, both counters and the history.
pub proof fn lemma_make_unmake(s: StateView, mv: Move)
    requires
        s.squares.len() == 64,
        s.en_passant_wf(),
        s.fullmove_number < usize::MAX,
        s.pseudo_legal(mv),
    ensures
        s.make(mv).unmake(mv) == s,
{
    let after = s.make(mv);
    let back = after.unmake(mv);
    assert(after.history.last() == s.record(mv));
    assert(back.history =~= s.history);
    assert(back.squares =~= s.squares);
}

/// A move never gives a castling right back, and it leaves a right in place
/// exactly when neither its origin nor its target is the starting square of
/// the king or of the rook that the right is about.
pub proof fn lemma_make_castling_rights(s: StateView, mv: Move)
    ensures
        s.make(mv).castling_rights.within(s.castling_rights),
        ({
            let from = mv.origin().square_spec();
            let to = mv.target().square_spec();
            let old = s.castling_rights;
            let new = s.make(mv).castling_rights;
            &&& new.white_king == (old.white_king && from != 4 && from != 7 && to != 4 && to != 7)
            &&& new.white_queen == (old.white_queen && from != 4 && from != 0 && to != 4 && to
                != 0)
            &&& new.black_king == (old.black_king && from != 60 && from != 63 && to != 60 && to
                != 63)
            &&& new.black_queen == (old.black_queen && from != 60 && from != 56 && to != 60 && to
                != 56)
        }),
{
}

/// In the course of a game a castling right that is gone stays gone: the
/// rights after a longer run of moves are among those after any shorter run.
pub proof fn lemma_castling_rights_monotone(s: StateView, moves: Seq<Move>, n: int)
    requires
        0 <= n <= moves.len(),
    ensures
        s.play(moves).castling_rights.within(s.play(moves.take(n)).castling_rights),
    decreases moves.len(),
{
    if n == moves.len() {
        assert(moves.take(n) =~= moves);
    } else {
        let shorter = moves.drop_last();
        lemma_castling_rights_monotone(s, shorter, n);
        assert(shorter.take(n) =~= moves.take(n));
        lemma_make_castling_rights(s.play(shorter), moves.last());
    }
}

/// The search for a piece finds a square that holds it, or none at all.
pub proof fn lemma_first_square_found(squares: Seq<Option<Piece>>, p: Piece, from: int)
    requires
        0 <= from <= 64,
    ensures
        ({
            let r = first_square_of(squares, p, from);
            from <= r <= 64 && (r < 64 ==> squares[r] == Some(p))
        }),
    decreases 64 - from,
{
    if from < 64 && squares[from] != Some(p) {
        lemma_first_square_found(squares, p, from + 1);
    }
}

/// If `k` is the one square that holds the king of color `c`, the board has
/// exactly one such king, and it is found on `k`.
pub proof fn lemma_one_king(squares: Seq<Option<Piece>>, c: Color, k: int)
    requires
        0 <= k < 64,
        squares[k] == Some(Piece(c, PieceType::King)),
        forall|t: int|
            0 <= t < 64 && #[trigger] squares[t] == Some(Piece(c, PieceType::King)) ==> t == k,
    ensures
        one_king(squares, c),
        king_square(squares, c) == k,
{
    lemma_first_square_of(squares, Piece(c, PieceType::King), 0, k);
}

/// A piece that slides from `from` to `to` is the first piece met from `to`
/// in the opposite direction.
pub proof fn lemma_slide_back(
    s: StateView,
    from: Position,
    to: Position,
    dr: int,
    df: int,
    n: int,
    straight: bool,
    p: Piece,
)
    requires
        from.valid(),
        at(s.squares, from) == Some(p),
        p.1 == PieceType::Queen || p.1 == slider_kind(straight),
        s.slides(from, to, dr, df, n, straight),
    ensures
        slider_at(s.squares, to.0 as int, to.1 as int, -dr, -df, n, p.0, straight),
{
    let sq = s.squares;
    let (a, b) = (to.0 as int, to.1 as int);
    assert forall|k: int| 1 <= k < n implies (#[trigger] ray_piece(sq, a, b, -dr, -df, k))
        is None by {
        assert(ray_piece(sq, from.0 as int, from.1 as int, dr, df, n - k) is None);
    }
    assert(ray_piece(sq, a, b, -dr, -df, n) == Some(p));
}

/// A move that obeys the rules of movement and lands on a piece of the other
/// side lands on a square that the mover attacks.
pub proof fn lemma_capture_is_attack(s: StateView, mv: Move)
    requires
        s.pseudo_legal(mv),
        mv is Standard || mv is PawnPromotion,
        color_on(
            s.squares,
            mv.target().0 as int,
            mv.target().1 as int,
            s.side_to_move.flip_spec(),
        ),
    ensures
        attacked(s.squares, mv.target().0 as int, mv.target().1 as int, s.side_to_move),
{
    let us = s.side_to_move;
    let from = mv.origin();
    let to = mv.target();
    let sq = s.squares;
    let (a, b) = (to.0 as int, to.1 as int);
    let p = at(sq, from).unwrap();
    let (dr, df) = (from.0 - to.0, from.1 - to.1);
    match p.1 {
        PieceType::Pawn => {
            assert(piece_offset(sq, a, b, dr, df, p));
        },
        PieceType::Knight => {
            assert(is_knight_jump(dr, df) && piece_offset(sq, a, b, dr, df, p));
        },
        PieceType::King => {
            assert(is_king_step(dr, df) && piece_offset(sq, a, b, dr, df, p));
        },
        _ => {
            if (p.1 == PieceType::Rook || p.1 == PieceType::Queen) && s.slide(from, to, true) {
                let (r, f, n) = choose|r: int, f: int, n: int| #[trigger]
                    s.slides(from, to, r, f, n, true);
                lemma_slide_back(s, from, to, r, f, n, true, p);
                assert(is_straight(-r, -f) && slider_along(sq, a, b, -r, -f, us, true));
            } else {
                let (r, f, n) = choose|r: int, f: int, n: int| #[trigger]
                    s.slides(from, to, r, f, n, false);
                lemma_slide_back(s, from, to, r, f, n, false, p);
                assert(is_diagonal(-r, -f) && slider_along(sq, a, b, -r, -f, us, false));
            }
        },
    }
}

/// What a move that obeys the rules of movement does to the kings of color
/// `c`: it creates none; the one that it moves arrives on the target; and
/// any other stays where it is, unless it stands on the target.
pub proof fn lemma_kings_frame(s: StateView, mv: Move, c: Color)
    requires
        s.squares.len() == 64,
        s.en_passant_wf(),
        s.pseudo_legal(mv),
    ensures
        s.squares_after(mv).len() == 64,
        mv.origin().valid(),
        mv.target().valid(),
        color_on(s.squares, mv.origin().0 as int, mv.origin().1 as int, s.side_to_move),
        !color_on(s.squares, mv.target().0 as int, mv.target().1 as int, s.side_to_move),
        forall|t: int|
            0 <= t < 64 && #[trigger] s.squares_after(mv)[t] == Some(Piece(c, PieceType::King)) ==> (
            t != mv.origin().square_spec() && s.squares[t] == Some(Piece(c, PieceType::King))) || (t
                == mv.target().square_spec() && s.squares[mv.origin().square_spec()] == Some(
                Piece(c, PieceType::King),
            )),
        forall|t: int|
            0 <= t < 64 && #[trigger] s.squares[t] == Some(Piece(c, PieceType::King)) ==> (t
                != mv.origin().square_spec() && s.squares_after(mv)[t] == Some(
                Piece(c, PieceType::King),
            )) || (t == mv.origin().square_spec() && s.squares_after(mv)[mv.target().square_spec()]
                == Some(Piece(c, PieceType::King))) || t == mv.target().square_spec(),
{
}

/// A move that obeys the rules of movement, made in a position that a game
/// can reach, leaves one king of each color on the board.
pub proof fn lemma_kings_after(s: StateView, mv: Move, c: Color)
    requires
        s.wf(),
        s.pseudo_legal(mv),
    ensures
        one_king(s.squares_after(mv), c),
{
    let them = s.side_to_move.flip_spec();
    let after = s.squares_after(mv);
    let from = mv.origin().square_spec();
    let to = mv.target().square_spec();
    let k = king_square(s.squares, c);
    lemma_first_square_found(s.squares, Piece(c, PieceType::King), 0);
    lemma_kings_frame(s, mv, c);
    if k == to {
        assert(c == them);
        if mv is Standard || mv is PawnPromotion {
            lemma_capture_is_attack(s, mv);
        }
        assert(s.in_check(them));
    } else if k == from {
        lemma_one_king(after, c, to);
    } else {
        lemma_one_king(after, c, k);
    }
}

/// After a move that obeys the rules of movement, the en-passant square, if
/// there is one, lies behind the pawn that has just advanced two squares.
pub proof fn lemma_en_passant_after(s: StateView, mv: Move)
    requires
        s.squares.len() == 64,
        s.pseudo_legal(mv),
    ensures
        s.make(mv).en_passant_wf(),
{
}

/// A legal move leads from a position that a game can reach to another such
/// position.
pub proof fn lemma_legal_keeps_wf(s: StateView, mv: Move)
    requires
        s.wf(),
        s.legal(mv),
        s.fullmove_number < usize::MAX,
    ensures
        s.make(mv).wf(),
{
    lemma_kings_after(s, mv, Color::White);
    lemma_kings_after(s, mv, Color::Black);
    lemma_en_passant_after(s, mv);
    lemma_kings_frame(s, mv, Color::White);
}

/// A move that obeys the rules of movement is valid: its squares are on the
/// board and a promotion names a piece that a pawn can become.
pub proof fn lemma_pseudo_legal_valid(s: StateView, mv: Move)
    requires
        s.pseudo_legal(mv),
    ensures
        mv.valid(),
{
}

/// The start of a game is a position that a game can reach.
pub proof fn lemma_initial_wf()
    ensures
        StateView::initial().wf(),
{
    let s = StateView::initial();
    let sq = s.squares;
    assert(sq == initial_squares());
    assert(sq[4] == Some(Piece(Color::White, PieceType::King)));
    assert(sq[60] == Some(Piece(Color::Black, PieceType::King)));
    lemma_one_king(sq, Color::White, 4);
    lemma_one_king(sq, Color::Black, 60);
    assert(!attacked_by_pawn(sq, 7, 4, Color::White));
    assert(!attacked_by_knight(sq, 7, 4, Color::White));
    assert(!attacked_by_king(sq, 7, 4, Color::White));
    assert forall|dr: int, df: int, n: int, straight: bool|
        is_king_step(dr, df) implies !#[trigger] slider_at(
        sq,
        7,
        4,
        dr,
        df,
        n,
        Color::White,
        straight,
    ) by {
        if n > 1 && dr < 0 {
            assert(ray_piece(sq, 7, 4, dr, df, 1) is Some);
        }
    }
    assert(!attacked_by_rook_or_queen(sq, 7, 4, Color::White));
    assert(!attacked_by_bishop_or_queen(sq, 7, 4, Color::White));
}

/// The history grows by one record with each move.
pub proof fn lemma_play_history(s: StateView, moves: Seq<Move>)
    ensures
        s.play(moves).history.len() == s.history.len() + moves.len(),
    decreases moves.len(),
{
    if moves.len() > 0 {
        lemma_play_history(s, moves.drop_last());
    }
}

/// A run of legal moves leads from a position that a game can reach to
/// another such position.
pub proof fn lemma_legal_line_wf(s: StateView, moves: Seq<Move>)
    requires
        s.wf(),
        s.legal_line(moves),
    ensures
        s.play(moves).wf(),
    decreases moves.len(),
{
    if moves.len() > 0 {
        lemma_legal_line_wf(s, moves.drop_last());
        lemma_legal_keeps_wf(s.play(moves.drop_last()), moves.last());
    }
}

} // verus!
