//! Deciding whether a given move is allowed in a position.

use vstd::prelude::*;
use crate::attack::{ray_clear, ray_piece, step};
use crate::board::Position;
use crate::moves::{
    CastlingMove, Move, PawnDoubleAdvanceMove, PawnEnPassantMove, PawnPromotionMove,
    StandardMove,
};
use crate::piece::{Color, Piece, PieceType};
use crate::state::State;

verus! {

impl State {
    /// Whether `mv` is legal in this position: it obeys the rules of movement
    /// and does not leave the mover's king attacked.
    pub fn validate_move(&self, mv: &Move) -> (r: bool)
        requires
            self.board.wf(),
            self.halfmove_clock < usize::MAX,
            self.fullmove_number < usize::MAX,
        ensures
            r == self@.legal(*mv),
    {
        let is_pseudo_legal = match mv {
            Move::Standard(normal) => self.validate_normal_move(normal),
            Move::PawnDoubleAdvance(double_advance) => self.validate_double_advance_move(
                double_advance,
            ),
            Move::PawnEnPassant(en_passant) => self.validate_en_passant_move(en_passant),
            Move::PawnPromotion(promotion) => self.validate_promotion_move(promotion),
            Move::Castling(castling) => self.validate_castling_move(castling),
        };
        if !is_pseudo_legal {
            return false;
        }
        let new_state = self.make_move_copy(mv);
        new_state.is_king_safe(&self.side_to_move)
    }

    /// Whether the king of color `color` is not attacked; true when there is
    /// no such king.
    pub fn is_king_safe(&self, color: &Color) -> (r: bool)
        requires
            self.board.wf(),
        ensures
            r == !self@.in_check(*color),
    {
        match self.board.king_position(*color) {
            Some(king_pos) => !self.board.is_position_in_check(&king_pos, &color.flip()),
            None => true,
        }
    }

    /// Whether the king of the side to move is attacked.
    pub fn in_check(&self) -> (r: bool)
        requires
            self.board.wf(),
        ensures
            r == self@.in_check(self.side_to_move),
    {
        !self.is_king_safe(&self.side_to_move)
    }

    /// Whether the standard move `mv` obeys the rules of movement.
    pub fn validate_normal_move(&self, mv: &StandardMove) -> (r: bool)
        ensures
            r == self@.standard_ok(*mv),
    {
        if !mv.from.is_valid() || !mv.to.is_valid() {
            return false;
        }
        let piece = match self.board.get_piece(&mv.from) {
            Some(piece) => {
                if piece.0 != self.side_to_move {
                    return false;
                }
                *piece
            },
            None => {
                return false;
            },
        };
        if self.board.is_position_color(&mv.to, &self.side_to_move) {
            return false;
        }
        match piece.1 {
            PieceType::Pawn => self.validate_pawn_normal_move(mv) && match self.side_to_move {
                Color::White => mv.to.0 != 7,
                Color::Black => mv.to.0 != 0,
            },
            PieceType::Rook => self.validate_rook_normal_move(mv),
            PieceType::Knight => self.validate_knight_normal_move(mv),
            PieceType::Bishop => self.validate_bishop_normal_move(mv),
            PieceType::Queen => self.validate_queen_normal_move(mv),
            PieceType::King => self.validate_king_normal_move(mv),
        }
    }

    /// Whether a pawn of the side to move stands on the origin of `mv` and
    /// can step to its target: straight ahead onto an empty square, or
    /// diagonally ahead onto a piece of the other side.
    pub fn validate_pawn_normal_move(&self, mv: &StandardMove) -> (r: bool)
        ensures
            r == self@.pawn_step(mv.from, mv.to),
    {
        if !mv.from.is_valid() || !mv.to.is_valid() {
            return false;
        }
        let pawn = Piece::pawn_of(self.side_to_move);
        if !self.board.is_position_piece(&mv.from, &pawn) {
            return false;
        }
        let ahead = match self.side_to_move {
            Color::White => mv.from.0 + 1,
            Color::Black => mv.from.0 - 1,
        };
        if mv.to.0 != ahead {
            return false;
        }
        if mv.to.1 == mv.from.1 {
            self.board.is_position_empty(&mv.to)
        } else {
            (mv.to.1 == mv.from.1 + 1 || mv.to.1 == mv.from.1 - 1) && self.board.is_position_color(
                &mv.to,
                &self.side_to_move.flip(),
            )
        }
    }

    /// Whether the target of `mv` lies on a line from its origin, along a rank
    /// or file (`straight`) or along a diagonal, with only empty squares
    /// between the two.
    pub fn validate_sliding_move(&self, mv: &StandardMove, straight: bool) -> (r: bool)
        requires
            mv.from.valid(),
            mv.to.valid(),
        ensures
            r == self@.slide(mv.from, mv.to, straight),
    {
        let rank_diff = mv.to.0 - mv.from.0;
        let file_diff = mv.to.1 - mv.from.1;
        let rank_step: i8 = if rank_diff > 0 {
            1
        } else if rank_diff < 0 {
            -1
        } else {
            0
        };
        let file_step: i8 = if file_diff > 0 {
            1
        } else if file_diff < 0 {
            -1
        } else {
            0
        };
        let rank_dist = if rank_diff < 0 {
            -rank_diff
        } else {
            rank_diff
        };
        let file_dist = if file_diff < 0 {
            -file_diff
        } else {
            file_diff
        };
        let aligned = if straight {
            (rank_diff == 0) != (file_diff == 0)
        } else {
            rank_diff != 0 && rank_dist == file_dist
        };
        let ghost s = self@;
        if !aligned {
            proof {
                assert forall|dr: int, df: int, n: int| !#[trigger] s.slides(
                    mv.from,
                    mv.to,
                    dr,
                    df,
                    n,
                    straight,
                ) by {}
            }
            return false;
        }
        let dist = if rank_dist > file_dist {
            rank_dist
        } else {
            file_dist
        };
        proof {
            assert forall|dr: int, df: int, n: int| #[trigger]
                s.slides(mv.from, mv.to, dr, df, n, straight) implies dr == rank_step && df
                == file_step && n == dist by {}
        }
        let mut i: i8 = 1;
        let mut rank = mv.from.0 + rank_step;
        let mut file = mv.from.1 + file_step;
        while i < dist
            invariant
                1 <= i <= dist <= 7,
                s == self@,
                mv.from.valid(),
                mv.to.valid(),
                mv.to.0 == mv.from.0 + step(rank_step as int, dist as int),
                mv.to.1 == mv.from.1 + step(file_step as int, dist as int),
                -1 <= rank_step <= 1,
                -1 <= file_step <= 1,
                rank == mv.from.0 + step(rank_step as int, i as int),
                file == mv.from.1 + step(file_step as int, i as int),
                ray_clear(
                    s.squares,
                    mv.from.0 as int,
                    mv.from.1 as int,
                    rank_step as int,
                    file_step as int,
                    i as int,
                ),
                forall|dr: int, df: int, n: int| #[trigger]
                    s.slides(mv.from, mv.to, dr, df, n, straight) ==> dr == rank_step && df
                        == file_step && n == dist,
            decreases dist - i,
        {
            if !self.board.is_position_empty(&Position(rank, file)) {
                proof {
                    assert(!(ray_piece(
                        s.squares,
                        mv.from.0 as int,
                        mv.from.1 as int,
                        rank_step as int,
                        file_step as int,
                        i as int,
                    ) is None));
                }
                return false;
            }
            proof {
                assert(ray_piece(
                    s.squares,
                    mv.from.0 as int,
                    mv.from.1 as int,
                    rank_step as int,
                    file_step as int,
                    i as int,
                ) is None);
            }
            i = i + 1;
            rank = rank + rank_step;
            file = file + file_step;
        }
        proof {
            assert(s.slides(
                mv.from,
                mv.to,
                rank_step as int,
                file_step as int,
                dist as int,
                straight,
            ));
        }
        true
    }

    /// Whether a rook moves from the origin of `mv` to its target.
    pub fn validate_rook_normal_move(&self, mv: &StandardMove) -> (r: bool)
        requires
            mv.from.valid(),
            mv.to.valid(),
        ensures
            r == self@.reaches(PieceType::Rook, mv.from, mv.to),
    {
        self.validate_sliding_move(mv, true)
    }

    /// Whether a bishop moves from the origin of `mv` to its target.
    pub fn validate_bishop_normal_move(&self, mv: &StandardMove) -> (r: bool)
        requires
            mv.from.valid(),
            mv.to.valid(),
        ensures
            r == self@.reaches(PieceType::Bishop, mv.from, mv.to),
    {
        self.validate_sliding_move(mv, false)
    }

    /// Whether a queen moves from the origin of `mv` to its target.
    pub fn validate_queen_normal_move(&self, mv: &StandardMove) -> (r: bool)
        requires
            mv.from.valid(),
            mv.to.valid(),
        ensures
            r == self@.reaches(PieceType::Queen, mv.from, mv.to),
    {
        self.validate_rook_normal_move(mv) || self.validate_bishop_normal_move(mv)
    }

    /// Whether a knight moves from the origin of `mv` to its target.
    pub fn validate_knight_normal_move(&self, mv: &StandardMove) -> (r: bool)
        requires
            mv.from.valid(),
            mv.to.valid(),
        ensures
            r == self@.reaches(PieceType::Knight, mv.from, mv.to),
    {
        let rank_diff = mv.to.0 - mv.from.0;
        let file_diff = mv.to.1 - mv.from.1;
        ((rank_diff == 1 || rank_diff == -1) && (file_diff == 2 || file_diff == -2)) || ((rank_diff
            == 2 || rank_diff == -2) && (file_diff == 1 || file_diff == -1))
    }

    /// Whether a king moves from the origin of `mv` to its target without
    /// castling.
    pub fn validate_king_normal_move(&self, mv: &StandardMove) -> (r: bool)
        requires
            mv.from.valid(),
            mv.to.valid(),
        ensures
            r == self@.reaches(PieceType::King, mv.from, mv.to),
    {
        let rank_diff = mv.to.0 - mv.from.0;
        let file_diff = mv.to.1 - mv.from.1;
        -1 <= rank_diff && rank_diff <= 1 && -1 <= file_diff && file_diff <= 1 && (rank_diff != 0
            || file_diff != 0)
    }

    /// Whether the double advance `mv` obeys the rules of movement.
    pub fn validate_double_advance_move(&self, mv: &PawnDoubleAdvanceMove) -> (r: bool)
        ensures
            r == self@.double_advance_ok(*mv),
    {
        if !mv.from.is_valid() || !mv.to.is_valid() {
            return false;
        }
        let (start_rank, pawn, forward_one, forward_two) = match self.side_to_move {
            Color::White => (
                1,
                Piece(Color::White, PieceType::Pawn),
                Position(mv.from.0 + 1, mv.from.1),
                Position(mv.from.0 + 2, mv.from.1),
            ),
            Color::Black => (
                6,
                Piece(Color::Black, PieceType::Pawn),
                Position(mv.from.0 - 1, mv.from.1),
                Position(mv.from.0 - 2, mv.from.1),
            ),
        };
        mv.from.0 == start_rank && mv.to.0 == forward_two.0 && mv.to.1 == forward_two.1
            && self.board.is_position_piece(&mv.from, &pawn) && self.board.is_position_empty(
            &forward_one,
        ) && self.board.is_position_empty(&mv.to)
    }

    /// Whether the capture en passant `mv` obeys the rules of movement.
    pub fn validate_en_passant_move(&self, mv: &PawnEnPassantMove) -> (r: bool)
        ensures
            r == self@.en_passant_ok(*mv),
    {
        if !mv.from.is_valid() || !mv.to.is_valid() {
            return false;
        }
        if !self.board.is_position_piece(&mv.from, &Piece(self.side_to_move, PieceType::Pawn)) {
            return false;
        }
        let en_passant = match &self.en_passant {
            Some(position) => {
                if mv.to.0 != position.0 || mv.to.1 != position.1 {
                    return false;
                }
                position
            },
            None => {
                return false;
            },
        };
        if mv.from.1 != en_passant.1 + 1 && mv.from.1 != en_passant.1 - 1 {
            return false;
        }
        match self.side_to_move {
            Color::White => mv.from.0 == en_passant.0 - 1,
            Color::Black => mv.from.0 == en_passant.0 + 1,
        }
    }

    /// Whether the promotion `mv` obeys the rules of movement.
    pub fn validate_promotion_move(&self, mv: &PawnPromotionMove) -> (r: bool)
        ensures
            r == self@.promotion_ok(*mv),
    {
        let last_rank: i8 = match self.side_to_move {
            Color::White => 7,
            Color::Black => 0,
        };
        mv.pawn.to.0 == last_rank && mv.promotion.0 == self.side_to_move && (mv.promotion.1
            == PieceType::Rook || mv.promotion.1 == PieceType::Knight || mv.promotion.1
            == PieceType::Bishop || mv.promotion.1 == PieceType::Queen)
            && self.validate_pawn_normal_move(&mv.pawn)
    }

    /// Whether castling `mv` obeys the rules of movement.
    pub fn validate_castling_move(&self, mv: &CastlingMove) -> (r: bool)
        ensures
            r == self@.castling_ok(*mv),
    {
        let us = mv.color();
        let them = us.flip();
        let (king_start, pass_thru, king_end, rook_start) = mv.squares();
        let (has_right, king_side) = match mv {
            CastlingMove::WhiteKing => (self.castling_rights.white_king, true),
            CastlingMove::WhiteQueen => (self.castling_rights.white_queen, false),
            CastlingMove::BlackKing => (self.castling_rights.black_king, true),
            CastlingMove::BlackQueen => (self.castling_rights.black_queen, false),
        };
        self.side_to_move == us && has_right && self.board.is_position_piece(
            &king_start,
            &Piece(us, PieceType::King),
        ) && self.board.is_position_piece(&rook_start, &Piece(us, PieceType::Rook))
            && self.board.is_position_empty(&pass_thru) && self.board.is_position_empty(&king_end)
            && (king_side || self.board.is_position_empty(&Position(king_start.0, 1)))
            && !self.board.is_position_in_check(&king_start, &them)
            && !self.board.is_position_in_check(&pass_thru, &them)
            && !self.board.is_position_in_check(&king_end, &them)
    }
}

} // verus!
