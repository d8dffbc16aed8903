//! A position with its history: making a move and taking it back.

use vstd::prelude::*;
use crate::board::{Board, Position, after_move, initial_squares, moved_and_captured};
use crate::moves::{
    CastlingMove, CastlingRights, Move, PawnDoubleAdvanceMove, PawnEnPassantMove,
    PawnPromotionMove,
};
use crate::piece::{Color, Piece, PieceType};
use crate::rules::{lemma_initial_wf, lemma_legal_keeps_wf, lemma_make_unmake};

verus! {

/// What a move destroys and taking it back must restore.
#[derive(Clone, Copy, Debug, PartialEq, Eq)]
pub struct Irreversibles {
    pub captured: Option<Piece>,
    pub prev_en_passant: Option<Position>,
    pub prev_castling_rights: CastlingRights,
    pub prev_halfmove_clock: usize,
}

/// A position: the board, the side to move, the square on which a pawn can be
/// captured en passant, the castling rights, the two move counters, and one
/// record for each move made and not taken back.
#[derive(Debug, PartialEq, Eq)]
pub struct State {
    pub board: Board,
    pub side_to_move: Color,
    pub en_passant: Option<Position>,
    pub castling_rights: CastlingRights,
    pub halfmove_clock: usize,
    pub fullmove_number: usize,
    pub history: Vec<Irreversibles>,
}

/// The value of a `State`: its 64 squares and its other fields.
pub struct StateView {
    pub squares: Seq<Option<Piece>>,
    pub side_to_move: Color,
    pub en_passant: Option<Position>,
    pub castling_rights: CastlingRights,
    pub halfmove_clock: usize,
    pub fullmove_number: usize,
    pub history: Seq<Irreversibles>,
}

/// The square half-way between `from` and `to` on the file of `from`.
pub open spec fn midpoint(from: Position, to: Position) -> Position {
    Position(((from.0 + to.0) / 2) as i8, from.1)
}

/// The square of the pawn that a capture en passant from `from` to `to`
/// removes: on the rank of `from` and the file of `to`.
pub open spec fn passed_pawn_square(from: Position, to: Position) -> int {
    8 * from.0 + to.1
}

/// The corner that the rook leaves when castling.
pub open spec fn rook_origin(c: CastlingMove) -> int {
    8 * c.rank_spec() + c.rook_file()
}

/// The square that the rook moves to when castling.
pub open spec fn rook_target(c: CastlingMove) -> int {
    8 * c.rank_spec() + c.pass_file()
}

/// Whether `p` is a pawn.
pub open spec fn is_pawn(p: Option<Piece>) -> bool {
    match p {
        Some(q) => q.1 == PieceType::Pawn,
        None => false,
    }
}

impl StateView {
    /// The start of a game.
    pub open spec fn initial() -> StateView {
        StateView {
            squares: initial_squares(),
            side_to_move: Color::White,
            en_passant: None,
            castling_rights: CastlingRights {
                white_king: true,
                white_queen: true,
                black_king: true,
                black_queen: true,
            },
            halfmove_clock: 0,
            fullmove_number: 1,
            history: Seq::empty(),
        }
    }

    /// The record that making `mv` puts on the history.
    pub open spec fn record(self, mv: Move) -> Irreversibles {
        Irreversibles {
            captured: moved_and_captured(
                self.squares,
                mv.origin().square_spec(),
                mv.target().square_spec(),
            ).1,
            prev_en_passant: self.en_passant,
            prev_castling_rights: self.castling_rights,
            prev_halfmove_clock: self.halfmove_clock,
        }
    }

    /// The squares after `mv`: the piece on the origin moves to the target;
    /// then a capture en passant empties the square of the pawn that was
    /// passed, a promotion puts the new piece, in the mover's color, on the
    /// target, and castling moves the rook from its corner.
    pub open spec fn squares_after(self, mv: Move) -> Seq<Option<Piece>> {
        let moved = after_move(self.squares, mv.origin().square_spec(), mv.target().square_spec());
        match mv {
            Move::Standard(_) => moved,
            Move::PawnDoubleAdvance(_) => moved,
            Move::PawnEnPassant(m) => moved.update(passed_pawn_square(m.from, m.to), None),
            Move::PawnPromotion(m) => moved.update(
                m.pawn.to.square_spec(),
                Some(Piece(self.side_to_move, m.promotion.1)),
            ),
            Move::Castling(c) => after_move(moved, rook_origin(c), rook_target(c)),
        }
    }

    /// The halfmove clock after `mv`: one more after castling and after a
    /// standard move that neither moves a pawn nor captures, 0 after any
    /// other move.
    pub open spec fn clock_after(self, mv: Move) -> usize {
        let (moved, captured) = moved_and_captured(
            self.squares,
            mv.origin().square_spec(),
            mv.target().square_spec(),
        );
        let next = (self.halfmove_clock + 1) as usize;
        match mv {
            Move::Standard(_) => if is_pawn(moved) || captured is Some {
                0
            } else {
                next
            },
            Move::Castling(_) => next,
            _ => 0,
        }
    }

    /// The position after `mv`.
    pub open spec fn make(self, mv: Move) -> StateView {
        StateView {
            squares: self.squares_after(mv),
            side_to_move: self.side_to_move.flip_spec(),
            en_passant: match mv {
                Move::PawnDoubleAdvance(m) => Some(midpoint(m.from, m.to)),
                _ => None,
            },
            castling_rights: self.castling_rights.after(
                mv.origin().square_spec(),
                mv.target().square_spec(),
            ),
            halfmove_clock: self.clock_after(mv),
            fullmove_number: if self.side_to_move == Color::Black {
                (self.fullmove_number + 1) as usize
            } else {
                self.fullmove_number
            },
            history: self.history.push(self.record(mv)),
        }
    }

    /// The squares after `mv` is taken back by the side `us` that made it,
    /// where `captured` is what the move displaced: the piece on the target
    /// moves back to the origin, a promoted piece becomes a pawn again, what
    /// was displaced returns to the target, the pawn captured en passant
    /// returns to its square, and a rook that castled returns to its corner.
    pub open spec fn squares_before(self, mv: Move, us: Color, captured: Option<Piece>) -> Seq<
        Option<Piece>,
    > {
        let from = mv.origin().square_spec();
        let to = mv.target().square_spec();
        let back = after_move(self.squares, to, from);
        let demoted = match mv {
            Move::PawnPromotion(_) => back.update(from, Some(Piece(us, PieceType::Pawn))),
            _ => back,
        };
        let restored = match captured {
            Some(_) => demoted.update(to, captured),
            None => demoted,
        };
        match mv {
            Move::PawnEnPassant(m) => restored.update(
                passed_pawn_square(m.from, m.to),
                Some(Piece(us.flip_spec(), PieceType::Pawn)),
            ),
            Move::Castling(c) => after_move(restored, rook_target(c), rook_origin(c)),
            _ => restored,
        }
    }

    /// The position before `mv`, given the position after it.
    pub open spec fn unmake(self, mv: Move) -> StateView {
        let us = self.side_to_move.flip_spec();
        let record = self.history.last();
        StateView {
            squares: self.squares_before(mv, us, record.captured),
            side_to_move: us,
            en_passant: record.prev_en_passant,
            castling_rights: record.prev_castling_rights,
            halfmove_clock: record.prev_halfmove_clock,
            fullmove_number: if self.side_to_move == Color::White {
                (self.fullmove_number - 1) as usize
            } else {
                self.fullmove_number
            },
            history: self.history.drop_last(),
        }
    }
}

impl View for State {
    type V = StateView;

    open spec fn view(&self) -> StateView {
        StateView {
            squares: self.board@,
            side_to_move: self.side_to_move,
            en_passant: self.en_passant,
            castling_rights: self.castling_rights,
            halfmove_clock: self.halfmove_clock,
            fullmove_number: self.fullmove_number,
            history: self.history@,
        }
    }
}

impl Clone for State {
    /// A copy of the position, history included.
    fn clone(&self) -> (r: State)
        ensures
            r@ == self@,
            r.board == self.board,
    {
        let mut history: Vec<Irreversibles> = Vec::new();
        let mut i: usize = 0;
        while i < self.history.len()
            invariant
                i <= self.history.len(),
                history@ == self.history@.take(i as int),
            decreases self.history.len() - i,
        {
            history.push(self.history[i]);
            proof {
                assert(history@ =~= self.history@.take(i + 1));
            }
            i = i + 1;
        }
        proof {
            assert(history@ =~= self.history@);
        }
        State {
            board: self.board,
            side_to_move: self.side_to_move,
            en_passant: self.en_passant,
            castling_rights: self.castling_rights,
            halfmove_clock: self.halfmove_clock,
            fullmove_number: self.fullmove_number,
            history,
        }
    }
}

impl State {
    /// The invariant of a position in a game: the board is consistent, and
    /// the position is one that a game can reach.
    pub open spec fn wf(&self) -> bool {
        self.board.wf() && self@.wf()
    }

    /// The start of a game.
    pub fn new() -> (r: State)
        ensures
            r@ == StateView::initial(),
            r.wf(),
    {
        proof {
            lemma_initial_wf();
        }
        State {
            board: Board::new(),
            side_to_move: Color::White,
            en_passant: None,
            castling_rights: CastlingRights::new(),
            halfmove_clock: 0,
            fullmove_number: 1,
            history: Vec::new(),
        }
    }

    /// Makes the move `mv`, whether or not the rules allow it in this
    /// position, and puts a record on the history with which `unmake_move`
    /// takes it back.
    pub fn make_move(&mut self, mv: &Move)
        requires
            old(self).board.wf(),
            mv.valid(),
            old(self).halfmove_clock < usize::MAX,
            old(self).fullmove_number < usize::MAX,
        ensures
            final(self).board.wf(),
            final(self)@ == old(self)@.make(*mv),
            old(self).wf() && old(self)@.legal(*mv) ==> final(self).wf(),
            old(self)@.wf() && old(self)@.pseudo_legal(*mv) ==> final(self)@.unmake(*mv) == old(
                self
            )@,
    {
        proof {
            if old(self)@.wf() && old(self)@.legal(*mv) {
                lemma_legal_keeps_wf(old(self)@, *mv);
            }
            if old(self)@.wf() && old(self)@.pseudo_legal(*mv) {
                lemma_make_unmake(old(self)@, *mv);
            }
        }
        let from = mv.from().square();
        let to = mv.to().square();
        let (moved, captured) = self.board.move_piece(from, to);
        self.history.push(
            Irreversibles {
                captured,
                prev_en_passant: self.en_passant,
                prev_castling_rights: self.castling_rights,
                prev_halfmove_clock: self.halfmove_clock,
            },
        );
        self.en_passant = None;
        match mv {
            Move::Standard(_) => self.make_normal_move(moved, captured),
            Move::PawnDoubleAdvance(m) => self.make_double_advance_move(m),
            Move::PawnEnPassant(m) => self.make_en_passant_move(m),
            Move::PawnPromotion(m) => self.make_promotion_move(m),
            Move::Castling(c) => self.make_castling_move(c),
        }
        self.castling_rights.update(from, to);
        if self.side_to_move == Color::Black {
            self.fullmove_number = self.fullmove_number + 1;
        }
        self.side_to_move = self.side_to_move.flip();
    }

    /// The position after `mv`, leaving this one as it is.
    pub fn make_move_copy(&self, mv: &Move) -> (r: State)
        requires
            self.board.wf(),
            mv.valid(),
            self.halfmove_clock < usize::MAX,
            self.fullmove_number < usize::MAX,
        ensures
            r.board.wf(),
            r@ == self@.make(*mv),
    {
        let mut next = self.clone();
        next.make_move(mv);
        next
    }

    /// What a standard move does besides moving the piece: the halfmove clock
    /// starts again when a pawn moved or a piece was captured, and goes on
    /// otherwise.
    fn make_normal_move(&mut self, moved: Option<Piece>, captured: Option<Piece>)
        requires
            old(self).halfmove_clock < usize::MAX,
        ensures
            *final(self) == (State {
                halfmove_clock: if is_pawn(moved) || captured is Some {
                    0
                } else {
                    (old(self).halfmove_clock + 1) as usize
                },
                ..*old(self)
            }),
    {
        let pawn_moved = match moved {
            Some(p) => p.1 == PieceType::Pawn,
            None => false,
        };
        if pawn_moved || captured.is_some() {
            self.halfmove_clock = 0;
        } else {
            self.halfmove_clock = self.halfmove_clock + 1;
        }
    }

    /// What a pawn's double advance does besides moving the pawn: the square
    /// that it passed over becomes the en-passant square, and the halfmove
    /// clock starts again.
    fn make_double_advance_move(&mut self, mv: &PawnDoubleAdvanceMove)
        requires
            mv.from.valid(),
            mv.to.valid(),
        ensures
            *final(self) == (State {
                en_passant: Some(midpoint(mv.from, mv.to)),
                halfmove_clock: 0,
                ..*old(self)
            }),
    {
        self.en_passant = Some(Position((mv.from.0 + mv.to.0) / 2, mv.from.1));
        self.halfmove_clock = 0;
    }

    /// What a capture en passant does besides moving the pawn: the pawn that
    /// was passed leaves the board, and the halfmove clock starts again.
    fn make_en_passant_move(&mut self, mv: &PawnEnPassantMove)
        requires
            old(self).board.wf(),
            mv.from.valid(),
            mv.to.valid(),
        ensures
            final(self).board.wf(),
            final(self).board@ == old(self).board@.update(
                passed_pawn_square(mv.from, mv.to),
                None,
            ),
            final(self)@ == (StateView {
                squares: final(self).board@,
                halfmove_clock: 0,
                ..old(self)@
            }),
    {
        self.board.clear(Position(mv.from.0, mv.to.1).square());
        self.halfmove_clock = 0;
    }

    /// What a promotion does besides moving the pawn: the new piece, in the
    /// mover's color, takes the pawn's place, and the halfmove clock starts
    /// again.
    fn make_promotion_move(&mut self, mv: &PawnPromotionMove)
        requires
            old(self).board.wf(),
            mv.pawn.to.valid(),
        ensures
            final(self).board.wf(),
            final(self).board@ == old(self).board@.update(
                mv.pawn.to.square_spec(),
                Some(Piece(old(self).side_to_move, mv.promotion.1)),
            ),
            final(self)@ == (StateView {
                squares: final(self).board@,
                halfmove_clock: 0,
                ..old(self)@
            }),
    {
        self.board.set(mv.pawn.to.square(), Piece(self.side_to_move, mv.promotion.1));
        self.halfmove_clock = 0;
    }

    /// What castling does besides moving the king: the rook moves from its
    /// corner to the square that the king passed over, and the halfmove clock
    /// goes on.
    fn make_castling_move(&mut self, mv: &CastlingMove)
        requires
            old(self).board.wf(),
            old(self).halfmove_clock < usize::MAX,
        ensures
            final(self).board.wf(),
            final(self).board@ == after_move(old(self).board@, rook_origin(*mv), rook_target(*mv)),
            final(self)@ == (StateView {
                squares: final(self).board@,
                halfmove_clock: (old(self).halfmove_clock + 1) as usize,
                ..old(self)@
            }),
    {
        let (_, pass_thru, _, rook_start) = mv.squares();
        self.board.move_piece(rook_start.square(), pass_thru.square());
        self.halfmove_clock = self.halfmove_clock + 1;
    }

    /// Takes back the move `mv`, which must be the move made last.
    pub fn unmake_move(&mut self, mv: &Move)
        requires
            old(self).board.wf(),
            mv.valid(),
            old(self).history@.len() > 0,
            old(self).side_to_move == Color::White ==> old(self).fullmove_number > 0,
        ensures
            final(self).board.wf(),
            final(self)@ == old(self)@.unmake(*mv),
    {
        if self.side_to_move == Color::White {
            self.fullmove_number = self.fullmove_number - 1;
        }
        self.side_to_move = self.side_to_move.flip();
        let us = self.side_to_move;
        let from = mv.from().square();
        let to = mv.to().square();
        self.board.move_piece(to, from);
        if let Move::PawnPromotion(_) = mv {
            self.board.set(from, Piece(us, PieceType::Pawn));
        }
        let record = self.history.pop().unwrap();
        self.en_passant = record.prev_en_passant;
        self.castling_rights = record.prev_castling_rights;
        self.halfmove_clock = record.prev_halfmove_clock;
        if let Some(piece) = record.captured {
            self.board.set(to, piece);
        }
        match mv {
            Move::PawnEnPassant(m) => {
                self.board.set(
                    Position(m.from.0, m.to.1).square(),
                    Piece(us.flip(), PieceType::Pawn),
                );
            },
            Move::Castling(c) => {
                let (_, pass_thru, _, rook_start) = c.squares();
                self.board.move_piece(pass_thru.square(), rook_start.square());
            },
            _ => {},
        }
    }
}

} // verus!
