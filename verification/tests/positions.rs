use chess::board::Position;
use chess::moves::{decode, encode, CastlingMove, Move, PawnDoubleAdvanceMove};
use chess::piece::{Color, Piece, PieceType};
use chess::state::State;

fn word_move(from: u8, to: u8, kind: u8) -> Move {
    Move::from_word(encode(from, to, kind)).unwrap()
}

fn play(state: &mut State, from: u8, to: u8, kind: u8) -> Move {
    let mv = word_move(from, to, kind);
    assert!(state.validate_move(&mv), "move {from}->{to} kind {kind} is not legal");
    state.make_move(&mv);
    mv
}

fn piece(state: &State, sq: u8) -> Option<Piece> {
    state.board.piece_at(sq)
}

#[test]
fn start_position_fields() {
    let state = State::new();
    assert_eq!(state.side_to_move, Color::White);
    assert_eq!(state.en_passant, None);
    assert_eq!(state.halfmove_clock, 0);
    assert_eq!(state.fullmove_number, 1);
    assert_eq!(state.castling_rights.bits(), 0b1111);
    assert!(state.history.is_empty());
    let back = [
        PieceType::Rook,
        PieceType::Knight,
        PieceType::Bishop,
        PieceType::Queen,
        PieceType::King,
        PieceType::Bishop,
        PieceType::Knight,
        PieceType::Rook,
    ];
    for f in 0..8u8 {
        assert_eq!(piece(&state, f), Some(Piece(Color::White, back[f as usize])));
        assert_eq!(piece(&state, 8 + f), Some(Piece(Color::White, PieceType::Pawn)));
        assert_eq!(piece(&state, 48 + f), Some(Piece(Color::Black, PieceType::Pawn)));
        assert_eq!(piece(&state, 56 + f), Some(Piece(Color::Black, back[f as usize])));
        for r in 2..6u8 {
            assert_eq!(piece(&state, 8 * r + f), None);
        }
    }
}

#[test]
fn double_push_sets_en_passant_square() {
    let mut state = State::new();
    let mv = play(&mut state, 12, 28, 1);
    assert_eq!(
        mv,
        Move::PawnDoubleAdvance(PawnDoubleAdvanceMove { from: Position(1, 4), to: Position(3, 4) })
    );
    assert_eq!(piece(&state, 28), Some(Piece(Color::White, PieceType::Pawn)));
    assert_eq!(piece(&state, 12), None);
    assert_eq!(state.en_passant, Some(Position::from_square(20)));
    assert_eq!(state.side_to_move, Color::Black);
    assert_eq!(state.halfmove_clock, 0);
    assert_eq!(state.fullmove_number, 1);
}

#[test]
fn reply_double_push_counts_a_full_move() {
    let mut state = State::new();
    play(&mut state, 12, 28, 1);
    play(&mut state, 52, 36, 1);
    assert_eq!(state.en_passant, Some(Position::from_square(44)));
    assert_eq!(state.side_to_move, Color::White);
    assert_eq!(state.fullmove_number, 2);
    assert_eq!(piece(&state, 36), Some(Piece(Color::Black, PieceType::Pawn)));
    assert_eq!(piece(&state, 52), None);
}

fn before_en_passant() -> State {
    let mut state = State::new();
    play(&mut state, 12, 28, 1);
    play(&mut state, 48, 40, 0);
    play(&mut state, 28, 36, 0);
    play(&mut state, 51, 35, 1);
    state
}

#[test]
fn en_passant_removes_the_passed_pawn() {
    let mut state = before_en_passant();
    assert_eq!(state.en_passant, Some(Position::from_square(43)));
    assert_eq!(piece(&state, 35), Some(Piece(Color::Black, PieceType::Pawn)));
    play(&mut state, 36, 43, 2);
    assert_eq!(piece(&state, 43), Some(Piece(Color::White, PieceType::Pawn)));
    assert_eq!(piece(&state, 36), None);
    assert_eq!(piece(&state, 35), None);
    assert_eq!(state.halfmove_clock, 0);
    assert_eq!(state.en_passant, None);
    assert_eq!(state.history.last().unwrap().captured, None);
}

#[test]
fn en_passant_is_taken_back() {
    let mut state = before_en_passant();
    let before = state.clone();
    let mv = play(&mut state, 36, 43, 2);
    state.unmake_move(&mv);
    assert_eq!(state, before);
    assert_eq!(piece(&state, 35), Some(Piece(Color::Black, PieceType::Pawn)));
}

fn before_castling() -> State {
    let mut state = State::new();
    play(&mut state, 12, 28, 1);
    play(&mut state, 52, 36, 1);
    play(&mut state, 6, 21, 0);
    play(&mut state, 57, 42, 0);
    play(&mut state, 5, 26, 0);
    play(&mut state, 61, 34, 0);
    state
}

#[test]
fn kingside_castle_moves_king_and_rook() {
    let mut state = before_castling();
    assert_eq!(state.halfmove_clock, 4);
    let mv = play(&mut state, 4, 6, 7);
    assert_eq!(mv, Move::Castling(CastlingMove::WhiteKing));
    assert_eq!(piece(&state, 6), Some(Piece(Color::White, PieceType::King)));
    assert_eq!(piece(&state, 4), None);
    assert_eq!(piece(&state, 5), Some(Piece(Color::White, PieceType::Rook)));
    assert_eq!(piece(&state, 7), None);
    assert!(!state.castling_rights.white_king);
    assert!(!state.castling_rights.white_queen);
    assert!(state.castling_rights.black_king);
    assert!(state.castling_rights.black_queen);
    assert_eq!(state.castling_rights.bits(), 0b1100);
    assert_eq!(state.halfmove_clock, 5);
    assert_eq!(state.en_passant, None);
}

#[test]
fn unmake_castle_restores_everything() {
    let mut state = before_castling();
    let before = state.clone();
    let mv = play(&mut state, 4, 6, 7);
    state.unmake_move(&mv);
    assert_eq!(state, before);
    assert_eq!(state.castling_rights.bits(), 0b1111);
    assert_eq!(piece(&state, 4), Some(Piece(Color::White, PieceType::King)));
    assert_eq!(piece(&state, 7), Some(Piece(Color::White, PieceType::Rook)));
    assert_eq!(piece(&state, 5), None);
    assert_eq!(piece(&state, 6), None);
    assert_eq!(state.history.len(), 6);
}

fn before_promotion() -> State {
    let mut state = State::new();
    play(&mut state, 8, 24, 1);
    play(&mut state, 49, 33, 1);
    play(&mut state, 24, 33, 0);
    play(&mut state, 48, 40, 0);
    play(&mut state, 33, 40, 0);
    play(&mut state, 57, 42, 0);
    play(&mut state, 40, 48, 0);
    play(&mut state, 56, 57, 0);
    state
}

#[test]
fn queen_promotion_puts_a_queen_on_the_last_rank() {
    let mut state = before_promotion();
    assert_eq!(piece(&state, 48), Some(Piece(Color::White, PieceType::Pawn)));
    assert_eq!(piece(&state, 56), None);
    let mv = play(&mut state, 48, 56, 6);
    assert_eq!(mv.to_word(), encode(48, 56, 6));
    assert_eq!(piece(&state, 56), Some(Piece(Color::White, PieceType::Queen)));
    assert_eq!(piece(&state, 48), None);
    assert_eq!(state.halfmove_clock, 0);
}

#[test]
fn promotion_is_taken_back_to_a_pawn() {
    let mut state = before_promotion();
    let before = state.clone();
    let mv = play(&mut state, 48, 56, 6);
    state.unmake_move(&mv);
    assert_eq!(state, before);
}

#[test]
fn capturing_promotion_restores_the_captured_piece() {
    let mut state = before_promotion();
    let before = state.clone();
    let mv = play(&mut state, 48, 57, 4);
    assert_eq!(piece(&state, 57), Some(Piece(Color::White, PieceType::Knight)));
    assert_eq!(
        state.history.last().unwrap().captured,
        Some(Piece(Color::Black, PieceType::Rook))
    );
    state.unmake_move(&mv);
    assert_eq!(state, before);
    assert_eq!(piece(&state, 57), Some(Piece(Color::Black, PieceType::Rook)));
}

#[test]
fn promotions_come_in_fours() {
    let state = before_promotion();
    let from_a7: Vec<Move> = state
        .gen_potential_legal_moves()
        .into_iter()
        .filter(|m| m.from() == Position(6, 0))
        .collect();
    let kinds: Vec<u8> = from_a7.iter().map(|m| m.kind_code()).collect();
    assert_eq!(kinds, vec![3, 4, 5, 6, 3, 4, 5, 6]);
    assert_eq!(from_a7[0].to(), Position(7, 0));
    assert_eq!(from_a7[4].to(), Position(7, 1));
}

#[test]
fn rook_move_clears_one_right_for_good() {
    let mut state = State::new();
    play(&mut state, 15, 31, 1);
    play(&mut state, 55, 39, 1);
    play(&mut state, 7, 15, 0);
    assert_eq!(state.castling_rights.bits(), 0b1110);
    play(&mut state, 63, 55, 0);
    assert_eq!(state.castling_rights.bits(), 0b1010);
    play(&mut state, 15, 7, 0);
    play(&mut state, 55, 63, 0);
    assert_eq!(state.castling_rights.bits(), 0b1010);
    assert_eq!(piece(&state, 7), Some(Piece(Color::White, PieceType::Rook)));
}

#[test]
fn capture_on_a_corner_clears_the_right() {
    let mut state = State::new();
    // 1. b3 g6 2. Bb2 Nf6 3. Bxf6 Bg7 4. Bxg7 a6 5. Bxh8
    play(&mut state, 9, 17, 0);
    play(&mut state, 54, 46, 0);
    play(&mut state, 2, 9, 0);
    play(&mut state, 62, 45, 0);
    play(&mut state, 9, 45, 0);
    play(&mut state, 61, 54, 0);
    play(&mut state, 45, 54, 0);
    play(&mut state, 48, 40, 0);
    assert!(state.castling_rights.black_king);
    play(&mut state, 54, 63, 0);
    assert!(!state.castling_rights.black_king);
    assert!(state.castling_rights.black_queen);
    assert_eq!(
        state.history.last().unwrap().captured,
        Some(Piece(Color::Black, PieceType::Rook))
    );
}

#[test]
fn halfmove_clock_counts_and_resets() {
    let mut state = State::new();
    play(&mut state, 6, 21, 0);
    assert_eq!(state.halfmove_clock, 1);
    play(&mut state, 62, 45, 0);
    assert_eq!(state.halfmove_clock, 2);
    assert_eq!(state.fullmove_number, 2);
    play(&mut state, 12, 20, 0);
    assert_eq!(state.halfmove_clock, 0);
    play(&mut state, 45, 28, 0);
    assert_eq!(state.halfmove_clock, 1);
    play(&mut state, 21, 38, 0);
    play(&mut state, 28, 13, 0);
    assert_eq!(state.halfmove_clock, 0);
    assert_eq!(
        state.history.last().unwrap().captured,
        Some(Piece(Color::White, PieceType::Pawn))
    );
    assert_eq!(state.history.last().unwrap().prev_halfmove_clock, 2);
}

#[test]
fn make_move_copy_leaves_the_position_as_it_is() {
    let state = State::new();
    let mv = word_move(12, 28, 1);
    let next = state.make_move_copy(&mv);
    assert_eq!(state, State::new());
    assert_eq!(next.side_to_move, Color::Black);
    assert_eq!(next.history.len(), 1);
    assert_eq!(next.board.piece_at(28), Some(Piece(Color::White, PieceType::Pawn)));
}

#[test]
fn illegal_moves_are_rejected() {
    let state = State::new();
    assert!(!state.validate_move(&word_move(12, 36, 0)));
    assert!(!state.validate_move(&word_move(12, 28, 0)));
    assert!(!state.validate_move(&word_move(12, 20, 1)));
    assert!(!state.validate_move(&word_move(0, 16, 0)));
    assert!(!state.validate_move(&word_move(52, 44, 0)));
    assert!(!state.validate_move(&word_move(4, 6, 7)));
    assert!(!state.validate_move(&word_move(4, 2, 8)));
    assert!(!state.validate_move(&word_move(12, 21, 2)));
    assert!(!state.validate_move(&word_move(12, 20, 6)));
    assert!(state.validate_move(&word_move(12, 20, 0)));
    assert!(state.validate_move(&word_move(1, 18, 0)));
}

#[test]
fn check_leaves_only_the_capture_by_the_king() {
    let mut state = State::new();
    // 1. e4 e5 2. Qh5 Nc6 3. Qxf7+: the only legal reply is Kxf7.
    play(&mut state, 12, 28, 1);
    play(&mut state, 52, 36, 1);
    play(&mut state, 3, 39, 0);
    play(&mut state, 57, 42, 0);
    assert!(state.validate_move(&word_move(39, 53, 0)));
    play(&mut state, 39, 53, 0);
    assert!(!state.is_king_safe(&Color::Black));
    let legal = state.gen_legal_moves();
    assert_eq!(legal.len(), 1);
    assert_eq!(legal[0].0, word_move(60, 53, 0));
    assert!(!state.validate_move(&word_move(48, 40, 0)));
}

#[test]
fn fools_mate_leaves_no_legal_move() {
    let mut state = State::new();
    play(&mut state, 13, 21, 0);
    play(&mut state, 52, 36, 1);
    play(&mut state, 14, 30, 1);
    play(&mut state, 59, 31, 0);
    assert!(!state.is_king_safe(&Color::White));
    assert!(state.gen_legal_moves().is_empty());
    assert!(!state.gen_potential_legal_moves().is_empty());
}

#[test]
fn castling_through_an_attacked_square_is_refused() {
    let mut state = State::new();
    // 1. e4 b6 2. Nf3 Ba6 3. Be2 Bxe2
    play(&mut state, 12, 28, 1);
    play(&mut state, 49, 41, 0);
    play(&mut state, 6, 21, 0);
    play(&mut state, 58, 40, 0);
    play(&mut state, 5, 12, 0);
    play(&mut state, 40, 12, 0);
    // black bishop on e2 attacks f1 and d1; the white king is not in check
    assert!(state.is_king_safe(&Color::White));
    assert!(!state.validate_castling_move(&CastlingMove::WhiteKing));
    assert!(!state.validate_move(&Move::Castling(CastlingMove::WhiteKing)));
    // after the queen takes the bishop, castling is allowed
    play(&mut state, 3, 12, 0);
    play(&mut state, 48, 40, 0);
    assert!(state.validate_castling_move(&CastlingMove::WhiteKing));
}

#[test]
fn queenside_castle_ignores_attack_on_b_file() {
    let mut state = State::new();
    let empty = [1u8, 2, 3, 9];
    for sq in empty {
        state.board.set_piece(&Position::from_square(sq), None);
    }
    state.board.set(17, Piece(Color::Black, PieceType::Rook));
    // the rook on b3 attacks b1 only
    assert!(state.board.is_position_in_check(&Position(0, 1), &Color::Black));
    assert!(!state.board.is_position_in_check(&Position(0, 2), &Color::Black));
    assert!(state.validate_castling_move(&CastlingMove::WhiteQueen));
    let mv = Move::Castling(CastlingMove::WhiteQueen);
    assert!(state.validate_move(&mv));
    assert_eq!(decode(mv.to_word()), Some((4, 2, 8)));
    state.make_move(&mv);
    assert_eq!(piece(&state, 2), Some(Piece(Color::White, PieceType::King)));
    assert_eq!(piece(&state, 3), Some(Piece(Color::White, PieceType::Rook)));
    assert_eq!(piece(&state, 0), None);
    assert_eq!(piece(&state, 4), None);
    // with the rook on c3 instead, the king would arrive on an attacked square
    let mut other = State::new();
    for sq in [1u8, 2, 3, 10] {
        other.board.clear(sq);
    }
    other.board.set(18, Piece(Color::Black, PieceType::Rook));
    assert!(!other.validate_castling_move(&CastlingMove::WhiteQueen));
}
