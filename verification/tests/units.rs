use chess::bitset::BitSet;
use chess::board::{Board, Position};
use chess::game::Game;
use chess::moves::{
    decode, encode, CastlingMove, CastlingRights, Move, PawnEnPassantMove, PawnPromotionMove,
    StandardMove, DOUBLE_PUSH, EN_PASSANT, KING_CASTLE, PROMOTE_BISHOP, PROMOTE_KNIGHT,
    PROMOTE_QUEEN, PROMOTE_ROOK, QUEEN_CASTLE, QUIET,
};
use chess::piece::{Color, Piece, PieceType};
use chess::state::State;

#[test]
fn color_flip_is_an_involution() {
    assert_eq!(Color::White.flip(), Color::Black);
    assert_eq!(Color::Black.flip(), Color::White);
    assert_eq!(Color::White.flip().flip(), Color::White);
    assert_eq!(Color::White.index(), 0);
    assert_eq!(Color::Black.index(), 1);
    assert_eq!(Color::White.name(), "white");
    assert_eq!(Color::Black.name(), "black");
}

#[test]
fn piece_indices_are_distinct_and_dense() {
    let kinds = [
        PieceType::Pawn,
        PieceType::Rook,
        PieceType::Knight,
        PieceType::Bishop,
        PieceType::Queen,
        PieceType::King,
    ];
    let mut seen = [false; 12];
    for (k, kind) in kinds.iter().enumerate() {
        assert_eq!(kind.index(), k);
        for (c, color) in [Color::White, Color::Black].iter().enumerate() {
            let piece = Piece(*color, *kind);
            assert_eq!(piece.index(), 2 * k + c);
            assert_eq!(*piece.color(), *color);
            assert_eq!(*piece.kind(), *kind);
            assert!(!seen[piece.index()]);
            seen[piece.index()] = true;
        }
    }
    assert!(seen.iter().all(|s| *s));
    assert_eq!(Piece::pawn_of(Color::Black), Piece(Color::Black, PieceType::Pawn));
    assert_eq!(Piece(Color::White, PieceType::Knight).symbol(), 'N');
    assert_eq!(Piece(Color::Black, PieceType::Queen).symbol(), 'q');
}

#[test]
fn position_and_square_agree() {
    assert_eq!(Position(0, 0).square(), 0);
    assert_eq!(Position(0, 7).square(), 7);
    assert_eq!(Position(7, 0).square(), 56);
    assert_eq!(Position(7, 7).square(), 63);
    for sq in 0..64u8 {
        let p = Position::from_square(sq);
        assert!(p.is_valid());
        assert_eq!(p.square(), sq);
        assert_eq!(p.0, (sq >> 3) as i8);
        assert_eq!(p.1, (sq & 7) as i8);
    }
    assert!(!Position(8, 0).is_valid());
    assert!(!Position(0, 8).is_valid());
    assert!(!Position(-1, 3).is_valid());
    assert!(!Position(3, -1).is_valid());
    assert_eq!(Position(3, 4).file_letter(), 'e');
}

#[test]
fn bitset_basic_operations() {
    let empty = BitSet::empty();
    assert!(empty.is_empty());
    assert_eq!(empty.count(), 0);
    let a = BitSet::singleton(0).with(9).with(63);
    let b = BitSet::singleton(9).with(10);
    assert_eq!(a.0, 1 | (1 << 9) | (1 << 63));
    assert!(a.contains(9) && a.contains(63) && !a.contains(10));
    assert_eq!(a.count(), 3);
    assert_eq!(a.union(&b).squares(), vec![0, 9, 10, 63]);
    assert_eq!(a.intersection(&b).squares(), vec![9]);
    assert_eq!(a.symmetric_difference(&b).squares(), vec![0, 10, 63]);
    assert_eq!(a.complement().count(), 61);
    assert!(!a.complement().contains(9));
    assert_eq!(a.without(9).squares(), vec![0, 63]);
    assert_eq!(a.without(10), a);
    assert_eq!(a.shift_left(1).squares(), vec![1, 10]);
    assert_eq!(a.shift_right(9).squares(), vec![0, 54]);
    assert_eq!(a.shift_left(63).squares(), vec![63]);
    assert_eq!(BitSet::file(0).squares(), vec![0, 8, 16, 24, 32, 40, 48, 56]);
    assert_eq!(BitSet::file(7).squares(), vec![7, 15, 23, 31, 39, 47, 55, 63]);
}

#[test]
fn bitset_pop_lowest_yields_each_member_once() {
    let mut set = BitSet(0x8000_0000_0001_0100);
    assert_eq!(set.pop_lowest(), Some(8));
    assert_eq!(set.pop_lowest(), Some(16));
    assert_eq!(set.pop_lowest(), Some(63));
    assert!(set.is_empty());
    assert_eq!(set.pop_lowest(), None);
    assert_eq!(set, BitSet::empty());
    let mut full = BitSet::empty().complement();
    assert_eq!(full.count(), 64);
    for sq in 0..64u8 {
        assert_eq!(full.pop_lowest(), Some(sq));
    }
    assert_eq!(full.pop_lowest(), None);
}

#[test]
fn pawn_attack_shifts_with_file_masks() {
    // the squares that a white pawn on a2 and one on h2 attack
    let pawns = BitSet::singleton(8).with(15);
    let not_a = BitSet::file(0).complement();
    let not_h = BitSet::file(7).complement();
    let up_left = pawns.shift_left(7).intersection(&not_h);
    let up_right = pawns.shift_left(9).intersection(&not_a);
    assert_eq!(up_left.union(&up_right).squares(), vec![17, 22]);
}

fn consistent(board: &Board) -> bool {
    let kinds = [
        PieceType::Pawn,
        PieceType::Rook,
        PieceType::Knight,
        PieceType::Bishop,
        PieceType::Queen,
        PieceType::King,
    ];
    let mut union = BitSet::empty();
    let mut total = 0;
    for kind in kinds {
        for color in [Color::White, Color::Black] {
            let piece = Piece(color, kind);
            let set = board.pieces(piece);
            for sq in 0..64u8 {
                if set.contains(sq) != (board.piece_at(sq) == Some(piece)) {
                    return false;
                }
            }
            if !union.intersection(&set).is_empty() {
                return false;
            }
            union = union.union(&set);
            total += set.count();
        }
    }
    total == union.count()
}

#[test]
fn board_stays_consistent_under_mutation() {
    let mut board = Board::new();
    assert!(consistent(&board));
    assert_eq!(board.pieces(Piece(Color::White, PieceType::Pawn)).0, 0xff00);
    assert_eq!(board.pieces(Piece(Color::Black, PieceType::King)).0, 1 << 60);
    assert_eq!(board.occupancy(Color::White).0, 0xffff);
    assert_eq!(board.occupancy(Color::Black).0, 0xffff_0000_0000_0000);
    board.set(12, Piece(Color::Black, PieceType::Queen));
    assert!(consistent(&board));
    assert_eq!(board.piece_at(12), Some(Piece(Color::Black, PieceType::Queen)));
    assert_eq!(board.pieces(Piece(Color::White, PieceType::Pawn)).0, 0xef00);
    board.clear(12);
    board.clear(12);
    assert!(consistent(&board));
    assert_eq!(board.piece_at(12), None);
    assert_eq!(board.move_piece(12, 28), (None, None));
    assert!(consistent(&board));
    assert_eq!(
        board.move_piece(3, 59),
        (Some(Piece(Color::White, PieceType::Queen)), Some(Piece(Color::Black, PieceType::Queen)))
    );
    assert!(consistent(&board));
    assert_eq!(board.piece_at(3), None);
    assert_eq!(board.piece_at(59), Some(Piece(Color::White, PieceType::Queen)));
    assert_eq!(board.pieces(Piece(Color::Black, PieceType::Queen)), BitSet::empty());
    let before = board;
    assert_eq!(
        board.move_piece(59, 59),
        (Some(Piece(Color::White, PieceType::Queen)), Some(Piece(Color::White, PieceType::Queen)))
    );
    assert_eq!(board, before);
    board.set_piece(&Position(9, 9), Some(Piece(Color::White, PieceType::Pawn)));
    assert_eq!(board, before);
    board.set_piece(&Position(3, 3), Some(Piece(Color::White, PieceType::Pawn)));
    assert_eq!(*board.get_piece(&Position(3, 3)), Some(Piece(Color::White, PieceType::Pawn)));
    board.set_piece(&Position(3, 3), None);
    assert_eq!(board, before);
    assert!(consistent(&board));
}

#[test]
fn board_queries() {
    let board = Board::new();
    assert_eq!(*board.get_piece(&Position(0, 4)), Some(Piece(Color::White, PieceType::King)));
    assert_eq!(*board.get_piece(&Position(8, 4)), None);
    assert_eq!(*board.get_piece(&Position(0, -1)), None);
    assert!(board.is_position_empty(&Position(3, 3)));
    assert!(!board.is_position_empty(&Position(1, 3)));
    assert!(!board.is_position_empty(&Position(-1, 3)));
    assert!(board.is_position_piece(&Position(7, 3), &Piece(Color::Black, PieceType::Queen)));
    assert!(!board.is_position_piece(&Position(7, 3), &Piece(Color::White, PieceType::Queen)));
    assert!(board.is_position_piece_type(&Position(7, 3), &PieceType::Queen));
    assert!(!board.is_position_piece_type(&Position(4, 3), &PieceType::Queen));
    assert!(board.is_position_color(&Position(7, 3), &Color::Black));
    assert!(!board.is_position_color(&Position(7, 3), &Color::White));
    assert!(!board.is_position_color(&Position(4, 3), &Color::White));
    assert!(board.is_position_empty_or_color(&Position(4, 3), &Color::White));
    assert!(board.is_position_empty_or_color(&Position(1, 3), &Color::White));
    assert!(!board.is_position_empty_or_color(&Position(6, 3), &Color::White));
    assert!(!board.is_position_empty_or_color(&Position(8, 3), &Color::White));
    assert_eq!(board.king_position(Color::White), Some(Position(0, 4)));
    assert_eq!(board.king_position(Color::Black), Some(Position(7, 4)));
    assert_eq!(Board::empty().king_position(Color::White), None);
    let mut seen = Vec::new();
    board.for_each(|position, piece| seen.push((*position, *piece)));
    assert_eq!(seen.len(), 64);
    assert_eq!(seen[0], (Position(0, 0), Some(Piece(Color::White, PieceType::Rook))));
    assert_eq!(seen[8], (Position(1, 0), Some(Piece(Color::White, PieceType::Pawn))));
    assert_eq!(seen[35], (Position(4, 3), None));
    assert_eq!(seen[63], (Position(7, 7), Some(Piece(Color::Black, PieceType::Rook))));
}

fn lone(pieces: &[(u8, Piece)]) -> Board {
    let mut board = Board::empty();
    for (sq, piece) in pieces {
        board.set(*sq, *piece);
    }
    board
}

#[test]
fn attacks_by_each_kind() {
    let d4 = Position(3, 3);
    let wp = Piece(Color::White, PieceType::Pawn);
    let bp = Piece(Color::Black, PieceType::Pawn);
    // pawns attack diagonally forward only
    assert!(lone(&[(18, wp)]).is_position_in_check(&d4, &Color::White));
    assert!(lone(&[(20, wp)]).is_position_in_check(&d4, &Color::White));
    assert!(!lone(&[(19, wp)]).is_position_in_check(&d4, &Color::White));
    assert!(!lone(&[(34, wp)]).is_position_in_check(&d4, &Color::White));
    assert!(lone(&[(34, bp)]).is_position_in_check(&d4, &Color::Black));
    assert!(lone(&[(36, bp)]).is_position_in_check(&d4, &Color::Black));
    assert!(!lone(&[(18, bp)]).is_position_in_check(&d4, &Color::Black));
    assert!(!lone(&[(18, wp)]).is_position_in_check(&d4, &Color::Black));
    // a pawn on h3 does not attack a4 around the edge
    assert!(!lone(&[(23, wp)]).is_position_in_check(&Position(3, 0), &Color::White));
    // knights
    let n = Piece(Color::Black, PieceType::Knight);
    for sq in [10u8, 12, 17, 21, 33, 37, 42, 44] {
        assert!(lone(&[(sq, n)]).is_position_in_check(&d4, &Color::Black));
        assert!(lone(&[(sq, n)]).is_position_in_check_by_knight(&d4, &Color::Black));
        assert!(!lone(&[(sq, n)]).is_position_in_check_by_king(&d4, &Color::Black));
    }
    assert!(!lone(&[(11, n)]).is_position_in_check(&d4, &Color::Black));
    // kings
    let k = Piece(Color::White, PieceType::King);
    for sq in [18u8, 19, 20, 26, 28, 34, 35, 36] {
        assert!(lone(&[(sq, k)]).is_position_in_check(&d4, &Color::White));
    }
    assert!(!lone(&[(27, k)]).is_position_in_check(&d4, &Color::White));
    assert!(!lone(&[(43, k)]).is_position_in_check(&d4, &Color::White));
    // sliders, blocked and unblocked
    let r = Piece(Color::Black, PieceType::Rook);
    let b = Piece(Color::Black, PieceType::Bishop);
    let q = Piece(Color::Black, PieceType::Queen);
    assert!(lone(&[(59, r)]).is_position_in_check(&d4, &Color::Black));
    assert!(lone(&[(24, r)]).is_position_in_check(&d4, &Color::Black));
    assert!(!lone(&[(59, r), (43, wp)]).is_position_in_check(&d4, &Color::Black));
    assert!(!lone(&[(59, r), (43, bp)]).is_position_in_check(&d4, &Color::Black));
    assert!(!lone(&[(59, b)]).is_position_in_check(&d4, &Color::Black));
    assert!(lone(&[(59, q)]).is_position_in_check(&d4, &Color::Black));
    assert!(lone(&[(0, b)]).is_position_in_check(&d4, &Color::Black));
    assert!(lone(&[(63, q)]).is_position_in_check(&d4, &Color::Black));
    assert!(lone(&[(6, b)]).is_position_in_check(&d4, &Color::Black));
    assert!(!lone(&[(0, r)]).is_position_in_check(&d4, &Color::Black));
    assert!(!lone(&[(0, b), (9, k)]).is_position_in_check(&d4, &Color::Black));
    assert!(lone(&[(0, b)]).is_position_in_check_by_bishop_or_queen(&d4, &Color::Black));
    assert!(!lone(&[(0, b)]).is_position_in_check_by_rook_or_queen(&d4, &Color::Black));
    assert!(lone(&[(31, r)]).is_position_in_check_along(&d4, 0, 1, &Color::Black, true));
    assert!(!lone(&[(31, r)]).is_position_in_check_along(&d4, 0, -1, &Color::Black, true));
    assert!(!lone(&[(59, q)]).is_position_in_check(&d4, &Color::White));
    // off the board nothing is attacked
    assert!(!lone(&[(59, q)]).is_position_in_check(&Position(8, 3), &Color::Black));
    assert!(!Board::new().is_position_in_check(&Position(0, 4), &Color::Black));
    assert!(Board::new().is_position_in_check(&Position(2, 4), &Color::White));
    assert!(Board::new().is_position_in_check(&Position(5, 0), &Color::Black));
    assert!(!Board::new().is_position_in_check(&Position(3, 0), &Color::Black));
}

#[test]
fn move_word_layout_is_exact() {
    assert_eq!(encode(12, 28, 1), (12 << 10) | (28 << 4) | 1);
    assert_eq!(encode(12, 28, 1), 12_737);
    assert_eq!(encode(0, 0, 0), 0);
    assert_eq!(encode(63, 63, 8), 0xfff8);
    assert_eq!(decode(12_737), Some((12, 28, 1)));
    assert_eq!(decode(0xfff8), Some((63, 63, 8)));
    assert_eq!(
        [QUIET, DOUBLE_PUSH, EN_PASSANT, PROMOTE_ROOK, PROMOTE_KNIGHT],
        [0, 1, 2, 3, 4]
    );
    assert_eq!([PROMOTE_BISHOP, PROMOTE_QUEEN, KING_CASTLE, QUEEN_CASTLE], [5, 6, 7, 8]);
}

#[test]
fn move_word_round_trip_for_every_triple() {
    for from in 0..64u8 {
        for to in 0..64u8 {
            for kind in 0..9u8 {
                assert_eq!(decode(encode(from, to, kind)), Some((from, to, kind)));
            }
        }
    }
}

#[test]
fn decode_rejects_kinds_of_nine_and_more() {
    for word in 0..=u16::MAX {
        let kind = word & 0xf;
        match decode(word) {
            Some((from, to, k)) => {
                assert!(kind < 9);
                assert_eq!(k as u16, kind);
                assert_eq!(encode(from, to, k), word);
            }
            None => assert!(kind >= 9),
        }
        if kind >= 9 {
            assert_eq!(Move::from_word(word), None);
        }
    }
    assert_eq!(decode(9), None);
    assert_eq!(decode(0xffff), None);
    assert_eq!(Move::from_word(15), None);
}

#[test]
fn typed_moves_and_words() {
    let e2 = Position(1, 4);
    let e4 = Position(3, 4);
    let quiet = Move::Standard(StandardMove { from: e2, to: e4 });
    assert!(quiet.is_valid());
    assert_eq!(quiet.from(), e2);
    assert_eq!(quiet.to(), e4);
    assert_eq!(quiet.kind_code(), QUIET);
    assert_eq!(quiet.to_word(), encode(12, 28, 0));
    assert_eq!(Move::from_word(quiet.to_word()), Some(quiet));
    let passing = Move::PawnEnPassant(PawnEnPassantMove { from: Position(4, 4), to: Position(5, 3) });
    assert_eq!(decode(passing.to_word()), Some((36, 43, 2)));
    assert_eq!(Move::from_word(encode(36, 43, 2)), Some(passing));
    let white = Move::PawnPromotion(PawnPromotionMove {
        pawn: StandardMove { from: Position(6, 0), to: Position(7, 0) },
        promotion: Piece(Color::White, PieceType::Bishop),
    });
    assert_eq!(white.kind_code(), PROMOTE_BISHOP);
    assert_eq!(Move::from_word(white.to_word()), Some(white));
    let black = Move::PawnPromotion(PawnPromotionMove {
        pawn: StandardMove { from: Position(1, 7), to: Position(0, 6) },
        promotion: Piece(Color::Black, PieceType::Rook),
    });
    assert_eq!(decode(black.to_word()), Some((15, 6, 3)));
    assert_eq!(Move::from_word(black.to_word()), Some(black));
    let pawn = Move::PawnPromotion(PawnPromotionMove {
        pawn: StandardMove { from: Position(6, 0), to: Position(7, 0) },
        promotion: Piece(Color::White, PieceType::King),
    });
    assert!(!pawn.is_valid());
    assert!(!Move::Standard(StandardMove { from: Position(8, 0), to: e4 }).is_valid());
    assert!(!Move::Standard(StandardMove { from: e2, to: Position(0, -1) }).is_valid());
    let castles = [
        (CastlingMove::WhiteKing, 4, 6, 7, Color::White),
        (CastlingMove::WhiteQueen, 4, 2, 8, Color::White),
        (CastlingMove::BlackKing, 60, 62, 7, Color::Black),
        (CastlingMove::BlackQueen, 60, 58, 8, Color::Black),
    ];
    for (castle, from, to, kind, color) in castles {
        let mv = Move::Castling(castle);
        assert!(mv.is_valid());
        assert_eq!(castle.color(), color);
        assert_eq!(decode(mv.to_word()), Some((from, to, kind)));
        assert_eq!(Move::from_word(encode(from, to, kind)), Some(mv));
    }
    assert_eq!(Move::from_word(encode(4, 5, 7)), None);
    assert_eq!(Move::from_word(encode(4, 6, 8)), None);
    assert_eq!(
        CastlingMove::BlackQueen.squares(),
        (Position(7, 4), Position(7, 3), Position(7, 2), Position(7, 0))
    );
}

#[test]
fn every_typed_word_round_trips() {
    for word in 0..=u16::MAX {
        if let Some(mv) = Move::from_word(word) {
            assert!(mv.is_valid());
            assert_eq!(mv.to_word(), word);
        }
    }
}

#[test]
fn all_pawn_promotions_in_order() {
    let pawn = StandardMove { from: Position(6, 2), to: Position(7, 3) };
    let all = Move::all_pawn_promotions(&pawn, &Color::White);
    let kinds: Vec<PieceType> = all
        .iter()
        .map(|m| match m {
            Move::PawnPromotion(p) => {
                assert_eq!(p.pawn, pawn);
                assert_eq!(p.promotion.0, Color::White);
                p.promotion.1
            }
            _ => unreachable!(),
        })
        .collect();
    assert_eq!(
        kinds,
        vec![PieceType::Rook, PieceType::Knight, PieceType::Bishop, PieceType::Queen]
    );
}

#[test]
fn castling_rights_bits_and_masks() {
    let all = CastlingRights::new();
    assert_eq!(all.bits(), 0b1111);
    for bits in 0..16u8 {
        assert_eq!(CastlingRights::from_bits(bits).bits(), bits);
    }
    assert_eq!(CastlingRights::from_bits(0b1_0101).bits(), 0b0101);
    let one = CastlingRights::from_bits(0b0100);
    assert!(one.black_king && !one.white_king && !one.white_queen && !one.black_queen);
    for sq in 0..64u8 {
        let expected = match sq {
            0 => 0b1101,
            4 => 0b1100,
            7 => 0b1110,
            56 => 0b0111,
            60 => 0b0011,
            63 => 0b1011,
            _ => 0b1111,
        };
        assert_eq!(CastlingRights::mask(sq).bits(), expected);
    }
    let mut rights = CastlingRights::new();
    rights.update(12, 28);
    assert_eq!(rights.bits(), 0b1111);
    rights.update(7, 63);
    assert_eq!(rights.bits(), 0b1010);
    rights.update(60, 52);
    assert_eq!(rights.bits(), 0b0010);
    rights.update(0, 0);
    assert_eq!(rights.bits(), 0);
    let mut r = CastlingRights::new();
    r.disable_king_side(&Color::White);
    assert_eq!(r.bits(), 0b1110);
    r.disable_queen_side(&Color::Black);
    assert_eq!(r.bits(), 0b0110);
    r.disable_both_sides(&Color::White);
    assert_eq!(r.bits(), 0b0100);
    r.disable_both_sides(&Color::Black);
    assert_eq!(r.bits(), 0);
}

#[test]
fn piecewise_generators() {
    let mut state = State::new();
    assert_eq!(state.gen_knight_moves(&Position(0, 1)).len(), 2);
    assert_eq!(state.gen_rook_moves(&Position(0, 0)).len(), 0);
    assert_eq!(state.gen_pawn_moves(&Position(1, 0)).len(), 2);
    assert_eq!(state.gen_king_moves(&Position(0, 4)).len(), 0);
    assert_eq!(state.gen_moves_from(52).len(), 0);
    assert_eq!(state.gen_moves_from(30).len(), 0);
    state.board = Board::empty();
    state.board.set(27, Piece(Color::White, PieceType::Queen));
    state.board.set(59, Piece(Color::Black, PieceType::Rook));
    state.board.set(24, Piece(Color::White, PieceType::Pawn));
    let d4 = Position(3, 3);
    assert_eq!(state.gen_rook_moves(&d4).len(), 3 + 4 + 2 + 4);
    assert_eq!(state.gen_bishop_moves(&d4).len(), 13);
    assert_eq!(state.gen_queen_moves(&d4).len(), 26);
    let up: Vec<Position> = state.gen_ray_moves(&d4, 1, 0).iter().map(|m| m.to()).collect();
    assert_eq!(up, vec![Position(4, 3), Position(5, 3), Position(6, 3), Position(7, 3)]);
    let left: Vec<Position> = state.gen_ray_moves(&d4, 0, -1).iter().map(|m| m.to()).collect();
    assert_eq!(left, vec![Position(3, 2), Position(3, 1)]);
    assert!(state.validate_queen_normal_move(&StandardMove { from: d4, to: Position(7, 3) }));
    assert!(state.validate_sliding_move(&StandardMove { from: d4, to: Position(0, 0) }, false));
    assert!(!state.validate_sliding_move(&StandardMove { from: d4, to: Position(0, 0) }, true));
    assert!(!state.validate_rook_normal_move(&StandardMove { from: d4, to: d4 }));
    assert!(state.validate_rook_normal_move(&StandardMove { from: d4, to: Position(3, 1) }));
    assert!(state.validate_normal_move(&StandardMove { from: d4, to: Position(3, 1) }));
    assert!(!state.validate_normal_move(&StandardMove { from: d4, to: Position(3, 0) }));
    assert!(!state.validate_bishop_normal_move(&StandardMove { from: d4, to: Position(4, 5) }));
    assert!(state.validate_knight_normal_move(&StandardMove { from: d4, to: Position(4, 5) }));
    assert!(state.validate_king_normal_move(&StandardMove { from: d4, to: Position(4, 4) }));
    assert!(!state.validate_king_normal_move(&StandardMove { from: d4, to: Position(5, 3) }));
    let corner = state.gen_knight_moves(&Position(0, 0));
    let targets: Vec<Position> = corner.iter().map(|m| m.to()).collect();
    assert_eq!(targets, vec![Position(2, 1), Position(1, 2)]);
}

#[test]
fn game_starts_at_the_start() {
    let game = Game::new();
    assert_eq!(*game.state(), State::new());
    assert!(game.moves().is_empty());
}

#[test]
fn attacks_by_square_index() {
    let board = Board::new();
    for sq in 16..24u8 {
        assert!(board.is_attacked(sq, Color::White));
        assert!(!board.is_attacked(sq, Color::Black));
    }
    for sq in 24..40u8 {
        assert!(!board.is_attacked(sq, Color::White));
        assert!(!board.is_attacked(sq, Color::Black));
    }
    assert!(board.is_attacked(1, Color::White));
    assert!(!board.is_attacked(0, Color::White));
    assert!(board.is_attacked(52, Color::Black));
}
