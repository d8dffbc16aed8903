use chess::moves::Move;
use chess::state::State;

fn perft(state: &State, depth: u32) -> u64 {
    if depth == 0 {
        return 1;
    }
    let moves = state.gen_legal_moves();
    if depth == 1 {
        return moves.len() as u64;
    }
    let mut nodes = 0;
    for (_, next) in moves.iter() {
        nodes += perft(next, depth - 1);
    }
    nodes
}

fn perft_in_place(state: &mut State, depth: u32) -> u64 {
    if depth == 0 {
        return 1;
    }
    let moves: Vec<Move> = state.gen_potential_legal_moves();
    let us = state.side_to_move;
    let mut nodes = 0;
    for mv in moves.iter() {
        let before = state.clone();
        state.make_move(mv);
        if state.is_king_safe(&us) {
            assert!(before.validate_move(mv));
            nodes += perft_in_place(state, depth - 1);
        } else {
            assert!(!before.validate_move(mv));
        }
        state.unmake_move(mv);
        assert_eq!(*state, before);
    }
    nodes
}

#[test]
fn perft_depth_1() {
    assert_eq!(perft(&State::new(), 1), 20);
}

#[test]
fn perft_depth_2() {
    assert_eq!(perft(&State::new(), 2), 400);
}

#[test]
fn perft_depth_3() {
    assert_eq!(perft(&State::new(), 3), 8_902);
}

#[test]
fn perft_depth_4() {
    assert_eq!(perft(&State::new(), 4), 197_281);
}

#[test]
fn perft_depth_5() {
    assert_eq!(perft(&State::new(), 5), 4_865_609);
}

#[test]
fn make_then_unmake_is_identity_to_depth_3() {
    let mut state = State::new();
    assert_eq!(perft_in_place(&mut state, 3), 8_902);
    assert_eq!(state, State::new());
}

#[test]
fn legal_moves_are_pseudo_legal_and_safe() {
    let mut frontier = vec![State::new()];
    for _ in 0..3 {
        let mut next_frontier = Vec::new();
        for state in frontier.iter() {
            let pseudo = state.gen_potential_legal_moves();
            let legal = state.gen_legal_moves();
            for (i, (mv, next)) in legal.iter().enumerate() {
                assert!(pseudo.contains(mv));
                assert!(next.is_king_safe(&state.side_to_move));
                assert_eq!(*next, state.make_move_copy(mv));
                assert!(legal[..i].iter().all(|(other, _)| other != mv));
                assert!(next.castling_rights.bits() & !state.castling_rights.bits() == 0);
            }
            for mv in pseudo.iter() {
                assert_eq!(
                    state.validate_move(mv),
                    legal.iter().any(|(other, _)| other == mv)
                );
            }
            if next_frontier.len() < 400 {
                next_frontier.extend(legal.into_iter().map(|(_, next)| next));
            }
        }
        frontier = next_frontier;
    }
}
