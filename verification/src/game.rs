//! A game: the current position and the moves that led to it.

use vstd::prelude::*;
use crate::moves::Move;
use crate::rules::{
    lemma_initial_wf, lemma_legal_line_wf, lemma_make_unmake, lemma_play_history,
    lemma_pseudo_legal_valid,
};
use crate::state::{State, StateView};

verus! {

/// A game of chess in progress.
#[derive(Debug)]
pub struct Game {
    state: State,
    move_history: Vec<Move>,
}

impl Game {
    /// The current position.
    pub closed spec fn position(&self) -> StateView {
        self.state@
    }

    /// The moves made so far, first move first.
    pub closed spec fn line(&self) -> Seq<Move> {
        self.move_history@
    }

    /// The invariant of a game: its moves, made in order from the start, were
    /// each legal and lead to its position.
    pub closed spec fn wf(&self) -> bool {
        &&& self.state.board.wf()
        &&& StateView::initial().legal_line(self.move_history@)
        &&& self.state@ == StateView::initial().play(self.move_history@)
    }

    /// In a game the moves made were each legal, they lead from the start to
    /// the current position, and that position is one that a game can reach,
    /// with one record on its history for each move.
    pub proof fn lemma_wf(&self)
        requires
            self.wf(),
        ensures
            StateView::initial().legal_line(self.line()),
            self.position() == StateView::initial().play(self.line()),
            self.position().wf(),
            self.position().history.len() == self.line().len(),
    {
        lemma_initial_wf();
        lemma_legal_line_wf(StateView::initial(), self.move_history@);
        lemma_play_history(StateView::initial(), self.move_history@);
    }

    /// A game in which no move has been made.
    pub fn new() -> (r: Game)
        ensures
            r.wf(),
            r.position() == StateView::initial(),
            r.line() == Seq::<Move>::empty(),
    {
        Game { state: State::new(), move_history: Vec::new() }
    }

    /// The current position.
    pub fn state(&self) -> (r: &State)
        ensures
            r@ == self.position(),
            self.wf() ==> r.wf(),
    {
        proof {
            if self.wf() {
                self.lemma_wf();
            }
        }
        &self.state
    }

    /// The moves made so far, first move first.
    pub fn moves(&self) -> (r: &Vec<Move>)
        ensures
            r@ == self.line(),
    {
        &self.move_history
    }

    /// Makes the move `mv` if it is legal and neither counter of the position
    /// has reached the largest number that it can hold; says whether it did.
    pub fn play(&mut self, mv: &Move) -> (r: bool)
        requires
            old(self).wf(),
        ensures
            final(self).wf(),
            r == (old(self).position().legal(*mv) && old(self).position().halfmove_clock
                < usize::MAX && old(self).position().fullmove_number < usize::MAX),
            r ==> final(self).position() == old(self).position().make(*mv) && final(self).line()
                == old(self).line().push(*mv),
            !r ==> final(self).position() == old(self).position() && final(self).line() == old(
                self
            ).line(),
    {
        if self.state.halfmove_clock == usize::MAX || self.state.fullmove_number == usize::MAX {
            return false;
        }
        if !self.state.validate_move(mv) {
            return false;
        }
        proof {
            lemma_pseudo_legal_valid(self.state@, *mv);
        }
        self.state.make_move(mv);
        self.move_history.push(*mv);
        proof {
            assert(self.move_history@.drop_last() =~= old(self).move_history@);
        }
        true
    }

    /// Takes back the move made last and returns it; `None`, with the game
    /// unchanged, when no move has been made.
    pub fn undo(&mut self) -> (r: Option<Move>)
        requires
            old(self).wf(),
        ensures
            final(self).wf(),
            match r {
                Some(mv) => {
                    &&& old(self).line().len() > 0
                    &&& mv == old(self).line().last()
                    &&& final(self).line() == old(self).line().drop_last()
                    &&& old(self).position() == final(self).position().make(mv)
                },
                None => {
                    &&& old(self).line().len() == 0
                    &&& final(self).position() == old(self).position()
                    &&& final(self).line() == old(self).line()
                },
            },
    {
        let mv = match self.move_history.pop() {
            Some(mv) => mv,
            None => {
                return None;
            },
        };
        proof {
            let before = StateView::initial().play(self.move_history@);
            lemma_initial_wf();
            lemma_legal_line_wf(StateView::initial(), self.move_history@);
            lemma_pseudo_legal_valid(before, mv);
            lemma_make_unmake(before, mv);
        }
        self.state.unmake_move(&mv);
        Some(mv)
    }
}

} // verus!
