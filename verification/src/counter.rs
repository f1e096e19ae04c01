//! The game visitor: follows the mainline of each game move by move, asks the
//! detector about every position before its move is played, and keeps the
//! totals.

use crate::detector::{detect, verdict};
use crate::position::{
    is_starting_position, play, playable, position_after, resolution, resolve, starting_position,
};
use crate::stats::{lemma_record_step, GameStats, Tally};
use vstd::prelude::*;

verus! {

/// A move token that names no legal move of the position it was played in.
/// Nothing recovers from it: the run ends.
#[derive(Clone, Copy, Debug, PartialEq, Eq, Structural)]
pub struct IllegalMoveFault {}

/// What an `IlVaticanoCounter` stands for: the totals so far and the position
/// of the game in progress.
pub struct CounterView {
    pub stats: Tally,
    pub pos: shakmaty::Chess,
}

impl CounterView {
    /// Whether the textual move names a legal move of the position on the
    /// board.
    pub open spec fn accepts(self, san: shakmaty::san::SanPlus) -> bool {
        resolution(self.pos, san) is Some
    }

    /// The state after one half-move of the mainline: the position as it
    /// stood is judged and counted, then the move is played. A token that
    /// names no legal move is counted and leaves the position as it is.
    pub open spec fn after_san(self, san: shakmaty::san::SanPlus) -> CounterView {
        CounterView {
            stats: self.stats.record(verdict(self.pos)),
            pos: match resolution(self.pos, san) {
                Some(m) => position_after(self.pos, m),
                None => self.pos,
            },
        }
    }

    /// The state after the end of a game.
    pub open spec fn after_end_game(self) -> CounterView {
        CounterView { stats: self.stats.finish_game(), pos: self.pos }
    }

    /// The state after the half-moves of a line, in their order.
    pub open spec fn after_line(self, line: Seq<shakmaty::san::SanPlus>) -> CounterView
        decreases line.len(),
    {
        if line.len() == 0 {
            self
        } else {
            self.after_line(line.drop_last()).after_san(line.last())
        }
    }
}

/// Over any line the half-moves grow by the length of the line, whatever the
/// detector says of its positions and whether or not its tokens name legal
/// moves; the games stay, ordered totals stay ordered and no total falls.
pub proof fn lemma_line_totals(view: CounterView, line: Seq<shakmaty::san::SanPlus>)
    requires
        view.stats.ordered(),
    ensures
        view.after_line(line).stats.sans == view.stats.sans + line.len(),
        view.after_line(line).stats.games == view.stats.games,
        view.after_line(line).stats.ordered(),
        view.stats.at_most(view.after_line(line).stats),
    decreases line.len(),
{
    if line.len() > 0 {
        let before = view.after_line(line.drop_last());
        lemma_line_totals(view, line.drop_last());
        lemma_record_step(before.stats, verdict(before.pos));
    }
}

/// Tracks the position of the game in progress and counts, over all games,
/// the half-moves, the positions that passed the filters and those in which
/// the motif was confirmed.
#[derive(Debug)]
pub struct IlVaticanoCounter {
    stats: GameStats,
    pos: shakmaty::Chess,
}

impl View for IlVaticanoCounter {
    type V = CounterView;

    closed spec fn view(&self) -> CounterView {
        CounterView { stats: self.stats@, pos: self.pos }
    }
}

impl IlVaticanoCounter {
    /// The position on the board is one that the rules engine stands for.
    pub open spec fn wf(&self) -> bool {
        playable(self@.pos)
    }

    /// Counters at zero, and the starting position on the board.
    pub fn new() -> (counter: IlVaticanoCounter)
        ensures
            counter.wf(),
            counter@.stats == Tally::zero(),
            is_starting_position(counter@.pos),
    {
        IlVaticanoCounter { stats: GameStats::new(), pos: starting_position() }
    }

    /// The totals so far.
    pub fn stats(&self) -> (stats: GameStats)
        ensures
            stats@ == self@.stats,
            stats@.ordered(),
    {
        proof {
            use_type_invariant(&self.stats);
        }
        self.stats
    }

    /// The position of the game in progress.
    pub fn position(&self) -> (pos: &shakmaty::Chess)
        ensures
            *pos == self@.pos,
    {
        &self.pos
    }

    /// A game begins: the starting position replaces whatever stood on the
    /// board. The totals stay.
    pub fn begin_game(&mut self)
        ensures
            final(self).wf(),
            final(self)@.stats == old(self)@.stats,
            is_starting_position(final(self)@.pos),
    {
        self.pos = starting_position();
    }

    /// Resolves a move token in the position on the board and plays the move
    /// that it names. Where it names none, the position stays as it is.
    pub fn make_move(&mut self, san: shakmaty::san::SanPlus) -> (played: Result<
        (),
        IllegalMoveFault,
    >)
        requires
            old(self).wf(),
        ensures
            final(self).wf(),
            final(self)@.stats == old(self)@.stats,
            played is Ok <==> old(self)@.accepts(san),
            final(self)@.pos == old(self)@.after_san(san).pos,
    {
        match resolve(&self.pos, &san) {
            Ok(m) => {
                play(&mut self.pos, &m);
                Ok(())
            },
            Err(_) => Err(IllegalMoveFault {  }),
        }
    }

    /// One half-move of the mainline: counts it, asks the detector about the
    /// position before the move, counts what it said, and then plays the
    /// move. A token that names no legal move is counted like any other
    /// before it is refused.
    pub fn san(&mut self, san: shakmaty::san::SanPlus) -> (played: Result<(), IllegalMoveFault>)
        requires
            old(self).wf(),
            old(self)@.stats.sans < usize::MAX,
        ensures
            final(self).wf(),
            final(self)@ == old(self)@.after_san(san),
            played is Ok <==> old(self)@.accepts(san),
            final(self)@.stats.sans == old(self)@.stats.sans + 1,
            final(self)@.stats.ordered(),
            old(self)@.stats.at_most(final(self)@.stats),
    {
        let outcome = detect(&self.pos);
        self.stats.record(outcome);
        self.make_move(san)
    }

    /// A side line begins: it is never entered. Nothing is counted and the
    /// position stays as it is.
    pub fn begin_variation(&mut self) -> (skip: bool)
        ensures
            skip,
            final(self)@ == old(self)@,
    {
        true
    }

    /// A game ends: counts it and says whether a progress report is due.
    pub fn end_game(&mut self) -> (due: bool)
        requires
            old(self)@.stats.games < usize::MAX,
        ensures
            final(self)@ == old(self)@.after_end_game(),
            final(self)@.stats.games == old(self)@.stats.games + 1,
            due == final(self)@.stats.report_due(),
            final(self)@.stats.ordered(),
            old(self)@.stats.at_most(final(self)@.stats),
    {
        self.stats.finish_game()
    }
}

} // verus!
