//! The running totals of one archive file.

use crate::detector::Outcome;
use vstd::prelude::*;

verus! {

/// A progress report is due each time this many games have been completed.
pub const REPORT_INTERVAL: usize = 100_000;

/// The totals as numbers: what a `GameStats` stands for.
pub struct Tally {
    /// Games completed.
    pub games: nat,
    /// Half-moves observed.
    pub sans: nat,
    /// Positions in which the motif was confirmed.
    pub ilvaticanos: nat,
    /// Positions that passed both filters.
    pub passed: nat,
}

impl Tally {
    /// The totals before anything was counted.
    pub open spec fn zero() -> Tally {
        Tally { games: 0, sans: 0, ilvaticanos: 0, passed: 0 }
    }

    /// No more confirmations than passes, no more passes than half-moves.
    pub open spec fn ordered(self) -> bool {
        self.ilvaticanos <= self.passed <= self.sans
    }

    /// The totals after one more half-move with the given outcome.
    pub open spec fn record(self, outcome: Outcome) -> Tally {
        Tally {
            games: self.games,
            sans: self.sans + 1,
            ilvaticanos: if outcome == Outcome::Confirmed {
                self.ilvaticanos + 1
            } else {
                self.ilvaticanos
            },
            passed: if outcome == Outcome::Skip {
                self.passed
            } else {
                self.passed + 1
            },
        }
    }

    /// The totals after one more completed game.
    pub open spec fn finish_game(self) -> Tally {
        Tally { games: self.games + 1, ..self }
    }

    /// Whether a progress report is due at these totals.
    pub open spec fn report_due(self) -> bool {
        self.games % (REPORT_INTERVAL as nat) == 0
    }

    /// No total of `self` is above that of `later`.
    pub open spec fn at_most(self, later: Tally) -> bool {
        &&& self.games <= later.games
        &&& self.sans <= later.sans
        &&& self.ilvaticanos <= later.ilvaticanos
        &&& self.passed <= later.passed
    }

    /// The totals after one more thing was counted.
    pub open spec fn note(self, counted: Counted) -> Tally {
        match counted {
            Counted::HalfMove(outcome) => self.record(outcome),
            Counted::Game => self.finish_game(),
        }
    }

    /// The totals after all of `run` was counted, in its order.
    pub open spec fn note_all(self, run: Seq<Counted>) -> Tally
        decreases run.len(),
    {
        if run.len() == 0 {
            self
        } else {
            self.note_all(run.drop_last()).note(run.last())
        }
    }
}

/// What the totals count: a half-move of a mainline with what the detector
/// said of the position before it, or the end of a game.
pub enum Counted {
    HalfMove(Outcome),
    Game,
}

impl Counted {
    /// One for a completed game.
    pub open spec fn game(self) -> nat {
        if self is Game {
            1
        } else {
            0
        }
    }

    /// One for a half-move.
    pub open spec fn half_move(self) -> nat {
        if self is HalfMove {
            1
        } else {
            0
        }
    }

    /// One for a half-move whose position passed both filters.
    pub open spec fn pass(self) -> nat {
        if self matches Counted::HalfMove(outcome) && outcome != Outcome::Skip {
            1
        } else {
            0
        }
    }

    /// One for a half-move in whose position the motif was confirmed.
    pub open spec fn confirmation(self) -> nat {
        if self == Counted::HalfMove(Outcome::Confirmed) {
            1
        } else {
            0
        }
    }
}

/// The sum of `weight` over a run.
pub open spec fn sum_over(run: Seq<Counted>, weight: spec_fn(Counted) -> nat) -> nat
    decreases run.len(),
{
    if run.len() == 0 {
        0
    } else {
        sum_over(run.drop_last(), weight) + weight(run.last())
    }
}

/// Every half-move is counted exactly once, whatever the detector said of it;
/// it adds at most one pass and at most one confirmation, never a
/// confirmation without a pass, and leaves the games alone. Ordered totals
/// stay ordered and no total falls.
pub proof fn lemma_record_step(tally: Tally, outcome: Outcome)
    requires
        tally.ordered(),
    ensures
        tally.record(outcome).sans == tally.sans + 1,
        tally.record(outcome).games == tally.games,
        tally.record(outcome).passed == tally.passed + if outcome == Outcome::Skip {
            0nat
        } else {
            1nat
        },
        tally.record(outcome).ilvaticanos == tally.ilvaticanos + if outcome == Outcome::Confirmed {
            1nat
        } else {
            0nat
        },
        tally.record(outcome).ordered(),
        tally.at_most(tally.record(outcome)),
{
}

/// Every completed game is counted exactly once, and nothing else changes.
/// Ordered totals stay ordered and no total falls.
pub proof fn lemma_finish_game_step(tally: Tally)
    requires
        tally.ordered(),
    ensures
        tally.finish_game().games == tally.games + 1,
        tally.finish_game().sans == tally.sans,
        tally.finish_game().passed == tally.passed,
        tally.finish_game().ilvaticanos == tally.ilvaticanos,
        tally.finish_game().ordered(),
        tally.at_most(tally.finish_game()),
{
}

/// Over any run of half-moves and completed games, in any order: each total
/// grows by the number of things in the run that it counts, so each game is
/// counted once, with or without half-moves in it, and each half-move once;
/// ordered totals stay ordered and no total falls.
pub proof fn lemma_note_all(tally: Tally, run: Seq<Counted>)
    requires
        tally.ordered(),
    ensures
        tally.note_all(run).games == tally.games + sum_over(run, |c: Counted| c.game()),
        tally.note_all(run).sans == tally.sans + sum_over(run, |c: Counted| c.half_move()),
        tally.note_all(run).passed == tally.passed + sum_over(run, |c: Counted| c.pass()),
        tally.note_all(run).ilvaticanos == tally.ilvaticanos + sum_over(
            run,
            |c: Counted| c.confirmation(),
        ),
        tally.note_all(run).ordered(),
        tally.at_most(tally.note_all(run)),
    decreases run.len(),
{
    if run.len() > 0 {
        let before = tally.note_all(run.drop_last());
        lemma_note_all(tally, run.drop_last());
        match run.last() {
            Counted::HalfMove(outcome) => lemma_record_step(before, outcome),
            Counted::Game => lemma_finish_game_step(before),
        }
    }
}

/// Totals that start at zero are ordered after any run of half-moves and
/// completed games.
pub proof fn lemma_ordered_from_zero(run: Seq<Counted>)
    ensures
        Tally::zero().note_all(run).ordered(),
{
    lemma_note_all(Tally::zero(), run);
}

/// The counters of one archive file: games completed, half-moves observed,
/// positions that passed both filters and positions with the motif confirmed.
#[derive(Clone, Copy, Debug)]
pub struct GameStats {
    games: usize,
    sans: usize,
    ilvaticanos: usize,
    passed: usize,
}

impl View for GameStats {
    type V = Tally;

    closed spec fn view(&self) -> Tally {
        Tally {
            games: self.games as nat,
            sans: self.sans as nat,
            ilvaticanos: self.ilvaticanos as nat,
            passed: self.passed as nat,
        }
    }
}

impl GameStats {
    /// Holds of every `GameStats` there is: no more confirmations than
    /// passes, no more passes than half-moves.
    #[verifier::type_invariant]
    pub open spec fn ordered(self) -> bool {
        self@.ordered()
    }

    /// Counters at zero.
    pub fn new() -> (stats: GameStats)
        ensures
            stats@ == Tally::zero(),
    {
        GameStats { games: 0, sans: 0, ilvaticanos: 0, passed: 0 }
    }

    /// Games completed.
    pub fn games(&self) -> (n: usize)
        ensures
            n == self@.games,
    {
        self.games
    }

    /// Half-moves observed.
    pub fn sans(&self) -> (n: usize)
        ensures
            n == self@.sans,
            self@.ordered(),
    {
        proof {
            use_type_invariant(self);
        }
        self.sans
    }

    /// Positions in which the motif was confirmed.
    pub fn ilvaticanos(&self) -> (n: usize)
        ensures
            n == self@.ilvaticanos,
            self@.ordered(),
    {
        proof {
            use_type_invariant(self);
        }
        self.ilvaticanos
    }

    /// Positions that passed both filters.
    pub fn passed(&self) -> (n: usize)
        ensures
            n == self@.passed,
            self@.ordered(),
    {
        proof {
            use_type_invariant(self);
        }
        self.passed
    }

    /// Counts one half-move with the outcome that the detector gave for the
    /// position before it.
    pub fn record(&mut self, outcome: Outcome)
        requires
            old(self)@.sans < usize::MAX,
        ensures
            final(self)@ == old(self)@.record(outcome),
            final(self)@.ordered(),
            old(self)@.at_most(final(self)@),
    {
        proof {
            use_type_invariant(&*self);
        }
        self.sans = self.sans + 1;
        match outcome {
            Outcome::Skip => {},
            Outcome::PassOnly => {
                self.passed = self.passed + 1;
            },
            Outcome::Confirmed => {
                self.passed = self.passed + 1;
                self.ilvaticanos = self.ilvaticanos + 1;
            },
        }
    }

    /// Counts one completed game and says whether a progress report is due.
    pub fn finish_game(&mut self) -> (due: bool)
        requires
            old(self)@.games < usize::MAX,
        ensures
            final(self)@ == old(self)@.finish_game(),
            due == final(self)@.report_due(),
            final(self)@.ordered(),
            old(self)@.at_most(final(self)@),
    {
        proof {
            use_type_invariant(&*self);
        }
        self.games = self.games + 1;
        self.games % REPORT_INTERVAL == 0
    }
}

} // verus!
