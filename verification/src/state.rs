//! The mutable record of a game in progress: score, inning, bases, count,
//! lineup positions and outcome, together with the spec-level views that the
//! contracts of the simulation speak about.

use vstd::prelude::*;

verus! {

/// A position a runner can occupy or move toward. `Batting` stands for the
/// batter's box, `Home` for home plate.
#[derive(Copy, Clone, PartialEq, Eq, Structural, Debug)]
pub enum Base {
    Batting,
    First,
    Second,
    Third,
    Home,
}

impl Base {
    /// Distance of this position from the batter's box, for comparing bases.
    pub open spec fn spec_idx(self) -> int {
        match self {
            Base::Batting => 0,
            Base::First => 1,
            Base::Second => 2,
            Base::Third => 3,
            Base::Home => 4,
        }
    }

    /// The position at the given distance from the batter's box.
    pub open spec fn from_idx(i: int) -> Base {
        if i <= 0 {
            Base::Batting
        } else if i == 1 {
            Base::First
        } else if i == 2 {
            Base::Second
        } else if i == 3 {
            Base::Third
        } else {
            Base::Home
        }
    }

    pub fn idx(&self) -> (r: u8)
        ensures
            r == self.spec_idx(),
    {
        match self {
            Base::Batting => 0,
            Base::First => 1,
            Base::Second => 2,
            Base::Third => 3,
            Base::Home => 4,
        }
    }

    /// The next base toward home plate, if any.
    pub fn next(&self) -> (r: Option<Base>)
        ensures
            r == (if self.spec_idx() < 4 {
                Some(Base::from_idx(self.spec_idx() + 1))
            } else {
                None::<Base>
            }),
    {
        match self {
            Base::Batting => Some(Base::First),
            Base::First => Some(Base::Second),
            Base::Second => Some(Base::Third),
            Base::Third => Some(Base::Home),
            Base::Home => None,
        }
    }

    /// The previous base toward the batter's box, if any.
    pub fn prev(&self) -> (r: Option<Base>)
        ensures
            r == (if self.spec_idx() > 0 {
                Some(Base::from_idx(self.spec_idx() - 1))
            } else {
                None::<Base>
            }),
    {
        match self {
            Base::Batting => None,
            Base::First => Some(Base::Batting),
            Base::Second => Some(Base::First),
            Base::Third => Some(Base::Second),
            Base::Home => Some(Base::Third),
        }
    }

    /// The base the given number of bases ahead, or `None` past home plate.
    pub fn plus(&self, bases: u8) -> (r: Option<Base>)
        ensures
            r == (if self.spec_idx() + bases <= 4 {
                Some(Base::from_idx(self.spec_idx() + bases))
            } else {
                None::<Base>
            }),
        decreases bases,
    {
        if bases == 0 {
            Some(*self)
        } else {
            match self.next() {
                Some(base) => base.plus(bases - 1),
                None => None,
            }
        }
    }

    /// The base the given number of bases behind, or `None` before the
    /// batter's box.
    pub fn minus(&self, bases: u8) -> (r: Option<Base>)
        ensures
            r == (if self.spec_idx() - bases >= 0 {
                Some(Base::from_idx(self.spec_idx() - bases))
            } else {
                None::<Base>
            }),
        decreases bases,
    {
        if bases == 0 {
            Some(*self)
        } else {
            match self.prev() {
                Some(base) => base.minus(bases - 1),
                None => None,
            }
        }
    }
}

/// One team's turn at bat: the inning number and whether the visiting team is
/// batting (the top half).
#[derive(Copy, Clone, PartialEq, Eq, Structural, Debug)]
pub struct HalfInning {
    pub number: u8,
    pub top: bool,
}

impl HalfInning {
    /// The half-inning that follows this one: the bottom of the same inning
    /// after a top half, the top of the next inning after a bottom half.
    pub fn next(&self) -> (r: HalfInning)
        requires
            self.number < 255,
        ensures
            r == (if self.top {
                HalfInning { number: self.number, top: false }
            } else {
                HalfInning { number: (self.number + 1) as u8, top: true }
            }),
    {
        match self.top {
            true => HalfInning { number: self.number, top: false },
            false => HalfInning { number: self.number + 1, top: true },
        }
    }
}

/// The spec-level image of `Bases`: each slot holds the occupying runner's
/// name as a sequence of characters.
#[verifier::ext_equal]
pub struct BasesView {
    pub first: Option<Seq<char>>,
    pub second: Option<Seq<char>>,
    pub third: Option<Seq<char>>,
}

impl BasesView {
    /// All three bases empty.
    pub open spec fn empty() -> BasesView {
        BasesView { first: None, second: None, third: None }
    }

    /// How many of the three bases are occupied.
    pub open spec fn occupied_count(self) -> int {
        (if self.first is Some { 1int } else { 0int })
            + (if self.second is Some { 1int } else { 0int })
            + (if self.third is Some { 1int } else { 0int })
    }

    /// Whether all three bases are occupied.
    pub open spec fn loaded(self) -> bool {
        self.first is Some && self.second is Some && self.third is Some
    }

    /// The slot for the given base; `Batting` and `Home` hold no runner.
    pub open spec fn slot(self, base: Base) -> Option<Seq<char>> {
        match base {
            Base::First => self.first,
            Base::Second => self.second,
            Base::Third => self.third,
            _ => None,
        }
    }
}

/// The three bases, each holding at most one runner's name.
#[derive(Debug)]
pub struct Bases {
    pub first: Option<String>,
    pub second: Option<String>,
    pub third: Option<String>,
}

impl Clone for Bases {
    /// A clone of the bases shows the same runners.
    fn clone(&self) -> (r: Bases)
        ensures
            r@ == self@,
    {
        Bases {
            first: match &self.first {
                Some(name) => Some(name.clone()),
                None => None,
            },
            second: match &self.second {
                Some(name) => Some(name.clone()),
                None => None,
            },
            third: match &self.third {
                Some(name) => Some(name.clone()),
                None => None,
            },
        }
    }
}

impl View for Bases {
    type V = BasesView;

    open spec fn view(&self) -> BasesView {
        BasesView {
            first: match self.first {
                Some(name) => Some(name@),
                None => None,
            },
            second: match self.second {
                Some(name) => Some(name@),
                None => None,
            },
            third: match self.third {
                Some(name) => Some(name@),
                None => None,
            },
        }
    }
}

impl Bases {
    pub fn empty() -> (r: Bases)
        ensures
            r@ == BasesView::empty(),
    {
        Bases { first: None, second: None, third: None }
    }

    /// Whether all three bases are occupied.
    pub fn are_loaded(&self) -> (r: bool)
        ensures
            r == self@.loaded(),
    {
        self.first.is_some() && self.second.is_some() && self.third.is_some()
    }
}

/// The running tally of balls and strikes within one plate appearance.
#[derive(Copy, Clone, PartialEq, Eq, Structural, Debug)]
pub struct Count {
    pub balls: u8,
    pub strikes: u8,
}

impl Count {
    pub fn empty() -> (r: Count)
        ensures
            r == (Count { balls: 0u8, strikes: 0u8 }),
    {
        Count { balls: 0, strikes: 0 }
    }

    /// Whether no pitch of the plate appearance has been recorded yet.
    pub fn is_empty(&self) -> (r: bool)
        ensures
            r == (self.balls == 0 && self.strikes == 0),
    {
        self.balls == 0 && self.strikes == 0
    }

    /// Whether the count has reached three balls and two strikes.
    pub fn is_full(&self) -> (r: bool)
        ensures
            r == (self.balls == 3 && self.strikes == 2),
    {
        self.balls == 3 && self.strikes == 2
    }
}

/// Whether the game is over and, if so, who won.
#[derive(Copy, Clone, PartialEq, Eq, Structural, Debug)]
pub enum GameOutcome {
    HomeTeamWins,
    VisitingTeamWins,
    Ongoing,
}

/// The spec-level image of `GameState`, with unbounded integers.
#[verifier::ext_equal]
pub struct GameStateView {
    pub home_team_runs: int,
    pub visiting_team_runs: int,
    pub inning: int,
    pub top: bool,
    pub last_inning_just_ended: bool,
    pub bases: BasesView,
    pub outs: int,
    pub balls: int,
    pub strikes: int,
    pub game_outcome: GameOutcome,
    pub home_team_batter_index: int,
    pub visiting_team_batter_index: int,
}

impl GameStateView {
    /// The state a game starts in.
    pub open spec fn initial() -> GameStateView {
        GameStateView {
            home_team_runs: 0,
            visiting_team_runs: 0,
            inning: 1,
            top: true,
            last_inning_just_ended: false,
            bases: BasesView::empty(),
            outs: 0,
            balls: 0,
            strikes: 0,
            game_outcome: GameOutcome::Ongoing,
            home_team_batter_index: 0,
            visiting_team_batter_index: 0,
        }
    }

    /// The outcome rule, evaluated after every pitch. Before the ninth inning
    /// the game is always ongoing; in the bottom of the ninth a home-team lead
    /// wins at once (a walk-off); past the ninth the visiting team wins in the
    /// top half when it leads and the previous half-inning just ended.
    pub open spec fn outcome(self) -> GameOutcome {
        if self.inning < 9 {
            GameOutcome::Ongoing
        } else if self.inning == 9 && !self.top && self.home_team_runs > self.visiting_team_runs {
            GameOutcome::HomeTeamWins
        } else if self.inning > 9 && self.top && self.visiting_team_runs > self.home_team_runs
            && self.last_inning_just_ended {
            GameOutcome::VisitingTeamWins
        } else {
            GameOutcome::Ongoing
        }
    }

    /// The lineup index of the team now at bat: the visiting team bats in the
    /// top half, the home team in the bottom half.
    pub open spec fn batting_index(self) -> int {
        if self.top {
            self.visiting_team_batter_index
        } else {
            self.home_team_batter_index
        }
    }

    /// The run total of the team now at bat.
    pub open spec fn batting_runs(self) -> int {
        if self.top {
            self.visiting_team_runs
        } else {
            self.home_team_runs
        }
    }

    /// The run total of the team now in the field.
    pub open spec fn fielding_runs(self) -> int {
        if self.top {
            self.home_team_runs
        } else {
            self.visiting_team_runs
        }
    }
}

/// The mutable record of the game: score, half-inning, bases, outs, count,
/// lineup positions and outcome. Created once at game start and mutated in
/// place by every pitch.
#[derive(Clone, Debug)]
pub struct GameState {
    pub home_team_runs: u8,
    pub visiting_team_runs: u8,
    pub half_inning: HalfInning,
    pub last_inning_just_ended: bool,
    pub bases: Bases,
    pub outs: u8,
    pub count: Count,
    pub game_outcome: GameOutcome,
    pub home_team_batter_index: usize,
    pub visiting_team_batter_index: usize,
}

impl View for GameState {
    type V = GameStateView;

    open spec fn view(&self) -> GameStateView {
        GameStateView {
            home_team_runs: self.home_team_runs as int,
            visiting_team_runs: self.visiting_team_runs as int,
            inning: self.half_inning.number as int,
            top: self.half_inning.top,
            last_inning_just_ended: self.last_inning_just_ended,
            bases: self.bases@,
            outs: self.outs as int,
            balls: self.count.balls as int,
            strikes: self.count.strikes as int,
            game_outcome: self.game_outcome,
            home_team_batter_index: self.home_team_batter_index as int,
            visiting_team_batter_index: self.visiting_team_batter_index as int,
        }
    }
}

impl GameState {
    /// The invariant that holds of the state between pitches: at most two
    /// outs, a live count, a started inning, and lineup indices within the
    /// nine-slot batting order.
    pub open spec fn wf(self) -> bool {
        &&& self.outs < 3
        &&& self.count.balls < 4
        &&& self.count.strikes < 3
        &&& self.half_inning.number >= 1
        &&& self.home_team_batter_index < 9
        &&& self.visiting_team_batter_index < 9
    }

    pub fn start_of_game() -> (r: GameState)
        ensures
            r.wf(),
            r@ == GameStateView::initial(),
    {
        let r = Self::start_of_game_inner();
        proof {
            assert(r@ =~= GameStateView::initial());
        }
        r
    }

    fn start_of_game_inner() -> (r: GameState)
        ensures
            r.wf(),
            r@.home_team_runs == 0,
            r@.visiting_team_runs == 0,
            r@.inning == 1,
            r@.top,
            !r@.last_inning_just_ended,
            r@.bases == BasesView::empty(),
            r@.outs == 0,
            r@.balls == 0,
            r@.strikes == 0,
            r@.game_outcome == GameOutcome::Ongoing,
            r@.home_team_batter_index == 0,
            r@.visiting_team_batter_index == 0,
    {
        GameState {
            home_team_runs: 0,
            visiting_team_runs: 0,
            half_inning: HalfInning { number: 1, top: true },
            last_inning_just_ended: false,
            bases: Bases::empty(),
            outs: 0,
            count: Count::empty(),
            game_outcome: GameOutcome::Ongoing,
            home_team_batter_index: 0,
            visiting_team_batter_index: 0,
        }
    }

    /// Ends the half-inning: the bases, the outs and the count are reset, the
    /// half-inning moves on, and the consumed-once flag for the outcome rule
    /// is set. Everything else stands.
    pub fn cycle_half_inning(&mut self)
        requires
            old(self).half_inning.number < 255,
        ensures
            final(self)@.inning == old(self)@.inning + (if old(self)@.top { 0int } else { 1int }),
            final(self)@.top == !old(self)@.top,
            final(self)@.bases == BasesView::empty(),
            final(self)@.outs == 0,
            final(self)@.balls == 0,
            final(self)@.strikes == 0,
            final(self)@.last_inning_just_ended,
            final(self)@.home_team_runs == old(self)@.home_team_runs,
            final(self)@.visiting_team_runs == old(self)@.visiting_team_runs,
            final(self)@.game_outcome == old(self)@.game_outcome,
            final(self)@.home_team_batter_index == old(self)@.home_team_batter_index,
            final(self)@.visiting_team_batter_index == old(self)@.visiting_team_batter_index,
    {
        self.half_inning = self.half_inning.next();
        self.bases = Bases::empty();
        self.outs = 0;
        self.count = Count::empty();
        self.last_inning_just_ended = true;
    }
}

/// Law: a home-team walk-off stands under the rule itself. Once the outcome
/// rule awards the game to the home team, any further pitch within the same
/// half-inning — which can only add runs for the home team, the side at bat —
/// leaves the award in place. (Beyond this, the game driver latches the
/// stored outcome: a decided game is never re-evaluated at all.)
pub proof fn lemma_walk_off_stands(s: GameStateView, t: GameStateView)
    requires
        s.outcome() == GameOutcome::HomeTeamWins,
        t.inning == s.inning,
        t.top == s.top,
        t.home_team_runs >= s.home_team_runs,
        t.visiting_team_runs == s.visiting_team_runs,
    ensures
        t.outcome() == GameOutcome::HomeTeamWins,
{
}

} // verus!
