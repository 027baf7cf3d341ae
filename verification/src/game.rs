//! The game driver: the teams, the roster, the random source, and the
//! pitch-by-pitch simulation entry points.

use crate::advance::{advs_view, apply_advs, has_dest, home_run_advs, lemma_apply_advs_effects, lemma_apply_walk, lemma_dest_entry, lemma_walk_advancements, no_base_collision, walk_advs, RunnerAdvancement};
use crate::fielding::{event_names_ok, fielding_event_ok, forced_chain_ok, lemma_event_apply, name_in_event, no_leapfrog, outcome_of_dest, FieldLocation};
use crate::player::{PlayerMap, Team};
use crate::rng::{bernoulli, draw_below, rng_from_seed};
use crate::state::{Base, Bases, BasesView, Count, GameOutcome, GameState, GameStateView, HalfInning};
use vstd::prelude::*;

verus! {

/// Where a pitch is aimed or lands: inside or outside the strike zone.
#[derive(Copy, Clone, PartialEq, Eq, Structural, Debug)]
pub enum StrikeZoneLocation {
    In,
    Out,
}

/// What the batter does with a pitch.
#[derive(Copy, Clone, PartialEq, Eq, Structural, Debug)]
pub enum BatterDecision {
    Swing,
    Take,
}

/// How a single pitch resolves before any baserunning.
#[derive(Copy, Clone, PartialEq, Eq, Structural, Debug)]
pub enum BattingOutcome {
    Strike,
    Ball,
    Hit { to_field_location: FieldLocation },
}

/// How a whole plate appearance concludes.
#[derive(Copy, Clone, PartialEq, Eq, Structural, Debug)]
pub enum AtBatOutcome {
    Strikeout,
    Walk,
    Single,
    Double,
    Triple,
    HomeRun,
    Out,
}

/// A read-only snapshot of the game for display: the score and situation,
/// with the current batter and pitcher resolved to names.
#[derive(Clone, Debug)]
pub struct GameStateSummary {
    pub home_team_runs: u8,
    pub visiting_team_runs: u8,
    pub half_inning: HalfInning,
    pub bases: Bases,
    pub outs: u8,
    pub count: Count,
    pub batter: String,
    pub pitcher: String,
}

/// What one simulated pitch did, returned to the caller.
#[derive(Clone, Debug)]
pub struct EventsSummary {
    pub pitch_location: StrikeZoneLocation,
    pub batter_decision: BatterDecision,
    pub batting_outcome: BattingOutcome,
    pub at_bat_outcome: Option<AtBatOutcome>,
    pub runner_advancements: Vec<RunnerAdvancement>,
    pub game_outcome: GameOutcome,
}

/// One game in progress: the state, the two teams, the roster they draw
/// from, and the seeded random source that resolves every pitch.
pub struct BaseballGame {
    pub rng: rand::rngs::StdRng,
    pub state: GameState,
    pub all_players: PlayerMap,
    pub home_team: Team,
    pub visiting_team: Team,
}

impl BaseballGame {
    /// Every runner on base is on the roster.
    pub open spec fn bases_on_roster(self) -> bool {
        &&& (self.state.bases@.first matches Some(n) ==> self.all_players.contains_name(n))
        &&& (self.state.bases@.second matches Some(n) ==> self.all_players.contains_name(n))
        &&& (self.state.bases@.third matches Some(n) ==> self.all_players.contains_name(n))
    }

    /// The game's invariant: a well-formed state, a roster with distinct
    /// names, both teams drawn from it, and only rostered runners on base.
    pub open spec fn wf(self) -> bool {
        &&& self.state.wf()
        &&& self.all_players.wf()
        &&& self.home_team.roster_on(self.all_players)
        &&& self.visiting_team.roster_on(self.all_players)
        &&& self.bases_on_roster()
    }

    /// Starts a game between the two teams. The seed fixes every random draw,
    /// so one seed replays one game pitch for pitch.
    pub fn new(all_players: PlayerMap, home_team: Team, visiting_team: Team, seed: u64) -> (r:
        BaseballGame)
        requires
            all_players.wf(),
            home_team.roster_on(all_players),
            visiting_team.roster_on(all_players),
        ensures
            r.wf(),
            r.state@ == GameStateView::initial(),
            r.all_players == all_players,
            r.home_team == home_team,
            r.visiting_team == visiting_team,
    {
        BaseballGame {
            rng: rng_from_seed(seed),
            state: GameState::start_of_game(),
            all_players,
            home_team,
            visiting_team,
        }
    }

    /// The home team bats in the bottom half of each inning.
    pub fn home_team_is_at_bat(&self) -> (r: bool)
        ensures
            r == !self.state.half_inning.top,
    {
        !self.state.half_inning.top
    }

    /// The advancement list of a walk: the batter to first and the unbroken
    /// chain of forced runners ahead each up one base.
    pub fn walk_advancements(&self, batter_name: &String) -> (r: Vec<RunnerAdvancement>)
        ensures
            advs_view(r@) == walk_advs(self.state.bases@, batter_name@),
    {
        let mut advs: Vec<RunnerAdvancement> = Vec::new();
        advs.push(
            RunnerAdvancement {
                name: batter_name.clone(),
                from_base: Base::Batting,
                to_base: Some(Base::First),
            },
        );
        if let Some(runner) = &self.state.bases.first {
            advs.push(
                RunnerAdvancement {
                    name: runner.clone(),
                    from_base: Base::First,
                    to_base: Some(Base::Second),
                },
            );
            if let Some(runner) = &self.state.bases.second {
                advs.push(
                    RunnerAdvancement {
                        name: runner.clone(),
                        from_base: Base::Second,
                        to_base: Some(Base::Third),
                    },
                );
                if let Some(runner) = &self.state.bases.third {
                    advs.push(
                        RunnerAdvancement {
                            name: runner.clone(),
                            from_base: Base::Third,
                            to_base: Some(Base::Home),
                        },
                    );
                }
            }
        }
        proof {
            assert(advs_view(advs@) =~= walk_advs(self.state.bases@, batter_name@));
        }
        advs
    }

    /// Evaluates the outcome rule on the current state.
    fn game_outcome(&self) -> (r: GameOutcome)
        ensures
            r == self.state@.outcome(),
    {
        // first eight innings
        if self.state.half_inning.number < 9 {
            return GameOutcome::Ongoing;
        }
        // walk-offs
        if self.state.half_inning.number == 9 && !self.state.half_inning.top {
            if self.state.home_team_runs > self.state.visiting_team_runs {
                return GameOutcome::HomeTeamWins;
            }
        }
        // extra innings
        if self.state.half_inning.number > 9 && self.state.half_inning.top
            && self.state.visiting_team_runs > self.state.home_team_runs
            && self.state.last_inning_just_ended {
            return GameOutcome::VisitingTeamWins;
        }
        GameOutcome::Ongoing
    }

    /// A read-only snapshot of the game, with the batter due up and the
    /// pitcher facing them resolved from the lineups.
    pub fn state_summary(&self) -> (r: GameStateSummary)
        requires
            self.wf(),
        ensures
            r.home_team_runs == self.state.home_team_runs,
            r.visiting_team_runs == self.state.visiting_team_runs,
            r.half_inning == self.state.half_inning,
            r.bases@ == self.state.bases@,
            r.outs == self.state.outs,
            r.count == self.state.count,
            r.batter@ == (if self.state.half_inning.top {
                self.visiting_team.batting_order@[self.state@.visiting_team_batter_index]@
            } else {
                self.home_team.batting_order@[self.state@.home_team_batter_index]@
            }),
            r.pitcher@ == (if self.state.half_inning.top {
                self.home_team.current_pitcher@
            } else {
                self.visiting_team.current_pitcher@
            }),
    {
        let batter_name = if self.state.half_inning.top {
            self.visiting_team.batting_order[self.state.visiting_team_batter_index].clone()
        } else {
            self.home_team.batting_order[self.state.home_team_batter_index].clone()
        };
        let pitcher_name = if self.state.half_inning.top {
            self.home_team.current_pitcher.clone()
        } else {
            self.visiting_team.current_pitcher.clone()
        };
        GameStateSummary {
            home_team_runs: self.state.home_team_runs,
            visiting_team_runs: self.state.visiting_team_runs,
            half_inning: self.state.half_inning.clone(),
            bases: self.state.bases.clone(),
            outs: self.state.outs,
            count: self.state.count.clone(),
            batter: batter_name,
            pitcher: pitcher_name,
        }
    }
}

impl StrikeZoneLocation {
    /// The other location: a missed aim lands on the opposite side.
    pub open spec fn opposite(self) -> StrikeZoneLocation {
        match self {
            StrikeZoneLocation::In => StrikeZoneLocation::Out,
            StrikeZoneLocation::Out => StrikeZoneLocation::In,
        }
    }
}

impl BaseballGame {
    /// The name of the batter due up: the batting team's lineup slot.
    pub open spec fn batter_name_spec(self) -> Seq<char> {
        if self.state.half_inning.top {
            self.visiting_team.batting_order@[self.state@.visiting_team_batter_index]@
        } else {
            self.home_team.batting_order@[self.state@.home_team_batter_index]@
        }
    }

    /// The name of the pitcher on the mound: the fielding team's current one.
    pub open spec fn pitcher_name_spec(self) -> Seq<char> {
        if self.state.half_inning.top {
            self.home_team.current_pitcher@
        } else {
            self.visiting_team.current_pitcher@
        }
    }

    /// The batter's hitting probability, in quarters.
    pub open spec fn batter_quarters(self) -> int {
        self.all_players.metrics_of(self.batter_name_spec()).hitting.spec_quarters()
    }

    /// The pitcher's accuracy probability, in quarters.
    pub open spec fn pitcher_quarters(self) -> int {
        self.all_players.metrics_of(self.pitcher_name_spec()).pitching.spec_quarters()
    }

    /// Resolves what the batter does with the pitch where it landed: a taken
    /// pitch scores by its location; a swing misses for a strike or puts the
    /// ball in play, which runs the fielding resolver and empties the count.
    /// Strikeouts, walks, the half-inning and the outcome rule are the
    /// caller's business.
    #[verifier::rlimit(100)]
    #[verifier::spinoff_prover]
    fn resolve_batter_action(
        &mut self,
        pitch_location: StrikeZoneLocation,
        decision: BatterDecision,
        batter_name: &String,
    ) -> (r: EventsSummary)
        requires
            old(self).wf(),
            old(self).all_players.contains_name(batter_name@),
            old(self).state.home_team_runs <= 251,
            old(self).state.visiting_team_runs <= 251,
        ensures
            ({
                let s0 = old(self).state@;
                let s1 = final(self).state@;
                let vadvs = advs_view(r.runner_advancements@);
                let quarters = old(self).all_players.metrics_of(
                    batter_name@,
                ).hitting.spec_quarters();
                &&& final(self).home_team == old(self).home_team
                &&& final(self).visiting_team == old(self).visiting_team
                &&& final(self).all_players == old(self).all_players
                &&& final(self).bases_on_roster()
                &&& s1.top == s0.top
                &&& s1.inning == s0.inning
                &&& s1.last_inning_just_ended == s0.last_inning_just_ended
                &&& s1.game_outcome == s0.game_outcome
                &&& 0 <= s1.home_team_batter_index < 9
                &&& 0 <= s1.visiting_team_batter_index < 9
                &&& r.pitch_location == pitch_location
                &&& r.batter_decision == decision
                &&& (decision == BatterDecision::Take ==> r.batting_outcome == (if pitch_location
                    == StrikeZoneLocation::In {
                    BattingOutcome::Strike
                } else {
                    BattingOutcome::Ball
                }))
                &&& (decision == BatterDecision::Swing ==> !(r.batting_outcome is Ball))
                &&& (decision == BatterDecision::Swing && quarters == 4 ==> r.batting_outcome == (
                BattingOutcome::Hit { to_field_location: FieldLocation::OutOfPark }))
                &&& (decision == BatterDecision::Swing && quarters == 0 ==> r.batting_outcome
                    is Strike)
                &&& (r.at_bat_outcome is None <==> (r.batting_outcome is Strike
                    || r.batting_outcome is Ball))
                &&& (r.batting_outcome is Hit <==> r.at_bat_outcome is Some)
                &&& no_base_collision(vadvs)
                &&& no_leapfrog(s0.bases, vadvs)
                // a ball in play changes the state exactly by applying its
                // batch and then emptying the count
                &&& (r.batting_outcome is Hit ==> final(self).state@ == (GameStateView {
                    balls: 0,
                    strikes: 0,
                    ..apply_advs(s0, vadvs)
                }))
                &&& (r.at_bat_outcome is None ==> {
                    &&& s1.bases == s0.bases
                    &&& s1.outs == s0.outs
                    &&& s1.home_team_runs == s0.home_team_runs
                    &&& s1.visiting_team_runs == s0.visiting_team_runs
                    &&& s1.home_team_batter_index == s0.home_team_batter_index
                    &&& s1.visiting_team_batter_index == s0.visiting_team_batter_index
                    &&& r.runner_advancements@.len() == 0
                    &&& (r.batting_outcome is Strike ==> s1.strikes == s0.strikes + 1 && s1.balls
                        == s0.balls)
                    &&& (r.batting_outcome is Ball ==> s1.balls == s0.balls + 1 && s1.strikes
                        == s0.strikes)
                })
                &&& (r.at_bat_outcome is Some ==> {
                    &&& s1.balls == 0
                    &&& s1.strikes == 0
                    &&& r.at_bat_outcome != Some(AtBatOutcome::Strikeout)
                    &&& r.at_bat_outcome != Some(AtBatOutcome::Walk)
                    &&& s0.outs <= s1.outs <= s0.outs + 4
                    &&& s1.home_team_runs >= s0.home_team_runs
                    &&& s1.visiting_team_runs >= s0.visiting_team_runs
                    &&& s1.fielding_runs() == s0.fielding_runs()
                    &&& s1.batting_runs() <= s0.batting_runs() + 4
                    &&& s1.batting_index() == (s0.batting_index() + 1) % 9
                    &&& (if s0.top {
                        s1.home_team_batter_index == s0.home_team_batter_index
                    } else {
                        s1.visiting_team_batter_index == s0.visiting_team_batter_index
                    })
                })
                &&& (r.batting_outcome == (BattingOutcome::Hit {
                    to_field_location: FieldLocation::OutOfPark,
                }) ==> vadvs == home_run_advs(s0.bases, batter_name@) && r.at_bat_outcome == Some(
                    AtBatOutcome::HomeRun,
                ))
                &&& ((r.batting_outcome matches BattingOutcome::Hit { to_field_location }
                    && !(to_field_location is OutOfPark)) ==> {
                    &&& fielding_event_ok(s0.bases, batter_name@, vadvs)
                    &&& forced_chain_ok(s0.bases, old(self).all_players, vadvs)
                    &&& r.at_bat_outcome == Some(outcome_of_dest(vadvs[vadvs.len() - 1].to_base))
                })
            }),
    {
        let ghost s0 = self.state@;
        let batter_skill = self.all_players.get(batter_name).metrics.hitting.quarters();
        match (pitch_location, decision) {
            (_, BatterDecision::Swing) => {
                let contact = bernoulli(&mut self.rng, batter_skill as u64, 4);
                if contact {
                    // swing and contact: resolve the fielding and the running
                    let field_location = FieldLocation::Close.random_from_skill(
                        &mut self.rng,
                        batter_skill,
                    );
                    let (at_bat_outcome, runner_advancements) = self.simulate_fielding_and_running(
                        &batter_name,
                        field_location,
                    );
                    proof {
                        lemma_event_apply(s0, batter_name@, advs_view(runner_advancements@));
                        assert(self.bases_on_roster());
                    }
                    self.state.count = Count::empty();
                    proof {
                        assert(self.state@ =~= GameStateView {
                            balls: 0,
                            strikes: 0,
                            ..apply_advs(s0, advs_view(runner_advancements@))
                        });
                    }

                    EventsSummary {
                        pitch_location,
                        batter_decision: decision,
                        batting_outcome: BattingOutcome::Hit { to_field_location: field_location },
                        at_bat_outcome: Some(at_bat_outcome),
                        runner_advancements,
                        game_outcome: GameOutcome::Ongoing,
                    }
                } else {
                    // swing and miss
                    self.state.count.strikes = self.state.count.strikes + 1;

                    EventsSummary {
                        pitch_location,
                        batter_decision: decision,
                        batting_outcome: BattingOutcome::Strike,
                        at_bat_outcome: None,
                        runner_advancements: Vec::new(),
                        game_outcome: GameOutcome::Ongoing,
                    }
                }
            },
            (StrikeZoneLocation::In, BatterDecision::Take) => {
                // strike looking
                self.state.count.strikes = self.state.count.strikes + 1;

                EventsSummary {
                    pitch_location,
                    batter_decision: decision,
                    batting_outcome: BattingOutcome::Strike,
                    at_bat_outcome: None,
                    runner_advancements: Vec::new(),
                    game_outcome: GameOutcome::Ongoing,
                }
            },
            (StrikeZoneLocation::Out, BatterDecision::Take) => {
                self.state.count.balls = self.state.count.balls + 1;

                EventsSummary {
                    pitch_location,
                    batter_decision: decision,
                    batting_outcome: BattingOutcome::Ball,
                    at_bat_outcome: None,
                    runner_advancements: Vec::new(),
                    game_outcome: GameOutcome::Ongoing,
                }
            },
        }
    }

    /// Simulates exactly one pitch: the pitch lands by the pitcher's accuracy,
    /// the batter takes or swings, a ball in play goes to the fielding
    /// resolver, the count, outs, bases and lineups are brought up to date, a
    /// full count of strikes or balls concludes the plate appearance, three
    /// outs cycle the half-inning, and the outcome rule is re-evaluated while
    /// the game is live — a decided outcome is final and never re-opens. An
    /// absent aim or decision is drawn at random. The contract holds whatever
    /// the random draws decide.
    #[verifier::rlimit(100)]
    #[verifier::spinoff_prover]
    pub fn simulate_pitch(
        &mut self,
        pitch_aim_location: Option<StrikeZoneLocation>,
        batter_decision: Option<BatterDecision>,
    ) -> (r: EventsSummary)
        requires
            old(self).wf(),
            old(self).state.home_team_runs <= 251,
            old(self).state.visiting_team_runs <= 251,
            old(self).state.half_inning.number <= 254,
        ensures
            ({
                let s_old = old(self).state@;
                let s_new = final(self).state@;
                let cycled = s_new.top != s_old.top || s_new.inning != s_old.inning;
                let vadvs = advs_view(r.runner_advancements@);
                &&& final(self).wf()
                &&& final(self).home_team == old(self).home_team
                &&& final(self).visiting_team == old(self).visiting_team
                &&& final(self).all_players == old(self).all_players
                // the outcome rule is evaluated after every pitch while the
                // game is live
                &&& (s_old.game_outcome == GameOutcome::Ongoing ==> s_new.game_outcome
                    == s_new.outcome())
                // once decided, the outcome never reverts or flips
                &&& (s_old.game_outcome != GameOutcome::Ongoing ==> s_new.game_outcome
                    == s_old.game_outcome)
                &&& r.game_outcome == s_new.game_outcome
                // the consumed-once flag is set exactly by a cycle
                &&& s_new.last_inning_just_ended == cycled
                // outs reset exactly when the half-inning cycles
                &&& (cycled ==> s_new.outs == 0 && s_new.bases == BasesView::empty()
                    && s_new.balls == 0 && s_new.strikes == 0)
                &&& (!cycled ==> s_new.outs >= s_old.outs && s_new.inning == s_old.inning
                    && s_new.top == s_old.top)
                &&& (cycled ==> s_new.top == !s_old.top && s_new.inning == s_old.inning + (
                if s_old.top {
                    0int
                } else {
                    1int
                }))
                // runs never fall, and only the team at bat can score
                &&& s_new.home_team_runs >= s_old.home_team_runs
                &&& s_new.visiting_team_runs >= s_old.visiting_team_runs
                &&& (if s_old.top {
                    s_new.home_team_runs == s_old.home_team_runs && s_new.visiting_team_runs
                        <= s_old.visiting_team_runs + 4
                } else {
                    s_new.visiting_team_runs == s_old.visiting_team_runs && s_new.home_team_runs
                        <= s_old.home_team_runs + 4
                })
                // the lineup moves on exactly once per concluded plate appearance
                &&& (r.at_bat_outcome is Some ==> (if s_old.top {
                    s_new.visiting_team_batter_index == (s_old.visiting_team_batter_index + 1) % 9
                        && s_new.home_team_batter_index == s_old.home_team_batter_index
                } else {
                    s_new.home_team_batter_index == (s_old.home_team_batter_index + 1) % 9
                        && s_new.visiting_team_batter_index == s_old.visiting_team_batter_index
                }))
                &&& (r.at_bat_outcome is None ==> s_new.home_team_batter_index
                    == s_old.home_team_batter_index && s_new.visiting_team_batter_index
                    == s_old.visiting_team_batter_index)
                // a pitch that leaves the plate appearance open moves the count alone
                &&& (r.at_bat_outcome is None ==> {
                    &&& !cycled
                    &&& s_new.bases == s_old.bases
                    &&& s_new.outs == s_old.outs
                    &&& s_new.home_team_runs == s_old.home_team_runs
                    &&& s_new.visiting_team_runs == s_old.visiting_team_runs
                    &&& r.runner_advancements@.len() == 0
                    &&& (r.batting_outcome is Strike ==> s_new.strikes == s_old.strikes + 1
                        && s_new.balls == s_old.balls)
                    &&& (r.batting_outcome is Ball ==> s_new.balls == s_old.balls + 1
                        && s_new.strikes == s_old.strikes)
                    &&& (r.batting_outcome is Strike || r.batting_outcome is Ball)
                })
                // a concluded plate appearance resets the count
                &&& (r.at_bat_outcome is Some ==> s_new.balls == 0 && s_new.strikes == 0)
                // which pitches conclude how
                &&& (r.at_bat_outcome == Some(AtBatOutcome::Strikeout) <==> r.batting_outcome
                    is Strike && s_old.strikes == 2)
                &&& (r.at_bat_outcome == Some(AtBatOutcome::Walk) <==> r.batting_outcome is Ball
                    && s_old.balls == 3)
                &&& (r.batting_outcome is Hit ==> r.at_bat_outcome is Some
                    && r.at_bat_outcome != Some(AtBatOutcome::Strikeout) && r.at_bat_outcome
                    != Some(AtBatOutcome::Walk))
                &&& (r.at_bat_outcome is None <==> (r.batting_outcome is Strike && s_old.strikes
                    < 2) || (r.batting_outcome is Ball && s_old.balls < 3))
                // a strikeout moves nobody
                &&& (r.at_bat_outcome == Some(AtBatOutcome::Strikeout) ==> {
                    &&& r.runner_advancements@.len() == 0
                    &&& s_new.home_team_runs == s_old.home_team_runs
                    &&& s_new.visiting_team_runs == s_old.visiting_team_runs
                    &&& (!cycled ==> s_new.outs == s_old.outs + 1 && s_new.bases == s_old.bases)
                })
                // a walk forces exactly the unbroken chain up one base
                &&& (r.at_bat_outcome == Some(AtBatOutcome::Walk) ==> vadvs == walk_advs(
                    s_old.bases,
                    old(self).batter_name_spec(),
                ))
                // a walk records no out, cannot cycle the half-inning, and
                // scores exactly one run when the bases were loaded
                &&& (r.at_bat_outcome == Some(AtBatOutcome::Walk) ==> {
                    &&& !cycled
                    &&& s_new.outs == s_old.outs
                    &&& (if s_old.top {
                        s_new.visiting_team_runs == s_old.visiting_team_runs + (
                        if s_old.bases.loaded() {
                            1int
                        } else {
                            0int
                        })
                    } else {
                        s_new.home_team_runs == s_old.home_team_runs + (if s_old.bases.loaded() {
                            1int
                        } else {
                            0int
                        })
                    })
                    &&& s_new.bases.first == Some(old(self).batter_name_spec())
                    &&& s_new.bases.second == (if s_old.bases.first is Some {
                        s_old.bases.first
                    } else {
                        s_old.bases.second
                    })
                    &&& s_new.bases.third == (if s_old.bases.first is Some && s_old.bases.second
                        is Some {
                        s_old.bases.second
                    } else {
                        s_old.bases.third
                    })
                })
                // no two runners are sent to the same base
                &&& no_base_collision(vadvs)
                // no runner finishes on or past the spot a lead runner kept
                &&& (r.batting_outcome is Hit ==> no_leapfrog(s_old.bases, vadvs))
                // a ball in play changes the state exactly by applying its
                // batch, emptying the count, and cycling on three outs; with
                // the count, flag, half-inning and outcome clauses above, this
                // pins every field of the final state
                &&& (r.batting_outcome is Hit ==> ({
                    let applied = apply_advs(
                        GameStateView { last_inning_just_ended: false, ..s_old },
                        vadvs,
                    );
                    &&& s_new.home_team_runs == applied.home_team_runs
                    &&& s_new.visiting_team_runs == applied.visiting_team_runs
                    &&& s_new.home_team_batter_index == applied.home_team_batter_index
                    &&& s_new.visiting_team_batter_index == applied.visiting_team_batter_index
                    &&& (cycled <==> applied.outs >= 3)
                    &&& (!cycled ==> s_new.bases == applied.bases && s_new.outs == applied.outs)
                }))
                // the given decision and aim are respected
                &&& (batter_decision matches Some(d) ==> r.batter_decision == d)
                &&& (pitch_aim_location matches Some(a) ==> (old(self).pitcher_quarters() == 4
                    ==> r.pitch_location == a))
                &&& (pitch_aim_location matches Some(a) ==> (old(self).pitcher_quarters() == 0
                    ==> r.pitch_location == a.opposite()))
                // taking the pitch scores it by its location
                &&& (r.batter_decision == BatterDecision::Take ==> r.batting_outcome == (
                if r.pitch_location == StrikeZoneLocation::In {
                    BattingOutcome::Strike
                } else {
                    BattingOutcome::Ball
                }))
                // a swing never yields a ball
                &&& (r.batter_decision == BatterDecision::Swing ==> !(r.batting_outcome is Ball))
                // a certain hitter who swings clears the park
                &&& (r.batter_decision == BatterDecision::Swing && old(self).batter_quarters()
                    == 4 ==> r.batting_outcome == (BattingOutcome::Hit {
                    to_field_location: FieldLocation::OutOfPark,
                }))
                // a hopeless hitter who swings always misses
                &&& (r.batter_decision == BatterDecision::Swing && old(self).batter_quarters()
                    == 0 ==> r.batting_outcome is Strike)
                // a ball over the wall scores the batter and every runner
                &&& (r.batting_outcome == (BattingOutcome::Hit {
                    to_field_location: FieldLocation::OutOfPark,
                }) ==> vadvs == home_run_advs(s_old.bases, old(self).batter_name_spec())
                    && r.at_bat_outcome == Some(AtBatOutcome::HomeRun))
                // any other ball in play is a well-formed fielding event
                &&& ((r.batting_outcome matches BattingOutcome::Hit { to_field_location }
                    && !(to_field_location is OutOfPark)) ==> {
                    &&& fielding_event_ok(s_old.bases, old(self).batter_name_spec(), vadvs)
                    &&& forced_chain_ok(s_old.bases, old(self).all_players, vadvs)
                    &&& r.at_bat_outcome == Some(outcome_of_dest(vadvs[vadvs.len() - 1].to_base))
                })
            }),
    {
        let ghost s_old = self.state@;

        self.state.last_inning_just_ended = false;
        proof {
            assert(self.state@ =~= GameStateView { last_inning_just_ended: false, ..s_old });
        }

        let pitcher_name = if self.home_team_is_at_bat() {
            self.visiting_team.current_pitcher.clone()
        } else {
            self.home_team.current_pitcher.clone()
        };

        let pitch_aim = match pitch_aim_location {
            Some(aim) => aim,
            None => {
                if draw_below(&mut self.rng, 2) == 0 {
                    StrikeZoneLocation::In
                } else {
                    StrikeZoneLocation::Out
                }
            },
        };
        let pitcher_skill = self.all_players.get(&pitcher_name).metrics.pitching.quarters();
        let pitcher_succeeds = bernoulli(&mut self.rng, pitcher_skill as u64, 4);
        let pitch_location = match (pitch_aim, pitcher_succeeds) {
            (StrikeZoneLocation::In, true) => StrikeZoneLocation::In,
            (StrikeZoneLocation::In, false) => StrikeZoneLocation::Out,
            (StrikeZoneLocation::Out, true) => StrikeZoneLocation::Out,
            (StrikeZoneLocation::Out, false) => StrikeZoneLocation::In,
        };

        let batter_name = if self.home_team_is_at_bat() {
            self.home_team.batting_order[self.state.home_team_batter_index].clone()
        } else {
            self.visiting_team.batting_order[self.state.visiting_team_batter_index].clone()
        };
        proof {
            assert(self.all_players.contains_name(batter_name@));
            assert(batter_name@ == old(self).batter_name_spec());
        }

        let decision = match batter_decision {
            Some(d) => d,
            None => {
                if draw_below(&mut self.rng, 2) == 0 {
                    BatterDecision::Swing
                } else {
                    BatterDecision::Take
                }
            },
        };

        let events_summary = self.resolve_batter_action(pitch_location, decision, &batter_name);

        self.conclude_pitch(Ghost(s_old), events_summary, &batter_name)
    }

    /// Brings the plate appearance and the half-inning up to date after the
    /// batter's action: a full count of strikes is a strikeout, a full count
    /// of balls is a walk that forces the chain up one base, three outs cycle
    /// the half-inning, and the outcome rule is re-evaluated while the game is
    /// live — a decided outcome is final. The ghost view is the state the
    /// pitch started from; the preconditions record what resolving the
    /// batter's action guaranteed about the state since.
    #[verifier::rlimit(100)]
    #[verifier::spinoff_prover]
    fn conclude_pitch(
        &mut self,
        Ghost(s_old): Ghost<GameStateView>,
        events_summary: EventsSummary,
        batter_name: &String,
    ) -> (r: EventsSummary)
        requires
            ({
                let s1 = old(self).state@;
                let vadvs = advs_view(events_summary.runner_advancements@);
                &&& old(self).all_players.wf()
                &&& old(self).home_team.roster_on(old(self).all_players)
                &&& old(self).visiting_team.roster_on(old(self).all_players)
                &&& old(self).bases_on_roster()
                &&& old(self).all_players.contains_name(batter_name@)
                &&& 0 <= s_old.outs <= 2
                &&& 0 <= s_old.balls <= 3
                &&& 0 <= s_old.strikes <= 2
                &&& 0 <= s_old.home_team_runs <= 251
                &&& 0 <= s_old.visiting_team_runs <= 251
                &&& 1 <= s_old.inning <= 254
                &&& 0 <= s_old.home_team_batter_index < 9
                &&& 0 <= s_old.visiting_team_batter_index < 9
                &&& 0 <= s1.home_team_batter_index < 9
                &&& 0 <= s1.visiting_team_batter_index < 9
                &&& s1.inning == s_old.inning
                &&& s1.top == s_old.top
                &&& !s1.last_inning_just_ended
                &&& s1.game_outcome == s_old.game_outcome
                &&& (events_summary.at_bat_outcome is None <==> (events_summary.batting_outcome
                    is Strike || events_summary.batting_outcome is Ball))
                &&& (events_summary.batting_outcome is Hit <==> events_summary.at_bat_outcome
                    is Some)
                &&& no_base_collision(vadvs)
                &&& (events_summary.batting_outcome is Hit ==> no_leapfrog(s_old.bases, vadvs))
                &&& (events_summary.at_bat_outcome is None ==> {
                    &&& s1.bases == s_old.bases
                    &&& s1.outs == s_old.outs
                    &&& s1.home_team_runs == s_old.home_team_runs
                    &&& s1.visiting_team_runs == s_old.visiting_team_runs
                    &&& s1.home_team_batter_index == s_old.home_team_batter_index
                    &&& s1.visiting_team_batter_index == s_old.visiting_team_batter_index
                    &&& events_summary.runner_advancements@.len() == 0
                    &&& (events_summary.batting_outcome is Strike ==> s1.strikes == s_old.strikes
                        + 1 && s1.balls == s_old.balls)
                    &&& (events_summary.batting_outcome is Ball ==> s1.balls == s_old.balls + 1
                        && s1.strikes == s_old.strikes)
                })
                &&& (events_summary.at_bat_outcome is Some ==> {
                    &&& s1.balls == 0
                    &&& s1.strikes == 0
                    &&& events_summary.at_bat_outcome != Some(AtBatOutcome::Strikeout)
                    &&& events_summary.at_bat_outcome != Some(AtBatOutcome::Walk)
                    &&& s_old.outs <= s1.outs <= s_old.outs + 4
                    &&& s1.home_team_runs >= s_old.home_team_runs
                    &&& s1.visiting_team_runs >= s_old.visiting_team_runs
                    &&& (if s_old.top {
                        s1.home_team_runs == s_old.home_team_runs && s1.visiting_team_runs
                            <= s_old.visiting_team_runs + 4
                    } else {
                        s1.visiting_team_runs == s_old.visiting_team_runs && s1.home_team_runs
                            <= s_old.home_team_runs + 4
                    })
                    &&& (if s_old.top {
                        s1.visiting_team_batter_index == (s_old.visiting_team_batter_index + 1) % 9
                            && s1.home_team_batter_index == s_old.home_team_batter_index
                    } else {
                        s1.home_team_batter_index == (s_old.home_team_batter_index + 1) % 9
                            && s1.visiting_team_batter_index == s_old.visiting_team_batter_index
                    })
                })
                &&& (events_summary.batting_outcome is Hit ==> s1 == (GameStateView {
                    balls: 0,
                    strikes: 0,
                    ..apply_advs(GameStateView { last_inning_just_ended: false, ..s_old }, vadvs)
                }))
            }),
        ensures
            ({
                let s_new = final(self).state@;
                let cycled = s_new.top != s_old.top || s_new.inning != s_old.inning;
                let vadvs = advs_view(r.runner_advancements@);
                &&& final(self).state.wf()
                &&& final(self).bases_on_roster()
                &&& final(self).home_team == old(self).home_team
                &&& final(self).visiting_team == old(self).visiting_team
                &&& final(self).all_players == old(self).all_players
                // the outcome rule is evaluated while the game is live; a
                // decided outcome is final
                &&& (s_old.game_outcome == GameOutcome::Ongoing ==> s_new.game_outcome
                    == s_new.outcome())
                &&& (s_old.game_outcome != GameOutcome::Ongoing ==> s_new.game_outcome
                    == s_old.game_outcome)
                &&& r.game_outcome == s_new.game_outcome
                // the consumed-once flag is set exactly by a cycle
                &&& s_new.last_inning_just_ended == cycled
                // outs reset exactly when the half-inning cycles
                &&& (cycled ==> s_new.outs == 0 && s_new.bases == BasesView::empty()
                    && s_new.balls == 0 && s_new.strikes == 0)
                &&& (!cycled ==> s_new.outs >= s_old.outs && s_new.inning == s_old.inning
                    && s_new.top == s_old.top)
                &&& (cycled ==> s_new.top == !s_old.top && s_new.inning == s_old.inning + (
                if s_old.top {
                    0int
                } else {
                    1int
                }))
                // runs never fall, and only the team at bat can score
                &&& s_new.home_team_runs >= s_old.home_team_runs
                &&& s_new.visiting_team_runs >= s_old.visiting_team_runs
                &&& (if s_old.top {
                    s_new.home_team_runs == s_old.home_team_runs && s_new.visiting_team_runs
                        <= s_old.visiting_team_runs + 4
                } else {
                    s_new.visiting_team_runs == s_old.visiting_team_runs && s_new.home_team_runs
                        <= s_old.home_team_runs + 4
                })
                // the lineup moves on exactly once per concluded plate appearance
                &&& (r.at_bat_outcome is Some ==> (if s_old.top {
                    s_new.visiting_team_batter_index == (s_old.visiting_team_batter_index + 1) % 9
                        && s_new.home_team_batter_index == s_old.home_team_batter_index
                } else {
                    s_new.home_team_batter_index == (s_old.home_team_batter_index + 1) % 9
                        && s_new.visiting_team_batter_index == s_old.visiting_team_batter_index
                }))
                &&& (r.at_bat_outcome is None ==> s_new.home_team_batter_index
                    == s_old.home_team_batter_index && s_new.visiting_team_batter_index
                    == s_old.visiting_team_batter_index)
                // a pitch that leaves the plate appearance open moves the count alone
                &&& (r.at_bat_outcome is None ==> {
                    &&& !cycled
                    &&& s_new.bases == s_old.bases
                    &&& s_new.outs == s_old.outs
                    &&& s_new.home_team_runs == s_old.home_team_runs
                    &&& s_new.visiting_team_runs == s_old.visiting_team_runs
                    &&& r.runner_advancements@.len() == 0
                    &&& (r.batting_outcome is Strike ==> s_new.strikes == s_old.strikes + 1
                        && s_new.balls == s_old.balls)
                    &&& (r.batting_outcome is Ball ==> s_new.balls == s_old.balls + 1
                        && s_new.strikes == s_old.strikes)
                    &&& (r.batting_outcome is Strike || r.batting_outcome is Ball)
                })
                // a concluded plate appearance resets the count
                &&& (r.at_bat_outcome is Some ==> s_new.balls == 0 && s_new.strikes == 0)
                // which pitches conclude how
                &&& (r.at_bat_outcome == Some(AtBatOutcome::Strikeout) <==> r.batting_outcome
                    is Strike && s_old.strikes == 2)
                &&& (r.at_bat_outcome == Some(AtBatOutcome::Walk) <==> r.batting_outcome is Ball
                    && s_old.balls == 3)
                &&& (r.batting_outcome is Hit ==> r.at_bat_outcome is Some
                    && r.at_bat_outcome != Some(AtBatOutcome::Strikeout) && r.at_bat_outcome
                    != Some(AtBatOutcome::Walk))
                &&& (r.at_bat_outcome is None <==> (r.batting_outcome is Strike && s_old.strikes
                    < 2) || (r.batting_outcome is Ball && s_old.balls < 3))
                // a strikeout moves nobody
                &&& (r.at_bat_outcome == Some(AtBatOutcome::Strikeout) ==> {
                    &&& r.runner_advancements@.len() == 0
                    &&& s_new.home_team_runs == s_old.home_team_runs
                    &&& s_new.visiting_team_runs == s_old.visiting_team_runs
                    &&& (!cycled ==> s_new.outs == s_old.outs + 1 && s_new.bases == s_old.bases)
                })
                // a walk forces exactly the unbroken chain up one base
                &&& (r.at_bat_outcome == Some(AtBatOutcome::Walk) ==> vadvs == walk_advs(
                    s_old.bases,
                    batter_name@,
                ))
                // a walk records no out, cannot cycle the half-inning, and
                // scores exactly one run when the bases were loaded
                &&& (r.at_bat_outcome == Some(AtBatOutcome::Walk) ==> {
                    &&& !cycled
                    &&& s_new.outs == s_old.outs
                    &&& (if s_old.top {
                        s_new.visiting_team_runs == s_old.visiting_team_runs + (
                        if s_old.bases.loaded() {
                            1int
                        } else {
                            0int
                        })
                    } else {
                        s_new.home_team_runs == s_old.home_team_runs + (if s_old.bases.loaded() {
                            1int
                        } else {
                            0int
                        })
                    })
                    &&& s_new.bases.first == Some(batter_name@)
                    &&& s_new.bases.second == (if s_old.bases.first is Some {
                        s_old.bases.first
                    } else {
                        s_old.bases.second
                    })
                    &&& s_new.bases.third == (if s_old.bases.first is Some && s_old.bases.second
                        is Some {
                        s_old.bases.second
                    } else {
                        s_old.bases.third
                    })
                })
                // no two runners are sent to the same base
                &&& no_base_collision(vadvs)
                // no runner finishes on or past the spot a lead runner kept
                &&& (r.batting_outcome is Hit ==> no_leapfrog(s_old.bases, vadvs))
                // a ball in play changes the state exactly by applying its
                // batch, emptying the count, and cycling on three outs; with
                // the count, flag, half-inning and outcome clauses above, this
                // pins every field of the final state
                &&& (r.batting_outcome is Hit ==> ({
                    let applied = apply_advs(
                        GameStateView { last_inning_just_ended: false, ..s_old },
                        vadvs,
                    );
                    &&& s_new.home_team_runs == applied.home_team_runs
                    &&& s_new.visiting_team_runs == applied.visiting_team_runs
                    &&& s_new.home_team_batter_index == applied.home_team_batter_index
                    &&& s_new.visiting_team_batter_index == applied.visiting_team_batter_index
                    &&& (cycled <==> applied.outs >= 3)
                    &&& (!cycled ==> s_new.bases == applied.bases && s_new.outs == applied.outs)
                }))
                // the batter's action itself passes through unchanged
                &&& r.pitch_location == events_summary.pitch_location
                &&& r.batter_decision == events_summary.batter_decision
                &&& r.batting_outcome == events_summary.batting_outcome
                &&& (r.at_bat_outcome == Some(AtBatOutcome::Strikeout) || r.at_bat_outcome == Some(
                    AtBatOutcome::Walk,
                ) || r.at_bat_outcome == events_summary.at_bat_outcome)
                &&& (r.at_bat_outcome != Some(AtBatOutcome::Walk) ==> r.runner_advancements
                    == events_summary.runner_advancements)
            }),
    {
        let mut events_summary = events_summary;

        if self.state.count.strikes == 3 {
            // strikeout: one more out, a fresh count, the lineup moves on
            self.state.outs = self.state.outs + 1;
            events_summary.at_bat_outcome = Some(AtBatOutcome::Strikeout);
            self.state.count = Count::empty();

            if self.state.half_inning.top {
                self.state.visiting_team_batter_index = (self.state.visiting_team_batter_index + 1)
                    % 9;
            } else {
                self.state.home_team_batter_index = (self.state.home_team_batter_index + 1) % 9;
            }
        } else if self.state.count.balls == 4 {
            // walk: the batter is forced to first, the chain moves up
            events_summary.at_bat_outcome = Some(AtBatOutcome::Walk);
            self.state.count = Count::empty();
            let walk_advancements = self.walk_advancements(&batter_name);
            proof {
                lemma_walk_advancements(self.state.bases@, batter_name@);
                lemma_apply_walk(self.state@, batter_name@);
            }
            self.state.apply_runner_advancements(&walk_advancements);
            proof {
                assert(self.bases_on_roster());
            }
            events_summary.runner_advancements = walk_advancements;
        }

        // three outs end the half-inning
        if self.state.outs >= 3 {
            self.state.cycle_half_inning();
        }

        // a decided game stays decided: the rule is re-evaluated only while
        // the game is live
        if let GameOutcome::Ongoing = self.state.game_outcome {
            self.state.game_outcome = self.game_outcome();
        }
        events_summary.game_outcome = self.state.game_outcome;

        events_summary
    }
}

} // verus!
