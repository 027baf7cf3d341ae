use idbb::advance::RunnerAdvancement;
use idbb::game::{
    AtBatOutcome, BaseballGame, BatterDecision, BattingOutcome, StrikeZoneLocation,
};
use idbb::fielding::FieldLocation;
use idbb::player::{Level, Player, PlayerMap, PlayerMetrics, Team};
use idbb::state::{Base, Bases, Count, GameOutcome, GameState, HalfInning};
use rand::SeedableRng;

fn player(name: &str, hitting: Level, running: Level, fielding: Level, pitching: Level) -> Player {
    Player {
        name: name.to_string(),
        metrics: PlayerMetrics { hitting, running, fielding, pitching },
    }
}

fn names(prefix: &str, n: usize) -> Vec<String> {
    let mut v = Vec::new();
    let mut i = 0;
    while i < n {
        v.push(format!("{} {}", prefix, i));
        i += 1;
    }
    v
}

/// A roster of two full teams, every player at the given uniform skill level.
fn setup(level: Level) -> (PlayerMap, Team, Team) {
    let mut players: Vec<Player> = Vec::new();
    let mut team_of = |prefix: &str| -> Team {
        let batters = names(&format!("{} batter", prefix), 9);
        let fielders = names(&format!("{} fielder", prefix), 8);
        let pitcher = format!("{} pitcher", prefix);
        for b in &batters {
            players.push(player(b, level, level, level, level));
        }
        for f in &fielders {
            players.push(player(f, level, level, level, level));
        }
        players.push(player(&pitcher, level, level, level, level));
        Team {
            name: prefix.to_string(),
            batting_order: batters.try_into().unwrap(),
            current_pitcher: pitcher,
            fielders: fielders.try_into().unwrap(),
            bullpen: Vec::new(),
        }
    };
    let home = team_of("home");
    let visiting = team_of("visiting");
    (PlayerMap { players }, home, visiting)
}

fn set_skill(map: &mut PlayerMap, name: &str, which: &str, level: Level) {
    for p in map.players.iter_mut() {
        if p.name == name {
            match which {
                "hitting" => p.metrics.hitting = level,
                "running" => p.metrics.running = level,
                "fielding" => p.metrics.fielding = level,
                _ => p.metrics.pitching = level,
            }
        }
    }
}

#[test]
fn take_on_an_accurate_inside_pitch_is_a_strike() {
    // bases empty, no outs, fresh count, a certain pitcher aims inside and the
    // batter takes: the pitch lands inside, a strike, and the count moves to
    // zero and one
    let (mut map, home, visiting) = setup(Level::Medium);
    set_skill(&mut map, "home pitcher", "pitching", Level::VeryHigh);
    let mut game = BaseballGame::new(map, home, visiting, 11);
    let summary = game.simulate_pitch(
        Some(StrikeZoneLocation::In),
        Some(BatterDecision::Take),
    );
    assert!(matches!(summary.pitch_location, StrikeZoneLocation::In));
    assert!(matches!(summary.batting_outcome, BattingOutcome::Strike));
    assert!(summary.at_bat_outcome.is_none());
    assert_eq!(game.state.count.balls, 0);
    assert_eq!(game.state.count.strikes, 1);
    assert_eq!(game.state.outs, 0);
}

#[test]
fn take_on_an_accurate_outside_pitch_is_a_ball() {
    let (mut map, home, visiting) = setup(Level::Medium);
    set_skill(&mut map, "home pitcher", "pitching", Level::VeryHigh);
    let mut game = BaseballGame::new(map, home, visiting, 11);
    let summary = game.simulate_pitch(
        Some(StrikeZoneLocation::Out),
        Some(BatterDecision::Take),
    );
    assert!(matches!(summary.pitch_location, StrikeZoneLocation::Out));
    assert!(matches!(summary.batting_outcome, BattingOutcome::Ball));
    assert_eq!(game.state.count.balls, 1);
    assert_eq!(game.state.count.strikes, 0);
}

#[test]
fn inaccurate_pitcher_misses_the_aim() {
    // a hopeless pitcher lands every pitch opposite to the aim
    let (mut map, home, visiting) = setup(Level::Medium);
    set_skill(&mut map, "home pitcher", "pitching", Level::VeryLow);
    let mut game = BaseballGame::new(map, home, visiting, 11);
    let summary = game.simulate_pitch(
        Some(StrikeZoneLocation::In),
        Some(BatterDecision::Take),
    );
    assert!(matches!(summary.pitch_location, StrikeZoneLocation::Out));
    assert!(matches!(summary.batting_outcome, BattingOutcome::Ball));
}

#[test]
fn grand_slam_scores_exactly_four_runs() {
    // bases loaded and a certain hitter: the ball leaves the park, exactly
    // four runs score for the team at bat, the bases empty, the outs stand
    let (mut map, home, visiting) = setup(Level::Medium);
    set_skill(&mut map, "visiting batter 0", "hitting", Level::VeryHigh);
    let mut game = BaseballGame::new(map, home, visiting, 5);
    game.state.bases = Bases {
        first: Some("visiting batter 6".to_string()),
        second: Some("visiting batter 7".to_string()),
        third: Some("visiting batter 8".to_string()),
    };
    let summary = game.simulate_pitch(None, Some(BatterDecision::Swing));
    assert!(matches!(
        summary.batting_outcome,
        BattingOutcome::Hit { to_field_location: FieldLocation::OutOfPark }
    ));
    assert_eq!(summary.at_bat_outcome, Some(AtBatOutcome::HomeRun));
    assert_eq!(summary.runner_advancements.len(), 4);
    assert_eq!(game.state.visiting_team_runs, 4);
    assert_eq!(game.state.home_team_runs, 0);
    assert!(game.state.bases.first.is_none());
    assert!(game.state.bases.second.is_none());
    assert!(game.state.bases.third.is_none());
    assert_eq!(game.state.outs, 0);
}

#[test]
fn home_run_list_is_one_longer_than_the_occupied_bases() {
    // one runner on: the home-run batch has two entries, every destination is
    // home plate
    let (mut map, home, visiting) = setup(Level::Medium);
    set_skill(&mut map, "visiting batter 0", "hitting", Level::VeryHigh);
    let mut game = BaseballGame::new(map, home, visiting, 5);
    game.state.bases.second = Some("visiting batter 7".to_string());
    let summary = game.simulate_pitch(None, Some(BatterDecision::Swing));
    assert_eq!(summary.at_bat_outcome, Some(AtBatOutcome::HomeRun));
    assert_eq!(summary.runner_advancements.len(), 2);
    for adv in &summary.runner_advancements {
        assert_eq!(adv.to_base, Some(Base::Home));
    }
    assert_eq!(game.state.visiting_team_runs, 2);
}

#[test]
fn forced_slow_runner_is_out_at_second() {
    // a forced runner with no speed against a sharp defense is thrown out at
    // second and first base empties; the batter's own advance is evaluated
    // independently against the vacated base, and with no speed either the
    // batter is out too
    let (mut map, home, visiting) = setup(Level::Medium);
    set_skill(&mut map, "visiting batter 5", "running", Level::VeryLow);
    set_skill(&mut map, "visiting batter 0", "running", Level::VeryLow);
    for i in 0..8 {
        set_skill(&mut map, &format!("home fielder {}", i), "fielding", Level::VeryHigh);
    }
    let mut game = BaseballGame::new(map, home, visiting, 5);
    game.state.bases.first = Some("visiting batter 5".to_string());
    let batter = "visiting batter 0".to_string();
    let (outcome, advancements) = game.simulate_fielding_and_running(&batter, FieldLocation::Close);
    let force_out = advancements
        .iter()
        .find(|a| a.from_base == Base::First)
        .expect("the forced runner must appear in the batch");
    assert_eq!(force_out.name, "visiting batter 5");
    assert_eq!(force_out.to_base, None);
    assert!(game.state.bases.first.is_none());
    let batter_entry = advancements
        .iter()
        .find(|a| a.from_base == Base::Batting)
        .expect("the batter's advance is evaluated independently");
    assert_eq!(batter_entry.to_base, None);
    assert_eq!(game.state.outs, 2);
    assert_eq!(outcome, AtBatOutcome::Out);
}

#[test]
fn batter_may_take_the_base_a_force_out_vacated() {
    // the force-out vacates first base, and a quick batter can still beat the
    // throw there: outs up by one, the batter on first
    let mut reached = false;
    for seed in 0..64 {
        let (mut map, home, visiting) = setup(Level::Medium);
        set_skill(&mut map, "visiting batter 5", "running", Level::VeryLow);
        set_skill(&mut map, "visiting batter 0", "running", Level::VeryHigh);
        let mut game = BaseballGame::new(map, home, visiting, seed);
        game.state.bases.first = Some("visiting batter 5".to_string());
        let batter = "visiting batter 0".to_string();
        let (outcome, advancements) =
            game.simulate_fielding_and_running(&batter, FieldLocation::Close);
        assert!(advancements.iter().any(|a| a.from_base == Base::First && a.to_base == None));
        if outcome == AtBatOutcome::Single {
            assert_eq!(game.state.bases.first.as_deref(), Some("visiting batter 0"));
            assert_eq!(game.state.outs, 1);
            reached = true;
            break;
        }
        assert_eq!(outcome, AtBatOutcome::Out);
    }
    assert!(reached, "some seed lets the batter beat the force-out to first");
}

#[test]
fn batter_can_round_the_bases_on_a_clear_diamond() {
    // with nothing ahead the batter's bound is home plate itself: four
    // successes in a row are an in-park home run
    let mut reached = false;
    for seed in 0..256 {
        let (mut map, home, visiting) = setup(Level::Medium);
        set_skill(&mut map, "visiting batter 0", "running", Level::VeryHigh);
        for i in 0..8 {
            set_skill(&mut map, &format!("home fielder {}", i), "fielding", Level::VeryLow);
        }
        let mut game = BaseballGame::new(map, home, visiting, seed);
        let batter = "visiting batter 0".to_string();
        let (outcome, advancements) =
            game.simulate_fielding_and_running(&batter, FieldLocation::Outfield);
        if outcome == AtBatOutcome::HomeRun {
            assert_eq!(advancements.len(), 1);
            assert_eq!(advancements[0].to_base, Some(Base::Home));
            assert_eq!(game.state.visiting_team_runs, 1);
            assert!(game.state.bases.first.is_none());
            reached = true;
            break;
        }
    }
    assert!(reached, "some seed brings the batter all the way home");
}

#[test]
fn runner_on_second_can_score_on_a_hit() {
    // with the path ahead clear, a quick unforced runner on second may come
    // all the way home
    let mut reached = false;
    for seed in 0..64 {
        let (mut map, home, visiting) = setup(Level::Medium);
        set_skill(&mut map, "visiting batter 7", "running", Level::VeryHigh);
        for i in 0..8 {
            set_skill(&mut map, &format!("home fielder {}", i), "fielding", Level::VeryLow);
        }
        let mut game = BaseballGame::new(map, home, visiting, seed);
        game.state.bases.second = Some("visiting batter 7".to_string());
        let batter = "visiting batter 0".to_string();
        let (_, advancements) =
            game.simulate_fielding_and_running(&batter, FieldLocation::Outfield);
        if advancements.iter().any(|a| a.from_base == Base::Second && a.to_base == Some(Base::Home))
        {
            assert_eq!(game.state.visiting_team_runs, 1);
            assert!(game.state.bases.second.is_none());
            reached = true;
            break;
        }
    }
    assert!(reached, "some seed sends the runner home from second");
}

#[test]
fn walk_with_bases_loaded_forces_in_one_run() {
    // four straight balls with the bases loaded: four advancements, exactly
    // one run, and the bases stay loaded behind the batter
    let (mut map, home, visiting) = setup(Level::Medium);
    set_skill(&mut map, "home pitcher", "pitching", Level::VeryHigh);
    let mut game = BaseballGame::new(map, home, visiting, 5);
    game.state.bases = Bases {
        first: Some("visiting batter 6".to_string()),
        second: Some("visiting batter 7".to_string()),
        third: Some("visiting batter 8".to_string()),
    };
    let mut last = None;
    for _ in 0..4 {
        last = Some(game.simulate_pitch(
            Some(StrikeZoneLocation::Out),
            Some(BatterDecision::Take),
        ));
    }
    let summary = last.unwrap();
    assert_eq!(summary.at_bat_outcome, Some(AtBatOutcome::Walk));
    assert_eq!(summary.runner_advancements.len(), 4);
    assert_eq!(game.state.visiting_team_runs, 1);
    assert_eq!(game.state.bases.first.as_deref(), Some("visiting batter 0"));
    assert_eq!(game.state.bases.second.as_deref(), Some("visiting batter 6"));
    assert_eq!(game.state.bases.third.as_deref(), Some("visiting batter 7"));
    assert_eq!(game.state.count.balls, 0);
    assert_eq!(game.state.count.strikes, 0);
}

#[test]
fn walk_advancement_list_grows_with_the_forced_chain() {
    let (map, home, visiting) = setup(Level::Medium);
    let mut game = BaseballGame::new(map, home, visiting, 5);
    let batter = "visiting batter 0".to_string();
    // empty bases: the batter alone
    assert_eq!(game.walk_advancements(&batter).len(), 1);
    // a runner on second is not forced: still the batter alone
    game.state.bases.second = Some("visiting batter 7".to_string());
    assert_eq!(game.walk_advancements(&batter).len(), 1);
    // a runner on first is forced
    game.state.bases.first = Some("visiting batter 6".to_string());
    let advs = game.walk_advancements(&batter);
    assert_eq!(advs.len(), 3);
    // no two entries share a destination
    for (i, a) in advs.iter().enumerate() {
        for b in advs.iter().skip(i + 1) {
            assert_ne!(a.to_base, b.to_base);
        }
    }
}

#[test]
fn walk_does_not_move_an_unforced_runner() {
    // a runner on third with first and second open holds on a walk
    let (mut map, home, visiting) = setup(Level::Medium);
    set_skill(&mut map, "home pitcher", "pitching", Level::VeryHigh);
    let mut game = BaseballGame::new(map, home, visiting, 5);
    game.state.bases.third = Some("visiting batter 8".to_string());
    for _ in 0..4 {
        game.simulate_pitch(Some(StrikeZoneLocation::Out), Some(BatterDecision::Take));
    }
    assert_eq!(game.state.visiting_team_runs, 0);
    assert_eq!(game.state.bases.first.as_deref(), Some("visiting batter 0"));
    assert_eq!(game.state.bases.third.as_deref(), Some("visiting batter 8"));
}

#[test]
fn three_strikeouts_cycle_the_half_inning() {
    // a certain pitcher and a taking batter: every third strike is an out, and
    // the third out resets outs, bases and count and flips the half-inning
    let (mut map, home, visiting) = setup(Level::Medium);
    set_skill(&mut map, "home pitcher", "pitching", Level::VeryHigh);
    let mut game = BaseballGame::new(map, home, visiting, 5);
    for pitch in 0..9 {
        assert!(game.state.outs <= 2, "outs stay below three before every pitch");
        let summary = game.simulate_pitch(
            Some(StrikeZoneLocation::In),
            Some(BatterDecision::Take),
        );
        if pitch % 3 == 2 {
            assert_eq!(summary.at_bat_outcome, Some(AtBatOutcome::Strikeout));
        } else {
            assert!(summary.at_bat_outcome.is_none());
        }
    }
    assert_eq!(game.state.outs, 0);
    assert_eq!(game.state.half_inning, HalfInning { number: 1, top: false });
    assert_eq!(game.state.count, Count { balls: 0, strikes: 0 });
    assert!(game.state.bases.first.is_none());
}

#[test]
fn lineup_index_moves_only_on_a_concluded_plate_appearance() {
    let (mut map, home, visiting) = setup(Level::Medium);
    set_skill(&mut map, "home pitcher", "pitching", Level::VeryHigh);
    let mut game = BaseballGame::new(map, home, visiting, 5);
    // two strikes: the plate appearance is still open
    game.simulate_pitch(Some(StrikeZoneLocation::In), Some(BatterDecision::Take));
    game.simulate_pitch(Some(StrikeZoneLocation::In), Some(BatterDecision::Take));
    assert_eq!(game.state.visiting_team_batter_index, 0);
    assert_eq!(game.state.home_team_batter_index, 0);
    // the third strike concludes it
    game.simulate_pitch(Some(StrikeZoneLocation::In), Some(BatterDecision::Take));
    assert_eq!(game.state.visiting_team_batter_index, 1);
    assert_eq!(game.state.home_team_batter_index, 0);
    // a walk concludes the next one
    for _ in 0..4 {
        game.simulate_pitch(Some(StrikeZoneLocation::Out), Some(BatterDecision::Take));
    }
    assert_eq!(game.state.visiting_team_batter_index, 2);
    assert_eq!(game.state.home_team_batter_index, 0);
}

#[test]
fn walk_off_win_stands_through_further_pitches() {
    // bottom of the ninth, the home team ahead: the outcome rule awards the
    // game at the next evaluation, and further pitches in the half-inning
    // leave the award in place
    let (mut map, home, visiting) = setup(Level::Medium);
    set_skill(&mut map, "visiting pitcher", "pitching", Level::VeryHigh);
    let mut game = BaseballGame::new(map, home, visiting, 5);
    game.state.half_inning = HalfInning { number: 9, top: false };
    game.state.home_team_runs = 3;
    game.state.visiting_team_runs = 2;
    game.simulate_pitch(Some(StrikeZoneLocation::Out), Some(BatterDecision::Take));
    assert_eq!(game.state.game_outcome, GameOutcome::HomeTeamWins);
    game.simulate_pitch(Some(StrikeZoneLocation::Out), Some(BatterDecision::Take));
    assert_eq!(game.state.game_outcome, GameOutcome::HomeTeamWins);
}

#[test]
fn visiting_team_wins_in_extra_innings_after_a_cycle() {
    // top of the tenth ends with the visiting team ahead: the flag set by the
    // cycle lets the outcome rule award the game
    let (mut map, home, visiting) = setup(Level::Medium);
    set_skill(&mut map, "home pitcher", "pitching", Level::VeryHigh);
    let mut game = BaseballGame::new(map, home, visiting, 5);
    game.state.half_inning = HalfInning { number: 10, top: true };
    game.state.visiting_team_runs = 4;
    game.state.home_team_runs = 3;
    game.state.outs = 2;
    game.state.count = Count { balls: 0, strikes: 2 };
    let summary = game.simulate_pitch(
        Some(StrikeZoneLocation::In),
        Some(BatterDecision::Take),
    );
    assert_eq!(summary.at_bat_outcome, Some(AtBatOutcome::Strikeout));
    // the third out cycled the half-inning, but the outcome rule reads the
    // state after the cycle: bottom of the tenth, so no award yet
    assert_eq!(game.state.half_inning, HalfInning { number: 10, top: false });
    assert_eq!(game.state.game_outcome, GameOutcome::Ongoing);
    // a cycle out of the bottom of the tenth reaches the top of the eleventh
    // with the flag set, and the visiting lead now wins
    game.state.outs = 2;
    game.state.count = Count { balls: 0, strikes: 2 };
    game.state.half_inning = HalfInning { number: 10, top: false };
    let mut g2 = game;
    set_pitcher_certain(&mut g2);
    let summary = g2.simulate_pitch(
        Some(StrikeZoneLocation::In),
        Some(BatterDecision::Take),
    );
    assert_eq!(summary.at_bat_outcome, Some(AtBatOutcome::Strikeout));
    assert_eq!(g2.state.half_inning, HalfInning { number: 11, top: true });
    assert_eq!(g2.state.game_outcome, GameOutcome::VisitingTeamWins);
    // the decided outcome is latched: a further pitch clears the consumed-once
    // flag, but the award does not revert
    g2.simulate_pitch(Some(StrikeZoneLocation::Out), Some(BatterDecision::Take));
    assert_eq!(g2.state.game_outcome, GameOutcome::VisitingTeamWins);
}

fn set_pitcher_certain(game: &mut BaseballGame) {
    for p in game.all_players.players.iter_mut() {
        p.metrics.pitching = Level::VeryHigh;
    }
}

#[test]
fn hopeless_hitter_always_misses() {
    let (mut map, home, visiting) = setup(Level::Medium);
    set_skill(&mut map, "visiting batter 0", "hitting", Level::VeryLow);
    let mut game = BaseballGame::new(map, home, visiting, 5);
    let summary = game.simulate_pitch(None, Some(BatterDecision::Swing));
    assert!(matches!(summary.batting_outcome, BattingOutcome::Strike));
    assert!(summary.at_bat_outcome.is_none());
    assert_eq!(game.state.count.strikes, 1);
}

#[test]
fn same_seed_replays_the_same_game() {
    let (map, home, visiting) = setup(Level::Medium);
    let mut a = BaseballGame::new(map.clone(), home.clone(), visiting.clone(), 42);
    let mut b = BaseballGame::new(map, home, visiting, 42);
    for _ in 0..40 {
        let sa = a.simulate_pitch(None, None);
        let sb = b.simulate_pitch(None, None);
        assert_eq!(sa.pitch_location, sb.pitch_location);
        assert_eq!(sa.batter_decision, sb.batter_decision);
        assert_eq!(sa.batting_outcome, sb.batting_outcome);
        assert_eq!(sa.at_bat_outcome, sb.at_bat_outcome);
        assert_eq!(sa.runner_advancements, sb.runner_advancements);
        assert_eq!(sa.game_outcome, sb.game_outcome);
    }
    assert_eq!(a.state.home_team_runs, b.state.home_team_runs);
    assert_eq!(a.state.visiting_team_runs, b.state.visiting_team_runs);
}

#[test]
fn ball_in_play_destinations_never_collide() {
    // play many balls into the field and check that no two runners of one
    // event are sent to the same base
    let (map, home, visiting) = setup(Level::High);
    let mut game = BaseballGame::new(map, home, visiting, 99);
    for _ in 0..200 {
        if game.state.home_team_runs > 200 || game.state.visiting_team_runs > 200 {
            break;
        }
        let summary = game.simulate_pitch(None, None);
        let advs = &summary.runner_advancements;
        for (i, a) in advs.iter().enumerate() {
            for b in advs.iter().skip(i + 1) {
                if let (Some(da), Some(db)) = (a.to_base, b.to_base) {
                    if da != Base::Home {
                        assert_ne!(da, db, "two runners sent to the same base");
                    }
                }
            }
        }
        assert!(game.state.outs <= 2);
        assert!(game.state.count.balls <= 3);
        assert!(game.state.count.strikes <= 2);
    }
}

#[test]
fn state_summary_resolves_batter_and_pitcher() {
    let (map, home, visiting) = setup(Level::Medium);
    let mut game = BaseballGame::new(map, home, visiting, 5);
    assert!(!game.home_team_is_at_bat());
    let summary = game.state_summary();
    assert_eq!(summary.batter, "visiting batter 0");
    assert_eq!(summary.pitcher, "home pitcher");
    assert_eq!(summary.outs, 0);
    assert_eq!(summary.home_team_runs, 0);
    game.state.half_inning.top = false;
    assert!(game.home_team_is_at_bat());
    let summary = game.state_summary();
    assert_eq!(summary.batter, "home batter 0");
    assert_eq!(summary.pitcher, "visiting pitcher");
}

#[test]
fn apply_runner_advancements_handles_outs_scores_and_moves() {
    let (map, home, visiting) = setup(Level::Medium);
    let mut game = BaseballGame::new(map, home, visiting, 5);
    // an empty batch is a safe no-op
    game.state.apply_runner_advancements(&Vec::new());
    assert_eq!(game.state.outs, 0);
    // a batch with a score, a move and an out, applied home-ward first
    game.state.bases.third = Some("visiting batter 8".to_string());
    game.state.bases.first = Some("visiting batter 6".to_string());
    let batch = vec![
        RunnerAdvancement {
            name: "visiting batter 0".to_string(),
            from_base: Base::Batting,
            to_base: Some(Base::First),
        },
        RunnerAdvancement {
            name: "visiting batter 6".to_string(),
            from_base: Base::First,
            to_base: None,
        },
        RunnerAdvancement {
            name: "visiting batter 8".to_string(),
            from_base: Base::Third,
            to_base: Some(Base::Home),
        },
    ];
    game.state.apply_runner_advancements(&batch);
    assert_eq!(game.state.visiting_team_runs, 1);
    assert_eq!(game.state.outs, 1);
    assert_eq!(game.state.bases.first.as_deref(), Some("visiting batter 0"));
    assert!(game.state.bases.third.is_none());
    assert_eq!(game.state.visiting_team_batter_index, 1);
}

#[test]
fn base_arithmetic_walks_the_diamond() {
    assert_eq!(Base::Batting.next(), Some(Base::First));
    assert_eq!(Base::Third.next(), Some(Base::Home));
    assert_eq!(Base::Home.next(), None);
    assert_eq!(Base::Batting.prev(), None);
    assert_eq!(Base::Home.prev(), Some(Base::Third));
    assert_eq!(Base::First.plus(2), Some(Base::Third));
    assert_eq!(Base::First.plus(3), Some(Base::Home));
    assert_eq!(Base::First.plus(4), None);
    assert_eq!(Base::Third.minus(2), Some(Base::First));
    assert_eq!(Base::First.minus(2), None);
    assert_eq!(Base::Second.idx(), 2);
}

#[test]
fn skill_levels_map_to_quarters() {
    assert_eq!(Level::VeryHigh.quarters(), 4);
    assert_eq!(Level::High.quarters(), 3);
    assert_eq!(Level::Medium.quarters(), 2);
    assert_eq!(Level::Low.quarters(), 1);
    assert_eq!(Level::VeryLow.quarters(), 0);
}

#[test]
fn escalation_follows_the_hitting_skill() {
    let mut rng = rand::rngs::StdRng::seed_from_u64(3);
    let certain = FieldLocation::Close.random_from_skill(&mut rng, 4);
    assert_eq!(certain, FieldLocation::OutOfPark);
    let hopeless = FieldLocation::Close.random_from_skill(&mut rng, 0);
    assert_eq!(hopeless, FieldLocation::Close);
    let from_outfield = FieldLocation::Outfield.random_from_skill(&mut rng, 0);
    assert_eq!(from_outfield, FieldLocation::Outfield);
}

#[test]
fn count_and_bases_helpers() {
    let empty = Count::empty();
    assert!(empty.is_empty());
    assert!(!empty.is_full());
    let full = Count { balls: 3, strikes: 2 };
    assert!(full.is_full());
    assert!(!full.is_empty());
    let bases = Bases::empty();
    assert!(!bases.are_loaded());
    let loaded = Bases {
        first: Some("a".to_string()),
        second: Some("b".to_string()),
        third: Some("c".to_string()),
    };
    assert!(loaded.are_loaded());
}

#[test]
fn start_of_game_is_the_first_pitch_of_the_first_inning() {
    let state = GameState::start_of_game();
    assert_eq!(state.half_inning, HalfInning { number: 1, top: true });
    assert_eq!(state.home_team_runs, 0);
    assert_eq!(state.visiting_team_runs, 0);
    assert_eq!(state.outs, 0);
    assert_eq!(state.game_outcome, GameOutcome::Ongoing);
    assert_eq!(state.home_team_batter_index, 0);
    assert_eq!(state.visiting_team_batter_index, 0);
}

#[test]
fn a_full_game_reaches_a_consistent_decision() {
    let (map, home, visiting) = setup(Level::Medium);
    let mut game = BaseballGame::new(map, home, visiting, 7);
    let mut pitches = 0;
    while game.state.game_outcome == GameOutcome::Ongoing && pitches < 20000 {
        assert!(game.state.outs <= 2);
        assert!(game.state.half_inning.number >= 1);
        let summary = game.simulate_pitch(None, None);
        assert_eq!(summary.game_outcome, game.state.game_outcome);
        pitches += 1;
    }
    match game.state.game_outcome {
        GameOutcome::HomeTeamWins => {
            assert!(game.state.home_team_runs > game.state.visiting_team_runs);
            assert_eq!(game.state.half_inning.number, 9);
            assert!(!game.state.half_inning.top);
        },
        GameOutcome::VisitingTeamWins => {
            assert!(game.state.visiting_team_runs > game.state.home_team_runs);
            assert!(game.state.half_inning.number >= 10);
            assert!(game.state.half_inning.top);
        },
        GameOutcome::Ongoing => panic!("the game should have reached a decision"),
    }
}

#[test]
fn extra_innings_home_lead_is_not_awarded_mid_half() {
    // the outcome rule as specified names no home-team award in extra innings
    // beyond the ninth-inning walk-off: a home lead in the bottom of the tenth
    // leaves the game ongoing
    let (mut map, home, visiting) = setup(Level::Medium);
    set_skill(&mut map, "visiting pitcher", "pitching", Level::VeryHigh);
    let mut game = BaseballGame::new(map, home, visiting, 5);
    game.state.half_inning = HalfInning { number: 10, top: false };
    game.state.home_team_runs = 5;
    game.state.visiting_team_runs = 3;
    game.simulate_pitch(Some(StrikeZoneLocation::Out), Some(BatterDecision::Take));
    assert_eq!(game.state.game_outcome, GameOutcome::Ongoing);
}

#[test]
fn decided_game_never_reverts_to_ongoing() {
    // bottom of the ninth, home ahead: the first evaluation awards the game,
    // and the award survives any number of further pitches, cycles included
    let (mut map, home, visiting) = setup(Level::Medium);
    set_skill(&mut map, "visiting pitcher", "pitching", Level::VeryHigh);
    let mut game = BaseballGame::new(map, home, visiting, 13);
    game.state.half_inning = HalfInning { number: 9, top: false };
    game.state.home_team_runs = 2;
    game.state.visiting_team_runs = 1;
    game.simulate_pitch(Some(StrikeZoneLocation::Out), Some(BatterDecision::Take));
    assert_eq!(game.state.game_outcome, GameOutcome::HomeTeamWins);
    // nine strikeouts cycle the half-inning three times; the award stands
    for _ in 0..27 {
        game.simulate_pitch(Some(StrikeZoneLocation::In), Some(BatterDecision::Take));
        assert_eq!(game.state.game_outcome, GameOutcome::HomeTeamWins);
    }
}

#[test]
fn unforced_slow_runner_on_third_holds() {
    // a lone runner on third is not forced; with no speed, the odds are below
    // even, so the runner does not try and keeps the base
    let (mut map, home, visiting) = setup(Level::Medium);
    set_skill(&mut map, "visiting batter 8", "running", Level::VeryLow);
    let mut game = BaseballGame::new(map, home, visiting, 5);
    game.state.bases.third = Some("visiting batter 8".to_string());
    let batter = "visiting batter 0".to_string();
    let (_, advancements) = game.simulate_fielding_and_running(&batter, FieldLocation::Close);
    assert!(advancements.iter().all(|a| a.from_base != Base::Third));
    assert_eq!(game.state.bases.third.as_deref(), Some("visiting batter 8"));
    assert_eq!(game.state.visiting_team_runs, 0);
}
