use idbb::game::GameStateSummary;
use idbb::state::{Bases, Count, HalfInning};
use idbb::text::Granularity;

fn summary(home_runs: u8, visiting_runs: u8, inning: u8) -> GameStateSummary {
    GameStateSummary {
        home_team_runs: home_runs,
        visiting_team_runs: visiting_runs,
        half_inning: HalfInning { number: inning, top: true },
        bases: Bases { first: None, second: None, third: None },
        outs: 0,
        count: Count { balls: 0, strikes: 0 },
        batter: "someone".to_string(),
        pitcher: "someone else".to_string(),
    }
}

#[test]
fn tied_game_is_maximally_tense() {
    assert_eq!(
        Granularity::from_state_summary(&summary(2, 2, 1)),
        Granularity::HalfInning
    );
}

#[test]
fn late_close_game_is_tense() {
    // inning nine over a one-run difference: tension nine
    assert_eq!(
        Granularity::from_state_summary(&summary(5, 4, 9)),
        Granularity::HalfInning
    );
}

#[test]
fn lopsided_game_is_not_tense() {
    // inning two over a six-run difference: tension zero
    assert_eq!(
        Granularity::from_state_summary(&summary(6, 0, 2)),
        Granularity::Pitch
    );
}

#[test]
fn tension_of_three_stays_at_pitch_level() {
    // inning six over a two-run difference: tension three, not above it
    assert_eq!(
        Granularity::from_state_summary(&summary(4, 2, 6)),
        Granularity::Pitch
    );
}
