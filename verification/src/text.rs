//! How coarsely the surrounding presentation should narrate: pitch by pitch
//! in a tense game, half-inning by half-inning otherwise.

use crate::game::GameStateSummary;
use vstd::prelude::*;

verus! {

/// How much detail the caller should present.
#[derive(Copy, Clone, PartialEq, Eq, Structural, Debug)]
pub enum Granularity {
    Pitch,
    HalfInning,
}

/// The tension of a game: the inning number over the run difference, taken as
/// boundless when the game is tied.
pub open spec fn spec_tension(home_runs: int, visiting_runs: int, inning: int) -> int {
    let diff = if home_runs >= visiting_runs {
        home_runs - visiting_runs
    } else {
        visiting_runs - home_runs
    };
    if diff == 0 {
        usize::MAX as int
    } else {
        inning / diff
    }
}

impl Granularity {
    /// Executable counterpart of [`spec_tension`].
    fn calculate_tension(state_summary: &GameStateSummary) -> (r: usize)
        ensures
            r == spec_tension(
                state_summary.home_team_runs as int,
                state_summary.visiting_team_runs as int,
                state_summary.half_inning.number as int,
            ),
    {
        let inning = state_summary.half_inning.number as usize;
        let run_diff: usize = if state_summary.home_team_runs >= state_summary.visiting_team_runs {
            (state_summary.home_team_runs - state_summary.visiting_team_runs) as usize
        } else {
            (state_summary.visiting_team_runs - state_summary.home_team_runs) as usize
        };
        if run_diff == 0 {
            usize::MAX
        } else {
            inning / run_diff
        }
    }

    /// Tension above three plays out in half-inning strides; anything else is
    /// presented pitch by pitch.
    pub fn from_state_summary(state_summary: &GameStateSummary) -> (r: Granularity)
        ensures
            r == (if spec_tension(
                state_summary.home_team_runs as int,
                state_summary.visiting_team_runs as int,
                state_summary.half_inning.number as int,
            ) > 3 {
                Granularity::HalfInning
            } else {
                Granularity::Pitch
            }),
    {
        let tension = Self::calculate_tension(state_summary);
        if tension > 3 {
            Granularity::HalfInning
        } else {
            Granularity::Pitch
        }
    }
}

} // verus!
