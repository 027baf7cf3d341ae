//! Players, their skill grades, the roster they are looked up in, and teams.

use vstd::prelude::*;

verus! {

/// A skill grade. Each grade stands for a success probability in quarters:
/// `VeryHigh` is 4/4, `High` 3/4, `Medium` 2/4, `Low` 1/4, `VeryLow` 0/4.
#[derive(Copy, Clone, PartialEq, Eq, Structural, Debug)]
pub enum Level {
    VeryHigh,
    High,
    Medium,
    Low,
    VeryLow,
}

impl Level {
    /// The numerator of the success probability this grade stands for, over a
    /// denominator of four.
    pub open spec fn spec_quarters(self) -> int {
        match self {
            Level::VeryHigh => 4,
            Level::High => 3,
            Level::Medium => 2,
            Level::Low => 1,
            Level::VeryLow => 0,
        }
    }

    /// Executable counterpart of [`Level::spec_quarters`].
    pub fn quarters(&self) -> (r: u8)
        ensures
            r == self.spec_quarters(),
    {
        match self {
            Level::VeryHigh => 4,
            Level::High => 3,
            Level::Medium => 2,
            Level::Low => 1,
            Level::VeryLow => 0,
        }
    }
}

/// A player's four independent skill grades.
#[derive(Copy, Clone, PartialEq, Eq, Structural, Debug)]
pub struct PlayerMetrics {
    pub hitting: Level,
    pub running: Level,
    pub fielding: Level,
    pub pitching: Level,
}

/// A player: a name, unique within a roster and used as the key everywhere,
/// and the four skill grades.
#[derive(Clone, Debug)]
pub struct Player {
    pub name: String,
    pub metrics: PlayerMetrics,
}

/// The roster: every player of both teams, looked up by name. Names must be
/// pairwise distinct for lookups to be meaningful.
#[derive(Clone, Debug)]
pub struct PlayerMap {
    pub players: Vec<Player>,
}

impl PlayerMap {
    /// Names are pairwise distinct.
    pub open spec fn wf(self) -> bool {
        forall|i: int, j: int|
            0 <= i < j < self.players@.len() ==> self.players@[i].name@ != self.players@[j].name@
    }

    /// Whether some player carries the given name.
    pub open spec fn contains_name(self, name: Seq<char>) -> bool {
        exists|i: int| 0 <= i < self.players@.len() && self.players@[i].name@ == name
    }

    /// The position of the player with the given name.
    pub open spec fn index_of(self, name: Seq<char>) -> int {
        choose|i: int| 0 <= i < self.players@.len() && self.players@[i].name@ == name
    }

    /// The skill grades of the player with the given name.
    pub open spec fn metrics_of(self, name: Seq<char>) -> PlayerMetrics {
        self.players@[self.index_of(name)].metrics
    }

    /// Looks the player up by name. A name that is not on the roster is a
    /// broken invariant and is ruled out by the precondition.
    pub fn get(&self, name: &String) -> (r: &Player)
        requires
            self.wf(),
            self.contains_name(name@),
        ensures
            r.name@ == name@,
            r.metrics == self.metrics_of(name@),
    {
        let n = self.players.len();
        let mut i: usize = 0;
        while i < n
            invariant
                self.wf(),
                self.contains_name(name@),
                n == self.players@.len(),
                i <= n,
                forall|j: int| 0 <= j < i ==> self.players@[j].name@ != name@,
            decreases n - i,
        {
            if self.players[i].name.eq(name) {
                proof {
                    let k = self.index_of(name@);
                    assert(0 <= k < self.players@.len() && self.players@[k].name@ == name@);
                    assert(k == i);
                }
                return &self.players[i];
            }
            i += 1;
        }
        proof {
            let k = self.index_of(name@);
            assert(0 <= k < self.players@.len() && self.players@[k].name@ == name@);
        }
        vstd::pervasive::unreached()
    }
}

/// A team: a batting order of exactly nine names, the current pitcher, eight
/// fielders (the pitcher not among them), and the reserve pitchers.
#[derive(Clone, Debug)]
pub struct Team {
    pub name: String,
    pub batting_order: [String; 9],
    pub current_pitcher: String,
    pub fielders: [String; 8],
    pub bullpen: Vec<String>,
}

impl Team {
    /// Every name this team can put on the field or at the plate is on the
    /// given roster.
    pub open spec fn roster_on(self, players: PlayerMap) -> bool {
        &&& forall|i: int| 0 <= i < 9 ==> players.contains_name(self.batting_order@[i]@)
        &&& forall|i: int| 0 <= i < 8 ==> players.contains_name(self.fielders@[i]@)
        &&& players.contains_name(self.current_pitcher@)
    }
}

} // verus!
