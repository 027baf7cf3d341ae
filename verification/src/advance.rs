//! Runner advancements and the state mutator that applies one event's batch
//! of them to the game state.

use crate::state::{Base, BasesView, GameState, GameStateView};
use vstd::prelude::*;

verus! {

/// One runner's movement within one event: who moves, from where, and to
/// where. A missing destination means the runner is put out.
#[derive(Clone, PartialEq, Debug)]
pub struct RunnerAdvancement {
    pub name: String,
    pub from_base: Base,
    pub to_base: Option<Base>,
}

/// The spec-level image of a runner advancement.
#[verifier::ext_equal]
pub struct AdvView {
    pub name: Seq<char>,
    pub from_base: Base,
    pub to_base: Option<Base>,
}

impl View for RunnerAdvancement {
    type V = AdvView;

    open spec fn view(&self) -> AdvView {
        AdvView { name: self.name@, from_base: self.from_base, to_base: self.to_base }
    }
}

/// The spec-level image of a whole advancement list.
pub open spec fn advs_view(advs: Seq<RunnerAdvancement>) -> Seq<AdvView> {
    advs.map_values(|a: RunnerAdvancement| a@)
}

/// What one event's advancement batch must look like: each origin occurs at
/// most once, nobody moves from home plate, and every move is toward home.
pub open spec fn advs_wf(advs: Seq<AdvView>) -> bool {
    &&& forall|i: int, j: int|
        0 <= i < j < advs.len() ==> advs[i].from_base != advs[j].from_base
    &&& forall|i: int|
        0 <= i < advs.len() ==> advs[i].from_base != Base::Home
    &&& forall|i: int|
        0 <= i < advs.len() ==> (#[trigger] advs[i].to_base matches Some(b) ==> b.spec_idx()
            > advs[i].from_base.spec_idx())
}

/// Whether some entry moves a runner off the given origin base.
pub open spec fn has_origin(advs: Seq<AdvView>, origin: Base) -> bool {
    exists|i: int| 0 <= i < advs.len() && advs[i].from_base == origin
}

/// The entry that moves a runner off the given origin base.
pub open spec fn entry_at(advs: Seq<AdvView>, origin: Base) -> AdvView {
    advs[choose|i: int| 0 <= i < advs.len() && advs[i].from_base == origin]
}

/// Whether some entry sends a runner to the given base.
pub open spec fn has_dest(advs: Seq<AdvView>, dest: Base) -> bool {
    exists|i: int| 0 <= i < advs.len() && advs[i].to_base == Some(dest)
}

/// The entry that sends a runner to the given base.
pub open spec fn dest_entry(advs: Seq<AdvView>, dest: Base) -> AdvView {
    advs[choose|i: int| 0 <= i < advs.len() && advs[i].to_base == Some(dest)]
}

/// No two entries of one event land on the same base; home plate, where any
/// number may score, and put-outs are excepted.
pub open spec fn no_base_collision(advs: Seq<AdvView>) -> bool {
    forall|i: int, j: int|
        0 <= i < j < advs.len() ==> !(advs[i].to_base is Some && advs[i].to_base == advs[j].to_base
            && advs[i].to_base != Some(Base::Home))
}

/// The effect of one advancement on the state. By destination: a run for the
/// team at bat, a newly occupied base, or one more out; by origin: the vacated
/// base is cleared, or, for the batter, the lineup moves on by one.
pub open spec fn apply_one(s: GameStateView, a: AdvView) -> GameStateView {
    let arrived = match a.to_base {
        Some(Base::Home) => if s.top {
            GameStateView { visiting_team_runs: s.visiting_team_runs + 1, ..s }
        } else {
            GameStateView { home_team_runs: s.home_team_runs + 1, ..s }
        },
        Some(Base::Third) => GameStateView {
            bases: BasesView { third: Some(a.name), ..s.bases },
            ..s
        },
        Some(Base::Second) => GameStateView {
            bases: BasesView { second: Some(a.name), ..s.bases },
            ..s
        },
        Some(Base::First) => GameStateView {
            bases: BasesView { first: Some(a.name), ..s.bases },
            ..s
        },
        Some(Base::Batting) => s,
        None => GameStateView { outs: s.outs + 1, ..s },
    };
    match a.from_base {
        Base::Batting => if arrived.top {
            GameStateView {
                visiting_team_batter_index: (arrived.visiting_team_batter_index + 1) % 9,
                ..arrived
            }
        } else {
            GameStateView {
                home_team_batter_index: (arrived.home_team_batter_index + 1) % 9,
                ..arrived
            }
        },
        Base::First => GameStateView { bases: BasesView { first: None, ..arrived.bases }, ..arrived },
        Base::Second => GameStateView {
            bases: BasesView { second: None, ..arrived.bases },
            ..arrived
        },
        Base::Third => GameStateView { bases: BasesView { third: None, ..arrived.bases }, ..arrived },
        Base::Home => arrived,
    }
}

/// Applies the entry that starts at the given origin base, if there is one.
pub open spec fn apply_origin(s: GameStateView, advs: Seq<AdvView>, origin: Base) -> GameStateView {
    if has_origin(advs, origin) {
        apply_one(s, entry_at(advs, origin))
    } else {
        s
    }
}

/// The state mutator's meaning: one event's advancements, applied in
/// descending order of origin base — home-ward first — so that a base vacated
/// by a trailing runner's arrival cannot clobber a lead runner's departure.
pub open spec fn apply_advs(s: GameStateView, advs: Seq<AdvView>) -> GameStateView {
    apply_origin(
        apply_origin(apply_origin(apply_origin(s, advs, Base::Third), advs, Base::Second), advs, Base::First),
        advs,
        Base::Batting,
    )
}

/// With distinct origins, the entry found at an index is the entry the spec
/// selects for that origin.
pub proof fn lemma_entry_at(advs: Seq<AdvView>, i: int)
    requires
        advs_wf(advs),
        0 <= i < advs.len(),
    ensures
        has_origin(advs, advs[i].from_base),
        entry_at(advs, advs[i].from_base) == advs[i],
{
    let origin = advs[i].from_base;
    assert(has_origin(advs, origin));
    let k = choose|k: int| 0 <= k < advs.len() && advs[k].from_base == origin;
    if k != i {
        if k < i {
            assert(advs[k].from_base != advs[i].from_base);
        } else {
            assert(advs[i].from_base != advs[k].from_base);
        }
        assert(false);
    }
}

impl GameState {
    /// Applies a single advancement, as [`apply_one`] describes.
    fn apply_single(&mut self, adv: &RunnerAdvancement)
        requires
            old(self).outs < 255,
            old(self).home_team_runs < 255,
            old(self).visiting_team_runs < 255,
            old(self).home_team_batter_index < 9,
            old(self).visiting_team_batter_index < 9,
        ensures
            final(self)@ == apply_one(old(self)@, adv@),
    {
        match adv.to_base {
            Some(Base::Home) => {
                if self.half_inning.top {
                    self.visiting_team_runs = self.visiting_team_runs + 1;
                } else {
                    self.home_team_runs = self.home_team_runs + 1;
                }
            },
            Some(Base::Third) => {
                self.bases.third = Some(adv.name.clone());
            },
            Some(Base::Second) => {
                self.bases.second = Some(adv.name.clone());
            },
            Some(Base::First) => {
                self.bases.first = Some(adv.name.clone());
            },
            Some(Base::Batting) => {},
            None => {
                self.outs = self.outs + 1;
            },
        }
        match adv.from_base {
            Base::Batting => {
                if self.half_inning.top {
                    self.visiting_team_batter_index = (self.visiting_team_batter_index + 1) % 9;
                } else {
                    self.home_team_batter_index = (self.home_team_batter_index + 1) % 9;
                }
            },
            Base::First => {
                self.bases.first = None;
            },
            Base::Second => {
                self.bases.second = None;
            },
            Base::Third => {
                self.bases.third = None;
            },
            Base::Home => {},
        }
    }

    /// Applies the batch entry that starts at the given origin base, if any.
    fn apply_for_origin(&mut self, advs: &Vec<RunnerAdvancement>, origin: Base)
        requires
            advs_wf(advs_view(advs@)),
            old(self).outs < 255,
            old(self).home_team_runs < 255,
            old(self).visiting_team_runs < 255,
            old(self).home_team_batter_index < 9,
            old(self).visiting_team_batter_index < 9,
        ensures
            final(self)@ == apply_origin(old(self)@, advs_view(advs@), origin),
    {
        let ghost vadvs = advs_view(advs@);
        let n = advs.len();
        let mut found: Option<usize> = None;
        let mut i: usize = 0;
        while i < n
            invariant_except_break
                found is None,
            invariant
                vadvs == advs_view(advs@),
                n == advs@.len(),
                i <= n,
                forall|j: int| 0 <= j < i ==> vadvs[j].from_base != origin,
            ensures
                found matches Some(k) ==> k < n && vadvs[k as int].from_base == origin,
                found is None ==> forall|j: int| 0 <= j < n ==> vadvs[j].from_base != origin,
            decreases n - i,
        {
            if advs[i].from_base == origin {
                proof {
                    assert(vadvs[i as int] == advs@[i as int]@);
                }
                found = Some(i);
                break ;
            }
            i += 1;
        }
        proof {
            if found is None {
                assert(!has_origin(vadvs, origin));
            }
        }
        match found {
            Some(k) => {
                proof {
                    lemma_entry_at(vadvs, k as int);
                }
                self.apply_single(&advs[k]);
            },
            None => {},
        }
    }

    /// The state mutator: applies one event's advancements in descending
    /// order of origin base. An empty batch leaves the state unchanged.
    pub fn apply_runner_advancements(&mut self, advs: &Vec<RunnerAdvancement>)
        requires
            advs_wf(advs_view(advs@)),
            old(self).outs <= 251,
            old(self).home_team_runs <= 251,
            old(self).visiting_team_runs <= 251,
            old(self).home_team_batter_index < 9,
            old(self).visiting_team_batter_index < 9,
        ensures
            final(self)@ == apply_advs(old(self)@, advs_view(advs@)),
    {
        let ghost s0 = self@;
        let ghost vadvs = advs_view(advs@);
        self.apply_for_origin(advs, Base::Third);
        proof {
            assert(self@ == apply_origin(s0, vadvs, Base::Third));
        }
        self.apply_for_origin(advs, Base::Second);
        self.apply_for_origin(advs, Base::First);
        self.apply_for_origin(advs, Base::Batting);
    }
}

/// The advancement list of a walk: the batter is forced to first, and each
/// runner in the unbroken chain ahead of first base moves up exactly one base.
pub open spec fn walk_advs(bases: BasesView, batter: Seq<char>) -> Seq<AdvView> {
    let b = seq![AdvView { name: batter, from_base: Base::Batting, to_base: Some(Base::First) }];
    if bases.first is Some {
        let s1 = b.push(
            AdvView { name: bases.first->0, from_base: Base::First, to_base: Some(Base::Second) },
        );
        if bases.second is Some {
            let s2 = s1.push(
                AdvView {
                    name: bases.second->0,
                    from_base: Base::Second,
                    to_base: Some(Base::Third),
                },
            );
            if bases.third is Some {
                s2.push(
                    AdvView {
                        name: bases.third->0,
                        from_base: Base::Third,
                        to_base: Some(Base::Home),
                    },
                )
            } else {
                s2
            }
        } else {
            s1
        }
    } else {
        b
    }
}

/// The advancement list of a ball hit out of the park: the batter and every
/// occupied base advance to home plate unconditionally.
pub open spec fn home_run_advs(bases: BasesView, batter: Seq<char>) -> Seq<AdvView> {
    let b = seq![AdvView { name: batter, from_base: Base::Batting, to_base: Some(Base::Home) }];
    let with_third = if bases.third is Some {
        b.push(AdvView { name: bases.third->0, from_base: Base::Third, to_base: Some(Base::Home) })
    } else {
        b
    };
    let with_second = if bases.second is Some {
        with_third.push(
            AdvView { name: bases.second->0, from_base: Base::Second, to_base: Some(Base::Home) },
        )
    } else {
        with_third
    };
    if bases.first is Some {
        with_second.push(
            AdvView { name: bases.first->0, from_base: Base::First, to_base: Some(Base::Home) },
        )
    } else {
        with_second
    }
}

/// Law: a walk's advancement list has between one and four entries; it has
/// four exactly when the bases were loaded; at most one entry scores, and one
/// scores exactly when the bases were loaded; and no two entries land on the
/// same base.
pub proof fn lemma_walk_advancements(bases: BasesView, batter: Seq<char>)
    ensures
        ({
            let advs = walk_advs(bases, batter);
            &&& 1 <= advs.len() <= 4
            &&& (advs.len() == 4 <==> bases.loaded())
            &&& (forall|i: int, j: int|
                0 <= i < j < advs.len() ==> !(advs[i].to_base == Some(Base::Home)
                    && advs[j].to_base == Some(Base::Home)))
            &&& ((exists|i: int| 0 <= i < advs.len() && advs[i].to_base == Some(Base::Home))
                <==> bases.loaded())
            &&& no_base_collision(advs)
            &&& advs_wf(advs)
        }),
{
    let advs = walk_advs(bases, batter);
    if bases.loaded() {
        assert(advs[3].to_base == Some(Base::Home));
    }
}

/// Law: a home run's advancement list is one entry longer than the number of
/// occupied bases, and every entry's destination is home plate.
pub proof fn lemma_home_run_advancements(bases: BasesView, batter: Seq<char>)
    ensures
        ({
            let advs = home_run_advs(bases, batter);
            &&& advs.len() == bases.occupied_count() + 1
            &&& (forall|i: int| 0 <= i < advs.len() ==> advs[i].to_base == Some(Base::Home))
            &&& no_base_collision(advs)
            &&& advs_wf(advs)
            &&& advs[0] == AdvView {
                name: batter,
                from_base: Base::Batting,
                to_base: Some(Base::Home),
            }
        }),
{
}

/// With collision-free destinations, the entry found at an index is the entry
/// the spec selects for its destination base.
pub proof fn lemma_dest_entry(advs: Seq<AdvView>, i: int, dest: Base)
    requires
        no_base_collision(advs),
        0 <= i < advs.len(),
        advs[i].to_base == Some(dest),
        dest != Base::Home,
    ensures
        has_dest(advs, dest),
        dest_entry(advs, dest) == advs[i],
{
    assert(has_dest(advs, dest));
    let k = choose|k: int| 0 <= k < advs.len() && advs[k].to_base == Some(dest);
    if k != i {
        assert(false);
    }
}

/// One step of the mutator: what applying the entry of a single origin base
/// does, and which parts of the state it cannot touch.
proof fn lemma_apply_step(s: GameStateView, advs: Seq<AdvView>, origin: Base)
    requires
        advs_wf(advs),
        no_base_collision(advs),
        origin != Base::Home,
    ensures
        ({
            let t = apply_origin(s, advs, origin);
            let stepped = has_origin(advs, origin);
            let e = entry_at(advs, origin);
            &&& t.inning == s.inning
            &&& t.top == s.top
            &&& t.last_inning_just_ended == s.last_inning_just_ended
            &&& t.balls == s.balls
            &&& t.strikes == s.strikes
            &&& t.game_outcome == s.game_outcome
            &&& s.home_team_runs <= t.home_team_runs <= s.home_team_runs + 1
            &&& s.visiting_team_runs <= t.visiting_team_runs <= s.visiting_team_runs + 1
            &&& t.fielding_runs() == s.fielding_runs()
            &&& t.batting_runs() == s.batting_runs() + (if stepped && e.to_base == Some(Base::Home) {
                1int
            } else {
                0int
            })
            &&& t.outs == s.outs + (if stepped && e.to_base is None {
                1int
            } else {
                0int
            })
            &&& t.batting_index() == (if stepped && origin == Base::Batting {
                (s.batting_index() + 1) % 9
            } else {
                s.batting_index()
            })
            &&& (if s.top {
                t.home_team_batter_index == s.home_team_batter_index
            } else {
                t.visiting_team_batter_index == s.visiting_team_batter_index
            })
            &&& t.bases.first == (if stepped && e.to_base == Some(Base::First) {
                Some(e.name)
            } else if stepped && origin == Base::First {
                None
            } else {
                s.bases.first
            })
            &&& t.bases.second == (if stepped && e.to_base == Some(Base::Second) {
                Some(e.name)
            } else if stepped && origin == Base::Second {
                None
            } else {
                s.bases.second
            })
            &&& t.bases.third == (if stepped && e.to_base == Some(Base::Third) {
                Some(e.name)
            } else if stepped && origin == Base::Third {
                None
            } else {
                s.bases.third
            })
        }),
{
    if has_origin(advs, origin) {
        let e = entry_at(advs, origin);
        assert(e.from_base == origin);
    }
}

/// How one event's batch changes the state, read off component by component:
/// the half-inning, count and outcome stand; runs only grow, and only for the
/// team at bat; outs grow by at most one per entry; the lineup moves on
/// exactly when the batter's entry is in the batch; and each base ends with
/// the runner sent there, empty if only vacated, and untouched otherwise.
pub proof fn lemma_apply_advs_effects(s: GameStateView, advs: Seq<AdvView>)
    requires
        advs_wf(advs),
        no_base_collision(advs),
    ensures
        ({
            let t = apply_advs(s, advs);
            &&& t.inning == s.inning
            &&& t.top == s.top
            &&& t.last_inning_just_ended == s.last_inning_just_ended
            &&& t.balls == s.balls
            &&& t.strikes == s.strikes
            &&& t.game_outcome == s.game_outcome
            &&& s.home_team_runs <= t.home_team_runs
            &&& s.visiting_team_runs <= t.visiting_team_runs
            &&& t.fielding_runs() == s.fielding_runs()
            &&& t.batting_runs() <= s.batting_runs() + 4
            &&& s.outs <= t.outs <= s.outs + 4
            &&& t.batting_index() == (if has_origin(advs, Base::Batting) {
                (s.batting_index() + 1) % 9
            } else {
                s.batting_index()
            })
            &&& (if s.top {
                t.home_team_batter_index == s.home_team_batter_index
            } else {
                t.visiting_team_batter_index == s.visiting_team_batter_index
            })
            &&& t.bases.first == (if has_dest(advs, Base::First) {
                Some(dest_entry(advs, Base::First).name)
            } else if has_origin(advs, Base::First) {
                None
            } else {
                s.bases.first
            })
            &&& t.bases.second == (if has_dest(advs, Base::Second) {
                Some(dest_entry(advs, Base::Second).name)
            } else if has_origin(advs, Base::Second) {
                None
            } else {
                s.bases.second
            })
            &&& t.bases.third == (if has_dest(advs, Base::Third) {
                Some(dest_entry(advs, Base::Third).name)
            } else if has_origin(advs, Base::Third) {
                None
            } else {
                s.bases.third
            })
        }),
{
    let s1 = apply_origin(s, advs, Base::Third);
    let s2 = apply_origin(s1, advs, Base::Second);
    let s3 = apply_origin(s2, advs, Base::First);
    let t = apply_origin(s3, advs, Base::Batting);
    lemma_apply_step(s, advs, Base::Third);
    lemma_apply_step(s1, advs, Base::Second);
    lemma_apply_step(s2, advs, Base::First);
    lemma_apply_step(s3, advs, Base::Batting);
    assert(t == apply_advs(s, advs));
    lemma_apply_base_slots(s, advs);
}

/// The base-slot clauses of [`lemma_apply_advs_effects`]: an entry's
/// destination is written after the base it leaves is cleared, because
/// entries only move toward home and origins are applied home-ward first.
proof fn lemma_apply_base_slots(s: GameStateView, advs: Seq<AdvView>)
    requires
        advs_wf(advs),
        no_base_collision(advs),
    ensures
        ({
            let t = apply_advs(s, advs);
            &&& t.bases.first == (if has_dest(advs, Base::First) {
                Some(dest_entry(advs, Base::First).name)
            } else if has_origin(advs, Base::First) {
                None
            } else {
                s.bases.first
            })
            &&& t.bases.second == (if has_dest(advs, Base::Second) {
                Some(dest_entry(advs, Base::Second).name)
            } else if has_origin(advs, Base::Second) {
                None
            } else {
                s.bases.second
            })
            &&& t.bases.third == (if has_dest(advs, Base::Third) {
                Some(dest_entry(advs, Base::Third).name)
            } else if has_origin(advs, Base::Third) {
                None
            } else {
                s.bases.third
            })
        }),
{
    let s1 = apply_origin(s, advs, Base::Third);
    let s2 = apply_origin(s1, advs, Base::Second);
    let s3 = apply_origin(s2, advs, Base::First);
    let t = apply_origin(s3, advs, Base::Batting);
    lemma_apply_step(s, advs, Base::Third);
    lemma_apply_step(s1, advs, Base::Second);
    lemma_apply_step(s2, advs, Base::First);
    lemma_apply_step(s3, advs, Base::Batting);
    lemma_slot_case(s, advs, Base::First);
    lemma_slot_case(s, advs, Base::Second);
    lemma_slot_case(s, advs, Base::Third);
}

/// Tracks a single base slot through the four mutator steps.
proof fn lemma_slot_case(s: GameStateView, advs: Seq<AdvView>, slot: Base)
    requires
        advs_wf(advs),
        no_base_collision(advs),
        slot == Base::First || slot == Base::Second || slot == Base::Third,
    ensures
        ({
            let t = apply_advs(s, advs);
            t.bases.slot(slot) == (if has_dest(advs, slot) {
                Some(dest_entry(advs, slot).name)
            } else if has_origin(advs, slot) {
                None
            } else {
                s.bases.slot(slot)
            })
        }),
{
    let s1 = apply_origin(s, advs, Base::Third);
    let s2 = apply_origin(s1, advs, Base::Second);
    let s3 = apply_origin(s2, advs, Base::First);
    let t = apply_origin(s3, advs, Base::Batting);
    lemma_apply_step(s, advs, Base::Third);
    lemma_apply_step(s1, advs, Base::Second);
    lemma_apply_step(s2, advs, Base::First);
    lemma_apply_step(s3, advs, Base::Batting);
    if has_dest(advs, slot) {
        let e = dest_entry(advs, slot);
        assert(0 <= (choose|k: int|
            0 <= k < advs.len() && advs[k].to_base == Some(slot)) < advs.len());
        lemma_entry_at(
            advs,
            choose|k: int| 0 <= k < advs.len() && advs[k].to_base == Some(slot),
        );
        assert(entry_at(advs, e.from_base) == e);
        // the writing step comes after the step that clears the slot
        assert(e.from_base.spec_idx() < slot.spec_idx());
        // any other step's entry neither writes nor clears this slot
        assert(forall|o: Base| o != e.from_base && #[trigger] has_origin(advs, o)
            ==> entry_at(advs, o).to_base != Some(slot)) by {
            assert forall|o: Base| o != e.from_base && #[trigger] has_origin(advs, o)
                implies entry_at(advs, o).to_base != Some(slot) by {
                let k = choose|k: int| 0 <= k < advs.len() && advs[k].from_base == o;
                let ke = choose|k: int|
                    0 <= k < advs.len() && advs[k].to_base == Some(slot);
                if advs[k].to_base == Some(slot) {
                    assert(k != ke);
                    assert(false);
                }
            }
        }
    } else if has_origin(advs, slot) {
        // no entry writes this slot afterwards
        assert(forall|o: Base| #[trigger] has_origin(advs, o) ==> entry_at(advs, o).to_base
            != Some(slot)) by {
            assert forall|o: Base| #[trigger] has_origin(advs, o) implies entry_at(
                advs,
                o,
            ).to_base != Some(slot) by {
                let k = choose|k: int| 0 <= k < advs.len() && advs[k].from_base == o;
                if advs[k].to_base == Some(slot) {
                    assert(has_dest(advs, slot));
                    assert(false);
                }
            }
        }
    } else {
        assert(forall|o: Base| #[trigger] has_origin(advs, o) ==> entry_at(advs, o).to_base
            != Some(slot)) by {
            assert forall|o: Base| #[trigger] has_origin(advs, o) implies entry_at(
                advs,
                o,
            ).to_base != Some(slot) by {
                let k = choose|k: int| 0 <= k < advs.len() && advs[k].from_base == o;
                if advs[k].to_base == Some(slot) {
                    assert(has_dest(advs, slot));
                    assert(false);
                }
            }
        }
    }
}


/// Law: applying a walk moves the batter to first, shifts exactly the forced
/// chain of runners up one base, scores one run exactly when the bases were
/// loaded, records no out, and moves the lineup on by one.
pub proof fn lemma_apply_walk(s: GameStateView, batter: Seq<char>)
    ensures
        ({
            let t = apply_advs(s, walk_advs(s.bases, batter));
            &&& t.bases.first == Some(batter)
            &&& t.bases.second == (if s.bases.first is Some {
                s.bases.first
            } else {
                s.bases.second
            })
            &&& t.bases.third == (if s.bases.first is Some && s.bases.second is Some {
                s.bases.second
            } else {
                s.bases.third
            })
            &&& t.outs == s.outs
            &&& t.balls == s.balls
            &&& t.strikes == s.strikes
            &&& t.inning == s.inning
            &&& t.top == s.top
            &&& t.last_inning_just_ended == s.last_inning_just_ended
            &&& t.game_outcome == s.game_outcome
            &&& t.batting_runs() == s.batting_runs() + (if s.bases.loaded() {
                1int
            } else {
                0int
            })
            &&& t.fielding_runs() == s.fielding_runs()
            &&& t.batting_index() == (s.batting_index() + 1) % 9
            &&& (if s.top {
                t.home_team_batter_index == s.home_team_batter_index
            } else {
                t.visiting_team_batter_index == s.visiting_team_batter_index
            })
        }),
{
    let advs = walk_advs(s.bases, batter);
    lemma_walk_advancements(s.bases, batter);
    let s1 = apply_origin(s, advs, Base::Third);
    let s2 = apply_origin(s1, advs, Base::Second);
    let s3 = apply_origin(s2, advs, Base::First);
    let t = apply_origin(s3, advs, Base::Batting);
    lemma_apply_step(s, advs, Base::Third);
    lemma_apply_step(s1, advs, Base::Second);
    lemma_apply_step(s2, advs, Base::First);
    lemma_apply_step(s3, advs, Base::Batting);
    lemma_entry_at(advs, 0);
    if s.bases.first is Some {
        lemma_entry_at(advs, 1);
        if s.bases.second is Some {
            lemma_entry_at(advs, 2);
            if s.bases.third is Some {
                lemma_entry_at(advs, 3);
            } else {
                assert(!has_origin(advs, Base::Third));
            }
        } else {
            assert(!has_origin(advs, Base::Second));
            assert(!has_origin(advs, Base::Third));
        }
    } else {
        assert(!has_origin(advs, Base::First));
        assert(!has_origin(advs, Base::Second));
        assert(!has_origin(advs, Base::Third));
    }
}

/// Law: applying a home run empties the bases, credits the team at bat with
/// one run for the batter and one for each previously occupied base, records
/// no out, and moves the lineup on by one.
pub proof fn lemma_apply_home_run(s: GameStateView, batter: Seq<char>)
    ensures
        ({
            let t = apply_advs(s, home_run_advs(s.bases, batter));
            &&& t.bases == BasesView::empty()
            &&& t.outs == s.outs
            &&& t.balls == s.balls
            &&& t.strikes == s.strikes
            &&& t.inning == s.inning
            &&& t.top == s.top
            &&& t.last_inning_just_ended == s.last_inning_just_ended
            &&& t.game_outcome == s.game_outcome
            &&& t.batting_runs() == s.batting_runs() + s.bases.occupied_count() + 1
            &&& t.fielding_runs() == s.fielding_runs()
            &&& t.batting_index() == (s.batting_index() + 1) % 9
            &&& (if s.top {
                t.home_team_batter_index == s.home_team_batter_index
            } else {
                t.visiting_team_batter_index == s.visiting_team_batter_index
            })
        }),
{
    let advs = home_run_advs(s.bases, batter);
    lemma_home_run_advancements(s.bases, batter);
    let s1 = apply_origin(s, advs, Base::Third);
    let s2 = apply_origin(s1, advs, Base::Second);
    let s3 = apply_origin(s2, advs, Base::First);
    let t = apply_origin(s3, advs, Base::Batting);
    lemma_apply_step(s, advs, Base::Third);
    lemma_apply_step(s1, advs, Base::Second);
    lemma_apply_step(s2, advs, Base::First);
    lemma_apply_step(s3, advs, Base::Batting);
    lemma_entry_at(advs, 0);
    if s.bases.third is Some {
        lemma_entry_at(advs, 1);
    } else {
        assert(!has_origin(advs, Base::Third));
    }
    if s.bases.second is Some {
        lemma_entry_at(advs, if s.bases.third is Some { 2 } else { 1 });
    } else {
        assert(!has_origin(advs, Base::Second));
    }
    if s.bases.first is Some {
        lemma_entry_at(advs, advs.len() - 1);
    } else {
        assert(!has_origin(advs, Base::First));
    }
    assert(t.bases =~= BasesView::empty());
}


} // verus!
