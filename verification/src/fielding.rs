//! The fielding resolver: where a hit ball comes down, and how the batter and
//! the runners advance against the defense, under the no-leapfrog ceiling.

use crate::advance::{advs_view, advs_wf, apply_advs, entry_at, has_dest, has_origin, home_run_advs, lemma_apply_advs_effects, lemma_dest_entry, lemma_entry_at, lemma_home_run_advancements, no_base_collision, AdvView, RunnerAdvancement};
use crate::game::AtBatOutcome;
use crate::rng::bernoulli;
use crate::state::Base;
use crate::state::BasesView;
use crate::state::GameStateView;
use vstd::prelude::*;

verus! {

/// Where a hit ball comes down, from nearest to farthest.
#[derive(Copy, Clone, PartialEq, Eq, Structural, Debug, Hash)]
pub enum FieldLocation {
    Close,
    Infield,
    Outfield,
    OutOfPark,
}

impl FieldLocation {
    /// Distance rank of the landing zone, for comparing zones.
    pub open spec fn spec_dist(self) -> int {
        match self {
            FieldLocation::Close => 0,
            FieldLocation::Infield => 1,
            FieldLocation::Outfield => 2,
            FieldLocation::OutOfPark => 3,
        }
    }

    /// The next more distant zone.
    fn next(&self) -> (r: FieldLocation)
        requires
            !(self is OutOfPark),
        ensures
            r.spec_dist() == self.spec_dist() + 1,
    {
        match self {
            FieldLocation::Close => FieldLocation::Infield,
            FieldLocation::Infield => FieldLocation::Outfield,
            FieldLocation::Outfield => FieldLocation::OutOfPark,
            FieldLocation::OutOfPark => vstd::pervasive::unreached(),
        }
    }

    /// Escalates the landing zone from this one outward: each trial at the
    /// batter's hitting probability moves one zone out, and the first failed
    /// trial, or the outfield wall, stops the escalation. A certain hitter
    /// always clears the park; a hopeless one never leaves the starting zone.
    pub fn random_from_skill(&self, rng: &mut rand::rngs::StdRng, skill_quarters: u8) -> (r:
        FieldLocation)
        requires
            skill_quarters <= 4,
        ensures
            r.spec_dist() >= self.spec_dist(),
            skill_quarters == 4 ==> r == FieldLocation::OutOfPark,
            skill_quarters == 0 ==> r == *self,
    {
        let mut location = *self;
        loop
            invariant
                location.spec_dist() >= self.spec_dist(),
                skill_quarters <= 4,
                skill_quarters == 0 ==> location == *self,
            ensures
                location.spec_dist() >= self.spec_dist(),
                skill_quarters == 0 ==> location == *self,
                skill_quarters == 4 ==> location == FieldLocation::OutOfPark,
            decreases 3 - location.spec_dist(),
        {
            if let FieldLocation::OutOfPark = location {
                break ;
            }
            if bernoulli(rng, skill_quarters as u64, 4) {
                location = location.next();
            } else {
                break ;
            }
        }
        location
    }
}

/// The bounded multi-base advancement: up to the distance between the two
/// bases, one Bernoulli trial per base at the given success probability; the
/// streak of successes before the first failure is the number of bases
/// gained, and no success at all means no advance.
pub(crate) fn random_advancement_between(
    rng: &mut rand::rngs::StdRng,
    from_base: Base,
    to_base: Base,
    num: u64,
    den: u64,
) -> (r: Option<Base>)
    requires
        1 <= den,
        num <= den,
        0 <= from_base.spec_idx() < to_base.spec_idx() <= 4,
    ensures
        (r matches Some(b) ==> from_base.spec_idx() < b.spec_idx() <= to_base.spec_idx()),
        num == 0 ==> r is None,
        num == den ==> r == Some(to_base),
{
    let max_bases: u8 = to_base.idx() - from_base.idx();
    let mut bases: u8 = 0;
    let mut i: u8 = 0;
    while i < max_bases
        invariant_except_break
            bases == i,
        invariant
            i <= max_bases,
            bases <= i,
            num <= den,
            1 <= den,
            num == 0 ==> bases == 0,
        ensures
            bases <= max_bases,
            num == 0 ==> bases == 0,
            num == den ==> bases == max_bases,
        decreases max_bases - i,
    {
        if bernoulli(rng, num, den) {
            bases += 1;
            i += 1;
        } else {
            break ;
        }
    }
    if bases > 0 {
        match from_base.plus(bases) {
            Some(b) => Some(b),
            None => vstd::pervasive::unreached(),
        }
    } else {
        None
    }
}

/// Resolves one trailing runner, on first or second base, under the furthest
/// base the lead runners left reachable. A forced runner must try to advance
/// and is out on failure; an unforced runner tries only at even or better
/// odds, and is out on failure too; with no room to advance a forced runner
/// is forced out and an unforced one holds. The returned bound is the
/// furthest base the next runner behind may reach: one short of where this
/// runner came to rest, the runner's own origin — now vacated — after a
/// put-out, or home plate itself after a dash home.
fn resolve_trailing_runner(
    rng: &mut rand::rngs::StdRng,
    runner: &String,
    origin: Base,
    forced: bool,
    reachable: Base,
    num: u64,
    den: u64,
) -> (r: (Option<RunnerAdvancement>, Base))
    requires
        1 <= den,
        num <= den,
        origin == Base::First || origin == Base::Second,
        origin.spec_idx() <= reachable.spec_idx() <= 4,
    ensures
        origin.spec_idx() - 1 <= r.1.spec_idx() <= reachable.spec_idx(),
        (r.0 matches Some(e) ==> {
            &&& e@.name == runner@
            &&& e@.from_base == origin
            &&& (e@.to_base matches Some(b) ==> origin.spec_idx() < b.spec_idx()
                <= reachable.spec_idx())
            &&& r.1 == (match e@.to_base {
                Some(b) => if b == Base::Home {
                    Base::Home
                } else {
                    Base::from_idx(b.spec_idx() - 1)
                },
                None => origin,
            })
        }),
        (r.0 is None ==> r.1 == Base::from_idx(origin.spec_idx() - 1)),
        forced ==> r.0 is Some,
        (!forced && num < den - num) ==> r.0 is None,
        (forced && num == 0) ==> (r.0 matches Some(e) && e@.to_base is None),
{
    if reachable.idx() <= origin.idx() {
        // no room to advance
        if forced {
            // the force-out vacates the origin for the next runner behind
            (
                Some(RunnerAdvancement { name: runner.clone(), from_base: origin, to_base: None }),
                origin,
            )
        } else {
            (
                None,
                match origin.prev() {
                    Some(b) => b,
                    None => vstd::pervasive::unreached(),
                },
            )
        }
    } else {
        if forced || num >= den - num {
            let to_base = random_advancement_between(rng, origin, reachable, num, den);
            let new_reachable = match to_base {
                Some(Base::Home) => Base::Home,
                Some(b) => match b.prev() {
                    Some(p) => p,
                    None => vstd::pervasive::unreached(),
                },
                None => origin,
            };
            (
                Some(RunnerAdvancement { name: runner.clone(), from_base: origin, to_base }),
                new_reachable,
            )
        } else {
            (
                None,
                match origin.prev() {
                    Some(b) => b,
                    None => vstd::pervasive::unreached(),
                },
            )
        }
    }
}

/// The plate-appearance outcome that a batter's own destination stands for:
/// each base gained is one grade of hit, and no advance is an out.
pub open spec fn outcome_of_dest(to_base: Option<Base>) -> AtBatOutcome {
    match to_base {
        None => AtBatOutcome::Out,
        Some(Base::First) => AtBatOutcome::Single,
        Some(Base::Second) => AtBatOutcome::Double,
        Some(Base::Third) => AtBatOutcome::Triple,
        Some(Base::Home) => AtBatOutcome::HomeRun,
        Some(Base::Batting) => AtBatOutcome::Out,
    }
}

/// Whether an advancement is consistent with where the runners stood: every
/// entry names the runner who actually occupied its origin base, or the
/// batter for the batter's-box entry.
pub open spec fn origin_matches(bases: BasesView, batter: Seq<char>, a: AdvView) -> bool {
    match a.from_base {
        Base::Batting => a.name == batter,
        Base::First => bases.first == Some(a.name),
        Base::Second => bases.second == Some(a.name),
        Base::Third => bases.third == Some(a.name),
        Base::Home => false,
    }
}

/// The shape of a ball-in-play advancement batch: at least the batter's own
/// entry, which comes last; every entry names the true occupant of its origin;
/// and origins run strictly home-ward first, third base before second before
/// first before the batter.
pub open spec fn fielding_event_ok(bases: BasesView, batter: Seq<char>, advs: Seq<AdvView>) -> bool {
    &&& advs.len() >= 1
    &&& advs[advs.len() - 1].from_base == Base::Batting
    &&& forall|i: int| 0 <= i < advs.len() ==> origin_matches(bases, batter, #[trigger] advs[i])
    &&& forall|i: int, j: int|
        0 <= i < j < advs.len() ==> advs[i].from_base.spec_idx() > advs[j].from_base.spec_idx()
}
/// The runner names an event may mention: the batter and the runners who
/// actually stood on the bases.
pub open spec fn name_in_event(bases: BasesView, batter: Seq<char>, n: Seq<char>) -> bool {
    ||| n == batter
    ||| bases.first == Some(n)
    ||| bases.second == Some(n)
    ||| bases.third == Some(n)
}

/// Every entry of the batch names the batter or a runner who stood on base.
pub open spec fn event_names_ok(bases: BasesView, batter: Seq<char>, advs: Seq<AdvView>) -> bool {
    forall|i: int| 0 <= i < advs.len() ==> name_in_event(bases, batter, (#[trigger] advs[i]).name)
}

/// The no-leapfrog rule of spec and diamond alike. Entries run lead-first —
/// third base before second before first before the batter — so "trailing"
/// means "later in the batch". A trailing runner never finishes on or past a
/// base whose runner held (occupied, but with no entry), never finishes on or
/// past a lead runner's own on-base destination, and never finishes past the
/// origin of a put-out lead runner — that base is vacated, so the next runner
/// behind may take it, but nobody passes it.
pub open spec fn no_leapfrog(bases: BasesView, advs: Seq<AdvView>) -> bool {
    &&& (forall|b: Base, j: int|
        0 <= j < advs.len() && #[trigger] bases.slot(b) is Some && !has_origin(advs, b) && (
        #[trigger] advs[j]).from_base.spec_idx() < b.spec_idx() ==> (advs[j].to_base matches Some(d)
            ==> d.spec_idx() < b.spec_idx()))
    &&& (forall|i: int, j: int|
        0 <= i < j < advs.len() && (#[trigger] advs[i]).to_base is None ==> ((
        #[trigger] advs[j]).to_base matches Some(d) ==> d.spec_idx()
            <= advs[i].from_base.spec_idx()))
    &&& (forall|i: int, j: int|
        0 <= i < j < advs.len() && (#[trigger] advs[i]).to_base is Some && advs[i].to_base != Some(
            Base::Home,
        ) ==> ((#[trigger] advs[j]).to_base matches Some(d) ==> d.spec_idx()
            < advs[i].to_base->0.spec_idx()))
}

/// The running bookkeeping of the fielding resolver, between one base and the
/// next. The ceiling is the furthest base the next trailing runner may still
/// reach: the batch built so far is a well-formed, leapfrog-free prefix of a
/// ball-in-play event; every on-base destination lies strictly above the
/// ceiling; every origin handled so far lies strictly above the next origin to
/// handle; and the ceiling sits at or below every put-out lead runner's
/// vacated origin and strictly below every handled base whose runner held.
pub open spec fn fielding_mid_ok(
    bases: BasesView,
    batter: Seq<char>,
    advs: Seq<AdvView>,
    ceiling: Base,
    next_origin: int,
) -> bool {
    &&& advs_wf(advs)
    &&& no_base_collision(advs)
    &&& no_leapfrog(bases, advs)
    &&& forall|i: int| 0 <= i < advs.len() ==> origin_matches(bases, batter, #[trigger] advs[i])
    &&& forall|i: int, j: int|
        0 <= i < j < advs.len() ==> advs[i].from_base.spec_idx() > advs[j].from_base.spec_idx()
    &&& forall|i: int|
        0 <= i < advs.len() ==> (#[trigger] advs[i]).from_base.spec_idx() > next_origin
    &&& forall|i: int|
        0 <= i < advs.len() ==> ((#[trigger] advs[i]).to_base matches Some(b) ==> b == Base::Home
            || b.spec_idx() > ceiling.spec_idx())
    &&& forall|i: int|
        0 <= i < advs.len() ==> ((#[trigger] advs[i]).to_base is None ==> ceiling.spec_idx()
            <= advs[i].from_base.spec_idx())
    &&& forall|b: Base|
        (#[trigger] bases.slot(b) is Some && !has_origin(advs, b) && b.spec_idx() > next_origin)
            ==> ceiling.spec_idx() < b.spec_idx()
    &&& next_origin <= ceiling.spec_idx() <= 4
}

/// An entry never added still has no entry after a push from another origin.
proof fn lemma_no_origin_push(advs: Seq<AdvView>, e: AdvView, origin: Base)
    requires
        !has_origin(advs, origin),
        e.from_base != origin,
    ensures
        !has_origin(advs.push(e), origin),
{
    let pushed = advs.push(e);
    if has_origin(pushed, origin) {
        let k = choose|k: int| 0 <= k < pushed.len() && pushed[k].from_base == origin;
        if k < advs.len() {
            assert(pushed[k] == advs[k]);
        } else {
            assert(pushed[k] == e);
        }
        assert(false);
    }
}

/// A resolved runner's entry extends the bookkeeping: its origin is exactly
/// the stage just handled, its destination lies within the old reach, and the
/// new ceiling sits below where the runner came to rest — or at the vacated
/// origin after a put-out, or stays at home plate after a dash home.
proof fn lemma_mid_push(
    bases: BasesView,
    batter: Seq<char>,
    advs: Seq<AdvView>,
    ceiling: Base,
    next_origin: int,
    e: AdvView,
    new_ceiling: Base,
    new_next: int,
)
    requires
        fielding_mid_ok(bases, batter, advs, ceiling, next_origin),
        origin_matches(bases, batter, e),
        e.from_base.spec_idx() == next_origin,
        new_next == next_origin - 1,
        (e.to_base matches Some(b) ==> b.spec_idx() > e.from_base.spec_idx()),
        (e.to_base matches Some(b) ==> b.spec_idx() <= ceiling.spec_idx()),
        (e.to_base matches Some(b) ==> ((b == Base::Home && new_ceiling == Base::Home)
            || new_ceiling.spec_idx() < b.spec_idx())),
        (e.to_base is None ==> new_ceiling.spec_idx() <= e.from_base.spec_idx()),
        new_ceiling.spec_idx() <= ceiling.spec_idx(),
        new_next < new_ceiling.spec_idx(),
    ensures
        fielding_mid_ok(bases, batter, advs.push(e), new_ceiling, new_next),
{
    let pushed = advs.push(e);
    assert(e.from_base != Base::Home);
    assert(pushed[pushed.len() - 1] == e);
    assert forall|i: int, j: int| 0 <= i < j < pushed.len() implies !(pushed[i].to_base is Some
        && pushed[i].to_base == pushed[j].to_base && pushed[i].to_base != Some(
        Base::Home,
    )) by {
        if j < advs.len() {
            assert(pushed[i] == advs[i] && pushed[j] == advs[j]);
        } else {
            assert(pushed[j] == e);
            assert(pushed[i] == advs[i]);
        }
    }
    // a held base blocks every runner behind it
    assert forall|b: Base, j: int|
        0 <= j < pushed.len() && #[trigger] bases.slot(b) is Some && !has_origin(pushed, b) && (
        #[trigger] pushed[j]).from_base.spec_idx() < b.spec_idx() implies (pushed[j].to_base
        matches Some(d) ==> d.spec_idx() < b.spec_idx()) by {
        assert(!has_origin(advs, b)) by {
            if has_origin(advs, b) {
                let k = choose|k: int| 0 <= k < advs.len() && advs[k].from_base == b;
                assert(pushed[k] == advs[k]);
                assert(has_origin(pushed, b));
            }
        }
        if j < advs.len() {
            assert(pushed[j] == advs[j]);
        } else {
            assert(pushed[j] == e);
            assert(b != e.from_base);
            assert(b.spec_idx() > next_origin);
            assert(ceiling.spec_idx() < b.spec_idx());
        }
    }
    // a put-out lead runner pins everything behind its origin
    assert forall|i: int, j: int|
        0 <= i < j < pushed.len() && (#[trigger] pushed[i]).to_base is None implies ((
    #[trigger] pushed[j]).to_base matches Some(d) ==> d.spec_idx()
        <= pushed[i].from_base.spec_idx()) by {
        if j < advs.len() {
            assert(pushed[i] == advs[i] && pushed[j] == advs[j]);
        } else {
            assert(pushed[j] == e);
            assert(pushed[i] == advs[i]);
        }
    }
    // on-base destinations strictly descend
    assert forall|i: int, j: int|
        0 <= i < j < pushed.len() && (#[trigger] pushed[i]).to_base is Some && pushed[i].to_base
        != Some(Base::Home) implies ((#[trigger] pushed[j]).to_base matches Some(d) ==> d.spec_idx()
        < pushed[i].to_base->0.spec_idx()) by {
        if j < advs.len() {
            assert(pushed[i] == advs[i] && pushed[j] == advs[j]);
        } else {
            assert(pushed[j] == e);
            assert(pushed[i] == advs[i]);
        }
    }
    // the new ceiling sits at or below every handled held base
    assert forall|b: Base|
        (#[trigger] bases.slot(b) is Some && !has_origin(pushed, b) && b.spec_idx() > new_next)
        implies new_ceiling.spec_idx() < b.spec_idx() by {
        assert(!has_origin(advs, b)) by {
            if has_origin(advs, b) {
                let k = choose|k: int| 0 <= k < advs.len() && advs[k].from_base == b;
                assert(pushed[k] == advs[k]);
                assert(has_origin(pushed, b));
            }
        }
        if b.spec_idx() == next_origin {
            assert(b == e.from_base);
            assert(has_origin(pushed, b));
        } else {
            assert(b.spec_idx() > next_origin);
        }
    }
}

/// A held runner lowers the ceiling to just below its own base and moves the
/// scan on; a base with no runner moves the scan on with the ceiling
/// unchanged.
proof fn lemma_mid_hold(
    bases: BasesView,
    batter: Seq<char>,
    advs: Seq<AdvView>,
    ceiling: Base,
    next_origin: int,
    new_ceiling: Base,
    new_next: int,
)
    requires
        fielding_mid_ok(bases, batter, advs, ceiling, next_origin),
        new_ceiling.spec_idx() <= ceiling.spec_idx(),
        new_next == next_origin - 1,
        new_next <= new_ceiling.spec_idx(),
        forall|b: Base|
            (#[trigger] bases.slot(b) is Some && b.spec_idx() == next_origin)
                ==> new_ceiling.spec_idx() < b.spec_idx(),
    ensures
        fielding_mid_ok(bases, batter, advs, new_ceiling, new_next),
{
}

/// The batter's own entry closes the batch into a full, leapfrog-free
/// ball-in-play event.
proof fn lemma_mid_finish(
    bases: BasesView,
    batter: Seq<char>,
    advs: Seq<AdvView>,
    ceiling: Base,
    e: AdvView,
)
    requires
        fielding_mid_ok(bases, batter, advs, ceiling, 0),
        e.from_base == Base::Batting,
        e.name == batter,
        (e.to_base matches Some(b) ==> 0 < b.spec_idx() <= ceiling.spec_idx()),
    ensures
        fielding_event_ok(bases, batter, advs.push(e)),
        advs_wf(advs.push(e)),
        no_base_collision(advs.push(e)),
        no_leapfrog(bases, advs.push(e)),
        event_names_ok(bases, batter, advs.push(e)),
        has_origin(advs.push(e), Base::Batting),
        advs.push(e)[advs.push(e).len() - 1] == e,
{
    let pushed = advs.push(e);
    assert(pushed[pushed.len() - 1] == e);
    assert forall|i: int, j: int| 0 <= i < j < pushed.len() implies !(pushed[i].to_base is Some
        && pushed[i].to_base == pushed[j].to_base && pushed[i].to_base != Some(
        Base::Home,
    )) by {
        if j < advs.len() {
            assert(pushed[i] == advs[i] && pushed[j] == advs[j]);
        } else {
            assert(pushed[j] == e);
            assert(pushed[i] == advs[i]);
        }
    }
    assert forall|b: Base, j: int|
        0 <= j < pushed.len() && #[trigger] bases.slot(b) is Some && !has_origin(pushed, b) && (
        #[trigger] pushed[j]).from_base.spec_idx() < b.spec_idx() implies (pushed[j].to_base
        matches Some(d) ==> d.spec_idx() < b.spec_idx()) by {
        assert(!has_origin(advs, b)) by {
            if has_origin(advs, b) {
                let k = choose|k: int| 0 <= k < advs.len() && advs[k].from_base == b;
                assert(pushed[k] == advs[k]);
                assert(has_origin(pushed, b));
            }
        }
        if j < advs.len() {
            assert(pushed[j] == advs[j]);
        } else {
            assert(pushed[j] == e);
            assert(b.spec_idx() > 0);
            assert(ceiling.spec_idx() < b.spec_idx());
        }
    }
    assert forall|i: int, j: int|
        0 <= i < j < pushed.len() && (#[trigger] pushed[i]).to_base is None implies ((
    #[trigger] pushed[j]).to_base matches Some(d) ==> d.spec_idx()
        <= pushed[i].from_base.spec_idx()) by {
        if j < advs.len() {
            assert(pushed[i] == advs[i] && pushed[j] == advs[j]);
        } else {
            assert(pushed[j] == e);
            assert(pushed[i] == advs[i]);
        }
    }
    assert forall|i: int, j: int|
        0 <= i < j < pushed.len() && (#[trigger] pushed[i]).to_base is Some && pushed[i].to_base
        != Some(Base::Home) implies ((#[trigger] pushed[j]).to_base matches Some(d) ==> d.spec_idx()
        < pushed[i].to_base->0.spec_idx()) by {
        if j < advs.len() {
            assert(pushed[i] == advs[i] && pushed[j] == advs[j]);
        } else {
            assert(pushed[j] == e);
            assert(pushed[i] == advs[i]);
        }
    }
    assert(pushed[pushed.len() - 1].from_base == Base::Batting);
}

/// A ball over the wall leaps over nobody: every entry scores, no runner is
/// put out, and every occupied base has its own entry.
proof fn lemma_home_run_no_leapfrog(bases: BasesView, batter: Seq<char>)
    ensures
        no_leapfrog(bases, home_run_advs(bases, batter)),
{
    let advs = home_run_advs(bases, batter);
    lemma_home_run_advancements(bases, batter);
    if bases.third is Some {
        assert(advs[1].from_base == Base::Third);
        assert(has_origin(advs, Base::Third));
    }
    if bases.second is Some {
        assert(advs[if bases.third is Some { 2int } else { 1int }].from_base == Base::Second);
        assert(has_origin(advs, Base::Second));
    }
    if bases.first is Some {
        assert(advs[advs.len() - 1].from_base == Base::First);
        assert(has_origin(advs, Base::First));
    }
}


/// Resolves the runner on third base: a forced runner, or an unforced one at
/// even or better odds, dashes for home plate and is out when the dash fails;
/// otherwise the runner holds. The returned bound is the furthest base the
/// next runner behind may reach: home plate itself after a dash home, third
/// base — vacated — after a put-out, and second base behind a holding runner.
fn resolve_third_runner(
    rng: &mut rand::rngs::StdRng,
    runner: &String,
    forced: bool,
    num: u64,
    den: u64,
) -> (r: (Option<RunnerAdvancement>, Base))
    requires
        1 <= den,
        num <= den,
    ensures
        (r.0 matches Some(e) ==> {
            &&& e@.name == runner@
            &&& e@.from_base == Base::Third
            &&& (e@.to_base is Some ==> e@.to_base == Some(Base::Home))
            &&& r.1 == (if e@.to_base is Some {
                Base::Home
            } else {
                Base::Third
            })
        }),
        (r.0 is None ==> r.1 == Base::Second),
        forced ==> r.0 is Some,
        (!forced && num < den - num) ==> r.0 is None,
        (forced && num == 0) ==> (r.0 matches Some(e) && e@.to_base is None),
        r.1 == Base::Home || r.1 == Base::Third || r.1 == Base::Second,
{
    if forced || num >= den - num {
        if bernoulli(rng, num, den) {
            (
                Some(
                    RunnerAdvancement {
                        name: runner.clone(),
                        from_base: Base::Third,
                        to_base: Some(Base::Home),
                    },
                ),
                Base::Home,
            )
        } else {
            (
                Some(
                    RunnerAdvancement {
                        name: runner.clone(),
                        from_base: Base::Third,
                        to_base: None,
                    },
                ),
                Base::Third,
            )
        }
    } else {
        (None, Base::Second)
    }
}

/// The forced-advancement obligations of a ball in play: each base of the
/// unbroken chain behind the batter has an entry — a forced runner must go —
/// and a forced runner who cannot run at all is put out.
pub open spec fn forced_chain_ok(bases: BasesView, players: crate::player::PlayerMap, advs: Seq<AdvView>) -> bool {
    &&& (bases.first is Some ==> has_origin(advs, Base::First))
    &&& (bases.first is Some && bases.second is Some ==> has_origin(advs, Base::Second))
    &&& (bases.loaded() ==> has_origin(advs, Base::Third))
    &&& (bases.first matches Some(n) ==> (players.metrics_of(n).running.spec_quarters() == 0
        ==> entry_at(advs, Base::First).to_base is None))
    &&& (bases.first is Some ==> (bases.second matches Some(n) ==> (players.metrics_of(
        n,
    ).running.spec_quarters() == 0 ==> entry_at(advs, Base::Second).to_base is None)))
    &&& (bases.loaded() ==> (bases.third matches Some(n) ==> (players.metrics_of(
        n,
    ).running.spec_quarters() == 0 ==> entry_at(advs, Base::Third).to_base is None)))
}

/// The distance weight of a landing zone, in quarters: the nearer the ball
/// comes down, the easier the play.
pub open spec fn spec_distance_quarters(field_location: FieldLocation) -> int {
    match field_location {
        FieldLocation::Close => 3,
        FieldLocation::Infield => 2,
        FieldLocation::Outfield => 1,
        FieldLocation::OutOfPark => 0,
    }
}

/// The combined fielding skill of the first `n` fielders, in quarters.
pub open spec fn spec_fielder_sum(players: crate::player::PlayerMap, fielders: Seq<String>, n: int) -> int
    decreases n,
{
    if n <= 0 {
        0
    } else {
        spec_fielder_sum(players, fielders, n - 1) + players.metrics_of(
            fielders[n - 1]@,
        ).fielding.spec_quarters()
    }
}

impl crate::game::BaseballGame {
    /// The fielding difficulty of a ball at the given zone, in thirty-seconds
    /// of a skill point: the distance weight plus the fielding team's mean
    /// fielding skill across its eight fielders.
    pub open spec fn spec_fielding_difficulty(self, field_location: FieldLocation) -> int {
        let team = if self.state.half_inning.top {
            self.home_team
        } else {
            self.visiting_team
        };
        8 * spec_distance_quarters(field_location) + spec_fielder_sum(
            self.all_players,
            team.fielders@,
            8,
        )
    }

    /// Executable counterpart of [`BaseballGame::spec_fielding_difficulty`].
    fn fielding_difficulty(&self, field_location: FieldLocation) -> (r: u64)
        requires
            self.wf(),
            !(field_location is OutOfPark),
        ensures
            r == self.spec_fielding_difficulty(field_location),
            8 <= r <= 56,
    {
        let distance_quarters: u64 = match field_location {
            FieldLocation::Close => 3,
            FieldLocation::Infield => 2,
            FieldLocation::Outfield => 1,
            FieldLocation::OutOfPark => vstd::pervasive::unreached(),
        };
        let fielding_team = if self.state.half_inning.top {
            &self.home_team
        } else {
            &self.visiting_team
        };
        let mut fielder_sum: u64 = 0;
        let mut i: usize = 0;
        while i < 8
            invariant
                i <= 8,
                fielder_sum <= 4 * i,
                fielder_sum == spec_fielder_sum(
                    self.all_players,
                    fielding_team.fielders@,
                    i as int,
                ),
                self.all_players.wf(),
                fielding_team.roster_on(self.all_players),
            decreases 8 - i,
        {
            let fielder = self.all_players.get(&fielding_team.fielders[i]);
            fielder_sum = fielder_sum + fielder.metrics.fielding.quarters() as u64;
            i += 1;
        }
        8 * distance_quarters + fielder_sum
    }

    /// A ball over the wall: builds the home-run batch and applies it.
    fn resolve_home_run(&mut self, batter_name: &String) -> (r: Vec<RunnerAdvancement>)
        requires
            old(self).wf(),
            old(self).state.home_team_runs <= 251,
            old(self).state.visiting_team_runs <= 251,
        ensures
            advs_view(r@) == home_run_advs(old(self).state@.bases, batter_name@),
            final(self).state@ == apply_advs(old(self).state@, advs_view(r@)),
            final(self).home_team == old(self).home_team,
            final(self).visiting_team == old(self).visiting_team,
            final(self).all_players == old(self).all_players,
    {
        let ghost s_old = self.state@;
        let mut advs: Vec<RunnerAdvancement> = Vec::new();
        advs.push(
            RunnerAdvancement {
                name: batter_name.clone(),
                from_base: Base::Batting,
                to_base: Some(Base::Home),
            },
        );
        if let Some(runner) = &self.state.bases.third {
            advs.push(
                RunnerAdvancement {
                    name: runner.clone(),
                    from_base: Base::Third,
                    to_base: Some(Base::Home),
                },
            );
        }
        if let Some(runner) = &self.state.bases.second {
            advs.push(
                RunnerAdvancement {
                    name: runner.clone(),
                    from_base: Base::Second,
                    to_base: Some(Base::Home),
                },
            );
        }
        if let Some(runner) = &self.state.bases.first {
            advs.push(
                RunnerAdvancement {
                    name: runner.clone(),
                    from_base: Base::First,
                    to_base: Some(Base::Home),
                },
            );
        }
        proof {
            assert(advs_view(advs@) =~= home_run_advs(s_old.bases, batter_name@));
            lemma_home_run_advancements(s_old.bases, batter_name@);
        }
        self.state.apply_runner_advancements(&advs);
        advs
    }

    /// Resolves the fielding and the baserunning of a ball put in play. A ball
    /// over the wall scores everyone; otherwise the defense's difficulty is
    /// weighed against each runner's speed, the bases are handled home-ward
    /// first under the no-leapfrog ceiling, and the batter's own advance
    /// grades the plate appearance. The advancements are applied to the state
    /// and returned together with the grade.
    #[verifier::rlimit(100)]
    #[verifier::spinoff_prover]
    pub fn simulate_fielding_and_running(
        &mut self,
        batter_name: &String,
        field_location: FieldLocation,
    ) -> (r: (AtBatOutcome, Vec<RunnerAdvancement>))
        requires
            old(self).wf(),
            old(self).all_players.contains_name(batter_name@),
            old(self).state.home_team_runs <= 251,
            old(self).state.visiting_team_runs <= 251,
        ensures
            ({
                let vadvs = advs_view(r.1@);
                let s_old = old(self).state@;
                &&& advs_wf(vadvs)
                &&& no_base_collision(vadvs)
                &&& no_leapfrog(s_old.bases, vadvs)
                &&& event_names_ok(s_old.bases, batter_name@, vadvs)
                &&& has_origin(vadvs, Base::Batting)
                &&& final(self).state@ == apply_advs(s_old, vadvs)
                &&& final(self).home_team == old(self).home_team
                &&& final(self).visiting_team == old(self).visiting_team
                &&& final(self).all_players == old(self).all_players
                &&& !(r.0 is Strikeout)
                &&& !(r.0 is Walk)
                &&& (field_location is OutOfPark ==> vadvs == home_run_advs(
                    s_old.bases,
                    batter_name@,
                ) && r.0 is HomeRun)
                &&& (!(field_location is OutOfPark) ==> {
                    &&& fielding_event_ok(s_old.bases, batter_name@, vadvs)
                    &&& r.0 == outcome_of_dest(vadvs[vadvs.len() - 1].to_base)
                    &&& forced_chain_ok(s_old.bases, old(self).all_players, vadvs)
                    // the aggressive-running threshold: an unforced runner
                    // below even odds against the fielding difficulty holds
                    &&& (s_old.bases.third matches Some(n) ==> (!(s_old.bases.first is Some
                        && s_old.bases.second is Some) && 8 * old(self).all_players.metrics_of(
                        n,
                    ).running.spec_quarters() < old(self).spec_fielding_difficulty(field_location)
                        ==> !has_origin(vadvs, Base::Third)))
                    &&& (s_old.bases.second matches Some(n) ==> (!(s_old.bases.first is Some) && 8
                        * old(self).all_players.metrics_of(n).running.spec_quarters() < old(
                        self,
                    ).spec_fielding_difficulty(field_location) ==> !has_origin(
                        vadvs,
                        Base::Second,
                    )))
                })
            }),
    {
        let ghost s_old = self.state@;
        let ghost batter = batter_name@;

        if let FieldLocation::OutOfPark = field_location {
            let advs = self.resolve_home_run(batter_name);
            proof {
                lemma_home_run_advancements(s_old.bases, batter);
                lemma_home_run_no_leapfrog(s_old.bases, batter);
                assert(has_origin(advs_view(advs@), Base::Batting)) by {
                    assert(advs_view(advs@)[0].from_base == Base::Batting);
                }
                assert(event_names_ok(s_old.bases, batter, advs_view(advs@)));
            }
            return (AtBatOutcome::HomeRun, advs);
        }

        let (at_bat_outcome, advs) = self.run_the_bases(batter_name, field_location);
        self.state.apply_runner_advancements(&advs);
        (at_bat_outcome, advs)
    }

    /// The baserunning of a ball in play inside the park: the bases are
    /// handled home-ward first under the furthest-reachable ceiling, and the
    /// batter's own advance grades the plate appearance — up to a home run on
    /// a clear diamond. Only the random source moves; the built batch is
    /// returned for the caller to apply.
    #[verifier::rlimit(100)]
    #[verifier::spinoff_prover]
    fn run_the_bases(&mut self, batter_name: &String, field_location: FieldLocation) -> (r: (
        AtBatOutcome,
        Vec<RunnerAdvancement>,
    ))
        requires
            old(self).wf(),
            old(self).all_players.contains_name(batter_name@),
            !(field_location is OutOfPark),
        ensures
            ({
                let vadvs = advs_view(r.1@);
                let s_old = old(self).state@;
                &&& advs_wf(vadvs)
                &&& no_base_collision(vadvs)
                &&& event_names_ok(s_old.bases, batter_name@, vadvs)
                &&& has_origin(vadvs, Base::Batting)
                &&& final(self).state == old(self).state
                &&& final(self).home_team == old(self).home_team
                &&& final(self).visiting_team == old(self).visiting_team
                &&& final(self).all_players == old(self).all_players
                &&& fielding_event_ok(s_old.bases, batter_name@, vadvs)
                &&& no_leapfrog(s_old.bases, vadvs)
                &&& r.0 == outcome_of_dest(vadvs[vadvs.len() - 1].to_base)
                &&& !(r.0 is Strikeout)
                &&& !(r.0 is Walk)
                &&& forced_chain_ok(s_old.bases, old(self).all_players, vadvs)
                // the aggressive-running threshold: an unforced runner below
                // even odds against the fielding difficulty holds
                &&& (s_old.bases.third matches Some(n) ==> (!(s_old.bases.first is Some
                    && s_old.bases.second is Some) && 8 * old(self).all_players.metrics_of(
                    n,
                ).running.spec_quarters() < old(self).spec_fielding_difficulty(field_location)
                    ==> !has_origin(vadvs, Base::Third)))
                &&& (s_old.bases.second matches Some(n) ==> (!(s_old.bases.first is Some) && 8
                    * old(self).all_players.metrics_of(n).running.spec_quarters() < old(
                    self,
                ).spec_fielding_difficulty(field_location) ==> !has_origin(vadvs, Base::Second)))
            }),
    {
        let ghost s_old = self.state@;
        let ghost batter = batter_name@;
        let ghost mut third_at: int = -1;
        let ghost mut second_at: int = -1;
        let ghost mut first_at: int = -1;

        let first_forced = self.state.bases.first.is_some();
        let second_forced = self.state.bases.first.is_some() && self.state.bases.second.is_some();
        let third_forced = self.state.bases.first.is_some() && self.state.bases.second.is_some()
            && self.state.bases.third.is_some();

        let difficulty = self.fielding_difficulty(field_location);

        let mut advs: Vec<RunnerAdvancement> = Vec::new();
        let mut furthest_reachable = Base::Home;
        proof {
            assert(fielding_mid_ok(s_old.bases, batter, advs_view(advs@), furthest_reachable, 3));
        }

        // the runner on third
        let third_runner: Option<String> = match &self.state.bases.third {
            Some(n) => Some(n.clone()),
            None => None,
        };
        if let Some(runner) = third_runner {
            let ghost advs0 = advs_view(advs@);
            let q = self.all_players.get(&runner).metrics.running.quarters() as u64;
            let num = 8 * q;
            let den = num + difficulty;
            let (entry, new_ceiling) = resolve_third_runner(
                &mut self.rng,
                &runner,
                third_forced,
                num,
                den,
            );
            let ghost old_ceiling = furthest_reachable;
            furthest_reachable = new_ceiling;
            if let Some(e) = entry {
                proof {
                    lemma_mid_push(
                        s_old.bases,
                        batter,
                        advs0,
                        old_ceiling,
                        3,
                        e@,
                        new_ceiling,
                        2,
                    );
                }
                proof {
                    third_at = advs0.len() as int;
                }
                advs.push(e);
                proof {
                    assert(advs_view(advs@) =~= advs0.push(e@));
                    assert(advs_view(advs@)[third_at] == e@);
                }
            } else {
                proof {
                    lemma_mid_hold(s_old.bases, batter, advs0, old_ceiling, 3, new_ceiling, 2);
                }
            }
        }
        proof {
            assert(fielding_mid_ok(s_old.bases, batter, advs_view(advs@), furthest_reachable, 2));
        }

        // the runner on second
        let second_runner: Option<String> = match &self.state.bases.second {
            Some(n) => Some(n.clone()),
            None => None,
        };
        if let Some(runner) = second_runner {
            let ghost advs0 = advs_view(advs@);
            let q = self.all_players.get(&runner).metrics.running.quarters() as u64;
            let num = 8 * q;
            let den = num + difficulty;
            let (entry, new_ceiling) = resolve_trailing_runner(
                &mut self.rng,
                &runner,
                Base::Second,
                second_forced,
                furthest_reachable,
                num,
                den,
            );
            let ghost old_ceiling = furthest_reachable;
            furthest_reachable = new_ceiling;
            if let Some(e) = entry {
                proof {
                    lemma_mid_push(
                        s_old.bases,
                        batter,
                        advs0,
                        old_ceiling,
                        2,
                        e@,
                        new_ceiling,
                        1,
                    );
                }
                proof {
                    second_at = advs0.len() as int;
                    if !has_origin(advs0, Base::Third) {
                        lemma_no_origin_push(advs0, e@, Base::Third);
                    }
                }
                advs.push(e);
                proof {
                    assert(advs_view(advs@) =~= advs0.push(e@));
                    assert(advs_view(advs@)[second_at] == e@);
                }
            } else {
                proof {
                    lemma_mid_hold(s_old.bases, batter, advs0, old_ceiling, 2, new_ceiling, 1);
                }
            }
        }
        proof {
            assert(fielding_mid_ok(s_old.bases, batter, advs_view(advs@), furthest_reachable, 1));
        }

        // the runner on first
        let first_runner: Option<String> = match &self.state.bases.first {
            Some(n) => Some(n.clone()),
            None => None,
        };
        if let Some(runner) = first_runner {
            let ghost advs0 = advs_view(advs@);
            let q = self.all_players.get(&runner).metrics.running.quarters() as u64;
            let num = 8 * q;
            let den = num + difficulty;
            let (entry, new_ceiling) = resolve_trailing_runner(
                &mut self.rng,
                &runner,
                Base::First,
                first_forced,
                furthest_reachable,
                num,
                den,
            );
            let ghost old_ceiling = furthest_reachable;
            furthest_reachable = new_ceiling;
            if let Some(e) = entry {
                proof {
                    lemma_mid_push(
                        s_old.bases,
                        batter,
                        advs0,
                        old_ceiling,
                        1,
                        e@,
                        new_ceiling,
                        0,
                    );
                }
                proof {
                    first_at = advs0.len() as int;
                    if !has_origin(advs0, Base::Third) {
                        lemma_no_origin_push(advs0, e@, Base::Third);
                    }
                    if !has_origin(advs0, Base::Second) {
                        lemma_no_origin_push(advs0, e@, Base::Second);
                    }
                }
                advs.push(e);
                proof {
                    assert(advs_view(advs@) =~= advs0.push(e@));
                    assert(advs_view(advs@)[first_at] == e@);
                }
            } else {
                proof {
                    lemma_mid_hold(s_old.bases, batter, advs0, old_ceiling, 1, new_ceiling, 0);
                }
            }
        }
        proof {
            assert(fielding_mid_ok(s_old.bases, batter, advs_view(advs@), furthest_reachable, 0));
        }

        // the batter's own advance, bounded by what the runners left reachable
        let ghost advs0 = advs_view(advs@);
        let target = furthest_reachable;
        let at_bat_outcome: AtBatOutcome;
        if target.idx() < 1 {
            // no room at first: the batter is out outright
            let e = RunnerAdvancement {
                name: batter_name.clone(),
                from_base: Base::Batting,
                to_base: None,
            };
            proof {
                lemma_mid_finish(s_old.bases, batter, advs0, furthest_reachable, e@);
                if !has_origin(advs0, Base::Third) {
                    lemma_no_origin_push(advs0, e@, Base::Third);
                }
                if !has_origin(advs0, Base::Second) {
                    lemma_no_origin_push(advs0, e@, Base::Second);
                }
            }
            advs.push(e);
            proof {
                assert(advs_view(advs@) =~= advs0.push(e@));
            }
            at_bat_outcome = AtBatOutcome::Out;
        } else {
            let q = self.all_players.get(batter_name).metrics.running.quarters() as u64;
            let num = 8 * q;
            let den = num + difficulty;
            let to_base = random_advancement_between(
                &mut self.rng,
                Base::Batting,
                target,
                num,
                den,
            );
            let e = RunnerAdvancement {
                name: batter_name.clone(),
                from_base: Base::Batting,
                to_base,
            };
            proof {
                lemma_mid_finish(s_old.bases, batter, advs0, furthest_reachable, e@);
                if !has_origin(advs0, Base::Third) {
                    lemma_no_origin_push(advs0, e@, Base::Third);
                }
                if !has_origin(advs0, Base::Second) {
                    lemma_no_origin_push(advs0, e@, Base::Second);
                }
            }
            advs.push(e);
            proof {
                assert(advs_view(advs@) =~= advs0.push(e@));
            }
            at_bat_outcome = match to_base {
                None => AtBatOutcome::Out,
                Some(Base::First) => AtBatOutcome::Single,
                Some(Base::Second) => AtBatOutcome::Double,
                Some(Base::Third) => AtBatOutcome::Triple,
                Some(Base::Home) => AtBatOutcome::HomeRun,
                Some(Base::Batting) => vstd::pervasive::unreached(),
            };
        }
        proof {
            let vadvs = advs_view(advs@);
            assert(event_names_ok(s_old.bases, batter, vadvs));
            assert(at_bat_outcome == outcome_of_dest(vadvs[vadvs.len() - 1].to_base));
            if third_at >= 0 {
                lemma_entry_at(vadvs, third_at);
            }
            if second_at >= 0 {
                lemma_entry_at(vadvs, second_at);
            }
            if first_at >= 0 {
                lemma_entry_at(vadvs, first_at);
            }
        }
        (at_bat_outcome, advs)
    }
}

/// What applying a ball-in-play batch does to the state: the half-inning,
/// count, flag and outcome stand; runs only grow, only for the team at bat,
/// and by at most four; outs grow by at most four; the lineup moves on by
/// exactly one; and every runner left on base is the batter or a runner who
/// was already on base.
pub proof fn lemma_event_apply(s: GameStateView, batter: Seq<char>, advs: Seq<AdvView>)
    requires
        advs_wf(advs),
        no_base_collision(advs),
        event_names_ok(s.bases, batter, advs),
        has_origin(advs, Base::Batting),
    ensures
        ({
            let t = apply_advs(s, advs);
            &&& t.inning == s.inning
            &&& t.top == s.top
            &&& t.last_inning_just_ended == s.last_inning_just_ended
            &&& t.balls == s.balls
            &&& t.strikes == s.strikes
            &&& t.game_outcome == s.game_outcome
            &&& s.home_team_runs <= t.home_team_runs
            &&& s.visiting_team_runs <= t.visiting_team_runs
            &&& t.fielding_runs() == s.fielding_runs()
            &&& t.batting_runs() <= s.batting_runs() + 4
            &&& s.outs <= t.outs <= s.outs + 4
            &&& t.batting_index() == (s.batting_index() + 1) % 9
            &&& (if s.top {
                t.home_team_batter_index == s.home_team_batter_index
            } else {
                t.visiting_team_batter_index == s.visiting_team_batter_index
            })
            &&& (t.bases.first matches Some(n) ==> name_in_event(s.bases, batter, n))
            &&& (t.bases.second matches Some(n) ==> name_in_event(s.bases, batter, n))
            &&& (t.bases.third matches Some(n) ==> name_in_event(s.bases, batter, n))
        }),
{
    lemma_apply_advs_effects(s, advs);
    if has_dest(advs, Base::First) {
        let k0 = choose|i: int| 0 <= i < advs.len() && advs[i].to_base == Some(Base::First);
        lemma_dest_entry(advs, k0, Base::First);
        assert(name_in_event(s.bases, batter, advs[k0].name));
    }
    if has_dest(advs, Base::Second) {
        let k0 = choose|i: int| 0 <= i < advs.len() && advs[i].to_base == Some(Base::Second);
        lemma_dest_entry(advs, k0, Base::Second);
        assert(name_in_event(s.bases, batter, advs[k0].name));
    }
    if has_dest(advs, Base::Third) {
        let k0 = choose|i: int| 0 <= i < advs.len() && advs[i].to_base == Some(Base::Third);
        lemma_dest_entry(advs, k0, Base::Third);
        assert(name_in_event(s.bases, batter, advs[k0].name));
    }
}


} // verus!
