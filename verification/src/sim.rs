//! Goal-relevant simulator successors over a compact planning state.
//!
//! Decision edges cost zero days. An expansion contains at most one
//! event-wait edge, selected from events already in flight. Re-pricing after
//! a completed building level (a price solve) is done by the caller; this
//! module decides which transitions exist and what they change.

use vstd::prelude::*;
use crate::text::{insert_unique, str_eq, strictly_sorted, views};

verus! {

/// Comparison in a goal atom.
#[derive(Debug, Clone, Copy, PartialEq, Eq, Hash)]
pub enum Rel {
    Lt,
    Le,
    Eq,
    Ge,
    Gt,
}

/// The parts of a goal atom that the successor rules read.
#[derive(Debug, Clone, PartialEq, Eq, Hash)]
pub enum Atom {
    /// The country has researched `0`.
    HasTech(String),
    /// A good's price compared with a threshold (threshold not needed here).
    GoodPrice { good: String, rel: Rel },
    /// Modeled GDP compared with a threshold.
    Gdp { rel: Rel },
    /// Any other atom; it adds no successor.
    Other,
}

impl Atom {
    /// Whether this atom asks for technology `tech`.
    pub fn is_has_tech(&self, tech: &str) -> (b: bool)
        ensures
            b == (atom_tech(*self) == Some(tech@)),
    {
        match self {
            Atom::HasTech(t) => str_eq(t.as_str(), tech),
            _ => false,
        }
    }
}

/// The technology an atom asks for, if it is a `HasTech` atom.
pub open spec fn atom_tech(a: Atom) -> Option<Seq<char>> {
    match a {
        Atom::HasTech(t) => Some(t@),
        _ => None,
    }
}

/// Tunable durations used by the compact simulator.
#[derive(Debug, Clone, Copy, PartialEq, Eq, Hash)]
pub struct SimConfig {
    /// Fixed research duration.
    pub research_days: u16,
    /// Fixed duration for one modeled building-level expansion.
    pub construction_days: u16,
    /// Finite search bound for added levels of one building type.
    pub max_added_levels_per_type: u16,
}

impl SimConfig {
    /// 365 research days, 180 construction days, at most 10 added levels per type.
    pub fn default_config() -> (c: SimConfig)
        ensures
            c.research_days == 365,
            c.construction_days == 180,
            c.max_added_levels_per_type == 10,
    {
        SimConfig { research_days: 365, construction_days: 180, max_added_levels_per_type: 10 }
    }
}

impl Default for SimConfig {
    fn default() -> (c: SimConfig)
        ensures
            c.research_days == 365,
            c.construction_days == 180,
            c.max_added_levels_per_type == 10,
    {
        SimConfig::default_config()
    }
}

/// An event which can advance the simulation clock.
#[derive(Debug, Clone, PartialEq, Eq, Hash)]
pub enum Event {
    /// The technology currently in the queue completes.
    TechCompleted { tech: String },
    /// One level of the queued building type completes.
    BuildingCompleted { building: String },
}

/// A deterministic state transition.
#[derive(Debug, Clone, PartialEq, Eq, Hash)]
pub enum Action {
    /// Put a goal-relevant technology in the empty research queue.
    QueueTech { tech: String },
    /// Put one goal-relevant building level in the compact construction queue.
    QueueBuildingLevel { building: String },
    /// Advance directly to an event already in flight.
    WaitForEvent { event: Event, days: u16 },
}

/// Abstract view of an [`Action`].
pub enum ActionModel {
    QueueTech(Seq<char>),
    QueueBuildingLevel(Seq<char>),
    WaitTech(Seq<char>, nat),
    WaitBuilding(Seq<char>, nat),
}

impl View for Action {
    type V = ActionModel;

    open spec fn view(&self) -> ActionModel {
        match self {
            Action::QueueTech { tech } => ActionModel::QueueTech(tech@),
            Action::QueueBuildingLevel { building } => ActionModel::QueueBuildingLevel(building@),
            Action::WaitForEvent { event: Event::TechCompleted { tech }, days } => ActionModel::WaitTech(
                tech@,
                *days as nat,
            ),
            Action::WaitForEvent { event: Event::BuildingCompleted { building }, days } =>
                ActionModel::WaitBuilding(building@, *days as nat),
        }
    }
}

/// Days an action takes: zero for decisions, its own count for waits.
pub open spec fn action_days(a: ActionModel) -> nat {
    match a {
        ActionModel::WaitTech(_, d) => d,
        ActionModel::WaitBuilding(_, d) => d,
        _ => 0,
    }
}

/// Whether the action is an event wait.
pub open spec fn is_wait(a: ActionModel) -> bool {
    a is WaitTech || a is WaitBuilding
}

/// Compact planning state: clock, researched techs, the two queues, and
/// building levels added by the plan.
#[derive(Debug, Clone, PartialEq, Eq, Hash)]
pub struct PlanningState {
    /// Days since the simulation epoch.
    pub day: i64,
    /// Played country tag.
    pub country: String,
    /// Researched technologies (duplicates mean nothing).
    pub techs: Vec<String>,
    pub queued_tech: Option<String>,
    pub queued_building: Option<String>,
    /// Added levels per building type; one entry per type.
    pub building_level_deltas: Vec<(String, u32)>,
}

/// Abstract view of a [`PlanningState`].
#[verifier::ext_equal]
pub struct PlanModel {
    pub day: int,
    pub country: Seq<char>,
    pub techs: Set<Seq<char>>,
    pub queued_tech: Option<Seq<char>>,
    pub queued_building: Option<Seq<char>>,
    pub levels: Map<Seq<char>, nat>,
}

/// Added levels recorded for `k` (zero when absent; the last entry wins).
pub open spec fn level_in(s: Seq<(String, u32)>, k: Seq<char>) -> nat
    decreases s.len(),
{
    if s.len() == 0 {
        0
    } else if s.last().0@ == k {
        s.last().1 as nat
    } else {
        level_in(s.drop_last(), k)
    }
}

pub open spec fn opt_view(o: Option<String>) -> Option<Seq<char>> {
    match o {
        Some(s) => Some(s@),
        None => None,
    }
}

impl View for PlanningState {
    type V = PlanModel;

    open spec fn view(&self) -> PlanModel {
        PlanModel {
            day: self.day as int,
            country: self.country@,
            techs: Set::new(|t: Seq<char>| exists|i: int| 0 <= i < self.techs.len() && #[trigger] self.techs@[i]@ == t),
            queued_tech: opt_view(self.queued_tech),
            queued_building: opt_view(self.queued_building),
            levels: Map::new(|k: Seq<char>| true, |k: Seq<char>| level_in(self.building_level_deltas@, k)),
        }
    }
}

impl PlanningState {
    /// Building types appear at most once in `building_level_deltas`.
    pub open spec fn wf(&self) -> bool {
        forall|i: int, j: int|
            0 <= i < j < self.building_level_deltas.len() ==> #[trigger] self.building_level_deltas@[i].0@
                != #[trigger] self.building_level_deltas@[j].0@
    }

    /// Whether `tech` has been researched.
    pub fn has_tech(&self, tech: &str) -> (b: bool)
        ensures
            b == self@.techs.contains(tech@),
    {
        let mut i: usize = 0;
        while i < self.techs.len()
            invariant
                i <= self.techs@.len(),
                forall|j: int| 0 <= j < i ==> self.techs@[j]@ != tech@,
            decreases self.techs@.len() - i,
        {
            if str_eq(self.techs[i].as_str(), tech) {
                assert(self.techs@[i as int]@ == tech@);
                return true;
            }
            i = i + 1;
        }
        false
    }

    /// Added levels of building type `building` (zero when none).
    pub fn level_of(&self, building: &str) -> (n: u32)
        ensures
            n as nat == self@.levels[building@],
    {
        let mut i: usize = self.building_level_deltas.len();
        assert(self.building_level_deltas@.subrange(0, i as int) =~= self.building_level_deltas@);
        while i > 0
            invariant
                i <= self.building_level_deltas@.len(),
                level_in(self.building_level_deltas@, building@) == level_in(
                    self.building_level_deltas@.subrange(0, i as int),
                    building@,
                ),
            decreases i,
        {
            let ghost s = self.building_level_deltas@.subrange(0, i as int);
            assert(s.drop_last() =~= self.building_level_deltas@.subrange(0, i - 1));
            if str_eq(self.building_level_deltas[i - 1].0.as_str(), building) {
                return self.building_level_deltas[i - 1].1;
            }
            i = i - 1;
        }
        0
    }
}

/// Whether the plan may still add a level of `building` under the per-type cap.
pub fn below_cap(state: &PlanningState, building: &str, cap: u16) -> (b: bool)
    ensures
        b == (state@.levels[building@] < cap as nat),
{
    state.level_of(building) < cap as u32
}

/// The candidates whose added levels are still under the per-type cap, in order.
pub fn cap_candidates(state: &PlanningState, candidates: &Vec<String>, cap: u16) -> (out: Vec<String>)
    ensures
        out@.map_values(|s: String| s@) == candidates@.map_values(|s: String| s@).filter(
            |b: Seq<char>| state@.levels[b] < cap as nat,
        ),
{
    let mut out: Vec<String> = Vec::new();
    let mut i: usize = 0;
    while i < candidates.len()
        invariant
            i <= candidates@.len(),
            out@.map_values(|s: String| s@) == candidates@.subrange(0, i as int).map_values(
                |s: String| s@,
            ).filter(|b: Seq<char>| state@.levels[b] < cap as nat),
        decreases candidates@.len() - i,
    {
        let ghost pre = candidates@.subrange(0, i as int).map_values(|s: String| s@);
        let ghost next = candidates@.subrange(0, i + 1).map_values(|s: String| s@);
        assert(next.drop_last() =~= pre);
        assert(next.last() == candidates@[i as int]@);
        let keep = below_cap(state, candidates[i].as_str(), cap);
        if keep {
            out.push(candidates[i].clone());
        }
        proof {
            reveal_with_fuel(Seq::<Seq<char>>::filter, 1);
            assert(out@.map_values(|s: String| s@) =~= next.filter(
                |b: Seq<char>| state@.levels[b] < cap as nat,
            ));
        }
        i = i + 1;
    }
    assert(candidates@.subrange(0, candidates@.len() as int) =~= candidates@);
    out
}


/// What applying `a` to `m` yields: `None` when a precondition fails.
///
/// Queue actions need both queues empty and a non-empty name; a technology
/// that is already researched is not queued; a building level can only be
/// queued with a price economy. A wait needs a positive day count and the
/// matching event in flight; it advances the clock, empties the queue, and
/// records the technology or one added level.
pub open spec fn spec_apply(m: PlanModel, a: ActionModel, econ: bool) -> Option<PlanModel> {
    match a {
        ActionModel::QueueTech(t) => {
            if t.len() == 0 || m.queued_tech is Some || m.queued_building is Some || m.techs.contains(t) {
                None
            } else {
                Some(PlanModel { queued_tech: Some(t), ..m })
            }
        },
        ActionModel::QueueBuildingLevel(b) => {
            if b.len() == 0 || m.queued_tech is Some || m.queued_building is Some || !econ {
                None
            } else {
                Some(PlanModel { queued_building: Some(b), ..m })
            }
        },
        ActionModel::WaitTech(t, d) => {
            if d == 0 || m.queued_tech != Some(t) {
                None
            } else {
                Some(PlanModel { day: m.day + d, queued_tech: None, techs: m.techs.insert(t), ..m })
            }
        },
        ActionModel::WaitBuilding(b, d) => {
            if !econ || d == 0 || m.queued_building != Some(b) {
                None
            } else {
                Some(
                    PlanModel {
                        day: m.day + d,
                        queued_building: None,
                        levels: m.levels.insert(b, m.levels[b] + 1),
                        ..m
                    },
                )
            }
        },
    }
}

proof fn lemma_level_push(s: Seq<(String, u32)>, x: (String, u32), q: Seq<char>)
    ensures
        level_in(s.push(x), q) == if x.0@ == q { x.1 as nat } else { level_in(s, q) },
{
    assert(s.push(x).drop_last() =~= s);
}

proof fn lemma_level_absent(s: Seq<(String, u32)>, q: Seq<char>)
    requires
        forall|i: int| 0 <= i < s.len() ==> #[trigger] s[i].0@ != q,
    ensures
        level_in(s, q) == 0,
    decreases s.len(),
{
    if s.len() > 0 {
        assert(s.last().0@ != q);
        lemma_level_absent(s.drop_last(), q);
    }
}

pub open spec fn keys_unique(s: Seq<(String, u32)>) -> bool {
    forall|i: int, j: int| 0 <= i < j < s.len() ==> #[trigger] s[i].0@ != #[trigger] s[j].0@
}

proof fn lemma_level_update(s: Seq<(String, u32)>, j: int, v: u32, q: Seq<char>)
    requires
        keys_unique(s),
        0 <= j < s.len(),
    ensures
        level_in(s.update(j, (s[j].0, v)), q) == if q == s[j].0@ { v as nat } else { level_in(s, q) },
    decreases s.len(),
{
    let u = s.update(j, (s[j].0, v));
    if j == s.len() - 1 {
        assert(u.last() == (s[j].0, v));
        if q != s[j].0@ {
            assert(u.drop_last() =~= s.drop_last());
        }
    } else {
        assert(u.last() == s.last());
        assert(s.last().0@ != s[j].0@);
        if s.last().0@ != q {
            assert(u.drop_last() =~= s.drop_last().update(j, (s[j].0, v)));
            lemma_level_update(s.drop_last(), j, v, q);
        }
    }
}

/// How one transition may change the added-level entries: existing entries
/// keep their place and grow by at most one level, and at most one new
/// entry, with one level, is appended.
pub open spec fn levels_step(old: Seq<(String, u32)>, new: Seq<(String, u32)>) -> bool {
    &&& old.len() <= new.len() <= old.len() + 1
    &&& forall|j: int| 0 <= j < old.len() ==> (#[trigger] new[j]).1 <= old[j].1 + 1
    &&& forall|j: int| old.len() <= j < new.len() ==> (#[trigger] new[j]).1 == 1
}

/// Copies a string (std `String::clone`, specified by vstd).
fn copy_opt(o: &Option<String>) -> (r: Option<String>)
    ensures
        opt_view(r) == opt_view(*o),
{
    match o {
        Some(s) => Some(s.clone()),
        None => None,
    }
}

fn copy_techs(v: &Vec<String>) -> (r: Vec<String>)
    ensures
        r@.len() == v@.len(),
        forall|i: int| 0 <= i < v.len() ==> #[trigger] r@[i]@ == v@[i]@,
{
    let mut r: Vec<String> = Vec::new();
    let mut i: usize = 0;
    while i < v.len()
        invariant
            i <= v@.len(),
            r@.len() == i,
            forall|k: int| 0 <= k < i ==> #[trigger] r@[k]@ == v@[k]@,
        decreases v@.len() - i,
    {
        r.push(v[i].clone());
        i = i + 1;
    }
    r
}

fn copy_levels(v: &Vec<(String, u32)>) -> (r: Vec<(String, u32)>)
    ensures
        r@.len() == v@.len(),
        forall|i: int| 0 <= i < v.len() ==> #[trigger] r@[i].0@ == v@[i].0@ && r@[i].1 == v@[i].1,
{
    let mut r: Vec<(String, u32)> = Vec::new();
    let mut i: usize = 0;
    while i < v.len()
        invariant
            i <= v@.len(),
            r@.len() == i,
            forall|k: int| 0 <= k < i ==> #[trigger] r@[k].0@ == v@[k].0@ && r@[k].1 == v@[k].1,
        decreases v@.len() - i,
    {
        r.push((v[i].0.clone(), v[i].1));
        i = i + 1;
    }
    r
}

proof fn lemma_level_same(s: Seq<(String, u32)>, r: Seq<(String, u32)>, q: Seq<char>)
    requires
        r.len() == s.len(),
        forall|i: int| 0 <= i < s.len() ==> #[trigger] r[i].0@ == s[i].0@ && r[i].1 == s[i].1,
    ensures
        level_in(r, q) == level_in(s, q),
    decreases s.len(),
{
    if s.len() > 0 {
        assert(r.last().0@ == s.last().0@ && r.last().1 == s.last().1);
        lemma_level_same(s.drop_last(), r.drop_last(), q);
    }
}

/// A copy of `state` with the same view.
pub fn copy_state(state: &PlanningState) -> (r: PlanningState)
    requires
        state.wf(),
    ensures
        r@ =~= state@,
        r.wf(),
        r.building_level_deltas@.len() == state.building_level_deltas@.len(),
        forall|i: int| 0 <= i < state.building_level_deltas.len()
            ==> #[trigger] r.building_level_deltas@[i].1 == state.building_level_deltas@[i].1,
{
    let r = PlanningState {
        day: state.day,
        country: state.country.clone(),
        techs: copy_techs(&state.techs),
        queued_tech: copy_opt(&state.queued_tech),
        queued_building: copy_opt(&state.queued_building),
        building_level_deltas: copy_levels(&state.building_level_deltas),
    };
    proof {
        assert forall|i: int| 0 <= i < state.building_level_deltas.len()
            implies #[trigger] r.building_level_deltas@[i].1 == state.building_level_deltas@[i].1 by {
            assert(r.building_level_deltas@[i].0@ == state.building_level_deltas@[i].0@);
        }
        assert forall|i: int, j: int| 0 <= i < j < r.building_level_deltas.len()
            implies #[trigger] r.building_level_deltas@[i].0@ != #[trigger] r.building_level_deltas@[j].0@ by {
            assert(r.building_level_deltas@[i].0@ == state.building_level_deltas@[i].0@);
            assert(r.building_level_deltas@[j].0@ == state.building_level_deltas@[j].0@);
        }
        assert(r@.techs =~= state@.techs) by {
            assert forall|t: Seq<char>| r@.techs.contains(t) implies state@.techs.contains(t) by {
                let i = choose|i: int| 0 <= i < r.techs.len() && #[trigger] r.techs@[i]@ == t;
                assert(state.techs@[i]@ == t);
            }
            assert forall|t: Seq<char>| state@.techs.contains(t) implies r@.techs.contains(t) by {
                let i = choose|i: int| 0 <= i < state.techs.len() && #[trigger] state.techs@[i]@ == t;
                assert(r.techs@[i]@ == t);
            }
        }
        assert forall|k: Seq<char>| #[trigger] r@.levels[k] == state@.levels[k] by {
            lemma_level_same(state.building_level_deltas@, r.building_level_deltas@, k);
        }
        assert(r@.levels =~= state@.levels);
    }
    r
}

/// Apply an action if its preconditions hold (see [`spec_apply`]).
///
/// `has_economy` says whether a price economy backs building decisions; the
/// caller re-solves prices after a completed building level. Applying the
/// same action to states with the same view always gives the same view.
pub fn apply_action(state: &PlanningState, action: &Action, has_economy: bool) -> (res: Option<
    PlanningState,
>)
    requires
        state.wf(),
        state.day <= i64::MAX - 65535,
        forall|i: int| 0 <= i < state.building_level_deltas.len()
            ==> #[trigger] state.building_level_deltas@[i].1 < u32::MAX,
    ensures
        (match res {
            Some(n) => (spec_apply(state@, action@, has_economy) matches Some(m) && n@ =~= m && n.wf()
                && n.day == state.day + action_days(action@)
                && levels_step(state.building_level_deltas@, n.building_level_deltas@)),
            None => spec_apply(state@, action@, has_economy) is None,
        }),
{
    let mut next = copy_state(state);
    match action {
        Action::QueueTech { tech } => {
            if tech.as_str().unicode_len() == 0 || next.queued_tech.is_some()
                || next.queued_building.is_some() || next.has_tech(tech.as_str()) {
                return None;
            }
            next.queued_tech = Some(tech.clone());
            assert(next@ =~= PlanModel { queued_tech: Some(tech@), ..state@ });
        },
        Action::QueueBuildingLevel { building } => {
            if building.as_str().unicode_len() == 0 || next.queued_tech.is_some()
                || next.queued_building.is_some() || !has_economy {
                return None;
            }
            next.queued_building = Some(building.clone());
            assert(next@ =~= PlanModel { queued_building: Some(building@), ..state@ });
        },
        Action::WaitForEvent { event: Event::TechCompleted { tech }, days } => {
            let matches = match &next.queued_tech {
                Some(q) => str_eq(q.as_str(), tech.as_str()),
                None => false,
            };
            if *days == 0 || !matches {
                return None;
            }
            let ghost before = next@;
            let ghost old_techs = next.techs@;
            next.day = next.day + *days as i64;
            next.queued_tech = None;
            if !next.has_tech(tech.as_str()) {
                next.techs.push(tech.clone());
            }
            proof {
                assert forall|t: Seq<char>| #[trigger] before.techs.insert(tech@).contains(t)
                    implies next@.techs.contains(t) by {
                    if t != tech@ {
                        let i = choose|i: int| 0 <= i < old_techs.len() && #[trigger] old_techs[i]@ == t;
                        assert(next.techs@[i]@ == t);
                    } else if next.techs@.len() > old_techs.len() {
                        assert(next.techs@[old_techs.len() as int]@ == t);
                    }
                }
                assert forall|t: Seq<char>| next@.techs.contains(t)
                    implies #[trigger] before.techs.insert(tech@).contains(t) by {
                    let i = choose|i: int| 0 <= i < next.techs.len() && #[trigger] next.techs@[i]@ == t;
                    if i < old_techs.len() {
                        assert(old_techs[i]@ == t);
                    }
                }
                assert(next@.techs =~= before.techs.insert(tech@));
            }
            assert(next@ =~= PlanModel {
                day: state@.day + *days as nat,
                queued_tech: None,
                techs: state@.techs.insert(tech@),
                ..state@
            });
        },
        Action::WaitForEvent { event: Event::BuildingCompleted { building }, days } => {
            let matches = match &next.queued_building {
                Some(q) => str_eq(q.as_str(), building.as_str()),
                None => false,
            };
            if !has_economy || *days == 0 || !matches {
                return None;
            }
            next.day = next.day + *days as i64;
            next.queued_building = None;
            bump_level(&mut next, building);
            assert(next@ =~= PlanModel {
                day: state@.day + *days as nat,
                queued_building: None,
                levels: state@.levels.insert(building@, state@.levels[building@] + 1),
                ..state@
            });
        },
    }
    Some(next)
}

/// Index of the entry keyed `b`, if any.
fn find_key(v: &Vec<(String, u32)>, b: &str) -> (r: Option<usize>)
    ensures
        (match r {
            Some(j) => j < v@.len() && v@[j as int].0@ == b@,
            None => forall|k: int| 0 <= k < v@.len() ==> #[trigger] v@[k].0@ != b@,
        }),
{
    let mut j: usize = 0;
    while j < v.len()
        invariant
            j <= v@.len(),
            forall|k: int| 0 <= k < j ==> #[trigger] v@[k].0@ != b@,
        decreases v@.len() - j,
    {
        if str_eq(v[j].0.as_str(), b) {
            return Some(j);
        }
        j = j + 1;
    }
    None
}

/// Adds one level of `building` to `state`'s plan deltas.
fn bump_level(state: &mut PlanningState, building: &String)
    requires
        old(state).wf(),
        forall|i: int| 0 <= i < old(state).building_level_deltas.len()
            ==> #[trigger] old(state).building_level_deltas@[i].1 < u32::MAX,
    ensures
        final(state).wf(),
        levels_step(old(state).building_level_deltas@, final(state).building_level_deltas@),
        final(state)@ =~= (PlanModel {
            levels: old(state)@.levels.insert(building@, old(state)@.levels[building@] + 1),
            ..old(state)@
        }),
{
    let ghost s = state.building_level_deltas@;
    let found = find_key(&state.building_level_deltas, building.as_str());
    let ghost before = state@;
    if let Some(j) = found {
        let key = state.building_level_deltas[j].0.clone();
        let v = state.building_level_deltas[j].1;
        state.building_level_deltas.set(j, (key, v + 1));
        proof {
            assert(keys_unique(s));
            assert(s[j as int].0@ == building@);
            assert(state.building_level_deltas@ =~= s.update(j as int, (s[j as int].0, (v + 1) as u32)));
            assert forall|q: Seq<char>| #[trigger] state@.levels[q] == before.levels.insert(
                building@,
                before.levels[building@] + 1,
            )[q] by {
                lemma_level_update(s, j as int, (v + 1) as u32, q);
                lemma_level_update(s, j as int, v, building@);
                assert(s.update(j as int, (s[j as int].0, v)) =~= s);
            }
        }
    } else {
        state.building_level_deltas.push((building.clone(), 1));
        proof {
            lemma_level_absent(s, building@);
            assert forall|q: Seq<char>| #[trigger] state@.levels[q] == before.levels.insert(
                building@,
                before.levels[building@] + 1,
            )[q] by {
                let x = state.building_level_deltas@.last();
                assert(state.building_level_deltas@ =~= s.push(x));
                lemma_level_push(s, x, q);
            }
        }
    }
    assert(state@.levels =~= before.levels.insert(building@, before.levels[building@] + 1));
}


/// One edge emitted by [`successors_for_atoms`].
#[derive(Debug, Clone, PartialEq, Eq)]
pub struct Successor {
    pub action: Action,
    /// Edge cost in days. Decision edges have cost zero.
    pub days: u16,
    pub state: PlanningState,
}

/// Edge `e` out of `s` can be expanded again: its state is well formed,
/// its clock moved by the edge's days, and its level entries changed by at
/// most one step (see [`levels_step`]).
pub open spec fn successor_ok(s: PlanningState, e: Successor) -> bool {
    &&& e.state.wf()
    &&& e.state.day == s.day + e.days
    &&& levels_step(s.building_level_deltas@, e.state.building_level_deltas@)
}

/// Technologies to queue, in atom order: each `HasTech` atom whose non-empty
/// technology is not researched yet, first occurrence only.
pub open spec fn queued_techs(m: PlanModel, atoms: Seq<Atom>) -> Seq<Seq<char>>
    decreases atoms.len(),
{
    if atoms.len() == 0 {
        seq![]
    } else {
        let prev = queued_techs(m, atoms.drop_last());
        match atom_tech(atoms.last()) {
            Some(t) => if t.len() > 0 && !m.techs.contains(t) && !prev.contains(t) {
                prev.push(t)
            } else {
                prev
            },
            None => prev,
        }
    }
}

/// Decision edges: only from an idle state; technologies first, then each
/// non-empty building candidate (when an economy supplied candidates).
pub open spec fn decision_actions(m: PlanModel, atoms: Seq<Atom>, candidates: Option<Seq<Seq<char>>>) -> Seq<ActionModel> {
    if m.queued_tech is None && m.queued_building is None {
        queued_techs(m, atoms).map_values(|t: Seq<char>| ActionModel::QueueTech(t)) + match candidates {
            Some(c) => c.filter(|b: Seq<char>| b.len() > 0).map_values(|b: Seq<char>| ActionModel::QueueBuildingLevel(b)),
            None => seq![],
        }
    } else {
        seq![]
    }
}

pub open spec fn max1(d: u16) -> nat {
    if d == 0 { 1 } else { d as nat }
}

/// The single wait edge, if any: the queued technology completes when some
/// open atom asks for it; otherwise a queued building level completes when
/// an economy is present.
pub open spec fn wait_actions(m: PlanModel, atoms: Seq<Atom>, config: SimConfig, econ: bool) -> Seq<ActionModel> {
    if m.queued_tech is Some && exists|i: int| 0 <= i < atoms.len() && atom_tech(#[trigger] atoms[i]) == m.queued_tech {
        seq![ActionModel::WaitTech(m.queued_tech->0, max1(config.research_days))]
    } else if m.queued_building is Some && econ {
        seq![ActionModel::WaitBuilding(m.queued_building->0, max1(config.construction_days))]
    } else {
        seq![]
    }
}

/// All successor actions, in emission order.
pub open spec fn successor_actions(
    m: PlanModel,
    atoms: Seq<Atom>,
    config: SimConfig,
    candidates: Option<Seq<Seq<char>>>,
) -> Seq<ActionModel> {
    decision_actions(m, atoms, candidates) + wait_actions(m, atoms, config, candidates is Some)
}

pub open spec fn names_view(c: Option<&Vec<String>>) -> Option<Seq<Seq<char>>> {
    match c {
        Some(v) => Some(v@.map_values(|s: String| s@)),
        None => None,
    }
}

fn push_successor(
    out: &mut Vec<Successor>,
    state: &PlanningState,
    action: Action,
    econ: bool,
    days: u16,
)
    requires
        state.wf(),
        state.day <= i64::MAX - 65535,
        forall|i: int| 0 <= i < state.building_level_deltas.len()
            ==> #[trigger] state.building_level_deltas@[i].1 < u32::MAX,
        spec_apply(state@, action@, econ) is Some,
        days as nat == action_days(action@),
    ensures
        final(out)@.len() == old(out)@.len() + 1,
        forall|i: int| 0 <= i < old(out)@.len() ==> #[trigger] final(out)@[i] == old(out)@[i],
        final(out)@.last().action@ == action@,
        final(out)@.last().days == days,
        spec_apply(state@, action@, econ) matches Some(m) && final(out)@.last().state@ =~= m,
        successor_ok(*state, final(out)@.last()),
{
    let next = apply_action(state, &action, econ);
    match next {
        Some(n) => {
            out.push(Successor { action, days, state: n });
        },
        None => {
            assert(false);
        },
    }
}

/// Whether some atom asks for technology `tech`.
fn atoms_ask(atoms: &Vec<Atom>, tech: &str) -> (b: bool)
    ensures
        b == exists|i: int| 0 <= i < atoms@.len() && atom_tech(#[trigger] atoms@[i]) == Some(tech@),
{
    let mut i: usize = 0;
    while i < atoms.len()
        invariant
            i <= atoms@.len(),
            forall|k: int| 0 <= k < i ==> atom_tech(#[trigger] atoms@[k]) != Some(tech@),
        decreases atoms@.len() - i,
    {
        if atoms[i].is_has_tech(tech) {
            return true;
        }
        i = i + 1;
    }
    false
}

/// The character sequences of a list of strings.
pub open spec fn names(v: Seq<String>) -> Seq<Seq<char>> {
    v.map_values(|s: String| s@)
}

fn contains_name(v: &Vec<String>, t: &str) -> (b: bool)
    ensures
        b == names(v@).contains(t@),
{
    let mut i: usize = 0;
    while i < v.len()
        invariant
            i <= v@.len(),
            forall|k: int| 0 <= k < i ==> #[trigger] v@[k]@ != t@,
        decreases v@.len() - i,
    {
        if str_eq(v[i].as_str(), t) {
            assert(names(v@)[i as int] == t@);
            return true;
        }
        i = i + 1;
    }
    proof {
        if names(v@).contains(t@) {
            let k = choose|k: int| 0 <= k < v@.len() && #[trigger] names(v@)[k] == t@;
            assert(v@[k]@ == t@);
        }
    }
    false
}

/// Generate successors from an already-computed list of open goal atoms.
///
/// Technology decisions are emitted in atom order with duplicates removed,
/// then one decision per building candidate (`candidates` is `Some` exactly
/// when a price economy backs the search; the caller ranks and caps them).
/// At most one wait edge is appended. Every edge's state is what
/// [`apply_action`] gives for its action, and its day count is the action's;
/// each successor state is well formed again, so it can be expanded in turn
/// (see [`successor_ok`]).
pub fn successors_for_atoms(
    state: &PlanningState,
    atoms: &Vec<Atom>,
    config: SimConfig,
    candidates: Option<&Vec<String>>,
) -> (out: Vec<Successor>)
    requires
        state.wf(),
        state.day <= i64::MAX - 65535,
        forall|i: int| 0 <= i < state.building_level_deltas.len()
            ==> #[trigger] state.building_level_deltas@[i].1 < u32::MAX,
    ensures
        out@.map_values(|e: Successor| e.action@) =~= successor_actions(
            state@,
            atoms@,
            config,
            names_view(candidates),
        ),
        forall|i: int| 0 <= i < out@.len() ==> (spec_apply(state@, #[trigger] out@[i].action@, candidates is Some)
            matches Some(m) && out@[i].state@ =~= m),
        forall|i: int| 0 <= i < out@.len() ==> #[trigger] out@[i].days as nat == action_days(out@[i].action@),
        forall|i: int| 0 <= i < out@.len() ==> successor_ok(*state, #[trigger] out@[i]),
        forall|i: int| 0 <= i < out@.len() ==> (is_wait(#[trigger] out@[i].action@) <==> out@[i].days >= 1),
        forall|i: int| 0 <= i < out@.len() - 1 ==> !is_wait(#[trigger] out@[i].action@),
        state.queued_tech is None && state.queued_building is None ==> forall|i: int|
            0 <= i < out@.len() ==> !is_wait(#[trigger] out@[i].action@),
        forall|i: int, j: int|
            0 <= i < j < out@.len() && (#[trigger] out@[i].action@) is QueueTech && (#[trigger] out@[j].action@) is QueueTech
                ==> out@[i].action@->QueueTech_0 != out@[j].action@->QueueTech_0,
{
    let econ = candidates.is_some();
    let ghost m = state@;
    let mut out: Vec<Successor> = Vec::new();
    if state.queued_tech.is_none() && state.queued_building.is_none() {
        let mut seen: Vec<String> = Vec::new();
        let mut i: usize = 0;
        while i < atoms.len()
            invariant
                state.wf(),
                state.day <= i64::MAX - 65535,
                forall|k: int| 0 <= k < state.building_level_deltas.len()
                    ==> #[trigger] state.building_level_deltas@[k].1 < u32::MAX,
                m == state@,
                m.queued_tech is None && m.queued_building is None,
                econ == candidates is Some,
                i <= atoms@.len(),
                names(seen@) =~= queued_techs(m, atoms@.subrange(0, i as int)),
                out@.map_values(|e: Successor| e.action@) =~= queued_techs(m, atoms@.subrange(0, i as int)).map_values(
                    |t: Seq<char>| ActionModel::QueueTech(t),
                ),
                forall|k: int| 0 <= k < out@.len() ==> (spec_apply(m, #[trigger] out@[k].action@, econ)
                    matches Some(n) && out@[k].state@ =~= n),
                forall|k: int| 0 <= k < out@.len() ==> #[trigger] out@[k].days as nat == action_days(out@[k].action@),
                forall|k: int| 0 <= k < out@.len() ==> successor_ok(*state, #[trigger] out@[k]),
            decreases atoms@.len() - i,
        {
            let ghost pre = atoms@.subrange(0, i as int);
            assert(atoms@.subrange(0, i + 1).drop_last() =~= pre);
            assert(atoms@.subrange(0, i + 1).last() == atoms@[i as int]);
            if let Atom::HasTech(tech) = &atoms[i] {
                let t = tech.as_str();
                if t.unicode_len() > 0 && !state.has_tech(t) && !contains_name(&seen, t) {
                    seen.push(tech.clone());
                    let ghost before = out@;
                    push_successor(&mut out, state, Action::QueueTech { tech: tech.clone() }, econ, 0);
                    proof {
                        assert(names(seen@) =~= queued_techs(m, pre).push(tech@));
                        assert(out@.map_values(|e: Successor| e.action@) =~= before.map_values(
                            |e: Successor| e.action@,
                        ).push(ActionModel::QueueTech(tech@)));
                        assert forall|k: int| 0 <= k < out@.len() implies (spec_apply(m, #[trigger] out@[k].action@, econ)
                            matches Some(n) && out@[k].state@ =~= n) by {
                            if k < before.len() {
                                assert(out@[k] == before[k]);
                            }
                        }
                        assert forall|k: int| 0 <= k < out@.len() implies #[trigger] out@[k].days as nat == action_days(out@[k].action@) by {
                            if k < before.len() {
                                assert(out@[k] == before[k]);
                            }
                        }
                        assert forall|k: int| 0 <= k < out@.len() implies successor_ok(*state, #[trigger] out@[k]) by {
                            if k < before.len() {
                                assert(out@[k] == before[k]);
                            }
                        }
                    }
                }
            }
            i = i + 1;
        }
        assert(atoms@.subrange(0, atoms@.len() as int) =~= atoms@);
        match candidates {
            Some(c) => {
                let ghost techs_part = out@.map_values(|e: Successor| e.action@);
                let mut j: usize = 0;
                while j < c.len()
                    invariant
                        state.wf(),
                        state.day <= i64::MAX - 65535,
                        forall|k: int| 0 <= k < state.building_level_deltas.len()
                            ==> #[trigger] state.building_level_deltas@[k].1 < u32::MAX,
                        m == state@,
                        m.queued_tech is None && m.queued_building is None,
                        econ,
                        j <= c@.len(),
                        out@.map_values(|e: Successor| e.action@) =~= techs_part + c@.subrange(0, j as int).map_values(
                            |s: String| s@,
                        ).filter(|b: Seq<char>| b.len() > 0).map_values(
                            |b: Seq<char>| ActionModel::QueueBuildingLevel(b),
                        ),
                        forall|k: int| 0 <= k < out@.len() ==> (spec_apply(m, #[trigger] out@[k].action@, econ)
                            matches Some(n) && out@[k].state@ =~= n),
                        forall|k: int| 0 <= k < out@.len() ==> #[trigger] out@[k].days as nat == action_days(out@[k].action@),
                        forall|k: int| 0 <= k < out@.len() ==> successor_ok(*state, #[trigger] out@[k]),
                    decreases c@.len() - j,
                {
                    let ghost pre = c@.subrange(0, j as int).map_values(|s: String| s@);
                    let ghost nxt = c@.subrange(0, j + 1).map_values(|s: String| s@);
                    assert(nxt.drop_last() =~= pre);
                    assert(nxt.last() == c@[j as int]@);
                    let ghost before = out@;
                    if c[j].as_str().unicode_len() > 0 {
                        push_successor(&mut out, state, Action::QueueBuildingLevel { building: c[j].clone() }, econ, 0);
                        proof {
                            assert forall|k: int| 0 <= k < out@.len() implies (spec_apply(m, #[trigger] out@[k].action@, econ)
                                matches Some(n) && out@[k].state@ =~= n) by {
                                if k < before.len() {
                                    assert(out@[k] == before[k]);
                                }
                            }
                            assert forall|k: int| 0 <= k < out@.len() implies #[trigger] out@[k].days as nat == action_days(out@[k].action@) by {
                                if k < before.len() {
                                    assert(out@[k] == before[k]);
                                }
                            }
                            assert forall|k: int| 0 <= k < out@.len() implies successor_ok(*state, #[trigger] out@[k]) by {
                                if k < before.len() {
                                    assert(out@[k] == before[k]);
                                }
                            }
                        }
                    }
                    proof {
                        reveal_with_fuel(Seq::<Seq<char>>::filter, 1);
                        let fp = pre.filter(|b: Seq<char>| b.len() > 0);
                        assert(nxt.filter(|b: Seq<char>| b.len() > 0) == if c@[j as int]@.len() > 0 { fp.push(c@[j as int]@) } else { fp });
                        if c@[j as int]@.len() > 0 {
                            assert(out@.map_values(|e: Successor| e.action@) =~= before.map_values(|e: Successor| e.action@).push(
                                ActionModel::QueueBuildingLevel(c@[j as int]@)));
                            assert(fp.push(c@[j as int]@).map_values(|b: Seq<char>| ActionModel::QueueBuildingLevel(b))
                                =~= fp.map_values(|b: Seq<char>| ActionModel::QueueBuildingLevel(b)).push(ActionModel::QueueBuildingLevel(c@[j as int]@)));
                        }
                        assert(out@.map_values(|e: Successor| e.action@) =~= techs_part + nxt.filter(
                            |b: Seq<char>| b.len() > 0,
                        ).map_values(|b: Seq<char>| ActionModel::QueueBuildingLevel(b)));
                    }
                    j = j + 1;
                }
                assert(c@.subrange(0, c@.len() as int) =~= c@);
            },
            None => {},
        }
    }
    assert(out@.map_values(|e: Successor| e.action@) =~= decision_actions(m, atoms@, names_view(candidates)));
    let ghost decisions = out@;
    let mut waited = false;
    if let Some(q) = &state.queued_tech {
        if atoms_ask(atoms, q.as_str()) {
            let days: u16 = if config.research_days == 0 { 1 } else { config.research_days };
            push_successor(
                &mut out,
                state,
                Action::WaitForEvent { event: Event::TechCompleted { tech: q.clone() }, days },
                econ,
                days,
            );
            waited = true;
        }
    }
    if !waited {
        if let Some(b) = &state.queued_building {
            if econ {
                let days: u16 = if config.construction_days == 0 { 1 } else { config.construction_days };
                push_successor(
                    &mut out,
                    state,
                    Action::WaitForEvent { event: Event::BuildingCompleted { building: b.clone() }, days },
                    econ,
                    days,
                );
            }
        }
    }
    proof {
        assert forall|k: int| 0 <= k < out@.len() implies (spec_apply(m, #[trigger] out@[k].action@, econ)
            matches Some(n) && out@[k].state@ =~= n) by {
            if k < decisions.len() {
                assert(out@[k] == decisions[k]);
            }
        }
        assert forall|k: int| 0 <= k < out@.len() implies #[trigger] out@[k].days as nat == action_days(out@[k].action@) by {
            if k < decisions.len() {
                assert(out@[k] == decisions[k]);
            }
        }
        assert forall|k: int| 0 <= k < out@.len() implies successor_ok(*state, #[trigger] out@[k]) by {
            if k < decisions.len() {
                assert(out@[k] == decisions[k]);
            }
        }
    }
    proof {
        let acts = successor_actions(state@, atoms@, config, names_view(candidates));
        law_successor_actions_shape(state@, atoms@, config, names_view(candidates));
        assert forall|k: int| 0 <= k < out@.len() implies out@[k].action@ == acts[k] by {
            assert(out@.map_values(|e: Successor| e.action@)[k] == out@[k].action@);
        }
        assert forall|i: int, j: int|
            0 <= i < j < out@.len() && (#[trigger] out@[i].action@) is QueueTech && (#[trigger] out@[j].action@) is QueueTech
                implies out@[i].action@->QueueTech_0 != out@[j].action@->QueueTech_0 by {
            assert(out@[i].action@ == acts[i]);
            assert(out@[j].action@ == acts[j]);
        }
    }
    out
}


/// The shape of a successor list: a wait edge takes at least one day and a
/// decision none; only the last edge may be a wait; an idle state has no
/// wait; and no technology is queued twice.
pub proof fn law_successor_actions_shape(
    m: PlanModel,
    atoms: Seq<Atom>,
    config: SimConfig,
    candidates: Option<Seq<Seq<char>>>,
)
    ensures
        ({
            let acts = successor_actions(m, atoms, config, candidates);
            &&& forall|i: int| 0 <= i < acts.len() ==> (is_wait(#[trigger] acts[i]) <==> action_days(acts[i]) >= 1)
            &&& forall|i: int| 0 <= i < acts.len() - 1 ==> !is_wait(#[trigger] acts[i])
            &&& (m.queued_tech is None && m.queued_building is None) ==> forall|i: int|
                0 <= i < acts.len() ==> !is_wait(#[trigger] acts[i])
            &&& forall|i: int, j: int|
                0 <= i < j < acts.len() && (#[trigger] acts[i]) is QueueTech && (#[trigger] acts[j]) is QueueTech
                    ==> acts[i]->QueueTech_0 != acts[j]->QueueTech_0
        }),
{
    let acts = successor_actions(m, atoms, config, candidates);
    let d = decision_actions(m, atoms, candidates);
    let w = wait_actions(m, atoms, config, candidates is Some);
    law_single_trailing_wait(m, atoms, config, candidates);
    law_tech_decisions_distinct(m, atoms);
    if m.queued_tech is None && m.queued_building is None {
        law_idle_state_has_no_wait(m, atoms, config, candidates);
    }
    assert forall|i: int| 0 <= i < acts.len() implies (is_wait(#[trigger] acts[i]) <==> action_days(acts[i]) >= 1) by {
        if i >= d.len() {
            assert(acts[i] == w[i - d.len()]);
        }
    }
    let qt = queued_techs(m, atoms);
    assert forall|i: int, j: int|
        0 <= i < j < acts.len() && (#[trigger] acts[i]) is QueueTech && (#[trigger] acts[j]) is QueueTech
            implies acts[i]->QueueTech_0 != acts[j]->QueueTech_0 by {
        if m.queued_tech is None && m.queued_building is None {
            let qm = qt.map_values(|t: Seq<char>| ActionModel::QueueTech(t));
            assert forall|k: int| 0 <= k < acts.len() && (#[trigger] acts[k]) is QueueTech implies k < qt.len()
                && acts[k] == ActionModel::QueueTech(qt[k]) by {
                if k >= d.len() {
                    assert(acts[k] == w[k - d.len()]);
                } else if k >= qm.len() {
                    match candidates {
                        Some(c) => {
                            let f = c.filter(|b: Seq<char>| b.len() > 0);
                            assert(d[k] == ActionModel::QueueBuildingLevel(f[k - qm.len()]));
                        },
                        None => {},
                    }
                } else {
                    assert(acts[k] == d[k]);
                }
            }
            assert(acts[i] == ActionModel::QueueTech(qt[i]));
            assert(acts[j] == ActionModel::QueueTech(qt[j]));
        } else {
            assert(d.len() == 0);
            assert(acts[i] == w[i]);
        }
    }
}

/// Every edge moves the clock forward by exactly its day count, and a wait
/// edge moves it strictly forward: successor dates never go back.
pub proof fn law_apply_advances_clock(m: PlanModel, a: ActionModel, econ: bool)
    ensures
        spec_apply(m, a, econ) matches Some(n) ==> n.day == m.day + action_days(a) && (is_wait(a)
            ==> n.day > m.day),
{
}

/// A successor list holds at most one event-wait edge, and only as its last
/// edge.
pub proof fn law_single_trailing_wait(
    m: PlanModel,
    atoms: Seq<Atom>,
    config: SimConfig,
    candidates: Option<Seq<Seq<char>>>,
)
    ensures
        forall|i: int|
            0 <= i < successor_actions(m, atoms, config, candidates).len() - 1 ==> !is_wait(
                #[trigger] successor_actions(m, atoms, config, candidates)[i],
            ),
        wait_actions(m, atoms, config, candidates is Some).len() <= 1,
{
    let d = decision_actions(m, atoms, candidates);
    let w = wait_actions(m, atoms, config, candidates is Some);
    let all = successor_actions(m, atoms, config, candidates);
    assert forall|i: int| 0 <= i < d.len() implies !is_wait(#[trigger] d[i]) by {
        if m.queued_tech is None && m.queued_building is None {
            let qt = queued_techs(m, atoms).map_values(|t: Seq<char>| ActionModel::QueueTech(t));
            if i >= qt.len() {
                match candidates {
                    Some(c) => {
                        let f = c.filter(|b: Seq<char>| b.len() > 0);
                        assert(d[i] == ActionModel::QueueBuildingLevel(f[i - qt.len()]));
                    },
                    None => {},
                }
            }
        }
    }
    assert forall|i: int| 0 <= i < all.len() - 1 implies !is_wait(#[trigger] all[i]) by {
        assert(i < d.len());
        assert(all[i] == d[i]);
    }
}

/// A state with nothing queued has no event-wait edge (no invented events).
pub proof fn law_idle_state_has_no_wait(
    m: PlanModel,
    atoms: Seq<Atom>,
    config: SimConfig,
    candidates: Option<Seq<Seq<char>>>,
)
    requires
        m.queued_tech is None,
        m.queued_building is None,
    ensures
        forall|i: int|
            0 <= i < successor_actions(m, atoms, config, candidates).len() ==> !is_wait(
                #[trigger] successor_actions(m, atoms, config, candidates)[i],
            ),
{
    law_single_trailing_wait(m, atoms, config, candidates);
    assert(wait_actions(m, atoms, config, candidates is Some).len() == 0);
    assert(successor_actions(m, atoms, config, candidates) =~= decision_actions(m, atoms, candidates));
}

/// Technology decisions are distinct, non-empty, and not yet researched.
pub proof fn law_tech_decisions_distinct(m: PlanModel, atoms: Seq<Atom>)
    ensures
        queued_techs(m, atoms).no_duplicates(),
        forall|i: int| 0 <= i < queued_techs(m, atoms).len() ==> #[trigger] queued_techs(m, atoms)[i].len() > 0
            && !m.techs.contains(queued_techs(m, atoms)[i]),
    decreases atoms.len(),
{
    if atoms.len() > 0 {
        law_tech_decisions_distinct(m, atoms.drop_last());
    }
}

/// Queueing a technology and then waiting for it researches it: the clock
/// advances by the wait and both queues end empty.
pub proof fn law_queue_then_wait_researches(m: PlanModel, t: Seq<char>, d: nat, econ: bool)
    requires
        m.queued_tech is None,
        m.queued_building is None,
        t.len() > 0,
        !m.techs.contains(t),
        d > 0,
    ensures
        spec_apply(m, ActionModel::QueueTech(t), econ) matches Some(q) && spec_apply(
            q,
            ActionModel::WaitTech(t, d),
            econ,
        ) matches Some(n) && n.techs.contains(t) && n.day == m.day + d && n.queued_tech is None
            && n.queued_building is None && n.techs =~= m.techs.insert(t),
{
}

/// Completing a queued building level adds exactly one level of that type
/// and leaves every other type's count alone.
pub proof fn law_building_completion_adds_one_level(m: PlanModel, b: Seq<char>, d: nat, other: Seq<char>)
    requires
        m.queued_building == Some(b),
        d > 0,
        other != b,
    ensures
        spec_apply(m, ActionModel::WaitBuilding(b, d), true) matches Some(n) && n.levels[b] == m.levels[b] + 1
            && n.levels[other] == m.levels[other],
{
}

/// Goods that one building of the world makes and uses: the goods whose
/// output or input quantity is above the solver's order epsilon.
#[derive(Debug, Clone, PartialEq, Eq)]
pub struct BuildingGoods {
    /// Building type of this building.
    pub type_id: String,
    pub produces: Vec<String>,
    pub consumes: Vec<String>,
}

/// Whether a price goal with comparison `rel` is helped by a building that
/// produces (`<`, `<=`), consumes (`>`, `>=`), or does either (`==`) the good.
pub open spec fn rel_wants(rel: Rel, produces: bool, consumes: bool) -> bool {
    match rel {
        Rel::Le | Rel::Lt => produces,
        Rel::Ge | Rel::Gt => consumes,
        Rel::Eq => produces || consumes,
    }
}

/// Row `r` of `rows` is under the per-type cap and bears on price goal `atom`.
pub open spec fn atom_hit(m: PlanModel, atom: Atom, rows: Seq<BuildingGoods>, cap: u16, r: int) -> bool {
    match atom {
        Atom::GoodPrice { good, rel } => {
            &&& 0 <= r < rows.len()
            &&& m.levels[rows[r].type_id@] < cap as nat
            &&& rel_wants(rel, names(rows[r].produces@).contains(good@), names(rows[r].consumes@).contains(good@))
        },
        _ => false,
    }
}

/// Building type `t` is a candidate for some price goal among `atoms`.
pub open spec fn price_candidate(m: PlanModel, atoms: Seq<Atom>, rows: Seq<BuildingGoods>, cap: u16, t: Seq<char>) -> bool {
    exists|a: int, r: int| 0 <= a < atoms.len() && #[trigger] atom_hit(m, atoms[a], rows, cap, r) && rows[r].type_id@ == t
}

/// A goal that GDP reach or exceed a threshold.
pub open spec fn gdp_growth_atom(a: Atom) -> bool {
    match a {
        Atom::Gdp { rel } => rel is Ge || rel is Gt || rel is Eq,
        _ => false,
    }
}

/// Some open atom asks GDP to grow (`>=`, `>`, `==`).
pub open spec fn asks_gdp_growth(atoms: Seq<Atom>) -> bool {
    exists|i: int| 0 <= i < atoms.len() && gdp_growth_atom(#[trigger] atoms[i])
}

/// The first three types of `ranked` that are still under the cap.
pub open spec fn gdp_picks(m: PlanModel, ranked: Seq<Seq<char>>, cap: u16) -> Seq<Seq<char>> {
    let f = ranked.filter(|b: Seq<char>| m.levels[b] < cap as nat);
    if f.len() <= 3 {
        f
    } else {
        f.subrange(0, 3)
    }
}

fn wants(rel: Rel, produces: bool, consumes: bool) -> (b: bool)
    ensures
        b == rel_wants(rel, produces, consumes),
{
    match rel {
        Rel::Le | Rel::Lt => produces,
        Rel::Ge | Rel::Gt => consumes,
        Rel::Eq => produces || consumes,
    }
}

/// Adds to `out` the types of the rows that bear on `atom`.
fn add_atom_candidates(state: &PlanningState, atom: &Atom, rows: &Vec<BuildingGoods>, cap: u16, out: &mut Vec<String>)
    requires
        strictly_sorted(views(old(out)@)),
    ensures
        strictly_sorted(views(final(out)@)),
        forall|t: Seq<char>| #[trigger] views(final(out)@).contains(t) <==> (views(old(out)@).contains(t)
            || exists|r: int| #[trigger] atom_hit(state@, *atom, rows@, cap, r) && rows@[r].type_id@ == t),
{
    let (good, rel) = match atom {
        Atom::GoodPrice { good, rel } => (good, *rel),
        _ => {
            return;
        },
    };
    let ghost start = views(out@);
    let mut j: usize = 0;
    while j < rows.len()
        invariant
            j <= rows@.len(),
            *atom == (Atom::GoodPrice { good: *good, rel }),
            strictly_sorted(views(out@)),
            forall|t: Seq<char>| #[trigger] views(out@).contains(t) <==> (start.contains(t)
                || exists|r: int| 0 <= r < j && #[trigger] atom_hit(state@, *atom, rows@, cap, r) && rows@[r].type_id@ == t),
        decreases rows@.len() - j,
    {
        let row = &rows[j];
        let ghost before = views(out@);
        let mut hit = false;
        if below_cap(state, row.type_id.as_str(), cap) {
            let p = contains_name(&row.produces, good.as_str());
            let c = contains_name(&row.consumes, good.as_str());
            if wants(rel, p, c) {
                hit = true;
                insert_unique(out, row.type_id.clone());
            }
        }
        proof {
            assert(hit == atom_hit(state@, *atom, rows@, cap, j as int));
            assert forall|t: Seq<char>| #[trigger] views(out@).contains(t) <==> (start.contains(t)
                || exists|r: int| 0 <= r < j + 1 && #[trigger] atom_hit(state@, *atom, rows@, cap, r) && rows@[r].type_id@ == t) by {
                if exists|r: int| 0 <= r < j + 1 && #[trigger] atom_hit(state@, *atom, rows@, cap, r) && rows@[r].type_id@ == t {
                    let r = choose|r: int| 0 <= r < j + 1 && #[trigger] atom_hit(state@, *atom, rows@, cap, r) && rows@[r].type_id@ == t;
                    if r < j {
                        assert(before.contains(t));
                    }
                }
            }
        }
        j = j + 1;
    }
}

/// Building types worth adding a level of, sorted and without repeats.
///
/// For each price goal, every row under the per-type cap whose building
/// produces the good (goal `<`, `<=`), consumes it (`>`, `>=`), or does
/// either (`==`) contributes its type. When some goal asks GDP to grow, the
/// first three types of `gdp_ranked` still under the cap join them;
/// `gdp_ranked` lists the types with a positive output value per level, best
/// first, as the caller priced them. `rows` describe the world with the
/// plan's added levels.
pub fn building_candidates(
    state: &PlanningState,
    atoms: &Vec<Atom>,
    rows: &Vec<BuildingGoods>,
    gdp_ranked: &Vec<String>,
    cap: u16,
) -> (out: Vec<String>)
    ensures
        strictly_sorted(views(out@)),
        forall|t: Seq<char>| #[trigger] views(out@).contains(t) <==> (price_candidate(state@, atoms@, rows@, cap, t)
            || (asks_gdp_growth(atoms@) && gdp_picks(state@, names(gdp_ranked@), cap).contains(t))),
{
    let mut out: Vec<String> = Vec::new();
    let mut i: usize = 0;
    while i < atoms.len()
        invariant
            i <= atoms@.len(),
            strictly_sorted(views(out@)),
            forall|t: Seq<char>| #[trigger] views(out@).contains(t) <==> exists|a: int, r: int|
                0 <= a < i && #[trigger] atom_hit(state@, atoms@[a], rows@, cap, r) && rows@[r].type_id@ == t,
        decreases atoms@.len() - i,
    {
        let ghost before = views(out@);
        add_atom_candidates(state, &atoms[i], rows, cap, &mut out);
        proof {
            assert forall|t: Seq<char>| #[trigger] views(out@).contains(t) <==> exists|a: int, r: int|
                0 <= a < i + 1 && #[trigger] atom_hit(state@, atoms@[a], rows@, cap, r) && rows@[r].type_id@ == t by {
                if exists|a: int, r: int| 0 <= a < i + 1 && #[trigger] atom_hit(state@, atoms@[a], rows@, cap, r) && rows@[r].type_id@ == t {
                    let (a, r) = choose|a: int, r: int| 0 <= a < i + 1 && #[trigger] atom_hit(state@, atoms@[a], rows@, cap, r) && rows@[r].type_id@ == t;
                    if a < i {
                        assert(before.contains(t));
                    } else {
                        assert(atom_hit(state@, atoms@[i as int], rows@, cap, r));
                    }
                }
                if views(out@).contains(t) && !before.contains(t) {
                    let r = choose|r: int| #[trigger] atom_hit(state@, atoms@[i as int], rows@, cap, r) && rows@[r].type_id@ == t;
                    assert(atom_hit(state@, atoms@[i as int], rows@, cap, r));
                }
            }
        }
        i = i + 1;
    }
    let ghost prices = views(out@);
    let mut gdp = false;
    let mut k: usize = 0;
    while k < atoms.len()
        invariant
            k <= atoms@.len(),
            gdp == exists|a: int| 0 <= a < k && gdp_growth_atom(#[trigger] atoms@[a]),
        decreases atoms@.len() - k,
    {
        if let Atom::Gdp { rel } = &atoms[k] {
            match rel {
                Rel::Ge | Rel::Gt | Rel::Eq => {
                    gdp = true;
                },
                _ => {},
            }
        }
        k = k + 1;
    }
    if gdp {
        let open = cap_candidates(state, gdp_ranked, cap);
        let ghost f = names(gdp_ranked@).filter(|b: Seq<char>| state@.levels[b] < cap as nat);
        assert(names(open@) =~= f);
        let n: usize = if open.len() < 3 { open.len() } else { 3 };
        let ghost picks = gdp_picks(state@, names(gdp_ranked@), cap);
        assert(picks =~= names(open@).subrange(0, n as int));
        let mut q: usize = 0;
        while q < n
            invariant
                q <= n,
                n <= open@.len(),
                picks =~= names(open@).subrange(0, n as int),
                strictly_sorted(views(out@)),
                forall|t: Seq<char>| #[trigger] views(out@).contains(t) <==> (prices.contains(t)
                    || exists|p: int| 0 <= p < q && #[trigger] picks[p] == t),
            decreases n - q,
        {
            let ghost before = views(out@);
            insert_unique(&mut out, open[q].clone());
            proof {
                assert(picks[q as int] == open@[q as int]@);
                assert forall|t: Seq<char>| #[trigger] views(out@).contains(t) <==> (prices.contains(t)
                    || exists|p: int| 0 <= p < q + 1 && #[trigger] picks[p] == t) by {
                    if exists|p: int| 0 <= p < q + 1 && #[trigger] picks[p] == t {
                        let p = choose|p: int| 0 <= p < q + 1 && #[trigger] picks[p] == t;
                        if p < q {
                            assert(before.contains(t));
                        }
                    }
                }
            }
            q = q + 1;
        }
        proof {
            assert forall|t: Seq<char>| (exists|p: int| 0 <= p < n && #[trigger] picks[p] == t) <==> picks.contains(t) by {
                if picks.contains(t) {
                    let p = choose|p: int| 0 <= p < picks.len() && picks[p] == t;
                    assert(picks[p] == t);
                }
            }
        }
    }
    proof {
        assert forall|t: Seq<char>| price_candidate(state@, atoms@, rows@, cap, t) <==> prices.contains(t) by {
            if price_candidate(state@, atoms@, rows@, cap, t) {
                let (a, r) = choose|a: int, r: int| 0 <= a < atoms@.len() && #[trigger] atom_hit(state@, atoms@[a], rows@, cap, r) && rows@[r].type_id@ == t;
                assert(atom_hit(state@, atoms@[a], rows@, cap, r));
            }
        }
    }
    out
}

/// Row `r` of `rows` is a building of type `t` whose type is still under
/// the cap and which produces (`produce`) or consumes (`!produce`) `good`.
pub open spec fn row_moves_good(m: PlanModel, rows: Seq<BuildingGoods>, cap: u16, t: Seq<char>, good: Seq<char>, produce: bool, r: int) -> bool {
    &&& 0 <= r < rows.len()
    &&& rows[r].type_id@ == t
    &&& m.levels[t] < cap as nat
    &&& if produce { names(rows[r].produces@).contains(good) } else { names(rows[r].consumes@).contains(good) }
}

proof fn lemma_single_goal(m: PlanModel, good: String, rel: Rel, rows: Seq<BuildingGoods>, cap: u16, t: Seq<char>)
    ensures
        price_candidate(m, seq![Atom::GoodPrice { good, rel }], rows, cap, t) <==> exists|r: int|
            0 <= r < rows.len() && rows[r].type_id@ == t && #[trigger] atom_hit(m, Atom::GoodPrice { good, rel }, rows, cap, r),
{
    let atoms = seq![Atom::GoodPrice { good, rel }];
    if price_candidate(m, atoms, rows, cap, t) {
        let (a, r) = choose|a: int, r: int| 0 <= a < atoms.len() && #[trigger] atom_hit(m, atoms[a], rows, cap, r) && rows[r].type_id@ == t;
        assert(a == 0);
        assert(atom_hit(m, Atom::GoodPrice { good, rel }, rows, cap, r));
    }
    if exists|r: int| 0 <= r < rows.len() && rows[r].type_id@ == t && #[trigger] atom_hit(m, Atom::GoodPrice { good, rel }, rows, cap, r) {
        let r = choose|r: int| 0 <= r < rows.len() && rows[r].type_id@ == t && #[trigger] atom_hit(m, Atom::GoodPrice { good, rel }, rows, cap, r);
        assert(atoms[0] == Atom::GoodPrice { good, rel });
        assert(atom_hit(m, atoms[0], rows, cap, r));
    }
}

proof fn lemma_goal_rows(m: PlanModel, good: String, rel: Rel, produce: bool, rows: Seq<BuildingGoods>, cap: u16, t: Seq<char>)
    requires
        produce ==> (rel is Le || rel is Lt),
        !produce ==> (rel is Ge || rel is Gt),
    ensures
        price_candidate(m, seq![Atom::GoodPrice { good, rel }], rows, cap, t)
            <==> exists|r: int| #[trigger] row_moves_good(m, rows, cap, t, good@, produce, r),
{
    lemma_single_goal(m, good, rel, rows, cap, t);
    if exists|r: int| 0 <= r < rows.len() && rows[r].type_id@ == t && #[trigger] atom_hit(m, Atom::GoodPrice { good, rel }, rows, cap, r) {
        let r = choose|r: int| 0 <= r < rows.len() && rows[r].type_id@ == t && #[trigger] atom_hit(m, Atom::GoodPrice { good, rel }, rows, cap, r);
        assert(row_moves_good(m, rows, cap, t, good@, produce, r));
    }
    if exists|r: int| #[trigger] row_moves_good(m, rows, cap, t, good@, produce, r) {
        let r = choose|r: int| #[trigger] row_moves_good(m, rows, cap, t, good@, produce, r);
        assert(atom_hit(m, Atom::GoodPrice { good, rel }, rows, cap, r));
    }
}

/// A price goal is helped by buildings that push the price its way: a goal
/// to keep the price at or below a threshold (`<`, `<=`) by buildings that
/// produce the good (more supply), a goal to reach or exceed it (`>`, `>=`)
/// by buildings that consume it (more demand), and an equality goal by
/// either. So `>=` and `>` pick the same types, as do `<=` and `<`, and a
/// producer that does not consume never helps a raising goal.
pub proof fn law_price_goal_direction(m: PlanModel, good: String, rows: Seq<BuildingGoods>, cap: u16, t: Seq<char>)
    ensures
        price_candidate(m, seq![Atom::GoodPrice { good, rel: Rel::Ge }], rows, cap, t)
            <==> exists|r: int| #[trigger] row_moves_good(m, rows, cap, t, good@, false, r),
        price_candidate(m, seq![Atom::GoodPrice { good, rel: Rel::Gt }], rows, cap, t)
            <==> exists|r: int| #[trigger] row_moves_good(m, rows, cap, t, good@, false, r),
        price_candidate(m, seq![Atom::GoodPrice { good, rel: Rel::Le }], rows, cap, t)
            <==> exists|r: int| #[trigger] row_moves_good(m, rows, cap, t, good@, true, r),
        price_candidate(m, seq![Atom::GoodPrice { good, rel: Rel::Lt }], rows, cap, t)
            <==> exists|r: int| #[trigger] row_moves_good(m, rows, cap, t, good@, true, r),
        price_candidate(m, seq![Atom::GoodPrice { good, rel: Rel::Eq }], rows, cap, t)
            <==> (price_candidate(m, seq![Atom::GoodPrice { good, rel: Rel::Le }], rows, cap, t)
                || price_candidate(m, seq![Atom::GoodPrice { good, rel: Rel::Ge }], rows, cap, t)),
{
    lemma_goal_rows(m, good, Rel::Ge, false, rows, cap, t);
    lemma_goal_rows(m, good, Rel::Gt, false, rows, cap, t);
    lemma_goal_rows(m, good, Rel::Le, true, rows, cap, t);
    lemma_goal_rows(m, good, Rel::Lt, true, rows, cap, t);
    lemma_single_goal(m, good, Rel::Eq, rows, cap, t);
    let eq = Atom::GoodPrice { good, rel: Rel::Eq };
    let le = Atom::GoodPrice { good, rel: Rel::Le };
    let ge = Atom::GoodPrice { good, rel: Rel::Ge };
    if exists|r: int| 0 <= r < rows.len() && rows[r].type_id@ == t && #[trigger] atom_hit(m, eq, rows, cap, r) {
        let r = choose|r: int| 0 <= r < rows.len() && rows[r].type_id@ == t && #[trigger] atom_hit(m, eq, rows, cap, r);
        if atom_hit(m, le, rows, cap, r) {
            assert(row_moves_good(m, rows, cap, t, good@, true, r));
        } else {
            assert(row_moves_good(m, rows, cap, t, good@, false, r));
        }
    }
    if exists|r: int| #[trigger] row_moves_good(m, rows, cap, t, good@, true, r) {
        let r = choose|r: int| #[trigger] row_moves_good(m, rows, cap, t, good@, true, r);
        assert(atom_hit(m, eq, rows, cap, r));
    }
    if exists|r: int| #[trigger] row_moves_good(m, rows, cap, t, good@, false, r) {
        let r = choose|r: int| #[trigger] row_moves_good(m, rows, cap, t, good@, false, r);
        assert(atom_hit(m, eq, rows, cap, r));
    }
}

/// A building candidate is under the per-type cap, and expanding it keeps
/// it within the cap: from an idle state, queueing a (non-empty) candidate
/// is accepted, and once that level completes the type has at most `cap`
/// added levels.
pub proof fn law_candidates_respect_cap(
    m: PlanModel,
    atoms: Seq<Atom>,
    rows: Seq<BuildingGoods>,
    ranked: Seq<Seq<char>>,
    cap: u16,
    t: Seq<char>,
    d: nat,
)
    requires
        price_candidate(m, atoms, rows, cap, t) || (asks_gdp_growth(atoms) && gdp_picks(m, ranked, cap).contains(t)),
    ensures
        m.levels[t] < cap as nat,
        (m.queued_tech is None && m.queued_building is None && t.len() > 0 && d > 0) ==> (spec_apply(
            m,
            ActionModel::QueueBuildingLevel(t),
            true,
        ) matches Some(q) && spec_apply(q, ActionModel::WaitBuilding(t, d), true) matches Some(n)
            && n.levels[t] <= cap as nat),
{
    if price_candidate(m, atoms, rows, cap, t) {
        let (a, r) = choose|a: int, r: int|
            0 <= a < atoms.len() && #[trigger] atom_hit(m, atoms[a], rows, cap, r) && rows[r].type_id@ == t;
        assert(atom_hit(m, atoms[a], rows, cap, r));
    } else {
        let pred = |b: Seq<char>| m.levels[b] < cap as nat;
        let f = ranked.filter(pred);
        let p = gdp_picks(m, ranked, cap);
        let k = choose|k: int| 0 <= k < p.len() && p[k] == t;
        assert(p[k] == f[k]);
        ranked.lemma_filter_pred(pred, k);
    }
}

/// Version of the planning simulator.
pub fn version() -> (s: &'static str)
    ensures
        s@ == "0.1.0"@,
{
    "0.1.0"
}

} // verus!
