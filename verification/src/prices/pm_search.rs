//! The greedy production-method search as a state machine.
//!
//! The search walks the player's building types in type order. For each
//! type it first tries to unify every building on the methods of its
//! longest-configured building, then sweeps slot by slot over the type's
//! candidate methods, restarting the sweep after every accepted swap. Each
//! trial is a preview solve that only the caller can run: [`step`] hands
//! out the trial delta and takes back whether the trial improved the score.

use vstd::prelude::*;
use crate::prices::optimize::{
    candidate_pms, copy_names, entries_view, names_eq, trial_delta, trial_fold, used_by_type, PmBuilding,
    MAX_PM_TRIALS,
};
use crate::prices::result::{ProductionMethodDelta, WorldDelta};
use crate::sim::names;
use crate::text::{insert_unique, strictly_sorted, views};
use std::collections::BTreeSet;

verus! {

/// The player's buildings of one type and that type's candidate methods.
#[derive(Debug, Clone, PartialEq, Eq)]
pub struct TypeGroup {
    pub building_type: String,
    pub buildings: Vec<PmBuilding>,
    pub candidates: Vec<String>,
}

/// Where the search stands within the current type group.
#[derive(Debug, Clone, Copy, PartialEq, Eq, Structural)]
pub enum SearchPhase {
    /// About to start the current group.
    Enter,
    /// Waiting for the verdict on the unify trial.
    AwaitUnify,
    /// Sweeping `(slot, cand)` pairs.
    Scan,
    /// Waiting for the verdict on the slot trial at `(slot, cand)`.
    AwaitSlot,
    /// Finished.
    Done,
}

/// Search state: the accepted production-method entries, trials spent,
/// the current group, its working methods and the sweep position.
#[derive(Debug)]
pub struct SearchState {
    pub accepted: Vec<ProductionMethodDelta>,
    pub trials: u32,
    pub group: usize,
    pub current: Vec<String>,
    pub slot: usize,
    pub cand: usize,
    pub phase: SearchPhase,
}

/// Mathematical view of a [`SearchState`].
#[verifier::ext_equal]
pub struct SearchModel {
    pub accepted: Seq<(u32, Seq<Seq<char>>)>,
    pub trials: int,
    pub group: int,
    pub current: Seq<Seq<char>>,
    pub slot: int,
    pub cand: int,
    pub phase: SearchPhase,
}

impl View for SearchState {
    type V = SearchModel;

    open spec fn view(&self) -> SearchModel {
        SearchModel {
            accepted: entries_view(self.accepted@),
            trials: self.trials as int,
            group: self.group as int,
            current: names(self.current@),
            slot: self.slot as int,
            cand: self.cand as int,
            phase: self.phase,
        }
    }
}

/// What the caller does next.
#[derive(Debug)]
pub enum SearchAction {
    /// Call [`step`] again.
    Continue,
    /// Run a preview with this delta and report whether it improved the score.
    Trial(WorldDelta),
    /// The search is over; the accepted entries are final.
    Finished,
}

/// Mathematical view of a [`SearchAction`]: a trial by its entries.
#[verifier::ext_equal]
pub enum ActionModel {
    Continue,
    Trial(Seq<(u32, Seq<Seq<char>>)>),
    Finished,
}

pub open spec fn action_view(a: SearchAction) -> ActionModel {
    match a {
        SearchAction::Continue => ActionModel::Continue,
        SearchAction::Trial(d) => ActionModel::Trial(entries_view(d.production_methods@)),
        SearchAction::Finished => ActionModel::Finished,
    }
}

/// Whether building `a` is picked over `b` as the group's reference: more
/// methods, or as many and an id no larger (later buildings win ties).
pub open spec fn picked_over(a: PmBuilding, b: PmBuilding) -> bool {
    a.production_methods@.len() > b.production_methods@.len()
        || (a.production_methods@.len() == b.production_methods@.len() && a.id <= b.id)
}

/// The group's reference building: most methods, then lowest id.
pub open spec fn pick_building(bs: Seq<PmBuilding>) -> Option<PmBuilding>
    decreases bs.len(),
{
    if bs.len() == 0 {
        None
    } else {
        match pick_building(bs.drop_last()) {
            None => Some(bs.last()),
            Some(best) => if picked_over(bs.last(), best) {
                Some(bs.last())
            } else {
                Some(best)
            },
        }
    }
}

/// Methods of the reference building (empty for an empty group).
pub open spec fn pick_methods(bs: Seq<PmBuilding>) -> Seq<Seq<char>> {
    match pick_building(bs) {
        Some(b) => names(b.production_methods@),
        None => Seq::empty(),
    }
}

/// The group's reference building is one with the most production
/// methods, and among those the one with the lowest id: it belongs to the
/// group, no building of the group runs more methods, and any building
/// running as many has an id no lower. Its methods are the reference
/// methods, as long as the longest list in the group (none for an empty
/// group).
pub proof fn law_reference_is_longest(bs: Seq<PmBuilding>)
    ensures
        bs.len() == 0 ==> pick_building(bs) is None && pick_methods(bs).len() == 0,
        bs.len() > 0 ==> (pick_building(bs) matches Some(b) && (exists|i: int| 0 <= i < bs.len() && #[trigger] bs[i] == b)
            && forall|j: int| 0 <= j < bs.len() ==> (#[trigger] bs[j]).production_methods@.len() < b.production_methods@.len()
                || (bs[j].production_methods@.len() == b.production_methods@.len() && b.id <= bs[j].id)),
        bs.len() > 0 ==> (exists|i: int| 0 <= i < bs.len() && pick_methods(bs) == names((#[trigger] bs[i]).production_methods@))
            && forall|j: int| 0 <= j < bs.len() ==> (#[trigger] bs[j]).production_methods@.len() <= pick_methods(bs).len(),
    decreases bs.len(),
{
    if bs.len() > 0 {
        let pre = bs.drop_last();
        law_reference_is_longest(pre);
        let b = pick_building(bs)->0;
        if pre.len() > 0 {
            let best = pick_building(pre)->0;
            let i0 = choose|i: int| 0 <= i < pre.len() && #[trigger] pre[i] == best;
            assert(bs[i0] == best);
            assert forall|j: int| 0 <= j < bs.len() implies (#[trigger] bs[j]).production_methods@.len() < b.production_methods@.len()
                || (bs[j].production_methods@.len() == b.production_methods@.len() && b.id <= bs[j].id) by {
                if j < pre.len() {
                    assert(bs[j] == pre[j]);
                }
            }
            if b == bs.last() {
                assert(bs[bs.len() - 1] == b);
            }
        } else {
            assert(bs[0] == b);
        }
        let i = choose|i: int| 0 <= i < bs.len() && #[trigger] bs[i] == b;
        assert(pick_methods(bs) == names(bs[i].production_methods@));
        assert forall|j: int| 0 <= j < bs.len() implies (#[trigger] bs[j]).production_methods@.len() <= pick_methods(bs).len() by {
            assert(names(b.production_methods@).len() == b.production_methods@.len());
        }
    }
}

/// Whether some building of the group runs other methods than `cur`.
pub open spec fn needs_unify(bs: Seq<PmBuilding>, cur: Seq<Seq<char>>) -> bool {
    exists|i: int| 0 <= i < bs.len() && names(#[trigger] bs[i].production_methods@) != cur
}

/// The search before its first step.
pub open spec fn start_model() -> SearchModel {
    SearchModel {
        accepted: Seq::empty(),
        trials: 0,
        group: 0,
        current: Seq::empty(),
        slot: 0,
        cand: 0,
        phase: SearchPhase::Enter,
    }
}

pub open spec fn next_group(s: SearchModel) -> SearchModel {
    SearchModel { group: s.group + 1, phase: SearchPhase::Enter, ..s }
}

pub open spec fn scan_at(s: SearchModel, slot: int, cand: int) -> SearchModel {
    SearchModel { slot, cand, phase: SearchPhase::Scan, ..s }
}

/// A new sweep from the first slot while trials remain, else the next group.
pub open spec fn begin_sweep(s: SearchModel) -> SearchModel {
    if s.trials < MAX_PM_TRIALS {
        scan_at(s, 0, 0)
    } else {
        next_group(s)
    }
}

pub open spec fn finished(s: SearchModel) -> (SearchModel, ActionModel) {
    (SearchModel { phase: SearchPhase::Done, ..s }, ActionModel::Finished)
}

/// The methods tried at `(slot, cand)`: `current` with that slot replaced.
pub open spec fn slot_methods(s: SearchModel, cands: Seq<Seq<char>>) -> Seq<Seq<char>> {
    s.current.update(s.slot, cands[s.cand])
}

/// Whether the current group, sweep slot and candidate index are in range.
pub open spec fn at_group(groups: Seq<TypeGroup>, s: SearchModel) -> bool {
    0 <= s.group < groups.len()
}

pub open spec fn at_pair(groups: Seq<TypeGroup>, s: SearchModel) -> bool {
    at_group(groups, s) && 0 <= s.slot < s.current.len() && 0 <= s.cand < groups[s.group].candidates@.len()
}

pub open spec fn step_enter(groups: Seq<TypeGroup>, s: SearchModel) -> (SearchModel, ActionModel) {
    if !at_group(groups, s) || s.trials >= MAX_PM_TRIALS {
        finished(s)
    } else {
        let g = groups[s.group];
        let bs = g.buildings@;
        let cur = pick_methods(bs);
        if g.candidates@.len() == 0 || cur.len() == 0 {
            (next_group(s), ActionModel::Continue)
        } else {
            let s1 = SearchModel { current: cur, ..s };
            let (d, changed) = trial_fold(s.accepted, bs, cur);
            if needs_unify(bs, cur) && changed {
                (SearchModel { trials: s.trials + 1, phase: SearchPhase::AwaitUnify, ..s1 }, ActionModel::Trial(d))
            } else {
                (begin_sweep(s1), ActionModel::Continue)
            }
        }
    }
}

pub open spec fn step_await_unify(groups: Seq<TypeGroup>, s: SearchModel, improved: bool) -> (SearchModel, ActionModel) {
    if !at_group(groups, s) {
        finished(s)
    } else {
        let d = trial_fold(s.accepted, groups[s.group].buildings@, s.current).0;
        let s1 = if improved { SearchModel { accepted: d, ..s } } else { s };
        (begin_sweep(s1), ActionModel::Continue)
    }
}

pub open spec fn step_scan(groups: Seq<TypeGroup>, s: SearchModel) -> (SearchModel, ActionModel) {
    if !at_group(groups, s) || s.slot < 0 || s.cand < 0 {
        finished(s)
    } else {
        let g = groups[s.group];
        let cands = views(g.candidates@);
        if s.slot >= s.current.len() {
            (next_group(s), ActionModel::Continue)
        } else if s.cand >= cands.len() {
            (scan_at(s, s.slot + 1, 0), ActionModel::Continue)
        } else if s.current[s.slot] == cands[s.cand] {
            (scan_at(s, s.slot, s.cand + 1), ActionModel::Continue)
        } else if s.trials >= MAX_PM_TRIALS {
            (next_group(s), ActionModel::Continue)
        } else {
            let (d, changed) = trial_fold(s.accepted, g.buildings@, slot_methods(s, cands));
            if changed {
                (SearchModel { trials: s.trials + 1, phase: SearchPhase::AwaitSlot, ..s }, ActionModel::Trial(d))
            } else {
                (scan_at(s, s.slot, s.cand + 1), ActionModel::Continue)
            }
        }
    }
}

pub open spec fn step_await_slot(groups: Seq<TypeGroup>, s: SearchModel, improved: bool) -> (SearchModel, ActionModel) {
    if !at_pair(groups, s) {
        finished(s)
    } else {
        let g = groups[s.group];
        let m = slot_methods(s, views(g.candidates@));
        if improved {
            let d = trial_fold(s.accepted, g.buildings@, m).0;
            (begin_sweep(SearchModel { accepted: d, current: m, ..s }), ActionModel::Continue)
        } else if s.trials >= MAX_PM_TRIALS {
            (next_group(s), ActionModel::Continue)
        } else {
            (scan_at(s, s.slot, s.cand + 1), ActionModel::Continue)
        }
    }
}

/// One transition of the search. `improved` is the verdict on the trial
/// handed out by the previous step; it is read only while a trial is
/// pending (phases `AwaitUnify` and `AwaitSlot`).
pub open spec fn spec_step(groups: Seq<TypeGroup>, s: SearchModel, improved: bool) -> (SearchModel, ActionModel) {
    match s.phase {
        SearchPhase::Enter => step_enter(groups, s),
        SearchPhase::AwaitUnify => step_await_unify(groups, s, improved),
        SearchPhase::Scan => step_scan(groups, s),
        SearchPhase::AwaitSlot => step_await_slot(groups, s, improved),
        SearchPhase::Done => (s, ActionModel::Finished),
    }
}

/// The search before its first step: nothing accepted, no trial spent,
/// entering the first group.
pub fn start() -> (s: SearchState)
    ensures
        s@ == start_model(),
{
    let s = SearchState {
        accepted: Vec::new(),
        trials: 0,
        group: 0,
        current: Vec::new(),
        slot: 0,
        cand: 0,
        phase: SearchPhase::Enter,
    };
    assert(s@ =~= start_model());
    s
}

fn pick_methods_exec(bs: &Vec<PmBuilding>) -> (m: Vec<String>)
    ensures
        names(m@) == pick_methods(bs@),
{
    let mut best: usize = 0;
    let mut i: usize = 0;
    while i < bs.len()
        invariant
            i <= bs@.len(),
            i == 0 ==> pick_building(bs@.subrange(0, i as int)) is None,
            i > 0 ==> best < i && pick_building(bs@.subrange(0, i as int)) == Some(bs@[best as int]),
        decreases bs@.len() - i,
    {
        let ghost pre = bs@.subrange(0, i as int);
        assert(bs@.subrange(0, i + 1).drop_last() =~= pre);
        assert(bs@.subrange(0, i + 1).last() == bs@[i as int]);
        if i == 0 {
            best = 0;
        } else {
            let a = &bs[i];
            let b = &bs[best];
            let over = a.production_methods.len() > b.production_methods.len()
                || (a.production_methods.len() == b.production_methods.len() && a.id <= b.id);
            if over {
                best = i;
            }
        }
        i = i + 1;
    }
    assert(bs@.subrange(0, bs@.len() as int) =~= bs@);
    if bs.len() == 0 {
        let m: Vec<String> = Vec::new();
        assert(names(m@) =~= Seq::<Seq<char>>::empty());
        m
    } else {
        copy_names(&bs[best].production_methods)
    }
}

fn needs_unify_exec(bs: &Vec<PmBuilding>, cur: &Vec<String>) -> (b: bool)
    ensures
        b == needs_unify(bs@, names(cur@)),
{
    let mut i: usize = 0;
    while i < bs.len()
        invariant
            i <= bs@.len(),
            forall|k: int| 0 <= k < i ==> names(#[trigger] bs@[k].production_methods@) == names(cur@),
        decreases bs@.len() - i,
    {
        if !names_eq(&bs[i].production_methods, cur) {
            return true;
        }
        i = i + 1;
    }
    false
}

fn copy_entries(e: &Vec<ProductionMethodDelta>) -> (r: Vec<ProductionMethodDelta>)
    ensures
        entries_view(r@) == entries_view(e@),
{
    let mut r: Vec<ProductionMethodDelta> = Vec::new();
    let mut i: usize = 0;
    while i < e.len()
        invariant
            i <= e@.len(),
            entries_view(r@) == entries_view(e@.subrange(0, i as int)),
        decreases e@.len() - i,
    {
        r.push(ProductionMethodDelta { building_id: e[i].building_id, methods: copy_names(&e[i].methods) });
        assert(entries_view(e@.subrange(0, i + 1)) =~= entries_view(e@.subrange(0, i as int)).push(entries_view(e@)[i as int]));
        assert(entries_view(r@) =~= entries_view(e@.subrange(0, i + 1)));
        i = i + 1;
    }
    assert(e@.subrange(0, e@.len() as int) =~= e@);
    r
}

fn trial_of(accepted: &Vec<ProductionMethodDelta>, bs: &Vec<PmBuilding>, m: &Vec<String>) -> (r: (WorldDelta, bool))
    ensures
        entries_view(r.0.production_methods@) == trial_fold(entries_view(accepted@), bs@, names(m@)).0,
        r.1 == trial_fold(entries_view(accepted@), bs@, names(m@)).1,
        r.0.extra_levels@.len() == 0,
        r.0.subsidize@.len() == 0,
{
    let d = WorldDelta { production_methods: copy_entries(accepted), extra_levels: Vec::new(), subsidize: Vec::new() };
    trial_delta(d, bs, m)
}

fn slot_methods_exec(cur: &Vec<String>, slot: usize, c: &String) -> (r: Vec<String>)
    requires
        slot < cur@.len(),
    ensures
        names(r@) == names(cur@).update(slot as int, c@),
{
    let mut r: Vec<String> = Vec::new();
    let mut k: usize = 0;
    while k < cur.len()
        invariant
            k <= cur@.len(),
            slot < cur@.len(),
            names(r@) == names(cur@).update(slot as int, c@).subrange(0, k as int),
        decreases cur@.len() - k,
    {
        let ghost before = r@;
        if k == slot {
            r.push(c.clone());
            assert(r@.last()@ == c@);
        } else {
            r.push(cur[k].clone());
            assert(r@.last()@ == cur@[k as int]@);
        }
        assert(r@ == before.push(r@.last()));
        assert(names(r@) =~= names(before).push(r@.last()@));
        assert(names(r@) =~= names(cur@).update(slot as int, c@).subrange(0, k + 1));
        k = k + 1;
    }
    assert(names(cur@).update(slot as int, c@).subrange(0, cur@.len() as int) =~= names(cur@).update(slot as int, c@));
    r
}

fn next_group_exec(s: SearchState) -> (r: SearchState)
    requires
        s.group < usize::MAX,
    ensures
        r@ == next_group(s@),
{
    let r = SearchState { group: s.group + 1, phase: SearchPhase::Enter, ..s };
    assert(r@ =~= next_group(s@));
    r
}

fn scan_at_exec(s: SearchState, slot: usize, cand: usize) -> (r: SearchState)
    ensures
        r@ == scan_at(s@, slot as int, cand as int),
{
    let r = SearchState { slot, cand, phase: SearchPhase::Scan, ..s };
    assert(r@ =~= scan_at(s@, slot as int, cand as int));
    r
}

fn begin_sweep_exec(s: SearchState) -> (r: SearchState)
    requires
        s.group < usize::MAX,
    ensures
        r@ == begin_sweep(s@),
{
    if s.trials < MAX_PM_TRIALS {
        scan_at_exec(s, 0, 0)
    } else {
        next_group_exec(s)
    }
}

fn done_exec(s: SearchState) -> (r: (SearchState, SearchAction))
    ensures
        (r.0@, action_view(r.1)) == finished(s@),
{
    let r = SearchState { phase: SearchPhase::Done, ..s };
    assert(r@ =~= finished(s@).0);
    (r, SearchAction::Finished)
}

/// One transition of the search (see [`spec_step`]): the next state and
/// what the caller does next. A trial delta touches only production
/// methods.
pub fn step(groups: &Vec<TypeGroup>, st: SearchState, improved: bool) -> (r: (SearchState, SearchAction))
    ensures
        (r.0@, action_view(r.1)) == spec_step(groups@, st@, improved),
        r.1 matches SearchAction::Trial(d) ==> d.extra_levels@.len() == 0 && d.subsidize@.len() == 0,
{
    match st.phase {
        SearchPhase::Enter => {
            if st.group >= groups.len() || st.trials >= MAX_PM_TRIALS {
                return done_exec(st);
            }
            let g = &groups[st.group];
            let cur = pick_methods_exec(&g.buildings);
            if g.candidates.len() == 0 || cur.len() == 0 {
                return (next_group_exec(st), SearchAction::Continue);
            }
            let ghost s1 = SearchModel { current: names(cur@), ..st@ };
            if needs_unify_exec(&g.buildings, &cur) {
                let (d, changed) = trial_of(&st.accepted, &g.buildings, &cur);
                if changed {
                    let r = SearchState { trials: st.trials + 1, phase: SearchPhase::AwaitUnify, current: cur, ..st };
                    assert(r@ =~= SearchModel { trials: s1.trials + 1, phase: SearchPhase::AwaitUnify, ..s1 });
                    return (r, SearchAction::Trial(d));
                }
            }
            let r1 = SearchState { current: cur, ..st };
            assert(r1@ =~= s1);
            (begin_sweep_exec(r1), SearchAction::Continue)
        },
        SearchPhase::AwaitUnify => {
            if st.group >= groups.len() {
                return done_exec(st);
            }
            let g = &groups[st.group];
            if improved {
                let (d, _changed) = trial_of(&st.accepted, &g.buildings, &st.current);
                let ghost want = SearchModel { accepted: entries_view(d.production_methods@), ..st@ };
                let r1 = SearchState { accepted: d.production_methods, ..st };
                assert(r1@ =~= want);
                (begin_sweep_exec(r1), SearchAction::Continue)
            } else {
                (begin_sweep_exec(st), SearchAction::Continue)
            }
        },
        SearchPhase::Scan => {
            if st.group >= groups.len() {
                return done_exec(st);
            }
            let g = &groups[st.group];
            let ghost cands = views(g.candidates@);
            if st.slot >= st.current.len() {
                return (next_group_exec(st), SearchAction::Continue);
            }
            if st.cand >= g.candidates.len() {
                let slot = st.slot + 1;
                return (scan_at_exec(st, slot, 0), SearchAction::Continue);
            }
            assert(cands[st.cand as int] == g.candidates@[st.cand as int]@);
            assert(names(st.current@)[st.slot as int] == st.current@[st.slot as int]@);
            if crate::text::str_eq(st.current[st.slot].as_str(), g.candidates[st.cand].as_str()) {
                let (slot, cand) = (st.slot, st.cand + 1);
                return (scan_at_exec(st, slot, cand), SearchAction::Continue);
            }
            if st.trials >= MAX_PM_TRIALS {
                return (next_group_exec(st), SearchAction::Continue);
            }
            let m = slot_methods_exec(&st.current, st.slot, &g.candidates[st.cand]);
            let (d, changed) = trial_of(&st.accepted, &g.buildings, &m);
            if changed {
                let r = SearchState { trials: st.trials + 1, phase: SearchPhase::AwaitSlot, ..st };
                assert(r@ =~= SearchModel { trials: st@.trials + 1, phase: SearchPhase::AwaitSlot, ..st@ });
                (r, SearchAction::Trial(d))
            } else {
                let (slot, cand) = (st.slot, st.cand + 1);
                (scan_at_exec(st, slot, cand), SearchAction::Continue)
            }
        },
        SearchPhase::AwaitSlot => {
            if st.group >= groups.len() {
                return done_exec(st);
            }
            let g = &groups[st.group];
            if st.slot >= st.current.len() || st.cand >= g.candidates.len() {
                return done_exec(st);
            }
            let m = slot_methods_exec(&st.current, st.slot, &g.candidates[st.cand]);
            assert(views(g.candidates@)[st.cand as int] == g.candidates@[st.cand as int]@);
            if improved {
                let (d, _changed) = trial_of(&st.accepted, &g.buildings, &m);
                let ghost want = SearchModel { accepted: entries_view(d.production_methods@), current: names(m@), ..st@ };
                let r1 = SearchState { accepted: d.production_methods, current: m, ..st };
                assert(r1@ =~= want);
                (begin_sweep_exec(r1), SearchAction::Continue)
            } else if st.trials >= MAX_PM_TRIALS {
                (next_group_exec(st), SearchAction::Continue)
            } else {
                let (slot, cand) = (st.slot, st.cand + 1);
                (scan_at_exec(st, slot, cand), SearchAction::Continue)
            }
        },
        SearchPhase::Done => (st, SearchAction::Finished),
    }
}

/// The trial budget holds: a step hands out a trial exactly when it spends
/// one, and the count never exceeds `MAX_PM_TRIALS`.
pub proof fn law_trial_budget(groups: Seq<TypeGroup>, s: SearchModel, improved: bool)
    requires
        0 <= s.trials <= MAX_PM_TRIALS,
    ensures
        0 <= spec_step(groups, s, improved).0.trials <= MAX_PM_TRIALS,
        spec_step(groups, s, improved).1 is Trial ==> spec_step(groups, s, improved).0.trials == s.trials + 1,
        !(spec_step(groups, s, improved).1 is Trial) ==> spec_step(groups, s, improved).0.trials == s.trials,
{
}

/// The verdict on a trial decides it: after a step hands out a trial, the
/// next step accepts exactly that trial when it improved the score and
/// keeps the accepted entries otherwise.
pub proof fn law_verdict_decides(groups: Seq<TypeGroup>, s: SearchModel, ignored: bool)
    ensures
        spec_step(groups, s, ignored).1 matches ActionModel::Trial(d) ==> {
            let t = spec_step(groups, s, ignored).0;
            &&& spec_step(groups, t, true).0.accepted == d
            &&& spec_step(groups, t, false).0.accepted == s.accepted
        },
{
}

/// Rank of a phase in the progress order: entering a group comes before
/// its pending trials, which come before its sweep.
pub open spec fn phase_rank(p: SearchPhase) -> int {
    match p {
        SearchPhase::Enter => 3,
        SearchPhase::AwaitUnify => 2,
        SearchPhase::AwaitSlot => 2,
        SearchPhase::Scan => 1,
        SearchPhase::Done => 0,
    }
}

/// Candidates of the current group (none outside the group range).
pub open spec fn cand_count(groups: Seq<TypeGroup>, s: SearchModel) -> int {
    if at_group(groups, s) { groups[s.group].candidates@.len() as int } else { 0 }
}

/// States the search can be in: the trial count within budget, the group
/// within range, and a sweep position within its slot and candidate lists.
pub open spec fn search_wf(groups: Seq<TypeGroup>, s: SearchModel) -> bool {
    &&& 0 <= s.trials <= MAX_PM_TRIALS
    &&& 0 <= s.group <= groups.len()
    &&& (s.phase == SearchPhase::Scan || s.phase == SearchPhase::AwaitUnify || s.phase == SearchPhase::AwaitSlot)
        ==> s.group < groups.len()
    &&& s.phase == SearchPhase::Scan ==> 0 <= s.slot <= s.current.len() && 0 <= s.cand <= cand_count(groups, s)
    &&& s.phase == SearchPhase::AwaitSlot ==> 0 <= s.slot < s.current.len() && 0 <= s.cand < cand_count(groups, s)
}

/// `a` is strictly further than `b`: fewer trials left, else fewer groups
/// left, else a lower phase, else (while sweeping the same methods) fewer
/// slots, then fewer candidates left.
pub open spec fn further(groups: Seq<TypeGroup>, a: SearchModel, b: SearchModel) -> bool {
    if a.trials != b.trials {
        a.trials > b.trials
    } else if a.group != b.group {
        a.group > b.group
    } else if phase_rank(a.phase) != phase_rank(b.phase) {
        phase_rank(a.phase) < phase_rank(b.phase)
    } else if a.phase == SearchPhase::Scan && a.current == b.current && a.slot != b.slot {
        a.slot > b.slot
    } else {
        a.phase == SearchPhase::Scan && a.current == b.current && a.slot == b.slot && a.cand > b.cand
    }
}

/// The search always finishes: from a well-formed unfinished state, a step
/// stays well-formed and either finishes or moves strictly further in an
/// order that is bounded by the trial budget, the number of groups, the
/// phases, and the slot and candidate counts.
pub proof fn law_search_progress(groups: Seq<TypeGroup>, s: SearchModel, improved: bool)
    requires
        search_wf(groups, s),
        s.phase != SearchPhase::Done,
    ensures
        search_wf(groups, spec_step(groups, s, improved).0),
        spec_step(groups, s, improved).0.phase == SearchPhase::Done
            || further(groups, spec_step(groups, s, improved).0, s),
{
}

/// The types of a list of groups, in order.
pub open spec fn group_types(groups: Seq<TypeGroup>) -> Seq<Seq<char>> {
    groups.map_values(|g: TypeGroup| g.building_type@)
}

/// Abstract view of a building: id, state, type and methods.
pub open spec fn pmb_view(b: PmBuilding) -> (u32, Option<u32>, Seq<char>, Seq<Seq<char>>) {
    (b.id, b.state, b.building_type@, names(b.production_methods@))
}

/// Views of the player's buildings of type `t` among the first `n` of
/// `bs`, in order.
pub open spec fn members(bs: Seq<PmBuilding>, n: int, ids: Set<u32>, t: Seq<char>) -> Seq<(u32, Option<u32>, Seq<char>, Seq<Seq<char>>)>
    decreases n,
{
    if n <= 0 {
        Seq::empty()
    } else {
        let prev = members(bs, n - 1, ids, t);
        if ids.contains(bs[n - 1].id) && bs[n - 1].building_type@ == t {
            prev.push(pmb_view(bs[n - 1]))
        } else {
            prev
        }
    }
}

fn copy_building(b: &PmBuilding) -> (r: PmBuilding)
    ensures
        pmb_view(r) == pmb_view(*b),
{
    PmBuilding {
        id: b.id,
        state: b.state,
        building_type: b.building_type.clone(),
        production_methods: copy_names(&b.production_methods),
    }
}

fn group_members(buildings: &Vec<PmBuilding>, player_ids: &BTreeSet<u32>, t: &String) -> (r: Vec<PmBuilding>)
    ensures
        r@.map_values(|b: PmBuilding| pmb_view(b)) == members(buildings@, buildings@.len() as int, player_ids@, t@),
{
    let mut r: Vec<PmBuilding> = Vec::new();
    let mut i: usize = 0;
    while i < buildings.len()
        invariant
            i <= buildings@.len(),
            r@.map_values(|b: PmBuilding| pmb_view(b)) == members(buildings@, i as int, player_ids@, t@),
        decreases buildings@.len() - i,
    {
        let b = &buildings[i];
        if player_ids.contains(&b.id) && crate::text::str_eq(b.building_type.as_str(), t.as_str()) {
            let c = copy_building(b);
            let ghost before = r@;
            r.push(c);
            assert(r@.map_values(|b: PmBuilding| pmb_view(b)) =~= before.map_values(|b: PmBuilding| pmb_view(b)).push(pmb_view(*b)));
        }
        i = i + 1;
    }
    r
}

/// The search's groups: one per building type among the player's
/// buildings, in type order; each holds the player's buildings of that type
/// in snapshot order and the type's candidate methods over all buildings.
pub fn search_groups(buildings: &Vec<PmBuilding>, player_ids: &BTreeSet<u32>) -> (groups: Vec<TypeGroup>)
    ensures
        strictly_sorted(group_types(groups@)),
        forall|t: Seq<char>| #[trigger] group_types(groups@).contains(t)
            <==> exists|i: int| 0 <= i < buildings@.len() && player_ids@.contains(buildings@[i].id)
                && #[trigger] buildings@[i].building_type@ == t,
        forall|k: int| 0 <= k < groups@.len() ==> (#[trigger] groups@[k]).buildings@.map_values(|b: PmBuilding| pmb_view(b))
            == members(buildings@, buildings@.len() as int, player_ids@, groups@[k].building_type@),
        forall|k: int| 0 <= k < groups@.len() ==> strictly_sorted(views((#[trigger] groups@[k]).candidates@)),
        forall|k: int, m: Seq<char>| 0 <= k < groups@.len() ==> (#[trigger] views(groups@[k].candidates@).contains(m)
            <==> used_by_type(buildings@, groups@[k].building_type@, m)),
{
    let mut types: Vec<String> = Vec::new();
    let mut i: usize = 0;
    while i < buildings.len()
        invariant
            i <= buildings@.len(),
            strictly_sorted(views(types@)),
            forall|t: Seq<char>| #[trigger] views(types@).contains(t) <==> exists|j: int| 0 <= j < i
                && player_ids@.contains(buildings@[j].id) && #[trigger] buildings@[j].building_type@ == t,
        decreases buildings@.len() - i,
    {
        let ghost before = views(types@);
        if player_ids.contains(&buildings[i].id) {
            insert_unique(&mut types, buildings[i].building_type.clone());
        }
        proof {
            assert forall|t: Seq<char>| #[trigger] views(types@).contains(t) <==> exists|j: int| 0 <= j < i + 1
                && player_ids@.contains(buildings@[j].id) && #[trigger] buildings@[j].building_type@ == t by {
                if exists|j: int| 0 <= j < i + 1 && player_ids@.contains(buildings@[j].id) && #[trigger] buildings@[j].building_type@ == t {
                    let j = choose|j: int| 0 <= j < i + 1 && player_ids@.contains(buildings@[j].id) && #[trigger] buildings@[j].building_type@ == t;
                    if j < i {
                        assert(before.contains(t));
                    }
                }
            }
        }
        i = i + 1;
    }
    let mut groups: Vec<TypeGroup> = Vec::new();
    let mut k: usize = 0;
    while k < types.len()
        invariant
            k <= types@.len(),
            groups@.len() == k,
            forall|q: int| 0 <= q < k ==> (#[trigger] groups@[q]).building_type@ == types@[q]@,
            forall|q: int| 0 <= q < k ==> (#[trigger] groups@[q]).buildings@.map_values(|b: PmBuilding| pmb_view(b))
                == members(buildings@, buildings@.len() as int, player_ids@, groups@[q].building_type@),
            forall|q: int| 0 <= q < k ==> strictly_sorted(views((#[trigger] groups@[q]).candidates@)),
            forall|q: int, m: Seq<char>| 0 <= q < k ==> (#[trigger] views(groups@[q].candidates@).contains(m)
                <==> used_by_type(buildings@, groups@[q].building_type@, m)),
        decreases types@.len() - k,
    {
        let t = &types[k];
        let g = TypeGroup {
            building_type: t.clone(),
            buildings: group_members(buildings, player_ids, t),
            candidates: candidate_pms(buildings, t.as_str()),
        };
        groups.push(g);
        k = k + 1;
    }
    proof {
        assert(group_types(groups@) =~= views(types@));
    }
    groups
}

} // verus!
