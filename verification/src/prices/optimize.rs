//! Production-method search over player buildings: option types, scope
//! rules, trial deltas, and the reported change list.

use vstd::prelude::*;
use std::collections::BTreeSet;
use crate::prices::result::{ProductionMethodDelta, WorldDelta};
use crate::sim::names;
use crate::text::{insert_unique, strictly_sorted, views};
use crate::text::{lex_order, lemma_lex_eq, lemma_lex_antisym, lemma_lex_trans, str_order};

verus! {

broadcast use vstd::std_specs::btree::group_btree_axioms;

/// Trial budget of one search (each trial is one preview solve).
pub const MAX_PM_TRIALS: u32 = 40;

/// Objective of the production-method search.
#[derive(Debug, Clone, Copy, PartialEq, Eq, Hash)]
pub enum OptimizeAxis {
    Income,
    Productivity,
    Sol,
}

/// Request body of a production-method search.
#[derive(Debug, Clone, PartialEq, Eq)]
pub struct OptimizePmsOpts {
    pub axis: OptimizeAxis,
}

/// One suggested production-method swap on a building instance.
#[derive(Debug, Clone, PartialEq, Eq)]
pub struct OptimizeChange {
    pub building_type: String,
    pub building_id: u32,
    pub from: Vec<String>,
    pub to: Vec<String>,
}

/// Whether a pop in `state_id` counts for the player (`None` = whole save).
pub fn pop_in_scope(state_id: u32, player_states: Option<&BTreeSet<u32>>) -> (b: bool)
    ensures
        b == (match player_states {
            None => true,
            Some(states) => states@.contains(state_id),
        }),
{
    match player_states {
        None => true,
        Some(states) => states.contains(&state_id),
    }
}


/// The parts of a snapshot building that the search reads.
#[derive(Debug, Clone, PartialEq, Eq)]
pub struct PmBuilding {
    pub id: u32,
    pub state: Option<u32>,
    pub building_type: String,
    pub production_methods: Vec<String>,
}

/// The parts of a country that the search reads.
#[derive(Debug, Clone, PartialEq, Eq)]
pub struct PlayerCountry {
    pub id: u32,
    /// States listed on the country itself.
    pub states: Vec<u32>,
    pub techs: Vec<String>,
}

/// Ids of the buildings that count for the player: every building when
/// there is no player scope, else those in a player state.
pub fn player_building_ids(buildings: &Vec<PmBuilding>, player_states: Option<&BTreeSet<u32>>) -> (ids: BTreeSet<u32>)
    ensures
        forall|id: u32| #[trigger] ids@.contains(id) <==> exists|i: int| 0 <= i < buildings@.len()
            && buildings@[i].id == id && match player_states {
                None => true,
                Some(st) => buildings@[i].state matches Some(s) && st@.contains(s),
            },
{
    let mut ids: BTreeSet<u32> = BTreeSet::new();
    let mut i: usize = 0;
    while i < buildings.len()
        invariant
            i <= buildings@.len(),
            forall|id: u32| #[trigger] ids@.contains(id) <==> exists|k: int| 0 <= k < i
                && buildings@[k].id == id && match player_states {
                    None => true,
                    Some(st) => buildings@[k].state matches Some(s) && st@.contains(s),
                },
        decreases buildings@.len() - i,
    {
        let b = &buildings[i];
        let keep = match player_states {
            None => true,
            Some(st) => match b.state {
                Some(s) => st.contains(&s),
                None => false,
            },
        };
        if keep {
            ids.insert(b.id);
        }
        proof {
            assert forall|id: u32| #[trigger] ids@.contains(id) <==> exists|k: int| 0 <= k < i + 1
                && buildings@[k].id == id && match player_states {
                    None => true,
                    Some(st) => buildings@[k].state matches Some(s) && st@.contains(s),
                } by {
                if ids@.contains(id) && !(keep && id == b.id) {
                    let k = choose|k: int| 0 <= k < i && buildings@[k].id == id && match player_states {
                        None => true,
                        Some(st) => buildings@[k].state matches Some(s) && st@.contains(s),
                    };
                }
            }
        }
        i = i + 1;
    }
    ids
}

/// The player's states: those listed on the player country plus every
/// snapshot state owned by it (`None` when there is no player country).
pub fn player_state_ids(player: Option<&PlayerCountry>, states: &Vec<(u32, Option<u32>)>) -> (ids: Option<BTreeSet<u32>>)
    ensures
        player is None <==> ids is None,
        (match (player, ids) {
            (Some(c), Some(set)) => forall|s: u32| #[trigger] set@.contains(s) <==> (c.states@.contains(s)
                || exists|i: int| 0 <= i < states@.len() && states@[i].0 == s && states@[i].1 == Some(c.id)),
            _ => true,
        }),
{
    let c = match player {
        Some(c) => c,
        None => return None,
    };
    let mut ids: BTreeSet<u32> = BTreeSet::new();
    let mut i: usize = 0;
    while i < c.states.len()
        invariant
            i <= c.states@.len(),
            forall|s: u32| #[trigger] ids@.contains(s) <==> exists|k: int| 0 <= k < i && c.states@[k] == s,
        decreases c.states@.len() - i,
    {
        ids.insert(c.states[i]);
        proof {
            assert forall|s: u32| #[trigger] ids@.contains(s) <==> exists|k: int| 0 <= k < i + 1 && c.states@[k] == s by {
                if ids@.contains(s) && s != c.states@[i as int] {
                    let k = choose|k: int| 0 <= k < i && c.states@[k] == s;
                }
            }
        }
        i = i + 1;
    }
    assert forall|s: u32| #[trigger] ids@.contains(s) <==> c.states@.contains(s) by {
        if c.states@.contains(s) {
            let k = choose|k: int| 0 <= k < c.states@.len() && c.states@[k] == s;
        }
    }
    let mut j: usize = 0;
    while j < states.len()
        invariant
            player == Some(c),
            j <= states@.len(),
            forall|s: u32| #[trigger] ids@.contains(s) <==> (c.states@.contains(s)
                || exists|k: int| 0 <= k < j && states@[k].0 == s && states@[k].1 == Some(c.id)),
        decreases states@.len() - j,
    {
        if states[j].1 == Some(c.id) {
            ids.insert(states[j].0);
        }
        proof {
            assert forall|s: u32| #[trigger] ids@.contains(s) <==> (c.states@.contains(s)
                || exists|k: int| 0 <= k < j + 1 && states@[k].0 == s && states@[k].1 == Some(c.id)) by {
                if ids@.contains(s) && !c.states@.contains(s) && !(states@[j as int].0 == s && states@[j as int].1 == Some(c.id)) {
                    let k = choose|k: int| 0 <= k < j && states@[k].0 == s && states@[k].1 == Some(c.id);
                }
            }
        }
        j = j + 1;
    }
    Some(ids)
}

/// Whether researched techs are known: the player's list when there is a
/// player country, else any country's list.
pub fn techs_present(player: Option<&PlayerCountry>, countries: &Vec<PlayerCountry>) -> (b: bool)
    ensures
        b == (match player {
            Some(c) => c.techs@.len() > 0,
            None => exists|i: int| 0 <= i < countries@.len() && #[trigger] countries@[i].techs@.len() > 0,
        }),
{
    if let Some(c) = player {
        return c.techs.len() > 0;
    }
    let mut i: usize = 0;
    while i < countries.len()
        invariant
            player is None,
            i <= countries@.len(),
            forall|k: int| 0 <= k < i ==> #[trigger] countries@[k].techs@.len() == 0,
        decreases countries@.len() - i,
    {
        if countries[i].techs.len() > 0 {
            return true;
        }
        i = i + 1;
    }
    false
}

/// Appended so callers do not treat the greedy walk as exhaustive.
pub open spec fn pm_search_heuristic() -> Seq<char> {
    "PM search is a greedy one-slot heuristic, not a full combinatorial search."@
}

/// Appended when researched techs are known but tech unlocks are not modeled.
pub open spec fn pm_tech_gating_incomplete() -> Seq<char> {
    "PM tech gating incomplete"@
}

/// Limitations of a search: the baseline solve's list (or the standard
/// solver caveats when it is empty), the heuristic caveat, and the
/// tech-gating caveat when techs are present.
pub fn optimize_limitations(baseline: Vec<String>, techs: bool) -> (v: Vec<String>)
    ensures
        ({
            let base = if baseline@.len() > 0 { baseline@.map_values(|s: String| s@) } else {
                Seq::new(5, |i: int| crate::prices::report::limitation_text(i))
            };
            v@.map_values(|s: String| s@) == if techs {
                base.push(pm_search_heuristic()).push(pm_tech_gating_incomplete())
            } else {
                base.push(pm_search_heuristic())
            }
        }),
{
    let mut v = if baseline.len() > 0 { baseline } else { crate::prices::report::solve_limitations() };
    let ghost base = v@.map_values(|s: String| s@);
    assert(baseline@.len() == 0 ==> base =~= Seq::new(5, |i: int| crate::prices::report::limitation_text(i)));
    v.push(crate::text::owned("PM search is a greedy one-slot heuristic, not a full combinatorial search."));
    assert(v@.map_values(|s: String| s@) =~= base.push(pm_search_heuristic()));
    if techs {
        v.push(crate::text::owned("PM tech gating incomplete"));
        assert(v@.map_values(|s: String| s@) =~= base.push(pm_search_heuristic()).push(pm_tech_gating_incomplete()));
    }
    v
}


/// Abstract view of a production-method delta entry.
pub open spec fn entry_view(e: ProductionMethodDelta) -> (u32, Seq<Seq<char>>) {
    (e.building_id, crate::sim::names(e.methods@))
}

pub open spec fn entries_view(s: Seq<ProductionMethodDelta>) -> Seq<(u32, Seq<Seq<char>>)> {
    s.map_values(|e: ProductionMethodDelta| entry_view(e))
}

/// Methods a building runs under a delta: the first entry for its id, else
/// its own methods.
pub open spec fn current_methods(entries: Seq<(u32, Seq<Seq<char>>)>, b: PmBuilding) -> Seq<Seq<char>>
    decreases entries.len(),
{
    if entries.len() == 0 {
        crate::sim::names(b.production_methods@)
    } else if entries[0].0 == b.id {
        entries[0].1
    } else {
        current_methods(entries.drop_first(), b)
    }
}

/// Sets every building of `bs` (in order) to methods `m`: a building whose
/// current methods differ loses its old entries and gets a new entry at the
/// end. The flag says whether anything changed.
pub open spec fn trial_fold(
    entries: Seq<(u32, Seq<Seq<char>>)>,
    bs: Seq<PmBuilding>,
    m: Seq<Seq<char>>,
) -> (Seq<(u32, Seq<Seq<char>>)>, bool)
    decreases bs.len(),
{
    if bs.len() == 0 {
        (entries, false)
    } else {
        let (e, ch) = trial_fold(entries, bs.drop_last(), m);
        let b = bs.last();
        if current_methods(e, b) == m {
            (e, ch)
        } else {
            (e.filter(|x: (u32, Seq<Seq<char>>)| x.0 != b.id).push((b.id, m)), true)
        }
    }
}

pub(crate) fn copy_names(v: &Vec<String>) -> (r: Vec<String>)
    ensures
        crate::sim::names(r@) == crate::sim::names(v@),
{
    let mut r: Vec<String> = Vec::new();
    let mut i: usize = 0;
    while i < v.len()
        invariant
            i <= v@.len(),
            crate::sim::names(r@) == crate::sim::names(v@.subrange(0, i as int)),
        decreases v@.len() - i,
    {
        let ghost before = r@;
        r.push(v[i].clone());
        assert(r@ == before.push(r@.last()));
        assert(r@.last()@ == v@[i as int]@);
        assert(crate::sim::names(r@) =~= crate::sim::names(before).push(v@[i as int]@));
        assert(crate::sim::names(v@.subrange(0, i + 1)) =~= crate::sim::names(v@.subrange(0, i as int)).push(v@[i as int]@));
        i = i + 1;
    }
    assert(v@.subrange(0, v@.len() as int) =~= v@);
    r
}

pub(crate) fn names_eq(a: &Vec<String>, b: &Vec<String>) -> (r: bool)
    ensures
        r == (crate::sim::names(a@) == crate::sim::names(b@)),
{
    if a.len() != b.len() {
        assert(crate::sim::names(a@).len() != crate::sim::names(b@).len());
        return false;
    }
    let mut i: usize = 0;
    while i < a.len()
        invariant
            a@.len() == b@.len(),
            i <= a@.len(),
            forall|k: int| 0 <= k < i ==> a@[k]@ == b@[k]@,
        decreases a@.len() - i,
    {
        if !crate::text::str_eq(a[i].as_str(), b[i].as_str()) {
            assert(crate::sim::names(a@)[i as int] != crate::sim::names(b@)[i as int]);
            return false;
        }
        i = i + 1;
    }
    assert(crate::sim::names(a@) =~= crate::sim::names(b@));
    true
}

fn current_of<'a>(entries: &'a Vec<ProductionMethodDelta>, b: &'a PmBuilding) -> (r: &'a Vec<String>)
    ensures
        crate::sim::names(r@) == current_methods(entries_view(entries@), *b),
{
    let mut i: usize = 0;
    assert(entries_view(entries@).subrange(0, entries@.len() as int) =~= entries_view(entries@));
    while i < entries.len()
        invariant
            i <= entries@.len(),
            current_methods(entries_view(entries@), *b) == current_methods(
                entries_view(entries@).subrange(i as int, entries@.len() as int),
                *b,
            ),
        decreases entries@.len() - i,
    {
        assert(entries_view(entries@).subrange(i as int, entries@.len() as int).drop_first()
            =~= entries_view(entries@).subrange(i + 1, entries@.len() as int));
        if entries[i].building_id == b.id {
            return &entries[i].methods;
        }
        i = i + 1;
    }
    &b.production_methods
}

fn without_building(entries: &Vec<ProductionMethodDelta>, id: u32) -> (r: Vec<ProductionMethodDelta>)
    ensures
        entries_view(r@) == entries_view(entries@).filter(|x: (u32, Seq<Seq<char>>)| x.0 != id),
{
    let mut r: Vec<ProductionMethodDelta> = Vec::new();
    let mut i: usize = 0;
    while i < entries.len()
        invariant
            i <= entries@.len(),
            entries_view(r@) == entries_view(entries@.subrange(0, i as int)).filter(
                |x: (u32, Seq<Seq<char>>)| x.0 != id,
            ),
        decreases entries@.len() - i,
    {
        let ghost pre = entries_view(entries@.subrange(0, i as int));
        let ghost nxt = entries_view(entries@.subrange(0, i + 1));
        assert(nxt.drop_last() =~= pre);
        if entries[i].building_id != id {
            r.push(ProductionMethodDelta { building_id: entries[i].building_id, methods: copy_names(&entries[i].methods) });
        }
        proof {
            reveal_with_fuel(Seq::<(u32, Seq<Seq<char>>)>::filter, 1);
            assert(entries_view(r@) =~= nxt.filter(|x: (u32, Seq<Seq<char>>)| x.0 != id));
        }
        i = i + 1;
    }
    assert(entries@.subrange(0, entries@.len() as int) =~= entries@);
    r
}

/// The search's trial delta: `delta` with every building of `buildings`
/// set to `methods` (see [`trial_fold`]); the flag says whether anything
/// changed. Extra levels and subsidies are kept.
pub fn trial_delta(delta: WorldDelta, buildings: &Vec<PmBuilding>, methods: &Vec<String>) -> (r: (WorldDelta, bool))
    ensures
        entries_view(r.0.production_methods@) == trial_fold(
            entries_view(delta.production_methods@),
            buildings@,
            crate::sim::names(methods@),
        ).0,
        r.1 == trial_fold(entries_view(delta.production_methods@), buildings@, crate::sim::names(methods@)).1,
        r.0.extra_levels == delta.extra_levels,
        r.0.subsidize == delta.subsidize,
{
    let ghost start = entries_view(delta.production_methods@);
    let ghost m = crate::sim::names(methods@);
    let WorldDelta { production_methods, extra_levels, subsidize } = delta;
    let mut pms = production_methods;
    let mut changed = false;
    let mut i: usize = 0;
    while i < buildings.len()
        invariant
            i <= buildings@.len(),
            m == crate::sim::names(methods@),
            (entries_view(pms@), changed) == trial_fold(start, buildings@.subrange(0, i as int), m),
        decreases buildings@.len() - i,
    {
        assert(buildings@.subrange(0, i + 1).drop_last() =~= buildings@.subrange(0, i as int));
        assert(buildings@.subrange(0, i + 1).last() == buildings@[i as int]);
        let b = &buildings[i];
        let same = names_eq(current_of(&pms, b), methods);
        if !same {
            let mut next = without_building(&pms, b.id);
            next.push(ProductionMethodDelta { building_id: b.id, methods: copy_names(methods) });
            assert(entries_view(next@) =~= entries_view(pms@).filter(|x: (u32, Seq<Seq<char>>)| x.0 != b.id).push((b.id, m)));
            pms = next;
            changed = true;
        }
        i = i + 1;
    }
    assert(buildings@.subrange(0, buildings@.len() as int) =~= buildings@);
    (WorldDelta { production_methods: pms, extra_levels, subsidize }, changed)
}


/// Abstract view of a reported change: type, building id, old and new methods.
pub type ChangeView = (Seq<char>, u32, Seq<Seq<char>>, Seq<Seq<char>>);

pub open spec fn change_view(c: OptimizeChange) -> ChangeView {
    (c.building_type@, c.building_id, names(c.from@), names(c.to@))
}

pub open spec fn changes_view(s: Seq<OptimizeChange>) -> Seq<ChangeView> {
    s.map_values(|c: OptimizeChange| change_view(c))
}

/// The first building of `bs` with id `id`.
pub open spec fn building_with_id(bs: Seq<PmBuilding>, id: u32) -> Option<PmBuilding>
    decreases bs.len(),
{
    if bs.len() == 0 {
        None
    } else if bs[0].id == id {
        Some(bs[0])
    } else {
        building_with_id(bs.drop_first(), id)
    }
}

/// Changes in delta order: one per entry whose building exists and whose
/// methods differ from the building's own.
pub open spec fn raw_changes(entries: Seq<(u32, Seq<Seq<char>>)>, bs: Seq<PmBuilding>) -> Seq<ChangeView>
    decreases entries.len(),
{
    if entries.len() == 0 {
        Seq::empty()
    } else {
        let prev = raw_changes(entries.drop_last(), bs);
        let e = entries.last();
        match building_with_id(bs, e.0) {
            Some(b) => if names(b.production_methods@) == e.1 {
                prev
            } else {
                prev.push((b.building_type@, b.id, names(b.production_methods@), e.1))
            },
            None => prev,
        }
    }
}

/// Report order: by building type, then building id.
pub open spec fn change_le(a: ChangeView, b: ChangeView) -> bool {
    lex_order(a.0, b.0) < 0 || (a.0 == b.0 && a.1 <= b.1)
}

/// Where a stable insertion puts `x` into `s`: after the leading run of
/// entries that order at or before it.
pub open spec fn insert_pos(s: Seq<ChangeView>, x: ChangeView) -> nat
    decreases s.len(),
{
    if s.len() == 0 {
        0
    } else if change_le(s[0], x) {
        1 + insert_pos(s.drop_first(), x)
    } else {
        0
    }
}

/// Stable sort of `s` by [`change_le`].
pub open spec fn sort_changes(s: Seq<ChangeView>) -> Seq<ChangeView>
    decreases s.len(),
{
    if s.len() == 0 {
        s
    } else {
        let r = sort_changes(s.drop_last());
        r.insert(insert_pos(r, s.last()) as int, s.last())
    }
}

pub open spec fn changes_sorted(s: Seq<ChangeView>) -> bool {
    forall|i: int, j: int| 0 <= i < j < s.len() ==> change_le(s[i], s[j])
}

proof fn lemma_change_le_total(a: ChangeView, b: ChangeView)
    ensures
        change_le(a, b) || change_le(b, a),
{
    lemma_lex_antisym(a.0, b.0);
    lemma_lex_eq(a.0, b.0);
}

proof fn lemma_change_le_trans(a: ChangeView, b: ChangeView, c: ChangeView)
    requires
        change_le(a, b),
        change_le(b, c),
    ensures
        change_le(a, c),
{
    lemma_lex_eq(a.0, b.0);
    lemma_lex_eq(b.0, c.0);
    lemma_lex_eq(a.0, c.0);
    lemma_lex_trans(a.0, b.0, c.0);
}

proof fn lemma_insert_pos(s: Seq<ChangeView>, x: ChangeView)
    requires
        changes_sorted(s),
    ensures
        insert_pos(s, x) <= s.len(),
        forall|k: int| 0 <= k < insert_pos(s, x) ==> change_le(#[trigger] s[k], x),
        forall|k: int| insert_pos(s, x) <= k < s.len() ==> !change_le(#[trigger] s[k], x),
    decreases s.len(),
{
    if s.len() > 0 {
        let t = s.drop_first();
        assert(changes_sorted(t)) by {
            assert forall|i: int, j: int| 0 <= i < j < t.len() implies change_le(t[i], t[j]) by {
                assert(t[i] == s[i + 1] && t[j] == s[j + 1]);
            }
        }
        lemma_insert_pos(t, x);
        if change_le(s[0], x) {
            assert forall|k: int| 0 <= k < insert_pos(s, x) implies change_le(#[trigger] s[k], x) by {
                if k > 0 {
                    assert(s[k] == t[k - 1]);
                }
            }
            assert forall|k: int| insert_pos(s, x) <= k < s.len() implies !change_le(#[trigger] s[k], x) by {
                assert(s[k] == t[k - 1]);
            }
        } else {
            assert forall|k: int| insert_pos(s, x) <= k < s.len() implies !change_le(#[trigger] s[k], x) by {
                if k > 0 && change_le(s[k], x) {
                    lemma_change_le_trans(s[0], s[k], x);
                }
            }
        }
    }
}

/// The report order is a sorted rearrangement of the changes found: sorted
/// by building type then id, with the same changes, each as often.
pub proof fn law_changes_sorted(s: Seq<ChangeView>)
    ensures
        changes_sorted(sort_changes(s)),
        sort_changes(s).to_multiset() == s.to_multiset(),
    decreases s.len(),
{
    broadcast use vstd::seq_lib::group_to_multiset_ensures;
    if s.len() > 0 {
        let r = sort_changes(s.drop_last());
        let x = s.last();
        law_changes_sorted(s.drop_last());
        lemma_insert_pos(r, x);
        let p = insert_pos(r, x) as int;
        let out = r.insert(p, x);
        assert forall|i: int, j: int| 0 <= i < j < out.len() implies change_le(out[i], out[j]) by {
            if j < p {
            } else if j == p {
            } else if i < p {
                assert(out[j] == r[j - 1]);
            } else if i == p {
                assert(out[j] == r[j - 1]);
                assert(!change_le(r[j - 1], x));
                lemma_change_le_total(r[j - 1], x);
            } else {
                assert(out[i] == r[i - 1] && out[j] == r[j - 1]);
            }
        }
        vstd::seq_lib::to_multiset_insert(r, p, x);
        assert(s =~= s.drop_last().push(x));
        vstd::seq_lib::to_multiset_build(s.drop_last(), x);
    }
}

fn find_building<'a>(buildings: &'a Vec<PmBuilding>, id: u32) -> (r: Option<&'a PmBuilding>)
    ensures
        r matches Some(b) ==> building_with_id(buildings@, id) == Some(*b),
        r is None ==> building_with_id(buildings@, id) is None,
{
    let mut i: usize = 0;
    assert(buildings@.skip(0) =~= buildings@);
    while i < buildings.len()
        invariant
            i <= buildings@.len(),
            building_with_id(buildings@, id) == building_with_id(buildings@.skip(i as int), id),
        decreases buildings@.len() - i,
    {
        assert(buildings@.skip(i as int)[0] == buildings@[i as int]);
        if buildings[i].id == id {
            return Some(&buildings[i]);
        }
        assert(buildings@.skip(i as int).drop_first() =~= buildings@.skip(i + 1));
        i = i + 1;
    }
    None
}

fn change_le_exec(a: &OptimizeChange, b: &OptimizeChange) -> (r: bool)
    ensures
        r == change_le(change_view(*a), change_view(*b)),
{
    let o = str_order(a.building_type.as_str(), b.building_type.as_str());
    proof {
        lemma_lex_eq(a.building_type@, b.building_type@);
    }
    o < 0 || (o == 0 && a.building_id <= b.building_id)
}

fn insert_change(out: &mut Vec<OptimizeChange>, x: OptimizeChange)
    ensures
        changes_view(final(out)@) == changes_view(old(out)@).insert(
            insert_pos(changes_view(old(out)@), change_view(x)) as int,
            change_view(x),
        ),
{
    let ghost v = changes_view(out@);
    let ghost xv = change_view(x);
    let mut pos: usize = 0;
    assert(v.skip(0) =~= v);
    while pos < out.len() && change_le_exec(&out[pos], &x)
        invariant
            pos <= out@.len(),
            v == changes_view(out@),
            xv == change_view(x),
            insert_pos(v, xv) == pos + insert_pos(v.skip(pos as int), xv),
        decreases out@.len() - pos,
    {
        assert(v.skip(pos as int)[0] == v[pos as int]);
        assert(v.skip(pos as int).drop_first() =~= v.skip(pos + 1));
        pos = pos + 1;
    }
    proof {
        if pos < out@.len() {
            assert(v.skip(pos as int)[0] == v[pos as int]);
        }
    }
    out.insert(pos, x);
    assert(changes_view(out@) =~= v.insert(pos as int, xv));
}

/// The reported change list of a search: one change per delta entry whose
/// building exists and whose methods differ from the building's own,
/// sorted by building type, then building id.
pub fn changes_from_delta(buildings: &Vec<PmBuilding>, delta: &WorldDelta) -> (changes: Vec<OptimizeChange>)
    ensures
        changes_view(changes@) == sort_changes(
            raw_changes(entries_view(delta.production_methods@), buildings@),
        ),
{
    let entries = &delta.production_methods;
    let ghost ev = entries_view(entries@);
    let mut out: Vec<OptimizeChange> = Vec::new();
    let mut i: usize = 0;
    while i < entries.len()
        invariant
            i <= entries@.len(),
            ev == entries_view(entries@),
            changes_view(out@) == sort_changes(raw_changes(ev.subrange(0, i as int), buildings@)),
        decreases entries@.len() - i,
    {
        let ghost pre = ev.subrange(0, i as int);
        let ghost nxt = ev.subrange(0, i + 1);
        assert(nxt.drop_last() =~= pre);
        assert(nxt.last() == entry_view(entries@[i as int]));
        let e = &entries[i];
        match find_building(buildings, e.building_id) {
            Some(b) => {
                if !names_eq(&b.production_methods, &e.methods) {
                    let c = OptimizeChange {
                        building_type: b.building_type.clone(),
                        building_id: b.id,
                        from: copy_names(&b.production_methods),
                        to: copy_names(&e.methods),
                    };
                    assert(raw_changes(nxt, buildings@) == raw_changes(pre, buildings@).push(change_view(c)));
                    let ghost raw_next = raw_changes(nxt, buildings@);
                    assert(raw_next.drop_last() =~= raw_changes(pre, buildings@));
                    insert_change(&mut out, c);
                }
            },
            None => {},
        }
        i = i + 1;
    }
    assert(ev.subrange(0, entries@.len() as int) =~= ev);
    out
}


/// Whether a building among the first `n` of `bs` has type `ty` and runs
/// method `m`.
pub open spec fn used_by_type_upto(bs: Seq<PmBuilding>, n: int, ty: Seq<char>, m: Seq<char>) -> bool {
    exists|i: int, j: int|
        0 <= i < n && bs[i].building_type@ == ty && 0 <= j < bs[i].production_methods@.len()
            && #[trigger] bs[i].production_methods@[j]@ == m
}

/// Whether some building of `bs` has type `ty` and runs method `m`.
pub open spec fn used_by_type(bs: Seq<PmBuilding>, ty: Seq<char>, m: Seq<char>) -> bool {
    used_by_type_upto(bs, bs.len() as int, ty, m)
}

/// Candidate methods for a building type: every method that a building of
/// that type runs, once each, in sorted order.
pub fn candidate_pms(buildings: &Vec<PmBuilding>, building_type: &str) -> (ids: Vec<String>)
    ensures
        strictly_sorted(views(ids@)),
        forall|m: Seq<char>| #[trigger] views(ids@).contains(m) <==> used_by_type(buildings@, building_type@, m),
{
    let mut ids: Vec<String> = Vec::new();
    let mut i: usize = 0;
    while i < buildings.len()
        invariant
            i <= buildings@.len(),
            strictly_sorted(views(ids@)),
            forall|m: Seq<char>| #[trigger] views(ids@).contains(m) <==> used_by_type_upto(buildings@, i as int, building_type@, m),
        decreases buildings@.len() - i,
    {
        let b = &buildings[i];
        if crate::text::str_eq(b.building_type.as_str(), building_type) {
            let mut j: usize = 0;
            while j < b.production_methods.len()
                invariant
                    i < buildings@.len(),
                    *b == buildings@[i as int],
                    b.building_type@ == building_type@,
                    j <= b.production_methods@.len(),
                    strictly_sorted(views(ids@)),
                    forall|m: Seq<char>| #[trigger] views(ids@).contains(m) <==> (used_by_type_upto(buildings@, i as int, building_type@, m)
                        || exists|k: int| 0 <= k < j && #[trigger] b.production_methods@[k]@ == m),
                decreases b.production_methods@.len() - j,
            {
                let ghost before = views(ids@);
                insert_unique(&mut ids, b.production_methods[j].clone());
                proof {
                    assert forall|m: Seq<char>| #[trigger] views(ids@).contains(m) <==> (used_by_type_upto(buildings@, i as int, building_type@, m)
                        || exists|k: int| 0 <= k < j + 1 && #[trigger] b.production_methods@[k]@ == m) by {
                        if m == b.production_methods@[j as int]@ {
                        }
                        if exists|k: int| 0 <= k < j + 1 && #[trigger] b.production_methods@[k]@ == m {
                            let k = choose|k: int| 0 <= k < j + 1 && #[trigger] b.production_methods@[k]@ == m;
                            if k < j {
                                assert(before.contains(m));
                            }
                        }
                    }
                }
                j = j + 1;
            }
            proof {
                assert forall|m: Seq<char>| #[trigger] views(ids@).contains(m) <==> used_by_type_upto(buildings@, i + 1, building_type@, m) by {
                    if used_by_type_upto(buildings@, i + 1, building_type@, m) {
                        let (a, c) = choose|a: int, c: int|
                            0 <= a < i + 1 && buildings@[a].building_type@ == building_type@ && 0 <= c < buildings@[a].production_methods@.len()
                                && #[trigger] buildings@[a].production_methods@[c]@ == m;
                        if a == i {
                            assert(b.production_methods@[c]@ == m);
                        }
                    }
                    if views(ids@).contains(m) && !used_by_type_upto(buildings@, i as int, building_type@, m) {
                        let k = choose|k: int| 0 <= k < b.production_methods@.len() && #[trigger] b.production_methods@[k]@ == m;
                        assert(buildings@[i as int].production_methods@[k]@ == m);
                    }
                }
            }
        } else {
            proof {
                assert forall|m: Seq<char>| #[trigger] views(ids@).contains(m) <==> used_by_type_upto(buildings@, i + 1, building_type@, m) by {
                    if used_by_type_upto(buildings@, i + 1, building_type@, m) {
                        let (a, c) = choose|a: int, c: int|
                            0 <= a < i + 1 && buildings@[a].building_type@ == building_type@ && 0 <= c < buildings@[a].production_methods@.len()
                                && #[trigger] buildings@[a].production_methods@[c]@ == m;
                        assert(a != i);
                    }
                }
            }
        }
        i = i + 1;
    }
    ids
}

} // verus!
