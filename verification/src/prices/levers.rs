//! Choice of qualification levers for a short profession.
//!
//! A profession that can always hire gets the "always hire" lever alone.
//! Otherwise the sources it qualifies from are taken by weight: for each
//! source missing from the state, the levers that draw pops out of it
//! become feeders (hireable sources first, at most three); when some source
//! is present, wealth and university levers follow.

use vstd::prelude::*;
use crate::prices::alerts::AreaBuilding;
use crate::prices::qualification::{
    building_for_lever, can_hire_from, chosen_copy, fill_lever, levers_for_source,
    spec_building_for_lever, spec_can_hire_from, spec_employs_target, spec_fallback_building,
    spec_levers_for_source, spec_subst, ChosenLever, LeverDefs, LeverKey, ProfessionCopy,
};
use crate::text::{lex_order, lemma_lex_eq, lemma_lex_antisym, lemma_lex_trans, str_order};
use crate::text::views;

verus! {

/// Most feeder levers suggested for one shortage.
pub const MAX_FEEDERS: usize = 3;

/// A profession the target qualifies from.
#[derive(Debug, Clone, PartialEq, Eq)]
pub struct SourceRow {
    pub id: String,
    /// Rank of the source's multiplier among the sources (higher ranks
    /// multiply more; equal multipliers share a rank).
    pub weight_rank: u64,
    /// Whether the state has at least one pop of this profession.
    pub present: bool,
}

/// What the lever choice reads about the short profession and the state.
#[derive(Debug, Clone, PartialEq, Eq)]
pub struct LeverInputs {
    pub target: String,
    pub can_always_hire: bool,
    /// Whether wealth qualifies pops for the target.
    pub wealth: bool,
    /// Whether literacy qualifies pops for the target.
    pub literacy: bool,
    /// Whether the state's literacy reaches the university threshold.
    pub literate_enough: bool,
    pub sources: Vec<SourceRow>,
    /// Professions the state has in abundance.
    pub abundant: Vec<String>,
    /// Whether the state has peasants.
    pub peasants_present: bool,
    pub state_id: u32,
}

/// Source order: higher weight first, then id.
pub open spec fn source_le(a: SourceRow, b: SourceRow) -> bool {
    a.weight_rank > b.weight_rank || (a.weight_rank == b.weight_rank && lex_order(a.id@, b.id@) <= 0)
}

/// Where a stable insertion puts source index `x` into the ordered indices `s`.
pub open spec fn source_pos(rows: Seq<SourceRow>, s: Seq<int>, x: int) -> nat
    decreases s.len(),
{
    if s.len() == 0 {
        0
    } else if source_le(rows[s[0]], rows[x]) {
        1 + source_pos(rows, s.drop_first(), x)
    } else {
        0
    }
}

/// Indices of the first `n` sources in source order (a stable sort).
pub open spec fn source_order(rows: Seq<SourceRow>, n: int) -> Seq<int>
    decreases n,
{
    if n <= 0 {
        Seq::empty()
    } else {
        let r = source_order(rows, n - 1);
        r.insert(source_pos(rows, r, n - 1) as int, n - 1)
    }
}

/// A feeder: lever, source profession, and whether pops of the source can
/// be hired from the state's abundant professions.
pub type Feeder = (LeverKey, Seq<char>, bool);

/// Whether `fs` already holds a feeder for lever `k`.
pub open spec fn has_feeder(fs: Seq<Feeder>, k: LeverKey) -> bool {
    exists|i: int| 0 <= i < fs.len() && (#[trigger] fs[i]).0 == k
}

/// Adds the feeders of one missing source: each of its levers in order,
/// unless the lever's buildings employ the target, or nobody can be hired
/// (no abundant source and no peasants), or the lever is already listed.
pub open spec fn add_feeders(fs: Seq<Feeder>, keys: Seq<LeverKey>, inp: LeverInputs, source: Seq<char>) -> Seq<Feeder>
    decreases keys.len(),
{
    if keys.len() == 0 {
        fs
    } else {
        let prev = add_feeders(fs, keys.drop_last(), inp, source);
        let k = keys.last();
        let ready = spec_can_hire_from(views(inp.abundant@), source);
        if spec_employs_target(k, inp.target@) || (!ready && !inp.peasants_present) || has_feeder(prev, k) {
            prev
        } else {
            prev.push((k, source, ready))
        }
    }
}

/// Feeders of the missing sources among the first `n` in source order.
pub open spec fn feeders_upto(inp: LeverInputs, order: Seq<int>, n: int) -> Seq<Feeder>
    decreases n,
{
    if n <= 0 {
        Seq::empty()
    } else {
        let prev = feeders_upto(inp, order, n - 1);
        let src = inp.sources@[order[n - 1]];
        if src.present {
            prev
        } else {
            add_feeders(prev, spec_levers_for_source(src.id@), inp, src.id@)
        }
    }
}

/// Feeders in suggestion order: hireable ones first, at most three.
pub open spec fn chosen_feeders(inp: LeverInputs) -> Seq<Feeder> {
    let order = source_order(inp.sources@, inp.sources@.len() as int);
    let fs = feeders_upto(inp, order, order.len() as int);
    let ranked = fs.filter(|f: Feeder| f.2) + fs.filter(|f: Feeder| !f.2);
    if ranked.len() <= MAX_FEEDERS { ranked } else { ranked.take(MAX_FEEDERS as int) }
}

/// The first present source in source order, if any.
pub open spec fn first_present_upto(rows: Seq<SourceRow>, order: Seq<int>, n: int) -> Option<Seq<char>>
    decreases n,
{
    if n <= 0 {
        None
    } else {
        match first_present_upto(rows, order, n - 1) {
            Some(p) => Some(p),
            None => if rows[order[n - 1]].present { Some(rows[order[n - 1]].id@) } else { None },
        }
    }
}

pub open spec fn first_present(inp: LeverInputs) -> Option<Seq<char>> {
    let order = source_order(inp.sources@, inp.sources@.len() as int);
    first_present_upto(inp.sources@, order, order.len() as int)
}

pub open spec fn opt_text(o: Option<String>) -> Option<Seq<char>> {
    match o {
        Some(s) => Some(s@),
        None => None,
    }
}

/// `c` is lever `key` filled in for `target`, `source` and `building`.
pub open spec fn lever_ok(
    c: ChosenLever,
    key: LeverKey,
    copy: ProfessionCopy,
    defaults: ProfessionCopy,
    target: Seq<char>,
    source: Seq<char>,
    building: Option<Seq<char>>,
) -> bool {
    let b = match building {
        Some(b) => b,
        None => spec_fallback_building(key),
    };
    &&& c.key == key
    &&& c.source@ == source
    &&& opt_text(c.building) == building
    &&& c.title@ == spec_subst(chosen_copy(key, copy, defaults).0, target, source, b)
    &&& c.detail@ == spec_subst(chosen_copy(key, copy, defaults).1, target, source, b)
}

/// Number of wealth/university levers that follow the feeders.
pub open spec fn extra_count(inp: LeverInputs) -> int {
    if first_present(inp) is Some {
        (if inp.wealth { 1int } else { 0int }) + (if inp.literacy && inp.literate_enough { 1int } else { 0int })
    } else {
        0
    }
}

fn source_le_exec(a: &SourceRow, b: &SourceRow) -> (r: bool)
    ensures
        r == source_le(*a, *b),
{
    if a.weight_rank > b.weight_rank {
        return true;
    }
    if a.weight_rank < b.weight_rank {
        return false;
    }
    str_order(a.id.as_str(), b.id.as_str()) <= 0
}

/// Source indices in source order: higher weight first, then id.
pub fn source_list(rows: &Vec<SourceRow>) -> (order: Vec<usize>)
    ensures
        order@.map_values(|i: usize| i as int) == source_order(rows@, rows@.len() as int),
{
    let mut order: Vec<usize> = Vec::new();
    let mut n: usize = 0;
    while n < rows.len()
        invariant
            n <= rows@.len(),
            order@.map_values(|i: usize| i as int) == source_order(rows@, n as int),
            forall|k: int| 0 <= k < order@.len() ==> (#[trigger] order@[k]) < n,
        decreases rows@.len() - n,
    {
        let ghost v = order@.map_values(|i: usize| i as int);
        let mut pos: usize = 0;
        assert(v.skip(0) =~= v);
        while pos < order.len() && source_le_exec(&rows[order[pos]], &rows[n])
            invariant
                n < rows@.len(),
                pos <= order@.len(),
                v == order@.map_values(|i: usize| i as int),
                forall|k: int| 0 <= k < order@.len() ==> (#[trigger] order@[k]) < n,
                source_pos(rows@, v, n as int) == pos + source_pos(rows@, v.skip(pos as int), n as int),
            decreases order@.len() - pos,
        {
            assert(v.skip(pos as int)[0] == v[pos as int]);
            assert(v.skip(pos as int).drop_first() =~= v.skip(pos + 1));
            pos = pos + 1;
        }
        proof {
            if pos < order@.len() {
                assert(v.skip(pos as int)[0] == v[pos as int]);
            }
        }
        order.insert(pos, n);
        assert(order@.map_values(|i: usize| i as int) =~= v.insert(pos as int, n as int));
        n = n + 1;
    }
    order
}

fn has_key_feeder(fs: &Vec<(LeverKey, usize, bool)>, k: LeverKey) -> (b: bool)
    ensures
        b == exists|i: int| 0 <= i < fs@.len() && (#[trigger] fs@[i]).0 == k,
{
    let mut i: usize = 0;
    while i < fs.len()
        invariant
            i <= fs@.len(),
            forall|j: int| 0 <= j < i ==> (#[trigger] fs@[j]).0 != k,
        decreases fs@.len() - i,
    {
        if fs[i].0 == k {
            return true;
        }
        i = i + 1;
    }
    false
}

/// View of exec feeders (source by its id).
pub open spec fn feeders_view(rows: Seq<SourceRow>, fs: Seq<(LeverKey, usize, bool)>) -> Seq<Feeder> {
    fs.map_values(|f: (LeverKey, usize, bool)| (f.0, rows[f.1 as int].id@, f.2))
}

/// Lever choice for a short profession (see [`chosen_feeders`]): the
/// always-hire lever alone when the profession can always hire; otherwise
/// one lever per chosen feeder, naming a lever building of the state (or
/// the definitions), then, when some source is present, the wealth lever
/// and the university lever (when literacy qualifies and the state is
/// literate enough), both drawing from the first present source.
pub fn select_levers(
    inputs: &LeverInputs,
    copy: &ProfessionCopy,
    defaults: &ProfessionCopy,
    buildings: &Vec<AreaBuilding>,
    defs: &LeverDefs,
) -> (out: Vec<ChosenLever>)
    ensures
        inputs.can_always_hire ==> out@.len() == 1 && lever_ok(
            out@[0], LeverKey::AlwaysHire, *copy, *defaults, inputs.target@, inputs.target@, None),
        !inputs.can_always_hire ==> {
            let fs = chosen_feeders(*inputs);
            &&& out@.len() == fs.len() + extra_count(*inputs)
            &&& forall|i: int| 0 <= i < fs.len() ==> lever_ok(#[trigger] out@[i], fs[i].0, *copy, *defaults,
                inputs.target@, fs[i].1, spec_building_for_lever(buildings@, *defs, inputs.state_id, fs[i].0))
            &&& first_present(*inputs) matches Some(p) ==> {
                &&& inputs.wealth ==> lever_ok(out@[fs.len() as int], LeverKey::Wealth, *copy, *defaults,
                    inputs.target@, p, None)
                &&& (inputs.literacy && inputs.literate_enough) ==> lever_ok(
                    out@[fs.len() + (if inputs.wealth { 1int } else { 0int })], LeverKey::University, *copy,
                    *defaults, inputs.target@, p,
                    spec_building_for_lever(buildings@, *defs, inputs.state_id, LeverKey::University))
            }
        },
{
    let target = inputs.target.as_str();
    let mut out: Vec<ChosenLever> = Vec::new();
    if inputs.can_always_hire {
        out.push(fill_lever(LeverKey::AlwaysHire, copy, defaults, target, target, None));
        return out;
    }
    let rows = &inputs.sources;
    let order = source_list(rows);
    let ghost ov = order@.map_values(|i: usize| i as int);
    proof {
        lemma_order_in_range(rows@, rows@.len() as int);
    }
    // Feeders of the missing sources, in source order.
    let mut fs: Vec<(LeverKey, usize, bool)> = Vec::new();
    let mut first: Option<usize> = None;
    let mut n: usize = 0;
    while n < order.len()
        invariant
            target@ == inputs.target@,
            n <= order@.len(),
            ov == order@.map_values(|i: usize| i as int),
            ov == source_order(rows@, rows@.len() as int),
            *rows == inputs.sources,
            forall|k: int| 0 <= k < ov.len() ==> 0 <= #[trigger] ov[k] < rows@.len(),
            forall|k: int| 0 <= k < fs@.len() ==> (#[trigger] fs@[k]).1 < rows@.len(),
            feeders_view(rows@, fs@) == feeders_upto(*inputs, ov, n as int),
            match first {
                Some(q) => q < rows@.len() && first_present_upto(rows@, ov, n as int) == Some(rows@[q as int].id@),
                None => first_present_upto(rows@, ov, n as int) is None,
            },
        decreases order@.len() - n,
    {
        let si = order[n];
        assert(ov[n as int] == si as int);
        let src = &rows[si];
        if src.present {
            if first.is_none() {
                first = Some(si);
            }
        } else {
            let keys = levers_for_source(src.id.as_str());
            let ready = can_hire_from(&inputs.abundant, src.id.as_str());
            let ghost base = feeders_view(rows@, fs@);
            let mut k: usize = 0;
            while k < keys.len()
                invariant
                    target@ == inputs.target@,
                    si < rows@.len(),
                    *src == rows@[si as int],
                    *rows == inputs.sources,
                    !src.present,
                    k <= keys@.len(),
                    keys@ == spec_levers_for_source(src.id@),
                    ready == spec_can_hire_from(views(inputs.abundant@), src.id@),
                    forall|q: int| 0 <= q < fs@.len() ==> (#[trigger] fs@[q]).1 < rows@.len(),
                    feeders_view(rows@, fs@) == add_feeders(base, keys@.subrange(0, k as int), *inputs, src.id@),
                decreases keys@.len() - k,
            {
                let key = keys[k];
                let ghost pre = keys@.subrange(0, k as int);
                assert(keys@.subrange(0, k + 1).drop_last() =~= pre);
                assert(keys@.subrange(0, k + 1).last() == key);
                let emp = key.employs_target(target);
                let skip = emp || (!ready && !inputs.peasants_present);
                let dup = has_key_feeder(&fs, key);
                proof {
                    let fv = feeders_view(rows@, fs@);
                    if dup {
                        let i = choose|i: int| 0 <= i < fs@.len() && (#[trigger] fs@[i]).0 == key;
                        assert(fv[i].0 == key);
                    }
                    if has_feeder(fv, key) {
                        let i = choose|i: int| 0 <= i < fv.len() && (#[trigger] fv[i]).0 == key;
                        assert(fs@[i].0 == key);
                    }
                }
                let ghost prev = add_feeders(base, pre, *inputs, src.id@);
                assert(emp == spec_employs_target(key, inputs.target@));
                assert(ready == spec_can_hire_from(views(inputs.abundant@), src.id@));
                assert(dup == has_feeder(prev, key));
                assert(add_feeders(base, keys@.subrange(0, k + 1), *inputs, src.id@) == if skip || dup {
                    prev
                } else {
                    prev.push((key, src.id@, ready))
                });
                if !skip && !dup {
                    let ghost before = fs@;
                    fs.push((key, si, ready));
                    assert(feeders_view(rows@, fs@) =~= feeders_view(rows@, before).push((key, src.id@, ready)));
                }
                k = k + 1;
            }
            assert(keys@.subrange(0, keys@.len() as int) =~= keys@);
        }
        n = n + 1;
    }
    // Hireable feeders first, then the rest, at most three in all.
    let ghost fv = feeders_view(rows@, fs@);
    let mut ranked: Vec<(LeverKey, usize, bool)> = Vec::new();
    let mut pass: usize = 0;
    while pass < 2
        invariant
            pass <= 2,
            fv == feeders_view(rows@, fs@),
            forall|q: int| 0 <= q < fs@.len() ==> (#[trigger] fs@[q]).1 < rows@.len(),
            forall|q: int| 0 <= q < ranked@.len() ==> (#[trigger] ranked@[q]).1 < rows@.len(),
            pass == 0 ==> ranked@.len() == 0,
            pass == 1 ==> feeders_view(rows@, ranked@) == fv.filter(|f: Feeder| f.2),
            pass == 2 ==> feeders_view(rows@, ranked@) == fv.filter(|f: Feeder| f.2) + fv.filter(|f: Feeder| !f.2),
        decreases 2 - pass,
    {
        let want = pass == 0;
        let ghost start = feeders_view(rows@, ranked@);
        let mut j: usize = 0;
        while j < fs.len()
            invariant
                j <= fs@.len(),
                fv == feeders_view(rows@, fs@),
                forall|q: int| 0 <= q < fs@.len() ==> (#[trigger] fs@[q]).1 < rows@.len(),
                forall|q: int| 0 <= q < ranked@.len() ==> (#[trigger] ranked@[q]).1 < rows@.len(),
                feeders_view(rows@, ranked@) == start + fv.subrange(0, j as int).filter(|f: Feeder| f.2 == want),
            decreases fs@.len() - j,
        {
            let ghost pre = fv.subrange(0, j as int);
            let ghost nxt = fv.subrange(0, j + 1);
            assert(nxt.drop_last() =~= pre);
            assert(nxt.last() == fv[j as int]);
            if fs[j].2 == want {
                let ghost before = ranked@;
                ranked.push(fs[j]);
                assert(feeders_view(rows@, ranked@) =~= feeders_view(rows@, before).push(fv[j as int]));
            }
            proof {
                reveal_with_fuel(Seq::<Feeder>::filter, 1);
                assert(start + nxt.filter(|f: Feeder| f.2 == want) =~= feeders_view(rows@, ranked@));
            }
            j = j + 1;
        }
        assert(fv.subrange(0, fs@.len() as int) =~= fv);
        proof {
            if want {
                assert((|f: Feeder| f.2 == want) =~= (|f: Feeder| f.2));
            } else {
                assert((|f: Feeder| f.2 == want) =~= (|f: Feeder| !f.2));
            }
        }
        pass = pass + 1;
    }
    let take = if ranked.len() < MAX_FEEDERS { ranked.len() } else { MAX_FEEDERS };
    let ghost chosen = chosen_feeders(*inputs);
    proof {
        assert(source_order(rows@, rows@.len() as int).len() == rows@.len()) by {
            lemma_order_in_range(rows@, rows@.len() as int);
        }
        assert(chosen.len() == take);
        assert forall|i: int| 0 <= i < take implies chosen[i] == feeders_view(rows@, ranked@)[i] by {}
    }
    let mut i: usize = 0;
    while i < take
        invariant
            target@ == inputs.target@,
            take <= ranked@.len(),
            i <= take,
            chosen.len() == take,
            *rows == inputs.sources,
            forall|q: int| 0 <= q < ranked@.len() ==> (#[trigger] ranked@[q]).1 < rows@.len(),
            forall|q: int| 0 <= q < take ==> #[trigger] chosen[q] == feeders_view(rows@, ranked@)[q],
            out@.len() == i,
            forall|q: int| 0 <= q < i ==> lever_ok(#[trigger] out@[q], chosen[q].0, *copy, *defaults,
                inputs.target@, chosen[q].1, spec_building_for_lever(buildings@, *defs, inputs.state_id, chosen[q].0)),
        decreases take - i,
    {
        let (key, si, _ready) = ranked[i];
        let building = building_for_lever(buildings, defs, inputs.state_id, key);
        let ghost bview = opt_text(building);
        let c = fill_lever(key, copy, defaults, target, rows[si].id.as_str(), building);
        assert(chosen[i as int] == feeders_view(rows@, ranked@)[i as int]);
        assert(bview == spec_building_for_lever(buildings@, *defs, inputs.state_id, key));
        assert(c.key == key);
        assert(c.source@ == rows@[si as int].id@);
        assert(opt_text(c.building) == bview);
        assert(c.title@ == spec_subst(chosen_copy(key, *copy, *defaults).0, inputs.target@, rows@[si as int].id@,
            match bview { Some(b) => b, None => spec_fallback_building(key) }));
        assert(lever_ok(c, key, *copy, *defaults, inputs.target@, rows@[si as int].id@, bview));
        let ghost before = out@;
        out.push(c);
        assert(out@ == before.push(c));
        i = i + 1;
    }
    match first {
        Some(q) => {
            let p = rows[q].id.as_str();
            if inputs.wealth {
                out.push(fill_lever(LeverKey::Wealth, copy, defaults, target, p, None));
            }
            if inputs.literacy && inputs.literate_enough {
                let uni = building_for_lever(buildings, defs, inputs.state_id, LeverKey::University);
                out.push(fill_lever(LeverKey::University, copy, defaults, target, p, uni));
            }
        },
        None => {},
    }
    out
}

proof fn lemma_order_in_range(rows: Seq<SourceRow>, n: int)
    requires
        0 <= n <= rows.len(),
    ensures
        source_order(rows, n).len() == n,
        forall|k: int| 0 <= k < n ==> 0 <= #[trigger] source_order(rows, n)[k] < n,
    decreases n,
{
    if n > 0 {
        lemma_order_in_range(rows, n - 1);
        let r = source_order(rows, n - 1);
        lemma_source_pos_bound(rows, r, n - 1);
        let p = source_pos(rows, r, n - 1) as int;
        assert forall|k: int| 0 <= k < n implies 0 <= #[trigger] source_order(rows, n)[k] < n by {
            if k < p {
                assert(source_order(rows, n)[k] == r[k]);
            } else if k > p {
                assert(source_order(rows, n)[k] == r[k - 1]);
            }
        }
    }
}

proof fn lemma_source_pos_bound(rows: Seq<SourceRow>, s: Seq<int>, x: int)
    ensures
        source_pos(rows, s, x) <= s.len(),
    decreases s.len(),
{
    if s.len() > 0 {
        lemma_source_pos_bound(rows, s.drop_first(), x);
    }
}

/// Feeders that suggest no lever employing the target, and no lever twice.
pub open spec fn feeders_ok(fs: Seq<Feeder>, target: Seq<char>) -> bool {
    &&& forall|i: int| 0 <= i < fs.len() ==> !spec_employs_target((#[trigger] fs[i]).0, target)
    &&& forall|i: int, j: int| 0 <= i < j < fs.len() ==> (#[trigger] fs[i]).0 != (#[trigger] fs[j]).0
}

proof fn lemma_add_feeders_ok(fs: Seq<Feeder>, keys: Seq<LeverKey>, inp: LeverInputs, source: Seq<char>)
    requires
        feeders_ok(fs, inp.target@),
    ensures
        feeders_ok(add_feeders(fs, keys, inp, source), inp.target@),
    decreases keys.len(),
{
    if keys.len() > 0 {
        lemma_add_feeders_ok(fs, keys.drop_last(), inp, source);
        let prev = add_feeders(fs, keys.drop_last(), inp, source);
        let k = keys.last();
        let out = add_feeders(fs, keys, inp, source);
        if out != prev {
            assert forall|i: int, j: int| 0 <= i < j < out.len() implies (#[trigger] out[i]).0 != (#[trigger] out[j]).0 by {
                if j == out.len() - 1 && out[i].0 == k {
                    assert(prev[i].0 == k);
                }
            }
        }
    }
}

proof fn lemma_feeders_upto_ok(inp: LeverInputs, order: Seq<int>, n: int)
    ensures
        feeders_ok(feeders_upto(inp, order, n), inp.target@),
    decreases n,
{
    if n > 0 {
        lemma_feeders_upto_ok(inp, order, n - 1);
        let src = inp.sources@[order[n - 1]];
        if !src.present {
            lemma_add_feeders_ok(feeders_upto(inp, order, n - 1), spec_levers_for_source(src.id@), inp, src.id@);
        }
    }
}

proof fn lemma_filter_ok(fs: Seq<Feeder>, target: Seq<char>, p: spec_fn(Feeder) -> bool)
    requires
        feeders_ok(fs, target),
    ensures
        feeders_ok(fs.filter(p), target),
        forall|i: int| 0 <= i < fs.filter(p).len() ==> fs.contains(#[trigger] fs.filter(p)[i]),
    decreases fs.len(),
{
    reveal(Seq::filter);
    if fs.len() > 0 {
        let rest = fs.drop_last();
        assert(feeders_ok(rest, target)) by {
            assert forall|i: int, j: int| 0 <= i < j < rest.len() implies (#[trigger] rest[i]).0 != (#[trigger] rest[j]).0 by {
                assert(rest[i] == fs[i] && rest[j] == fs[j]);
            }
            assert forall|i: int| 0 <= i < rest.len() implies !spec_employs_target((#[trigger] rest[i]).0, target) by {
                assert(rest[i] == fs[i]);
            }
        }
        lemma_filter_ok(rest, target, p);
        let fr = rest.filter(p);
        let out = fs.filter(p);
        assert forall|i: int| 0 <= i < fr.len() implies (#[trigger] fr[i]).0 != fs.last().0 by {
            assert(rest.contains(fr[i]));
            let k = choose|k: int| 0 <= k < rest.len() && rest[k] == fr[i];
            assert(fs[k] == rest[k]);
        }
        assert forall|i: int| 0 <= i < out.len() implies fs.contains(#[trigger] out[i]) by {
            if i < fr.len() {
                assert(out[i] == fr[i]);
                assert(rest.contains(fr[i]));
                let k = choose|k: int| 0 <= k < rest.len() && rest[k] == fr[i];
                assert(fs[k] == fr[i]);
            } else {
                assert(out[i] == fs.last());
                assert(fs[fs.len() - 1] == fs.last());
            }
        }
        assert forall|i: int, j: int| 0 <= i < j < out.len() implies (#[trigger] out[i]).0 != (#[trigger] out[j]).0 by {
            if j < fr.len() {
                assert(out[i] == fr[i] && out[j] == fr[j]);
            } else {
                assert(out[i] == fr[i]);
                assert(out[j] == fs.last());
            }
        }
        assert forall|i: int| 0 <= i < out.len() implies !spec_employs_target((#[trigger] out[i]).0, target) by {
            assert(fs.contains(out[i]));
            let k = choose|k: int| 0 <= k < fs.len() && fs[k] == out[i];
        }
    }
}

/// The feeder suggestions never name a lever whose own buildings employ the
/// short profession, never name a lever twice, and number at most three.
pub proof fn law_feeders_distinct_and_relevant(inp: LeverInputs)
    ensures
        chosen_feeders(inp).len() <= MAX_FEEDERS,
        feeders_ok(chosen_feeders(inp), inp.target@),
{
    let order = source_order(inp.sources@, inp.sources@.len() as int);
    let fs = feeders_upto(inp, order, order.len() as int);
    lemma_feeders_upto_ok(inp, order, order.len() as int);
    let pa = |f: Feeder| f.2;
    let pb = |f: Feeder| !f.2;
    lemma_filter_ok(fs, inp.target@, pa);
    lemma_filter_ok(fs, inp.target@, pb);
    let a = fs.filter(pa);
    let b = fs.filter(pb);
    let ranked = a + b;
    assert forall|i: int| 0 <= i < a.len() implies (#[trigger] a[i]).2 by {
        fs.lemma_filter_pred(pa, i);
    }
    assert forall|i: int| 0 <= i < b.len() implies !(#[trigger] b[i]).2 by {
        fs.lemma_filter_pred(pb, i);
    }
    assert(feeders_ok(ranked, inp.target@)) by {
        assert forall|i: int, j: int| 0 <= i < j < ranked.len() implies (#[trigger] ranked[i]).0 != (#[trigger] ranked[j]).0 by {
            if j < a.len() {
                assert(ranked[i] == a[i] && ranked[j] == a[j]);
            } else if i >= a.len() {
                assert(ranked[i] == b[i - a.len()] && ranked[j] == b[j - a.len()]);
            } else {
                let x = a[i];
                let y = b[j - a.len()];
                assert(ranked[i] == x && ranked[j] == y);
                if x.0 == y.0 {
                    assert(fs.contains(x));
                    assert(fs.contains(y));
                    let p = choose|p: int| 0 <= p < fs.len() && fs[p] == x;
                    let q = choose|q: int| 0 <= q < fs.len() && fs[q] == y;
                    if p < q {
                        assert(fs[p].0 != fs[q].0);
                    } else if q < p {
                        assert(fs[q].0 != fs[p].0);
                    }
                }
            }
        }
        assert forall|i: int| 0 <= i < ranked.len() implies !spec_employs_target((#[trigger] ranked[i]).0, inp.target@) by {
            if i < a.len() {
                assert(ranked[i] == a[i]);
            } else {
                assert(ranked[i] == b[i - a.len()]);
            }
        }
    }
    assert((|f: Feeder| f.2) =~= pa);
    assert((|f: Feeder| !f.2) =~= pb);
    if ranked.len() > MAX_FEEDERS {
        let t = ranked.take(MAX_FEEDERS as int);
        assert forall|i: int, j: int| 0 <= i < j < t.len() implies (#[trigger] t[i]).0 != (#[trigger] t[j]).0 by {
            assert(t[i] == ranked[i] && t[j] == ranked[j]);
        }
        assert forall|i: int| 0 <= i < t.len() implies !spec_employs_target((#[trigger] t[i]).0, inp.target@) by {
            assert(t[i] == ranked[i]);
        }
    }
}

} // verus!
