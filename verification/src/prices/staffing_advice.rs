//! Mitigations for unfilled jobs: qualification ladders, the university
//! rule, and advice for states that lack pops.

use vstd::prelude::*;
use crate::prices::alerts::{
    action_mit, is_university_build, kind_id, plain, rank, rank_of, spec_kind_id, AlertKind, AreaBuilding,
    Mitigation, MitigationAction,
};
use crate::prices::qualification::{
    id_has, is_subsistence, lever_id, spec_fallback_building, spec_id_has, spec_is_subsistence, ChosenLever,
    LeverDefs, LeverKey,
};
use crate::text::{append_str, decimal, owned, push_decimal, str_eq};

verus! {

/// The building action of a lever's mitigation: a university build, a
/// cheaper need good for the wealth lever, nothing for "always hire", and
/// a feeder job (at the lever's building or its fallback) otherwise.
pub open spec fn ladder_action_ok(a: Option<MitigationAction>, l: ChosenLever, state_id: u32, wealth_good: Option<String>) -> bool {
    let building = match l.building {
        Some(b) => b@,
        None => if l.key == LeverKey::University { "building_university"@ } else { spec_fallback_building(l.key) },
    };
    match l.key {
        LeverKey::University => a matches Some(MitigationAction::Build { building_type_name, state_id: s, extra_levels })
            && building_type_name@ == building && s == Some(state_id) && extra_levels == Some(1u32),
        LeverKey::Wealth => a matches Some(MitigationAction::SolGoods { good_name, state_id: s })
            && good_name@ == (match wealth_good { Some(g) => g@, None => "grain"@ }) && s == Some(state_id),
        LeverKey::AlwaysHire => a is None,
        _ => a matches Some(MitigationAction::FeederJob { building_type_name, profession, state_id: s })
            && building_type_name@ == building && profession@ == l.source@ && s == Some(state_id),
    }
}

/// Id of the mitigation for lever `key` at position `i` of a state's ladder.
pub open spec fn ladder_id(state_id: u32, key: LeverKey, i: int) -> Seq<char> {
    "ladder:"@ + decimal(state_id as nat) + ":"@ + lever_id(key) + ":"@ + decimal(i as nat)
}

pub open spec fn ladder_item_ok(m: Mitigation, l: ChosenLever, i: int, state_id: u32, wealth_good: Option<String>) -> bool {
    &&& m.id@ == ladder_id(state_id, l.key, i)
    &&& m.title@ == l.title@
    &&& m.detail@ == l.detail@
    &&& m.rank == 0
    &&& !m.apply_ready
    &&& m.effect is None
    &&& ladder_action_ok(m.action, l, state_id, wealth_good)
}

/// Mitigations for a qualification ladder, one per chosen lever in order
/// (unranked). `wealth_good` is the state's most expensive need good.
pub fn qualification_levers(levers: Vec<ChosenLever>, state_id: u32, wealth_good: Option<String>) -> (out: Vec<Mitigation>)
    requires
        levers@.len() <= u32::MAX,
    ensures
        out@.len() == levers@.len(),
        forall|i: int| 0 <= i < levers@.len() ==> ladder_item_ok(#[trigger] out@[i], levers@[i], i, state_id, wealth_good),
{
    let mut out: Vec<Mitigation> = Vec::new();
    let mut i: usize = 0;
    while i < levers.len()
        invariant
            levers@.len() <= u32::MAX,
            i <= levers@.len(),
            out@.len() == i,
            forall|k: int| 0 <= k < i ==> ladder_item_ok(#[trigger] out@[k], levers@[k], k, state_id, wealth_good),
        decreases levers@.len() - i,
    {
        let l = &levers[i];
        let mut id = owned("ladder:");
        push_decimal(&mut id, state_id);
        append_str(&mut id, ":");
        append_str(&mut id, l.key.as_str());
        append_str(&mut id, ":");
        push_decimal(&mut id, i as u32);
        assert(id@ =~= ladder_id(state_id, l.key, i as int));
        let m = match l.key {
            LeverKey::University => {
                let b = match &l.building {
                    Some(b) => b.clone(),
                    None => owned("building_university"),
                };
                action_mit(id, l.title.clone(), l.detail.clone(), MitigationAction::Build {
                    building_type_name: b,
                    state_id: Some(state_id),
                    extra_levels: Some(1),
                })
            },
            LeverKey::Wealth => {
                let g = match &wealth_good {
                    Some(g) => g.clone(),
                    None => owned("grain"),
                };
                action_mit(id, l.title.clone(), l.detail.clone(), MitigationAction::SolGoods {
                    good_name: g,
                    state_id: Some(state_id),
                })
            },
            LeverKey::AlwaysHire => plain(id, l.title.clone(), l.detail.clone()),
            _ => {
                let b = match &l.building {
                    Some(b) => b.clone(),
                    None => l.key.fallback_building_owned(),
                };
                action_mit(id, l.title.clone(), l.detail.clone(), MitigationAction::FeederJob {
                    building_type_name: b,
                    profession: l.source.clone(),
                    state_id: Some(state_id),
                })
            },
        };
        assert(ladder_item_ok(m, levers@[i as int], i as int, state_id, wealth_good));
        out.push(m);
        i = i + 1;
    }
    out
}

/// Id of the "staff the campus" mitigation of a state.
pub open spec fn staff_uni_id(state_id: u32) -> Seq<char> {
    "edu:"@ + decimal(state_id as nat) + ":staff-uni"@
}

pub open spec fn is_uni_build(m: Mitigation) -> bool {
    m.action matches Some(MitigationAction::Build { building_type_name, .. })
        && spec_id_has(building_type_name@, "university"@)
}

/// The ladder without university builds, then the staffing mitigation, when
/// the rule applies; else the ladder unchanged.
pub open spec fn education_list(items: Seq<Mitigation>, unstaffed_university: bool) -> Seq<Mitigation> {
    if unstaffed_university && exists|i: int| 0 <= i < items.len() && is_uni_build(#[trigger] items[i]) {
        items.filter(|m: Mitigation| !is_uni_build(m))
    } else {
        items
    }
}

/// The university rule of an education alert: when the ladder suggests a
/// university and a campus in the state is not fully staffed, university
/// builds give way to staffing that campus. The list is then ranked.
pub fn education_mitigations(items: Vec<Mitigation>, unstaffed_university: bool, state_id: u32) -> (out: Vec<Mitigation>)
    ensures
        ({
            let kept = education_list(items@, unstaffed_university);
            let rule = unstaffed_university && exists|i: int| 0 <= i < items@.len() && is_uni_build(#[trigger] items@[i]);
            &&& out@.len() == kept.len() + (if rule { 1int } else { 0int })
            &&& forall|i: int| 0 <= i < kept.len() ==> #[trigger] out@[i] == (Mitigation {
                rank: rank_of(i),
                apply_ready: false,
                ..kept[i]
            })
            &&& rule ==> {
                let m = out@[kept.len() as int];
                &&& m.id@ == staff_uni_id(state_id)
                &&& m.title@ == "Staff the university already in this state"@
                &&& m.detail@ == "A campus here is not fully employed. Filling those academic jobs raises literacy and qualifications; another empty campus will not."@
                &&& m.action is None
                &&& m.effect is None
                &&& m.rank == rank_of(kept.len() as int)
                &&& !m.apply_ready
            }
        }),
{
    let mut wants = false;
    let mut i: usize = 0;
    while i < items.len()
        invariant
            i <= items@.len(),
            wants == exists|k: int| 0 <= k < i && is_uni_build(#[trigger] items@[k]),
        decreases items@.len() - i,
    {
        if is_university_build(&items[i]) {
            wants = true;
        }
        i = i + 1;
    }
    if !(wants && unstaffed_university) {
        return rank(items);
    }
    let ghost orig = items@;
    let mut kept: Vec<Mitigation> = Vec::new();
    let mut rest = items;
    let ghost mut j: int = 0;
    assert(orig.skip(0) =~= orig);
    while rest.len() > 0
        invariant
            0 <= j <= orig.len(),
            rest@ == orig.skip(j),
            kept@ == orig.subrange(0, j).filter(|m: Mitigation| !is_uni_build(m)),
        decreases rest@.len(),
    {
        let ghost pre = orig.subrange(0, j);
        let ghost nxt = orig.subrange(0, j + 1);
        assert(nxt.drop_last() =~= pre);
        assert(nxt.last() == orig[j]);
        let m = rest.remove(0);
        assert(m == orig[j]);
        if !is_university_build(&m) {
            kept.push(m);
        }
        proof {
            reveal_with_fuel(Seq::<Mitigation>::filter, 1);
            assert(kept@ =~= nxt.filter(|m: Mitigation| !is_uni_build(m)));
            assert(rest@ =~= orig.skip(j + 1));
            j = j + 1;
        }
    }
    assert(orig.subrange(0, orig.len() as int) =~= orig);
    let mut id = owned("edu:");
    push_decimal(&mut id, state_id);
    append_str(&mut id, ":staff-uni");
    kept.push(plain(
        id,
        owned("Staff the university already in this state"),
        owned("A campus here is not fully employed. Filling those academic jobs raises literacy and qualifications; another empty campus will not."),
    ));
    rank(kept)
}

/// The first non-subsistence farm among `buildings` (in `state_id` when
/// given).
pub open spec fn first_farm(bs: Seq<AreaBuilding>, defs: LeverDefs, state_id: Option<u32>) -> Option<Seq<char>>
    decreases bs.len(),
{
    if bs.len() == 0 {
        None
    } else if (state_id matches Some(s) ==> bs[0].state_id == Some(s))
        && !spec_is_subsistence(defs, bs[0].building_type_name@)
        && spec_id_has(bs[0].building_type_name@, "farm"@) {
        Some(bs[0].building_type_name@)
    } else {
        first_farm(bs.drop_first(), defs, state_id)
    }
}

/// See [`first_farm`].
pub fn commercial_farm(buildings: &Vec<AreaBuilding>, defs: &LeverDefs, state_id: Option<u32>) -> (r: Option<String>)
    ensures
        (match r {
            Some(t) => first_farm(buildings@, *defs, state_id) == Some(t@),
            None => first_farm(buildings@, *defs, state_id) is None,
        }),
{
    let mut i: usize = 0;
    assert(buildings@.skip(0) =~= buildings@);
    while i < buildings.len()
        invariant
            i <= buildings@.len(),
            first_farm(buildings@, *defs, state_id) == first_farm(buildings@.skip(i as int), *defs, state_id),
        decreases buildings@.len() - i,
    {
        assert(buildings@.skip(i as int)[0] == buildings@[i as int]);
        let b = &buildings[i];
        let in_state = match state_id {
            Some(s) => b.state_id == Some(s),
            None => true,
        };
        if in_state && !is_subsistence(b.building_type_name.as_str(), defs) && id_has(b.building_type_name.as_str(), "farm") {
            return Some(b.building_type_name.clone());
        }
        assert(buildings@.skip(i as int).drop_first() =~= buildings@.skip(i + 1));
        i = i + 1;
    }
    None
}

/// A need good that pops of a short state find expensive.
#[derive(Debug, Clone, PartialEq, Eq)]
pub struct PopGood {
    pub id: String,
    pub label: String,
    pub tradeable: bool,
}

/// Mitigations one expensive need good gets: cheaper goods, then imports
/// when the good trades.
pub open spec fn block_len(g: PopGood) -> int {
    if g.tradeable { 2 } else { 1 }
}

/// The (at most) two most expensive need goods.
pub open spec fn first_goods(goods: Seq<PopGood>) -> Seq<PopGood> {
    if goods.len() <= 2 { goods } else { goods.take(2) }
}

pub open spec fn blocks_len(gs: Seq<PopGood>) -> int {
    if gs.len() == 0 {
        0
    } else if gs.len() == 1 {
        block_len(gs[0])
    } else {
        block_len(gs[0]) + block_len(gs[1])
    }
}

/// Ids of the pop-shortage mitigations keyed by `sample` (a building id,
/// or the state id when no building is named).
pub open spec fn pops_id(sample: u32, rest: Seq<char>) -> Seq<char> {
    "pops:"@ + decimal(sample as nat) + rest
}

/// The mitigations of one expensive good.
pub open spec fn good_items_ok(ms: Seq<Mitigation>, g: PopGood, sample: u32, state_id: u32) -> bool {
    &&& ms.len() == if g.tradeable { 2int } else { 1int }
    &&& ms[0].id@ == pops_id(sample, ":sol:"@ + g.id@)
    &&& ms[0].title@ == "Lower the price of "@ + g.label@
    &&& ms[0].detail@ == "Pops buy "@ + g.label@ + " as a need. A lower price raises their standard of living, which can keep workers in this state. Adding empty building levels does not hire anyone."@
    &&& ms[0].action matches Some(MitigationAction::SolGoods { good_name, state_id: s }) && good_name@ == g.id@
        && s == Some(state_id)
    &&& g.tradeable ==> {
        &&& ms[1].id@ == pops_id(sample, ":import:"@ + g.id@)
        &&& ms[1].title@ == "Import "@ + g.label@ + " through a trade center"@
        &&& ms[1].detail@ == "Importing "@ + g.label@ + " can make that need cheaper. This tool cannot actually move trade yet."@
        &&& ms[1].action matches Some(MitigationAction::TradeAlloc { state_id: s, good_name }) && good_name@ == g.id@
            && s == state_id
    }
}

pub open spec fn fresh(m: Mitigation) -> bool {
    m.rank == 0 && !m.apply_ready && m.effect is None
}

fn push_good(out: &mut Vec<Mitigation>, g: &PopGood, sample: u32, state_id: u32)
    ensures
        final(out)@.len() == old(out)@.len() + block_len(*g),
        final(out)@.subrange(0, old(out)@.len() as int) == old(out)@,
        good_items_ok(final(out)@.subrange(old(out)@.len() as int, final(out)@.len() as int), *g, sample, state_id),
        forall|i: int| old(out)@.len() <= i < final(out)@.len() ==> fresh(#[trigger] final(out)@[i]),
{
    let ghost start = out@;
    let mut id = owned("pops:");
    push_decimal(&mut id, sample);
    append_str(&mut id, ":sol:");
    append_str(&mut id, g.id.as_str());
    let mut title = owned("Lower the price of ");
    append_str(&mut title, g.label.as_str());
    let mut detail = owned("Pops buy ");
    append_str(&mut detail, g.label.as_str());
    append_str(&mut detail, " as a need. A lower price raises their standard of living, which can keep workers in this state. Adding empty building levels does not hire anyone.");
    let m1 = action_mit(id, title, detail, MitigationAction::SolGoods { good_name: g.id.clone(), state_id: Some(state_id) });
    assert(m1.id@ == pops_id(sample, ":sol:"@ + g.id@));
    assert(m1.title@ == "Lower the price of "@ + g.label@);
    assert(m1.detail@ == "Pops buy "@ + g.label@ + " as a need. A lower price raises their standard of living, which can keep workers in this state. Adding empty building levels does not hire anyone."@);
    out.push(m1);
    assert(out@ == start.push(m1));
    let ghost mid = out@;
    if g.tradeable {
        let mut id2 = owned("pops:");
        push_decimal(&mut id2, sample);
        append_str(&mut id2, ":import:");
        append_str(&mut id2, g.id.as_str());
        let mut title2 = owned("Import ");
        append_str(&mut title2, g.label.as_str());
        append_str(&mut title2, " through a trade center");
        let mut detail2 = owned("Importing ");
        append_str(&mut detail2, g.label.as_str());
        append_str(&mut detail2, " can make that need cheaper. This tool cannot actually move trade yet.");
        let m2 = action_mit(id2, title2, detail2, MitigationAction::TradeAlloc { state_id, good_name: g.id.clone() });
        assert(m2.id@ == pops_id(sample, ":import:"@ + g.id@));
        assert(m2.title@ == "Import "@ + g.label@ + " through a trade center"@);
        assert(m2.detail@ == "Importing "@ + g.label@ + " can make that need cheaper. This tool cannot actually move trade yet."@);
        out.push(m2);
        assert(out@ == mid.push(m2));
    }
    proof {
        let seg = out@.subrange(start.len() as int, out@.len() as int);
        assert(seg[0] == out@[start.len() as int]);
        if g.tradeable {
            assert(seg[1] == out@[start.len() as int + 1]);
        }
        assert(out@.subrange(0, start.len() as int) =~= start);
    }
}

/// Mitigations for a state short of pops (unranked): for each of its two
/// most expensive need goods, cheaper goods and (when it trades) imports;
/// peasants into a commercial farm (`farm`, else rye farms) when the state
/// has peasants; then notes that pops do not migrate in this model and that
/// empty levels do not help. Ids are keyed by `sample_id`, else the state id.
pub fn pop_shortage_mitigations(
    state_id: u32,
    sample_id: Option<u32>,
    goods: &Vec<PopGood>,
    peasants_present: bool,
    farm: Option<String>,
) -> (out: Vec<Mitigation>)
    ensures
        ({
            let gs = first_goods(goods@);
            let sample = match sample_id { Some(s) => s, None => state_id };
            let p = blocks_len(gs);
            let q = p + if peasants_present { 1int } else { 0int };
            &&& out@.len() == q + 2
            &&& forall|i: int| 0 <= i < out@.len() ==> fresh(#[trigger] out@[i])
            &&& gs.len() >= 1 ==> good_items_ok(out@.subrange(0, block_len(gs[0])), gs[0], sample, state_id)
            &&& gs.len() >= 2 ==> good_items_ok(out@.subrange(block_len(gs[0]), p), gs[1], sample, state_id)
            &&& peasants_present ==> {
                &&& out@[p].id@ == pops_id(sample, ":peasants"@)
                &&& out@[p].title@ == "Hire peasants into commercial farms"@
                &&& out@[p].detail@ == "This state still has peasants. Put them in rye or wheat farms so they become farmers and laborers. Subsistence farms already hold leftover peasants and will not fill factory jobs."@
                &&& out@[p].action matches Some(MitigationAction::FeederJob { building_type_name, profession, state_id: s })
                    && building_type_name@ == (match farm { Some(f) => f@, None => "building_rye_farm"@ })
                    && profession@ == "farmers"@ && s == Some(state_id)
            }
            &&& out@[q].id@ == pops_id(sample, ":migration"@)
            &&& out@[q].title@ == "This tool cannot move pops between states"@
            &&& out@[q].detail@ == "In the game, empty buildings can attract migrants. This analyzer does not simulate that, so extra levels will not fill jobs here."@
            &&& out@[q].action is None
            &&& out@[q + 1].id@ == pops_id(sample, ":levels"@)
            &&& out@[q + 1].title@ == "Do not add empty levels"@
            &&& out@[q + 1].detail@ == "More unstaffed levels add jobs this state cannot fill."@
            &&& out@[q + 1].action is None
        }),
{
    let sample = match sample_id {
        Some(s) => s,
        None => state_id,
    };
    let mut out: Vec<Mitigation> = Vec::new();
    let ghost gs = first_goods(goods@);
    if goods.len() >= 1 {
        push_good(&mut out, &goods[0], sample, state_id);
        assert(gs[0] == goods@[0]);
    }
    let ghost after_first = out@;
    if goods.len() >= 2 {
        push_good(&mut out, &goods[1], sample, state_id);
        proof {
            assert(gs[1] == goods@[1]);
            assert(out@.subrange(0, block_len(gs[0])) =~= after_first.subrange(0, block_len(gs[0])));
        }
    }
    let ghost p = out@.len() as int;
    assert(p == blocks_len(gs));
    if peasants_present {
        let mut id = owned("pops:");
        push_decimal(&mut id, sample);
        append_str(&mut id, ":peasants");
        let f = match farm {
            Some(f) => f,
            None => owned("building_rye_farm"),
        };
        out.push(action_mit(
            id,
            owned("Hire peasants into commercial farms"),
            owned("This state still has peasants. Put them in rye or wheat farms so they become farmers and laborers. Subsistence farms already hold leftover peasants and will not fill factory jobs."),
            MitigationAction::FeederJob { building_type_name: f, profession: owned("farmers"), state_id: Some(state_id) },
        ));
    }
    let mut mid = owned("pops:");
    push_decimal(&mut mid, sample);
    append_str(&mut mid, ":migration");
    out.push(plain(
        mid,
        owned("This tool cannot move pops between states"),
        owned("In the game, empty buildings can attract migrants. This analyzer does not simulate that, so extra levels will not fill jobs here."),
    ));
    let mut lid = owned("pops:");
    push_decimal(&mut lid, sample);
    append_str(&mut lid, ":levels");
    out.push(plain(lid, owned("Do not add empty levels"), owned("More unstaffed levels add jobs this state cannot fill.")));
    proof {
        if gs.len() >= 1 {
            assert(out@.subrange(0, block_len(gs[0])) =~= after_first.subrange(0, block_len(gs[0])));
        }
    }
    out
}

/// The profession that blocks a state's buildings, as the alert names it.
#[derive(Debug, Clone, PartialEq, Eq)]
pub struct Blocker {
    pub name: String,
    pub label: Option<String>,
    /// The humanized id, for when there is no label.
    pub pretty: String,
    /// The shortage, as displayed.
    pub shortage_text: String,
}

/// `s` unless there is exactly one.
pub open spec fn plural(n: u32) -> Seq<char> {
    if n == 1 { seq![] } else { "s"@ }
}

/// Title of an employment alert for `place`: which jobs cannot be filled
/// (or that buildings are understaffed) when qualifications are short,
/// else that people are short.
pub open spec fn employment_title(place: Seq<char>, qual_short: bool, blocker: Option<Blocker>) -> Seq<char> {
    if qual_short {
        match blocker {
            Some(b) => place + " buildings cannot fill "@ + (match b.label {
                Some(l) => l@,
                None => b.pretty@,
            }) + " jobs"@,
            None => "Understaffed buildings in "@ + place,
        }
    } else {
        "Not enough people for jobs in "@ + place
    }
}

/// Summary of an employment alert.
pub open spec fn employment_summary(place: Seq<char>, qual_short: bool, blocker: Option<Blocker>, count: u32) -> Seq<char> {
    let n = decimal(count as nat);
    if qual_short {
        match blocker {
            Some(b) => place + " is short "@ + b.shortage_text@ + " "@ + (match b.label {
                Some(l) => l@,
                None => b.name@,
            }) + ". "@ + n + " building"@ + plural(count)
                + " below full staffing. Extra levels add more empty jobs; the qualification shortage for this state has the next steps."@,
            None => n + " building"@ + plural(count) + " in "@ + place
                + " are below full staffing because of missing qualifications."@,
        }
    } else {
        n + " building"@ + plural(count) + " in "@ + place
            + " have open jobs and enough qualified people. The state is short of workers, not diplomas."@
    }
}

fn push_plural(out: &mut String, n: u32)
    ensures
        final(out)@ == old(out)@ + plural(n),
{
    if n != 1 {
        append_str(out, "s");
    } else {
        assert(old(out)@ + plural(n) =~= old(out)@);
    }
}

/// Title and summary of an employment alert (see [`employment_title`] and
/// [`employment_summary`]).
pub fn employment_alert_text(place: &str, qual_short: bool, blocker: &Option<Blocker>, count: u32) -> (r: (String, String))
    ensures
        r.0@ == employment_title(place@, qual_short, *blocker),
        r.1@ == employment_summary(place@, qual_short, *blocker, count),
{
    let mut title = String::new();
    let mut summary = String::new();
    if qual_short {
        match blocker {
            Some(b) => {
                append_str(&mut title, place);
                append_str(&mut title, " buildings cannot fill ");
                match &b.label {
                    Some(l) => append_str(&mut title, l.as_str()),
                    None => append_str(&mut title, b.pretty.as_str()),
                }
                append_str(&mut title, " jobs");
                append_str(&mut summary, place);
                append_str(&mut summary, " is short ");
                append_str(&mut summary, b.shortage_text.as_str());
                append_str(&mut summary, " ");
                match &b.label {
                    Some(l) => append_str(&mut summary, l.as_str()),
                    None => append_str(&mut summary, b.name.as_str()),
                }
                append_str(&mut summary, ". ");
                push_decimal(&mut summary, count);
                append_str(&mut summary, " building");
                push_plural(&mut summary, count);
                append_str(&mut summary, " below full staffing. Extra levels add more empty jobs; the qualification shortage for this state has the next steps.");
            },
            None => {
                append_str(&mut title, "Understaffed buildings in ");
                append_str(&mut title, place);
                push_decimal(&mut summary, count);
                append_str(&mut summary, " building");
                push_plural(&mut summary, count);
                append_str(&mut summary, " in ");
                append_str(&mut summary, place);
                append_str(&mut summary, " are below full staffing because of missing qualifications.");
            },
        }
    } else {
        append_str(&mut title, "Not enough people for jobs in ");
        append_str(&mut title, place);
        push_decimal(&mut summary, count);
        append_str(&mut summary, " building");
        push_plural(&mut summary, count);
        append_str(&mut summary, " in ");
        append_str(&mut summary, place);
        append_str(&mut summary, " have open jobs and enough qualified people. The state is short of workers, not diplomas.");
    }
    proof {
        reveal_strlit("");
        assert(title@ =~= employment_title(place@, qual_short, *blocker));
        assert(summary@ =~= employment_summary(place@, qual_short, *blocker, count));
    }
    (title, summary)
}

/// Id of a state's employment alert: `{kind}:{state}`.
pub fn employment_alert_id(kind: AlertKind, state_id: u32) -> (id: String)
    ensures
        id@ == spec_kind_id(kind) + ":"@ + decimal(state_id as nat),
{
    let mut id = owned(kind_id(kind));
    append_str(&mut id, ":");
    push_decimal(&mut id, state_id);
    id
}

/// The one mitigation of a qualification-blocked employment alert: a
/// pointer to the `target` qualification shortage of the state (`workers`
/// when no profession is named).
pub fn qualification_pointer(state_id: u32, target: Option<&str>, place: &str) -> (m: Mitigation)
    ensures
        m.id@ == "under:"@ + decimal(state_id as nat) + ":qual"@,
        m.title@ == "See the "@ + (match target { Some(t) => t@, None => "workers"@ }) + " qualification shortage for "@ + place@,
        m.detail@ == "These buildings are waiting on qualified workers who do not exist in this state. The steps that create those qualifications are listed on that shortage, not on each mill."@,
        m.action is None,
        fresh(m),
{
    let mut id = owned("under:");
    push_decimal(&mut id, state_id);
    append_str(&mut id, ":qual");
    let mut title = owned("See the ");
    match target {
        Some(t) => append_str(&mut title, t),
        None => append_str(&mut title, "workers"),
    }
    append_str(&mut title, " qualification shortage for ");
    append_str(&mut title, place);
    plain(
        id,
        title,
        owned("These buildings are waiting on qualified workers who do not exist in this state. The steps that create those qualifications are listed on that shortage, not on each mill."),
    )
}


/// A building as the university check reads it: its state, its type, and
/// whether its staffing is below its level (measured by the caller).
#[derive(Debug, Clone, PartialEq, Eq)]
pub struct StaffedBuilding {
    pub state_id: Option<u32>,
    pub building_type_name: String,
    pub understaffed: bool,
}

/// Some building of `bs` in `state_id` is an understaffed university.
pub open spec fn unstaffed_university_at(bs: Seq<StaffedBuilding>, state_id: u32) -> bool {
    exists|i: int| 0 <= i < bs.len() && (#[trigger] bs[i]).state_id == Some(state_id)
        && spec_id_has(bs[i].building_type_name@, "university"@) && bs[i].understaffed
}

fn any_unstaffed_university(bs: &Vec<StaffedBuilding>, state_id: u32) -> (b: bool)
    ensures
        b == unstaffed_university_at(bs@, state_id),
{
    let mut i: usize = 0;
    while i < bs.len()
        invariant
            i <= bs@.len(),
            forall|k: int| 0 <= k < i ==> !((#[trigger] bs@[k]).state_id == Some(state_id)
                && spec_id_has(bs@[k].building_type_name@, "university"@) && bs@[k].understaffed),
        decreases bs@.len() - i,
    {
        let b = &bs[i];
        if b.state_id == Some(state_id) && b.understaffed && id_has(b.building_type_name.as_str(), "university") {
            return true;
        }
        i = i + 1;
    }
    false
}

/// Whether `state_id` already has a university that is not fully staffed,
/// among the solved buildings or the world's.
pub fn has_unstaffed_university(solved: &Vec<StaffedBuilding>, world: &Vec<StaffedBuilding>, state_id: u32) -> (b: bool)
    ensures
        b == (unstaffed_university_at(solved@, state_id) || unstaffed_university_at(world@, state_id)),
{
    any_unstaffed_university(solved, state_id) || any_unstaffed_university(world, state_id)
}

/// A state's qualification row: the profession and whether the state is
/// short of it (measured by the caller).
#[derive(Debug, Clone, PartialEq, Eq)]
pub struct QualShortRow {
    pub state_id: u32,
    pub name: String,
    pub short: bool,
}

/// Some employee profession of a building in state `s` is short there.
pub open spec fn employee_short(s: u32, employees: Seq<String>, rows: Seq<QualShortRow>) -> bool {
    exists|i: int, j: int| 0 <= i < employees.len() && 0 <= j < rows.len() && (#[trigger] rows[j]).state_id == s
        && rows[j].name@ == (#[trigger] employees[i])@ && rows[j].short
}

/// Whether a building (in `state_id`, employing `employees`) is held back
/// by a qualification shortage of its state. A building without a state
/// never is.
pub fn has_employee_qual_shortage(state_id: Option<u32>, employees: &Vec<String>, rows: &Vec<QualShortRow>) -> (b: bool)
    ensures
        b == (state_id matches Some(s) && employee_short(s, employees@, rows@)),
{
    let s = match state_id {
        Some(s) => s,
        None => {
            return false;
        },
    };
    let mut i: usize = 0;
    while i < employees.len()
        invariant
            state_id == Some(s),
            i <= employees@.len(),
            forall|a: int, j: int| 0 <= a < i && 0 <= j < rows@.len() ==> !((#[trigger] rows@[j]).state_id == s
                && rows@[j].name@ == (#[trigger] employees@[a])@ && rows@[j].short),
        decreases employees@.len() - i,
    {
        let mut j: usize = 0;
        while j < rows.len()
            invariant
                state_id == Some(s),
                i < employees@.len(),
                j <= rows@.len(),
                forall|a: int, q: int| 0 <= a < i && 0 <= q < rows@.len() ==> !((#[trigger] rows@[q]).state_id == s
                    && rows@[q].name@ == (#[trigger] employees@[a])@ && rows@[q].short),
                forall|q: int| 0 <= q < j ==> !((#[trigger] rows@[q]).state_id == s
                    && rows@[q].name@ == employees@[i as int]@ && rows@[q].short),
            decreases rows@.len() - j,
        {
            let r = &rows[j];
            if r.state_id == s && r.short && str_eq(r.name.as_str(), employees[i].as_str()) {
                assert(rows@[j as int].name@ == employees@[i as int]@);
                return true;
            }
            j = j + 1;
        }
        i = i + 1;
    }
    false
}


/// State `s` is short of profession `name`.
pub open spec fn name_short(s: u32, name: Seq<char>, rows: Seq<QualShortRow>) -> bool {
    exists|j: int| 0 <= j < rows.len() && (#[trigger] rows[j]).state_id == s && rows[j].name@ == name && rows[j].short
}

fn row_short(s: u32, name: &str, rows: &Vec<QualShortRow>) -> (b: bool)
    ensures
        b == name_short(s, name@, rows@),
{
    let mut j: usize = 0;
    while j < rows.len()
        invariant
            j <= rows@.len(),
            forall|q: int| 0 <= q < j ==> !((#[trigger] rows@[q]).state_id == s && rows@[q].name@ == name@ && rows@[q].short),
        decreases rows@.len() - j,
    {
        let r = &rows[j];
        if r.state_id == s && r.short && str_eq(r.name.as_str(), name) {
            return true;
        }
        j = j + 1;
    }
    false
}

/// The profession whose shortage holds a building back: its first employee
/// profession (in employee order) that its state is short of. A building
/// without a state has none.
pub fn shortage_target(state_id: Option<u32>, employees: &Vec<String>, rows: &Vec<QualShortRow>) -> (r: Option<String>)
    ensures
        (match r {
            Some(t) => state_id matches Some(s) && exists|i: int| 0 <= i < employees@.len() && t@ == (#[trigger] employees@[i])@
                && name_short(s, t@, rows@) && forall|k: int| 0 <= k < i ==> !name_short(s, (#[trigger] employees@[k])@, rows@),
            None => state_id matches Some(s) ==> forall|i: int| 0 <= i < employees@.len() ==> !name_short(s, (#[trigger] employees@[i])@, rows@),
        }),
{
    let s = match state_id {
        Some(s) => s,
        None => {
            return None;
        },
    };
    let mut i: usize = 0;
    while i < employees.len()
        invariant
            state_id == Some(s),
            i <= employees@.len(),
            forall|k: int| 0 <= k < i ==> !name_short(s, (#[trigger] employees@[k])@, rows@),
        decreases employees@.len() - i,
    {
        if row_short(s, employees[i].as_str(), rows) {
            let t = employees[i].clone();
            assert(t@ == employees@[i as int]@);
            return Some(t);
        }
        i = i + 1;
    }
    None
}


/// A building as the employment alerts read it.
#[derive(Debug, Clone, Copy, PartialEq, Eq)]
pub struct StaffingRow {
    pub state_id: Option<u32>,
    /// It has a level and is not fully staffed (measured by the caller).
    pub understaffed: bool,
    /// Some employee profession is short in its state (see
    /// [`has_employee_qual_shortage`]).
    pub qual_short: bool,
}

/// One employment alert to raise: its state and kind, and the rows (by
/// index, in row order) of the buildings it is about.
#[derive(Debug, Clone, PartialEq, Eq)]
pub struct EmploymentAlertPlan {
    pub state_id: u32,
    pub kind: AlertKind,
    pub severity: u8,
    pub qual_short: bool,
    pub buildings: Vec<usize>,
}

/// Abstract view of an [`EmploymentAlertPlan`].
pub struct PlanView {
    pub state_id: u32,
    pub kind: AlertKind,
    pub severity: u8,
    pub qual_short: bool,
    pub buildings: Seq<usize>,
}

pub open spec fn plan_view(p: EmploymentAlertPlan) -> PlanView {
    PlanView { state_id: p.state_id, kind: p.kind, severity: p.severity, qual_short: p.qual_short, buildings: p.buildings@ }
}

/// Row `r` is an understaffed building of state `s`.
pub open spec fn row_in(r: StaffingRow, s: u32) -> bool {
    r.understaffed && r.state_id == Some(s)
}

/// Indices (below `n`) of the understaffed rows of state `s` whose
/// qualification flag is `qual`, in row order.
pub open spec fn rows_in(rows: Seq<StaffingRow>, s: u32, qual: bool, n: int) -> Seq<usize>
    decreases n,
{
    if n <= 0 {
        seq![]
    } else {
        rows_in(rows, s, qual, n - 1) + if row_in(rows[n - 1], s) && rows[n - 1].qual_short == qual {
            seq![(n - 1) as usize]
        } else {
            seq![]
        }
    }
}

/// The alerts of state `s`: workers missing (severity 1) when some of its
/// understaffed buildings lack no qualification, then qualifications
/// missing (severity 2) when some do.
pub open spec fn state_plans(rows: Seq<StaffingRow>, s: u32) -> Seq<PlanView> {
    let pop = rows_in(rows, s, false, rows.len() as int);
    let qual = rows_in(rows, s, true, rows.len() as int);
    (if pop.len() > 0 {
        seq![PlanView { state_id: s, kind: AlertKind::UnfilledPops, severity: 1, qual_short: false, buildings: pop }]
    } else {
        seq![]
    }) + (if qual.len() > 0 {
        seq![PlanView { state_id: s, kind: AlertKind::Underemployed, severity: 2, qual_short: true, buildings: qual }]
    } else {
        seq![]
    })
}

/// The alerts of each state of `states`, in that order.
pub open spec fn plans_over(rows: Seq<StaffingRow>, states: Seq<u32>) -> Seq<PlanView>
    decreases states.len(),
{
    if states.len() == 0 {
        seq![]
    } else {
        plans_over(rows, states.drop_last()) + state_plans(rows, states.last())
    }
}

/// Some understaffed building is in state `s`.
pub open spec fn understaffed_state(rows: Seq<StaffingRow>, s: u32) -> bool {
    exists|i: int| 0 <= i < rows.len() && row_in(#[trigger] rows[i], s)
}

pub open spec fn increasing(v: Seq<u32>) -> bool {
    forall|i: int, j: int| 0 <= i < j < v.len() ==> v[i] < v[j]
}

/// The states with an understaffed building, in increasing order.
pub open spec fn alert_states(rows: Seq<StaffingRow>) -> Seq<u32> {
    choose|v: Seq<u32>| increasing(v) && forall|s: u32| #[trigger] v.contains(s) <==> understaffed_state(rows, s)
}

proof fn lemma_increasing_same_elements(a: Seq<u32>, b: Seq<u32>)
    requires
        increasing(a),
        increasing(b),
        forall|s: u32| #[trigger] a.contains(s) <==> b.contains(s),
    ensures
        a == b,
    decreases a.len(),
{
    if a.len() == 0 {
        if b.len() > 0 {
            assert(b.contains(b[0]));
            assert(a.contains(b[0]));
        }
        assert(a =~= b);
    } else {
        assert(a.contains(a[0]));
        assert(b.contains(a[0]));
        assert(b.contains(b[0]));
        assert(a.contains(b[0]));
        let i = choose|i: int| 0 <= i < a.len() && a[i] == b[0];
        let j = choose|j: int| 0 <= j < b.len() && b[j] == a[0];
        assert(a[0] <= a[i]);
        assert(b[0] <= b[j]);
        let a1 = a.drop_first();
        let b1 = b.drop_first();
        assert forall|s: u32| #[trigger] a1.contains(s) <==> b1.contains(s) by {
            if a1.contains(s) {
                let k = choose|k: int| 0 <= k < a1.len() && a1[k] == s;
                assert(a[k + 1] == s);
                assert(a.contains(s));
                assert(b.contains(s));
                let q = choose|q: int| 0 <= q < b.len() && b[q] == s;
                assert(q != 0);
                assert(b1[q - 1] == s);
            }
            if b1.contains(s) {
                let k = choose|k: int| 0 <= k < b1.len() && b1[k] == s;
                assert(b[k + 1] == s);
                assert(b.contains(s));
                assert(a.contains(s));
                let q = choose|q: int| 0 <= q < a.len() && a[q] == s;
                assert(q != 0);
                assert(a1[q - 1] == s);
            }
        }
        lemma_increasing_same_elements(a1, b1);
        assert forall|k: int| 0 <= k < a.len() implies a[k] == b[k] by {
            if k > 0 {
                assert(a[k] == a1[k - 1]);
                assert(b[k] == b1[k - 1]);
            }
        }
        assert(a =~= b);
    }
}

/// Adds `x` to an increasing list unless it is there, keeping it increasing.
fn insert_state(v: &mut Vec<u32>, x: u32)
    requires
        increasing(old(v)@),
    ensures
        increasing(final(v)@),
        forall|s: u32| #[trigger] final(v)@.contains(s) <==> (old(v)@.contains(s) || s == x),
{
    let ghost w = v@;
    let mut pos: usize = 0;
    while pos < v.len() && v[pos] < x
        invariant
            pos <= v@.len(),
            w == v@,
            forall|k: int| 0 <= k < pos ==> v@[k] < x,
        decreases v@.len() - pos,
    {
        pos = pos + 1;
    }
    if pos < v.len() && v[pos] == x {
        assert forall|s: u32| #[trigger] v@.contains(s) <==> (w.contains(s) || s == x) by {
            if s == x {
                assert(v@[pos as int] == s);
            }
        }
        return;
    }
    v.insert(pos, x);
    assert(v@ =~= w.insert(pos as int, x));
    assert forall|i: int, j: int| 0 <= i < j < v@.len() implies v@[i] < v@[j] by {
        if j < pos {
        } else if j == pos {
        } else if i < pos {
            assert(v@[j] == w[j - 1]);
        } else if i == pos {
            assert(v@[j] == w[j - 1]);
            assert(w[pos as int] >= x);
            if j - 1 > pos {
                assert(w[pos as int] < w[j - 1]);
            }
        } else {
            assert(v@[i] == w[i - 1] && v@[j] == w[j - 1]);
        }
    }
    assert forall|s: u32| #[trigger] v@.contains(s) <==> (w.contains(s) || s == x) by {
        if v@.contains(s) {
            let k = choose|k: int| 0 <= k < v@.len() && v@[k] == s;
            if k < pos {
                assert(w[k] == s);
            } else if k > pos {
                assert(w[k - 1] == s);
            }
        }
        if w.contains(s) {
            let k = choose|k: int| 0 <= k < w.len() && w[k] == s;
            if k < pos {
                assert(v@[k] == s);
            } else {
                assert(v@[k + 1] == s);
            }
        }
        if s == x {
            assert(v@[pos as int] == s);
        }
    }
}

/// Indices of the understaffed rows of state `s` with qualification flag `qual`.
fn rows_of_state(rows: &Vec<StaffingRow>, s: u32, qual: bool) -> (out: Vec<usize>)
    ensures
        out@ == rows_in(rows@, s, qual, rows@.len() as int),
{
    let mut out: Vec<usize> = Vec::new();
    let mut i: usize = 0;
    while i < rows.len()
        invariant
            i <= rows@.len(),
            out@ == rows_in(rows@, s, qual, i as int),
        decreases rows@.len() - i,
    {
        let r = rows[i];
        if r.understaffed && r.state_id == Some(s) && r.qual_short == qual {
            out.push(i);
        }
        assert(out@ =~= rows_in(rows@, s, qual, i + 1));
        i = i + 1;
    }
    out
}

/// Which employment alerts to raise, and whether the "pops do not migrate"
/// limitation applies.
///
/// Understaffed buildings with a state are grouped by state, states in
/// increasing order. For each state, the buildings that lack no
/// qualification give a workers-missing alert (severity 1), then those that
/// lack one give a qualifications-missing alert (severity 2). The limitation
/// applies when some workers-missing alert is raised.
pub fn employment_alert_plans(rows: &Vec<StaffingRow>) -> (r: (Vec<EmploymentAlertPlan>, bool))
    ensures
        r.0@.map_values(|p: EmploymentAlertPlan| plan_view(p)) == plans_over(rows@, alert_states(rows@)),
        r.1 == exists|i: int| 0 <= i < rows@.len() && (#[trigger] rows@[i]).understaffed
            && rows@[i].state_id is Some && !rows@[i].qual_short,
{
    let mut states: Vec<u32> = Vec::new();
    let mut i: usize = 0;
    while i < rows.len()
        invariant
            i <= rows@.len(),
            increasing(states@),
            forall|s: u32| #[trigger] states@.contains(s) <==> exists|k: int| 0 <= k < i && row_in(#[trigger] rows@[k], s),
        decreases rows@.len() - i,
    {
        let r = rows[i];
        let ghost before = states@;
        if r.understaffed {
            if let Some(s) = r.state_id {
                insert_state(&mut states, s);
            }
        }
        assert forall|s: u32| #[trigger] states@.contains(s) <==> exists|k: int| 0 <= k < i + 1 && row_in(#[trigger] rows@[k], s) by {
            if exists|k: int| 0 <= k < i + 1 && row_in(#[trigger] rows@[k], s) {
                let k = choose|k: int| 0 <= k < i + 1 && row_in(#[trigger] rows@[k], s);
                if k < i {
                    assert(before.contains(s));
                }
            }
        }
        i = i + 1;
    }
    proof {
        assert forall|s: u32| #[trigger] states@.contains(s) <==> understaffed_state(rows@, s) by {
            if states@.contains(s) {
                let k = choose|k: int| 0 <= k < rows@.len() && row_in(#[trigger] rows@[k], s);
                assert(row_in(rows@[k], s));
            }
            if understaffed_state(rows@, s) {
                let k = choose|k: int| 0 <= k < rows@.len() && row_in(#[trigger] rows@[k], s);
                assert(row_in(rows@[k], s));
            }
        }
        let c = alert_states(rows@);
        assert(increasing(states@) && forall|s: u32| #[trigger] states@.contains(s) <==> understaffed_state(rows@, s));
        lemma_increasing_same_elements(c, states@);
    }
    let mut plans: Vec<EmploymentAlertPlan> = Vec::new();
    let mut migration = false;
    let mut q: usize = 0;
    while q < states.len()
        invariant
            q <= states@.len(),
            plans@.map_values(|p: EmploymentAlertPlan| plan_view(p)) == plans_over(rows@, states@.subrange(0, q as int)),
            migration == exists|k: int| 0 <= k < q && rows_in(rows@, #[trigger] states@[k], false, rows@.len() as int).len() > 0,
        decreases states@.len() - q,
    {
        let s = states[q];
        let ghost before = plans@.map_values(|p: EmploymentAlertPlan| plan_view(p));
        let pop = rows_of_state(rows, s, false);
        let qual = rows_of_state(rows, s, true);
        if pop.len() > 0 {
            migration = true;
            plans.push(EmploymentAlertPlan { state_id: s, kind: AlertKind::UnfilledPops, severity: 1, qual_short: false, buildings: pop });
        }
        if qual.len() > 0 {
            plans.push(EmploymentAlertPlan { state_id: s, kind: AlertKind::Underemployed, severity: 2, qual_short: true, buildings: qual });
        }
        proof {
            assert(states@.subrange(0, q + 1).drop_last() =~= states@.subrange(0, q as int));
            assert(states@.subrange(0, q + 1).last() == s);
            assert(plans@.map_values(|p: EmploymentAlertPlan| plan_view(p)) =~= before + state_plans(rows@, s));
            if exists|k: int| 0 <= k < q + 1 && rows_in(rows@, #[trigger] states@[k], false, rows@.len() as int).len() > 0 {
                let k = choose|k: int| 0 <= k < q + 1 && rows_in(rows@, #[trigger] states@[k], false, rows@.len() as int).len() > 0;
                if k == q {
                    assert(pop.len() > 0);
                }
            }
        }
        q = q + 1;
    }
    assert(states@.subrange(0, states@.len() as int) =~= states@);
    proof {
        let pops_exist = exists|i: int| 0 <= i < rows@.len() && (#[trigger] rows@[i]).understaffed
            && rows@[i].state_id is Some && !rows@[i].qual_short;
        if pops_exist {
            let i = choose|i: int| 0 <= i < rows@.len() && (#[trigger] rows@[i]).understaffed
                && rows@[i].state_id is Some && !rows@[i].qual_short;
            let s = rows@[i].state_id->0;
            assert(row_in(rows@[i], s));
            assert(states@.contains(s));
            let k = choose|k: int| 0 <= k < states@.len() && states@[k] == s;
            lemma_rows_in_has(rows@, s, false, rows@.len() as int, i);
        }
        if migration {
            let k = choose|k: int| 0 <= k < states@.len() && rows_in(rows@, #[trigger] states@[k], false, rows@.len() as int).len() > 0;
            lemma_rows_in_sound(rows@, states@[k], false, rows@.len() as int);
        }
    }
    (plans, migration)
}

proof fn lemma_rows_in_has(rows: Seq<StaffingRow>, s: u32, qual: bool, n: int, i: int)
    requires
        0 <= i < n <= rows.len(),
        row_in(rows[i], s),
        rows[i].qual_short == qual,
    ensures
        rows_in(rows, s, qual, n).len() > 0,
    decreases n,
{
    if i < n - 1 {
        lemma_rows_in_has(rows, s, qual, n - 1, i);
    }
}

proof fn lemma_rows_in_sound(rows: Seq<StaffingRow>, s: u32, qual: bool, n: int)
    requires
        0 <= n <= rows.len(),
        rows_in(rows, s, qual, n).len() > 0,
    ensures
        exists|i: int| 0 <= i < n && row_in(#[trigger] rows[i], s) && rows[i].qual_short == qual,
    decreases n,
{
    if n > 0 {
        if row_in(rows[n - 1], s) && rows[n - 1].qual_short == qual {
            assert(row_in(rows[n - 1], s));
        } else {
            lemma_rows_in_sound(rows, s, qual, n - 1);
        }
    }
}

} // verus!
