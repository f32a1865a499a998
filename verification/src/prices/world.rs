//! Save-snapshot helpers: country rows, profession key resolution, and
//! which buildings a world delta changes.

use vstd::prelude::*;
use crate::text::{lemma_lex_trans, lex_order, owned};
use crate::prices::optimize::{copy_names, entries_view, PmBuilding};
use crate::prices::result::{ExtraLevelsDelta, WorldDelta};
use crate::sim::names;

verus! {

/// A country of the snapshot.
#[derive(Debug, Clone, PartialEq, Eq)]
pub struct WorldCountry {
    pub id: u32,
    pub tag: String,
    pub laws: Vec<String>,
    pub overlord: Option<u32>,
    pub subject_type: Option<String>,
}

/// Vanilla `common/pop_types` in filename order (index 0 is academics).
pub open spec fn vanilla_pop_type(i: int) -> Seq<char> {
    if i == 0 { "academics"@ }
    else if i == 1 { "aristocrats"@ }
    else if i == 2 { "bureaucrats"@ }
    else if i == 3 { "capitalists"@ }
    else if i == 4 { "clergymen"@ }
    else if i == 5 { "clerks"@ }
    else if i == 6 { "engineers"@ }
    else if i == 7 { "farmers"@ }
    else if i == 8 { "laborers"@ }
    else if i == 9 { "machinists"@ }
    else if i == 10 { "officers"@ }
    else if i == 11 { "peasants"@ }
    else if i == 12 { "shopkeepers"@ }
    else if i == 13 { "slaves"@ }
    else { "soldiers"@ }
}

/// Number of vanilla pop types.
pub open spec fn vanilla_pop_type_count() -> nat {
    15
}

pub open spec fn is_digit(c: char) -> bool {
    48 <= (c as u32) && (c as u32) <= 57
}

/// Value of a run of decimal digits.
pub open spec fn digits_value(d: Seq<char>) -> nat
    decreases d.len(),
{
    if d.len() == 0 {
        0
    } else {
        digits_value(d.drop_last()) * 10 + ((d.last() as u32) - 48) as nat
    }
}

/// The unsigned integer a key spells the way std parses `usize`: an
/// optional `+`, then one or more ASCII digits, nothing else.
pub open spec fn spec_index(s: Seq<char>) -> Option<nat> {
    if index_digits(s).len() > 0 && all_digits(index_digits(s)) {
        Some(digits_value(index_digits(s)))
    } else {
        None
    }
}

/// The key without its optional leading `+`.
pub open spec fn index_digits(s: Seq<char>) -> Seq<char> {
    if s.len() > 0 && s[0] == '+' { s.drop_first() } else { s }
}

pub open spec fn all_digits(d: Seq<char>) -> bool {
    forall|i: int| 0 <= i < d.len() ==> is_digit(#[trigger] d[i])
}

/// Profession id for a save key: a numeric key that indexes the vanilla
/// pop-type list names that type; anything else is kept as is.
pub open spec fn spec_resolve_profession_key(key: Seq<char>) -> Seq<char> {
    match spec_index(key) {
        Some(i) => if i < vanilla_pop_type_count() { vanilla_pop_type(i as int) } else { key },
        None => key,
    }
}

fn vanilla_exec(i: usize) -> (s: &'static str)
    requires
        i < 15,
    ensures
        s@ == vanilla_pop_type(i as int),
{
    if i == 0 { "academics" }
    else if i == 1 { "aristocrats" }
    else if i == 2 { "bureaucrats" }
    else if i == 3 { "capitalists" }
    else if i == 4 { "clergymen" }
    else if i == 5 { "clerks" }
    else if i == 6 { "engineers" }
    else if i == 7 { "farmers" }
    else if i == 8 { "laborers" }
    else if i == 9 { "machinists" }
    else if i == 10 { "officers" }
    else if i == 11 { "peasants" }
    else if i == 12 { "shopkeepers" }
    else if i == 13 { "slaves" }
    else { "soldiers" }
}

/// The key's index when it spells a number below 15.
fn small_index(key: &str) -> (r: Option<usize>)
    ensures
        (match r {
            Some(i) => spec_index(key@) == Some(i as nat) && i < 15,
            None => !(spec_index(key@) matches Some(v) && v < 15),
        }),
{
    let n = key.unicode_len();
    if n == 0 {
        return None;
    }
    let start: usize = if key.get_char(0) == '+' { 1 } else { 0 };
    let ghost d = index_digits(key@);
    assert(d =~= key@.subrange(start as int, n as int));
    if start == n {
        return None;
    }
    let mut acc: usize = 0;
    let mut big = false;
    let mut i: usize = start;
    while i < n
        invariant
            n == key@.len(),
            start <= i <= n,
            d =~= key@.subrange(start as int, n as int),
            d == index_digits(key@),
            forall|k: int| start <= k < i ==> is_digit(#[trigger] key@[k]),
            !big ==> acc as nat == digits_value(key@.subrange(start as int, i as int)) && acc < 15,
            big ==> digits_value(key@.subrange(start as int, i as int)) >= 15,
        decreases n - i,
    {
        let c = key.get_char(i);
        let v = c as u32;
        if v < 48 || v > 57 {
            assert(d[i - start] == c);
            assert(!is_digit(d[i - start]));
            assert(spec_index(key@) is None);
            return None;
        }
        let ghost pre = key@.subrange(start as int, i as int);
        assert(key@.subrange(start as int, i + 1).drop_last() =~= pre);
        assert(key@.subrange(start as int, i + 1).last() == c);
        if !big {
            let next = acc * 10 + ((v - 48) as usize);
            if next >= 15 {
                big = true;
            } else {
                acc = next;
            }
        }
        i = i + 1;
    }
    assert(key@.subrange(start as int, n as int) =~= d);
    assert forall|k: int| 0 <= k < d.len() implies is_digit(#[trigger] d[k]) by {
        assert(d[k] == key@[start + k]);
    }
    if big {
        None
    } else {
        Some(acc)
    }
}

/// `a` sorts before `b` when they agree on their first `k` characters and
/// `a`'s next character is smaller.
proof fn lemma_lex_lt_at(a: Seq<char>, b: Seq<char>, k: int)
    requires
        0 <= k < a.len(),
        k < b.len(),
        forall|i: int| 0 <= i < k ==> a[i] == b[i],
        (a[k] as int) < (b[k] as int),
    ensures
        lex_order(a, b) < 0,
    decreases k,
{
    if k > 0 {
        assert(a[0] == b[0]);
        assert forall|i: int| 0 <= i < k - 1 implies a.drop_first()[i] == b.drop_first()[i] by {
            assert(a[i + 1] == b[i + 1]);
        }
        lemma_lex_lt_at(a.drop_first(), b.drop_first(), k - 1);
    }
}

proof fn lemma_vanilla_adjacent(i: int)
    requires
        0 <= i < 14,
    ensures
        lex_order(vanilla_pop_type(i), vanilla_pop_type(i + 1)) < 0,
{
    reveal_strlit("academics");
    reveal_strlit("aristocrats");
    reveal_strlit("bureaucrats");
    reveal_strlit("capitalists");
    reveal_strlit("clergymen");
    reveal_strlit("clerks");
    reveal_strlit("engineers");
    reveal_strlit("farmers");
    reveal_strlit("laborers");
    reveal_strlit("machinists");
    reveal_strlit("officers");
    reveal_strlit("peasants");
    reveal_strlit("shopkeepers");
    reveal_strlit("slaves");
    reveal_strlit("soldiers");
    let a = vanilla_pop_type(i);
    let b = vanilla_pop_type(i + 1);
    if i == 0 || i == 3 || i == 12 || i == 13 {
        lemma_lex_lt_at(a, b, 1);
    } else if i == 4 {
        lemma_lex_lt_at(a, b, 4);
    } else {
        lemma_lex_lt_at(a, b, 0);
    }
}

proof fn lemma_vanilla_sorted(i: int, j: int)
    requires
        0 <= i < j < 15,
    ensures
        lex_order(vanilla_pop_type(i), vanilla_pop_type(j)) < 0,
    decreases j - i,
{
    lemma_vanilla_adjacent(j - 1);
    if i < j - 1 {
        lemma_vanilla_sorted(i, j - 1);
        lemma_lex_trans(vanilla_pop_type(i), vanilla_pop_type(j - 1), vanilla_pop_type(j));
    }
}

/// Numeric save keys name the vanilla pop types in the order of their
/// definition files (`common/pop_types`, sorted by name): a smaller index
/// resolves to a name that sorts strictly earlier, so different indices
/// give different professions, and every index below the count names one
/// of the vanilla pop types; other keys are kept as they are.
pub proof fn law_profession_keys_in_file_order(k1: Seq<char>, k2: Seq<char>)
    ensures
        (spec_index(k1) matches Some(i) && spec_index(k2) matches Some(j) && i < j && j < 15)
            ==> lex_order(spec_resolve_profession_key(k1), spec_resolve_profession_key(k2)) < 0,
        (spec_index(k1) matches Some(i) && i < 15) ==> seq![
            "academics"@, "aristocrats"@, "bureaucrats"@, "capitalists"@, "clergymen"@, "clerks"@,
            "engineers"@, "farmers"@, "laborers"@, "machinists"@, "officers"@, "peasants"@,
            "shopkeepers"@, "slaves"@, "soldiers"@,
        ].contains(spec_resolve_profession_key(k1)),
        (spec_index(k1) is None || spec_index(k1)->0 >= 15) ==> spec_resolve_profession_key(k1) == k1,
{
    match spec_index(k1) {
        Some(i) => {
            match spec_index(k2) {
                Some(j) => {
                    if i < j && j < 15 {
                        lemma_vanilla_sorted(i as int, j as int);
                    }
                },
                None => {},
            }
            if i < 15 {
                let names = seq![
                    "academics"@, "aristocrats"@, "bureaucrats"@, "capitalists"@, "clergymen"@, "clerks"@,
                    "engineers"@, "farmers"@, "laborers"@, "machinists"@, "officers"@, "peasants"@,
                    "shopkeepers"@, "slaves"@, "soldiers"@,
                ];
                assert(names[i as int] == vanilla_pop_type(i as int));
            }
        },
        None => {},
    }
}

/// See [`spec_resolve_profession_key`].
pub fn resolve_profession_key(key: &str) -> (s: String)
    ensures
        s@ == spec_resolve_profession_key(key@),
{
    match small_index(key) {
        Some(i) => owned(vanilla_exec(i)),
        None => owned(key),
    }
}


/// Extra-level entries for `extra` more levels on each building of type
/// `type_id` among the first `n` of `bs` (in state `state_id` when given),
/// one entry per building id, in building order.
pub open spec fn type_levels(bs: Seq<PmBuilding>, n: int, type_id: Seq<char>, state_id: Option<u32>, extra: u32) -> Seq<ExtraLevelsDelta>
    decreases n,
{
    if n <= 0 {
        Seq::empty()
    } else {
        let prev = type_levels(bs, n - 1, type_id, state_id, extra);
        let b = bs[n - 1];
        if b.building_type@ == type_id && (state_id matches Some(s) ==> b.state == Some(s)) {
            prev.push(ExtraLevelsDelta { building: None, building_id: Some(b.id), extra_levels: extra })
        } else {
            prev
        }
    }
}

/// The delta that adds `extra` levels to every building of type `type_id`
/// (only those in `state_id` when given), naming each building by id.
pub fn extra_levels_on_type(buildings: &Vec<PmBuilding>, type_id: &str, state_id: Option<u32>, extra: u32) -> (d: WorldDelta)
    ensures
        d.extra_levels@ == type_levels(buildings@, buildings@.len() as int, type_id@, state_id, extra),
        d.production_methods@.len() == 0,
        d.subsidize@.len() == 0,
{
    let mut levels: Vec<ExtraLevelsDelta> = Vec::new();
    let mut i: usize = 0;
    while i < buildings.len()
        invariant
            i <= buildings@.len(),
            levels@ == type_levels(buildings@, i as int, type_id@, state_id, extra),
        decreases buildings@.len() - i,
    {
        let b = &buildings[i];
        let in_state = match state_id {
            Some(s) => b.state == Some(s),
            None => true,
        };
        if crate::text::str_eq(b.building_type.as_str(), type_id) && in_state {
            levels.push(ExtraLevelsDelta { building: None, building_id: Some(b.id), extra_levels: extra });
        }
        i = i + 1;
    }
    WorldDelta { production_methods: Vec::new(), extra_levels: levels, subsidize: Vec::new() }
}

/// What a delta does to one building: levels added, the methods it runs
/// afterwards, and whether those methods were replaced (which drops the
/// building's saved goods flows).
#[derive(Debug, Clone, PartialEq, Eq)]
pub struct BuildingChange {
    pub added_levels: u64,
    pub production_methods: Vec<String>,
    pub methods_replaced: bool,
}

/// Index of the first building of `bs` with id `id` (`bs.len()` if none).
pub open spec fn first_with_id(bs: Seq<PmBuilding>, id: u32) -> int
    decreases bs.len(),
{
    if bs.len() == 0 {
        0
    } else if bs[0].id == id {
        0
    } else {
        1 + first_with_id(bs.drop_first(), id)
    }
}

/// Levels that the extra-level entries `es` add to building `i`: an entry
/// with a building id adds to the first building with that id; otherwise an
/// entry with a type adds to every building of that type; an entry with
/// neither adds nothing.
pub open spec fn added_levels(bs: Seq<PmBuilding>, es: Seq<ExtraLevelsDelta>, i: int) -> int
    decreases es.len(),
{
    if es.len() == 0 {
        0
    } else {
        let e = es.last();
        added_levels(bs, es.drop_last(), i) + match e.building_id {
            Some(id) => if first_with_id(bs, id) == i { e.extra_levels as int } else { 0 },
            None => match e.building {
                Some(t) => if bs[i].building_type@ == t@ { e.extra_levels as int } else { 0 },
                None => 0,
            },
        }
    }
}

/// Methods that the production-method entries `pms` set on building `i`:
/// those of the last entry naming the first building with its id.
pub open spec fn replaced_methods(bs: Seq<PmBuilding>, pms: Seq<(u32, Seq<Seq<char>>)>, i: int) -> Option<Seq<Seq<char>>>
    decreases pms.len(),
{
    if pms.len() == 0 {
        None
    } else if first_with_id(bs, pms.last().0) == i {
        Some(pms.last().1)
    } else {
        replaced_methods(bs, pms.drop_last(), i)
    }
}

proof fn lemma_first_with_id(bs: Seq<PmBuilding>, id: u32)
    ensures
        0 <= first_with_id(bs, id) <= bs.len(),
        first_with_id(bs, id) < bs.len() ==> bs[first_with_id(bs, id)].id == id,
        forall|k: int| 0 <= k < first_with_id(bs, id) ==> bs[k].id != id,
    decreases bs.len(),
{
    if bs.len() > 0 && bs[0].id != id {
        lemma_first_with_id(bs.drop_first(), id);
        assert forall|k: int| 0 <= k < first_with_id(bs, id) implies bs[k].id != id by {
            if k > 0 {
                assert(bs[k] == bs.drop_first()[k - 1]);
            }
        }
    }
}

proof fn lemma_added_bound(bs: Seq<PmBuilding>, es: Seq<ExtraLevelsDelta>, i: int)
    ensures
        0 <= added_levels(bs, es, i) <= es.len() * 0xFFFF_FFFF,
    decreases es.len(),
{
    if es.len() > 0 {
        lemma_added_bound(bs, es.drop_last(), i);
        assert(added_levels(bs, es, i) <= added_levels(bs, es.drop_last(), i) + 0xFFFF_FFFF);
        assert((es.len() - 1) * 0xFFFF_FFFF + 0xFFFF_FFFF == es.len() * 0xFFFF_FFFF) by (nonlinear_arith);
    }
}

fn first_index(bs: &Vec<PmBuilding>, id: u32) -> (j: usize)
    ensures
        j as int == first_with_id(bs@, id),
{
    proof {
        lemma_first_with_id(bs@, id);
    }
    let mut j: usize = 0;
    while j < bs.len()
        invariant
            j <= bs@.len(),
            forall|k: int| 0 <= k < j ==> bs@[k].id != id,
            0 <= first_with_id(bs@, id) <= bs@.len(),
            first_with_id(bs@, id) < bs@.len() ==> bs@[first_with_id(bs@, id)].id == id,
            forall|k: int| 0 <= k < first_with_id(bs@, id) ==> bs@[k].id != id,
        decreases bs@.len() - j,
    {
        if bs[j].id == id {
            return j;
        }
        j = j + 1;
    }
    j
}

/// What `delta` does to each building of `buildings`, in building order:
/// extra levels first (see [`added_levels`]), then production methods (see
/// [`replaced_methods`]). Entries naming no building change nothing.
pub fn apply_delta(buildings: &Vec<PmBuilding>, delta: &WorldDelta) -> (out: Vec<BuildingChange>)
    requires
        delta.extra_levels@.len() <= u32::MAX,
    ensures
        out@.len() == buildings@.len(),
        forall|i: int| 0 <= i < out@.len() ==> (#[trigger] out@[i]).added_levels == added_levels(buildings@, delta.extra_levels@, i),
        forall|i: int| 0 <= i < out@.len() ==> match replaced_methods(buildings@, entries_view(delta.production_methods@), i) {
            Some(m) => (#[trigger] out@[i]).methods_replaced && names(out@[i].production_methods@) == m,
            None => !(#[trigger] out@[i]).methods_replaced && names(out@[i].production_methods@) == names(buildings@[i].production_methods@),
        },
{
    let n = buildings.len();
    let mut out: Vec<BuildingChange> = Vec::new();
    let mut i: usize = 0;
    while i < n
        invariant
            n == buildings@.len(),
            i <= n,
            out@.len() == i,
            forall|k: int| 0 <= k < i ==> (#[trigger] out@[k]).added_levels == 0 && !out@[k].methods_replaced
                && names(out@[k].production_methods@) == names(buildings@[k].production_methods@),
        decreases n - i,
    {
        out.push(BuildingChange { added_levels: 0, production_methods: copy_names(&buildings[i].production_methods), methods_replaced: false });
        i = i + 1;
    }
    let es = &delta.extra_levels;
    let mut k: usize = 0;
    while k < es.len()
        invariant
            n == buildings@.len(),
            out@.len() == n,
            k <= es@.len(),
            es@.len() <= u32::MAX,
            *es == delta.extra_levels,
            forall|q: int| 0 <= q < n ==> (#[trigger] out@[q]).added_levels == added_levels(buildings@, es@.subrange(0, k as int), q),
            forall|q: int| 0 <= q < n ==> !(#[trigger] out@[q]).methods_replaced
                && names(out@[q].production_methods@) == names(buildings@[q].production_methods@),
        decreases es@.len() - k,
    {
        let ghost pre = es@.subrange(0, k as int);
        let ghost nxt = es@.subrange(0, k + 1);
        assert(nxt.drop_last() =~= pre);
        assert(nxt.last() == es@[k as int]);
        proof {
            assert forall|q: int| 0 <= q < n implies added_levels(buildings@, nxt, q) <= (k + 1) * 0xFFFF_FFFF by {
                lemma_added_bound(buildings@, nxt, q);
            }
            assert((k + 1) * 0xFFFF_FFFF <= 0xFFFF_FFFF * 0xFFFF_FFFF) by (nonlinear_arith)
                requires k + 1 <= 0xFFFF_FFFF;
        }
        let e = &es[k];
        match e.building_id {
            Some(id) => {
                let j = first_index(buildings, id);
                if j < n {
                    assert(added_levels(buildings@, nxt, j as int) == added_levels(buildings@, pre, j as int) + e.extra_levels);
                    assert(added_levels(buildings@, nxt, j as int) <= 0xFFFF_FFFF * 0xFFFF_FFFF);
                    let c = BuildingChange {
                        added_levels: out[j].added_levels + e.extra_levels as u64,
                        production_methods: copy_names(&out[j].production_methods),
                        methods_replaced: false,
                    };
                    out.set(j, c);
                }
            },
            None => match &e.building {
                Some(t) => {
                    let mut q: usize = 0;
                    while q < n
                        invariant
                            n == buildings@.len(),
                            out@.len() == n,
                            q <= n,
                            e.building_id is None,
                            e.building == Some(*t),
                            forall|r: int| 0 <= r < q ==> (#[trigger] out@[r]).added_levels == added_levels(buildings@, nxt, r),
                            forall|r: int| q <= r < n ==> (#[trigger] out@[r]).added_levels == added_levels(buildings@, pre, r),
                            forall|r: int| 0 <= r < n ==> added_levels(buildings@, nxt, r) <= 0xFFFF_FFFF * 0xFFFF_FFFF,
                            forall|r: int| 0 <= r < n ==> added_levels(buildings@, nxt, r) == added_levels(buildings@, pre, r)
                                + if buildings@[r].building_type@ == t@ { e.extra_levels as int } else { 0 },
                            forall|r: int| 0 <= r < n ==> !(#[trigger] out@[r]).methods_replaced
                                && names(out@[r].production_methods@) == names(buildings@[r].production_methods@),
                        decreases n - q,
                    {
                        if crate::text::str_eq(buildings[q].building_type.as_str(), t.as_str()) {
                            assert(added_levels(buildings@, nxt, q as int) <= 0xFFFF_FFFF * 0xFFFF_FFFF);
                            let c = BuildingChange {
                                added_levels: out[q].added_levels + e.extra_levels as u64,
                                production_methods: copy_names(&out[q].production_methods),
                                methods_replaced: false,
                            };
                            out.set(q, c);
                        }
                        q = q + 1;
                    }
                },
                None => {},
            },
        }
        k = k + 1;
    }
    assert(es@.subrange(0, es@.len() as int) =~= es@);
    let pms = &delta.production_methods;
    let ghost pv = entries_view(pms@);
    let mut p: usize = 0;
    while p < pms.len()
        invariant
            n == buildings@.len(),
            out@.len() == n,
            p <= pms@.len(),
            pv == entries_view(pms@),
            forall|q: int| 0 <= q < n ==> (#[trigger] out@[q]).added_levels == added_levels(buildings@, delta.extra_levels@, q),
            forall|q: int| 0 <= q < n ==> match replaced_methods(buildings@, pv.subrange(0, p as int), q) {
                Some(m) => (#[trigger] out@[q]).methods_replaced && names(out@[q].production_methods@) == m,
                None => !(#[trigger] out@[q]).methods_replaced && names(out@[q].production_methods@) == names(buildings@[q].production_methods@),
            },
        decreases pms@.len() - p,
    {
        let ghost pre = pv.subrange(0, p as int);
        let ghost nxt = pv.subrange(0, p + 1);
        assert(nxt.drop_last() =~= pre);
        assert(nxt.last() == pv[p as int]);
        let j = first_index(buildings, pms[p].building_id);
        if j < n {
            let c = BuildingChange {
                added_levels: out[j].added_levels,
                production_methods: copy_names(&pms[p].methods),
                methods_replaced: true,
            };
            out.set(j, c);
        }
        p = p + 1;
    }
    assert(pv.subrange(0, pms@.len() as int) =~= pv);
    out
}


/// Building ids are unique.
pub open spec fn unique_ids(bs: Seq<PmBuilding>) -> bool {
    forall|a: int, b: int| 0 <= a < bs.len() && 0 <= b < bs.len() && a != b ==> bs[a].id != bs[b].id
}

/// Whether building `b` is of type `type_id` (and in `state_id` when given).
pub open spec fn on_type(b: PmBuilding, type_id: Seq<char>, state_id: Option<u32>) -> bool {
    b.building_type@ == type_id && (state_id matches Some(s) ==> b.state == Some(s))
}

/// The delta built for extra levels on a type adds exactly `extra` levels
/// to each building of that type (in the given state) and nothing to any
/// other building, when building ids are unique.
pub proof fn law_type_levels_target(bs: Seq<PmBuilding>, type_id: Seq<char>, state_id: Option<u32>, extra: u32, i: int)
    requires
        unique_ids(bs),
        0 <= i < bs.len(),
    ensures
        added_levels(bs, type_levels(bs, bs.len() as int, type_id, state_id, extra), i)
            == if on_type(bs[i], type_id, state_id) { extra as int } else { 0 },
{
    lemma_type_levels_prefix(bs, bs.len() as int, type_id, state_id, extra, i);
}

proof fn lemma_type_levels_prefix(bs: Seq<PmBuilding>, n: int, type_id: Seq<char>, state_id: Option<u32>, extra: u32, i: int)
    requires
        unique_ids(bs),
        0 <= i < bs.len(),
        0 <= n <= bs.len(),
    ensures
        added_levels(bs, type_levels(bs, n, type_id, state_id, extra), i)
            == if i < n && on_type(bs[i], type_id, state_id) { extra as int } else { 0 },
    decreases n,
{
    if n > 0 {
        lemma_type_levels_prefix(bs, n - 1, type_id, state_id, extra, i);
        let prev = type_levels(bs, n - 1, type_id, state_id, extra);
        let b = bs[n - 1];
        if on_type(b, type_id, state_id) {
            let e = ExtraLevelsDelta { building: None, building_id: Some(b.id), extra_levels: extra };
            assert(prev.push(e).drop_last() =~= prev);
            lemma_first_with_id(bs, b.id);
            assert(first_with_id(bs, b.id) == n - 1);
        }
    }
}

} // verus!
