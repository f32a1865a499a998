//! Qualification-shortage levers: which buildings feed which professions,
//! and the player-facing copy for each lever.
//!
//! Profession ids are matched case-insensitively by substring
//! ([`id_has`]), so `pop_type_machinists` and `machinists` both count as
//! machinists.

use vstd::prelude::*;
use crate::text::{append_str, owned, push_char, insert_unique, strictly_sorted, views};
use crate::prices::alerts::AreaBuilding;

verus! {

/// ASCII lowercase of one character (non-ASCII letters unchanged).
pub open spec fn lower_char(c: char) -> char {
    if 65 <= (c as u32) && (c as u32) <= 90 {
        ((c as u32) + 32) as char
    } else {
        c
    }
}

pub open spec fn lower(s: Seq<char>) -> Seq<char> {
    s.map_values(|c: char| lower_char(c))
}

/// `needle` occurs in `hay` at position `i`.
pub open spec fn occurs_at(hay: Seq<char>, needle: Seq<char>, i: int) -> bool {
    0 <= i && i + needle.len() <= hay.len() && hay.subrange(i, i + needle.len()) == needle
}

/// `needle` occurs somewhere in `hay` (the empty needle always does).
pub open spec fn has_sub(hay: Seq<char>, needle: Seq<char>) -> bool {
    exists|i: int| occurs_at(hay, needle, i)
}

/// Case-insensitive (ASCII) substring test on script ids.
pub open spec fn spec_id_has(id: Seq<char>, needle: Seq<char>) -> bool {
    has_sub(lower(id), lower(needle))
}

fn lower_exec(c: char) -> (r: char)
    ensures
        r == lower_char(c),
{
    let v = c as u32;
    if 65 <= v && v <= 90 {
        let b = (v + 32) as u8;
        b as char
    } else {
        c
    }
}

fn lower_chars(s: &str) -> (out: Vec<char>)
    ensures
        out@ == lower(s@),
{
    let n = s.unicode_len();
    let mut out: Vec<char> = Vec::new();
    let mut i: usize = 0;
    while i < n
        invariant
            n == s@.len(),
            i <= n,
            out@ == lower(s@.subrange(0, i as int)),
        decreases n - i,
    {
        out.push(lower_exec(s.get_char(i)));
        assert(lower(s@.subrange(0, i + 1)) =~= lower(s@.subrange(0, i as int)).push(lower_char(s@[i as int])));
        i = i + 1;
    }
    assert(s@.subrange(0, n as int) =~= s@);
    out
}

fn matches_at(hay: &Vec<char>, needle: &Vec<char>, i: usize) -> (b: bool)
    requires
        i + needle@.len() <= hay@.len(),
    ensures
        b == occurs_at(hay@, needle@, i as int),
{
    let hl = hay.len();
    let mut k: usize = 0;
    while k < needle.len()
        invariant
            hl == hay@.len(),
            i + needle@.len() <= hay@.len(),
            k <= needle@.len(),
            forall|j: int| 0 <= j < k ==> hay@[i + j] == needle@[j],
        decreases needle@.len() - k,
    {
        if hay[i + k] != needle[k] {
            assert(hay@.subrange(i as int, i + needle@.len())[k as int] != needle@[k as int]);
            return false;
        }
        k = k + 1;
    }
    assert(hay@.subrange(i as int, i + needle@.len()) =~= needle@);
    true
}

/// Whether `id` contains `needle`, ignoring ASCII case.
pub fn id_has(id: &str, needle: &str) -> (b: bool)
    ensures
        b == spec_id_has(id@, needle@),
{
    let hay = lower_chars(id);
    let pat = lower_chars(needle);
    if pat.len() > hay.len() {
        proof {
            if has_sub(hay@, pat@) {
                let i = choose|i: int| occurs_at(hay@, pat@, i);
            }
        }
        return false;
    }
    let last = hay.len() - pat.len();
    let mut i: usize = 0;
    while i <= last
        invariant
            hay@ == lower(id@),
            pat@ == lower(needle@),
            last == hay@.len() - pat@.len(),
            pat@.len() <= hay@.len(),
            i <= last,
            forall|j: int| 0 <= j < i ==> !occurs_at(hay@, pat@, j),
        decreases last - i,
    {
        if matches_at(&hay, &pat, i) {
            assert(occurs_at(hay@, pat@, i as int));
            return true;
        }
        if i == last {
            proof {
                if has_sub(hay@, pat@) {
                    let j = choose|j: int| occurs_at(hay@, pat@, j);
                    assert(j <= last);
                }
            }
            return false;
        }
        i = i + 1;
    }
    proof {
        if has_sub(hay@, pat@) {
            let j = choose|j: int| occurs_at(hay@, pat@, j);
            assert(j <= last);
        }
    }
    false
}

/// Kinds of building that move pops into or out of a profession.
#[derive(Debug, Clone, Copy, PartialEq, Eq, Structural, PartialOrd, Ord, Hash)]
pub enum LeverKey {
    Farm,
    Mine,
    Workshop,
    Government,
    Urban,
    Barracks,
    University,
    Wealth,
    AlwaysHire,
}

/// Stable lower-case id of a lever (also its copy-table key).
pub open spec fn lever_id(k: LeverKey) -> Seq<char> {
    match k {
        LeverKey::Farm => "farm"@,
        LeverKey::Mine => "mine"@,
        LeverKey::Workshop => "workshop"@,
        LeverKey::Government => "government"@,
        LeverKey::Urban => "urban"@,
        LeverKey::Barracks => "barracks"@,
        LeverKey::University => "university"@,
        LeverKey::Wealth => "wealth"@,
        LeverKey::AlwaysHire => "always_hire"@,
    }
}

/// Whether the lever's own buildings already employ `target` (so building
/// more of them competes for the short profession instead of feeding it).
pub open spec fn spec_employs_target(k: LeverKey, target: Seq<char>) -> bool {
    match k {
        LeverKey::Workshop => spec_id_has(target, "machinist"@),
        LeverKey::University => spec_id_has(target, "academic"@),
        LeverKey::Government => spec_id_has(target, "bureaucrat"@) || spec_id_has(target, "clerk"@),
        LeverKey::Urban => spec_id_has(target, "shopkeeper"@) || spec_id_has(target, "clerg"@),
        LeverKey::Barracks => spec_id_has(target, "soldier"@) || spec_id_has(target, "officer"@),
        LeverKey::Farm => spec_id_has(target, "farmer"@),
        _ => false,
    }
}

/// Vanilla building to suggest when no matching building is known.
pub open spec fn spec_fallback_building(k: LeverKey) -> Seq<char> {
    match k {
        LeverKey::Farm => "building_rye_farm"@,
        LeverKey::Mine => "building_coal_mine"@,
        LeverKey::Workshop => "building_tooling_workshop"@,
        LeverKey::Government => "building_government_administration"@,
        LeverKey::Urban => "building_urban_center"@,
        LeverKey::Barracks => "building_barracks"@,
        LeverKey::University => "building_university"@,
        _ => ""@,
    }
}

/// Building-id fragments that identify the lever's buildings.
pub open spec fn spec_needles(k: LeverKey) -> Seq<Seq<char>> {
    match k {
        LeverKey::Farm => seq!["farm"@],
        LeverKey::Mine => seq!["mine"@],
        LeverKey::Workshop => seq!["workshop"@, "manufactur"@],
        LeverKey::Government => seq!["government"@],
        LeverKey::Urban => seq!["urban_center"@],
        LeverKey::Barracks => seq!["barrack"@, "headquarter"@],
        LeverKey::University => seq!["university"@],
        _ => seq![],
    }
}

impl LeverKey {
    /// Stable lower-case id (see [`lever_id`]).
    pub fn as_str(self) -> (s: &'static str)
        ensures
            s@ == lever_id(self),
    {
        match self {
            LeverKey::Farm => "farm",
            LeverKey::Mine => "mine",
            LeverKey::Workshop => "workshop",
            LeverKey::Government => "government",
            LeverKey::Urban => "urban",
            LeverKey::Barracks => "barracks",
            LeverKey::University => "university",
            LeverKey::Wealth => "wealth",
            LeverKey::AlwaysHire => "always_hire",
        }
    }

    /// See [`spec_employs_target`].
    pub fn employs_target(self, target: &str) -> (b: bool)
        ensures
            b == spec_employs_target(self, target@),
    {
        match self {
            LeverKey::Workshop => id_has(target, "machinist"),
            LeverKey::University => id_has(target, "academic"),
            LeverKey::Government => id_has(target, "bureaucrat") || id_has(target, "clerk"),
            LeverKey::Urban => id_has(target, "shopkeeper") || id_has(target, "clerg"),
            LeverKey::Barracks => id_has(target, "soldier") || id_has(target, "officer"),
            LeverKey::Farm => id_has(target, "farmer"),
            LeverKey::Mine | LeverKey::Wealth | LeverKey::AlwaysHire => false,
        }
    }

    /// See [`spec_fallback_building`].
    pub fn fallback_building(self) -> (s: &'static str)
        ensures
            s@ == spec_fallback_building(self),
    {
        match self {
            LeverKey::Farm => "building_rye_farm",
            LeverKey::Mine => "building_coal_mine",
            LeverKey::Workshop => "building_tooling_workshop",
            LeverKey::Government => "building_government_administration",
            LeverKey::Urban => "building_urban_center",
            LeverKey::Barracks => "building_barracks",
            LeverKey::University => "building_university",
            LeverKey::Wealth | LeverKey::AlwaysHire => "",
        }
    }

    /// [`Self::fallback_building`] as an owned string.
    pub fn fallback_building_owned(self) -> (s: String)
        ensures
            s@ == spec_fallback_building(self),
    {
        owned(self.fallback_building())
    }

    /// See [`spec_needles`].
    pub fn needles(self) -> (v: Vec<&'static str>)
        ensures
            v@.map_values(|s: &str| s@) == spec_needles(self),
    {
        let mut v: Vec<&'static str> = Vec::new();
        match self {
            LeverKey::Farm => {
                v.push("farm");
            },
            LeverKey::Mine => {
                v.push("mine");
            },
            LeverKey::Workshop => {
                v.push("workshop");
                v.push("manufactur");
            },
            LeverKey::Government => {
                v.push("government");
            },
            LeverKey::Urban => {
                v.push("urban_center");
            },
            LeverKey::Barracks => {
                v.push("barrack");
                v.push("headquarter");
            },
            LeverKey::University => {
                v.push("university");
            },
            LeverKey::Wealth | LeverKey::AlwaysHire => {},
        }
        assert(v@.map_values(|s: &str| s@) =~= spec_needles(self));
        v
    }
}

pub open spec fn opt_lever(flag: bool, k: LeverKey) -> Seq<LeverKey> {
    if flag { seq![k] } else { seq![] }
}

/// Levers that draw pops out of profession `source`, in fixed order:
/// farm (farmers, laborers, peasants), mine (laborers, miners), workshop
/// (machinists), government (bureaucrats, clerks), urban (shopkeepers,
/// clergy), barracks (soldiers, officers).
pub open spec fn spec_levers_for_source(source: Seq<char>) -> Seq<LeverKey> {
    opt_lever(spec_id_has(source, "farmer"@) || spec_id_has(source, "laborer"@) || spec_id_has(source, "peasant"@), LeverKey::Farm)
        + opt_lever(spec_id_has(source, "laborer"@) || spec_id_has(source, "miner"@), LeverKey::Mine)
        + opt_lever(spec_id_has(source, "machinist"@), LeverKey::Workshop)
        + opt_lever(spec_id_has(source, "bureaucrat"@) || spec_id_has(source, "clerk"@), LeverKey::Government)
        + opt_lever(spec_id_has(source, "shopkeeper"@) || spec_id_has(source, "clerg"@), LeverKey::Urban)
        + opt_lever(spec_id_has(source, "soldier"@) || spec_id_has(source, "officer"@), LeverKey::Barracks)
}

/// The levers drawn for a source profession are the ones whose buildings
/// hire that profession: every lever (other than the university) whose
/// buildings employ the source is among them — government for bureaucrats
/// and clerks, workshops for machinists, urban centers for shopkeepers and
/// clergy, barracks for soldiers and officers, farms for farmers — and so
/// are farms and mines for laborers, farms for peasants and mines for
/// miners. No lever is listed twice, and only these reasons list one.
pub proof fn law_levers_hire_the_source(source: Seq<char>)
    ensures
        forall|k: LeverKey| k != LeverKey::University && #[trigger] spec_employs_target(k, source)
            ==> spec_levers_for_source(source).contains(k),
        spec_id_has(source, "laborer"@) ==> spec_levers_for_source(source).contains(LeverKey::Farm)
            && spec_levers_for_source(source).contains(LeverKey::Mine),
        spec_id_has(source, "peasant"@) ==> spec_levers_for_source(source).contains(LeverKey::Farm),
        spec_id_has(source, "miner"@) ==> spec_levers_for_source(source).contains(LeverKey::Mine),
        forall|k: LeverKey| #[trigger] spec_levers_for_source(source).contains(k) ==> spec_employs_target(k, source)
            || (k == LeverKey::Farm && (spec_id_has(source, "laborer"@) || spec_id_has(source, "peasant"@)))
            || (k == LeverKey::Mine && (spec_id_has(source, "laborer"@) || spec_id_has(source, "miner"@))),
        spec_levers_for_source(source).no_duplicates(),
{
    let fa = spec_id_has(source, "farmer"@) || spec_id_has(source, "laborer"@) || spec_id_has(source, "peasant"@);
    let mi = spec_id_has(source, "laborer"@) || spec_id_has(source, "miner"@);
    let wo = spec_id_has(source, "machinist"@);
    let go = spec_id_has(source, "bureaucrat"@) || spec_id_has(source, "clerk"@);
    let ur = spec_id_has(source, "shopkeeper"@) || spec_id_has(source, "clerg"@);
    let ba = spec_id_has(source, "soldier"@) || spec_id_has(source, "officer"@);
    let s0 = Seq::<LeverKey>::empty();
    let s1 = s0 + opt_lever(fa, LeverKey::Farm);
    lemma_add_lever(s0, fa, LeverKey::Farm);
    let s2 = s1 + opt_lever(mi, LeverKey::Mine);
    lemma_add_lever(s1, mi, LeverKey::Mine);
    let s3 = s2 + opt_lever(wo, LeverKey::Workshop);
    lemma_add_lever(s2, wo, LeverKey::Workshop);
    let s4 = s3 + opt_lever(go, LeverKey::Government);
    lemma_add_lever(s3, go, LeverKey::Government);
    let s5 = s4 + opt_lever(ur, LeverKey::Urban);
    lemma_add_lever(s4, ur, LeverKey::Urban);
    let s6 = s5 + opt_lever(ba, LeverKey::Barracks);
    lemma_add_lever(s5, ba, LeverKey::Barracks);
    assert(s1 =~= opt_lever(fa, LeverKey::Farm));
    assert(spec_levers_for_source(source) == s6);
}

proof fn lemma_add_lever(s: Seq<LeverKey>, flag: bool, k: LeverKey)
    requires
        s.no_duplicates(),
        !s.contains(k),
    ensures
        (s + opt_lever(flag, k)).no_duplicates(),
        forall|x: LeverKey| #[trigger] (s + opt_lever(flag, k)).contains(x) <==> (s.contains(x) || (flag && x == k)),
{
    let t = s + opt_lever(flag, k);
    if flag {
        assert(t =~= s.push(k));
        assert forall|x: LeverKey| #[trigger] t.contains(x) <==> (s.contains(x) || (flag && x == k)) by {
            if t.contains(x) {
                let i = choose|i: int| 0 <= i < t.len() && t[i] == x;
                if i < s.len() {
                    assert(s[i] == x);
                }
            }
            if s.contains(x) {
                let i = choose|i: int| 0 <= i < s.len() && s[i] == x;
                assert(t[i] == x);
            }
            if x == k {
                assert(t[s.len() as int] == x);
            }
        }
        assert forall|i: int, j: int| 0 <= i < j < t.len() implies t[i] != t[j] by {
            if j == s.len() {
                assert(t[i] == s[i]);
            }
        }
    } else {
        assert(t =~= s);
    }
}

fn push_if(keys: &mut Vec<LeverKey>, flag: bool, k: LeverKey)
    ensures
        final(keys)@ == old(keys)@ + opt_lever(flag, k),
{
    if flag {
        keys.push(k);
    }
    assert(final(keys)@ =~= old(keys)@ + opt_lever(flag, k));
}

/// See [`spec_levers_for_source`].
pub fn levers_for_source(source: &str) -> (keys: Vec<LeverKey>)
    ensures
        keys@ == spec_levers_for_source(source@),
{
    let farmer = id_has(source, "farmer");
    let laborer = id_has(source, "laborer");
    let peasant = id_has(source, "peasant");
    let miner = id_has(source, "miner");
    let machinist = id_has(source, "machinist");
    let bureaucrat = id_has(source, "bureaucrat");
    let clerk = id_has(source, "clerk");
    let shopkeeper = id_has(source, "shopkeeper");
    let clergy = id_has(source, "clerg");
    let soldier = id_has(source, "soldier");
    let officer = id_has(source, "officer");
    let mut keys: Vec<LeverKey> = Vec::new();
    push_if(&mut keys, farmer || laborer || peasant, LeverKey::Farm);
    push_if(&mut keys, laborer || miner, LeverKey::Mine);
    push_if(&mut keys, machinist, LeverKey::Workshop);
    push_if(&mut keys, bureaucrat || clerk, LeverKey::Government);
    push_if(&mut keys, shopkeeper || clergy, LeverKey::Urban);
    push_if(&mut keys, soldier || officer, LeverKey::Barracks);
    assert(keys@ =~= spec_levers_for_source(source@));
    keys
}

/// Whether pops of an abundant profession can be hired into `source` jobs:
/// farmers and laborers come from peasants or laborers; otherwise an
/// abundant profession matching `source`, or a feeder (laborers and
/// machinists feed clerks, clerks feed bureaucrats, laborers feed machinists).
pub open spec fn spec_can_hire_from(abundant: Seq<Seq<char>>, source: Seq<char>) -> bool {
    if spec_id_has(source, "farmer"@) || spec_id_has(source, "laborer"@) {
        exists|i: int| 0 <= i < abundant.len() && (spec_id_has(#[trigger] abundant[i], "peasant"@)
            || spec_id_has(abundant[i], "laborer"@))
    } else {
        exists|i: int| 0 <= i < abundant.len() && (spec_id_has(#[trigger] abundant[i], source)
            || (spec_id_has(source, "clerk"@) && (spec_id_has(abundant[i], "laborer"@) || spec_id_has(abundant[i], "machinist"@)))
            || (spec_id_has(source, "bureaucrat"@) && spec_id_has(abundant[i], "clerk"@))
            || (spec_id_has(source, "machinist"@) && spec_id_has(abundant[i], "laborer"@)))
    }
}

/// See [`spec_can_hire_from`].
pub fn can_hire_from(abundant: &Vec<String>, source: &str) -> (b: bool)
    ensures
        b == spec_can_hire_from(abundant@.map_values(|s: String| s@), source@),
{
    let ghost ab = abundant@.map_values(|s: String| s@);
    let farm_like = id_has(source, "farmer") || id_has(source, "laborer");
    let clerk = id_has(source, "clerk");
    let bureaucrat = id_has(source, "bureaucrat");
    let machinist = id_has(source, "machinist");
    let mut i: usize = 0;
    while i < abundant.len()
        invariant
            ab == abundant@.map_values(|s: String| s@),
            i <= abundant@.len(),
            farm_like == (spec_id_has(source@, "farmer"@) || spec_id_has(source@, "laborer"@)),
            clerk == spec_id_has(source@, "clerk"@),
            bureaucrat == spec_id_has(source@, "bureaucrat"@),
            machinist == spec_id_has(source@, "machinist"@),
            farm_like ==> forall|k: int| 0 <= k < i ==> !(spec_id_has(#[trigger] ab[k], "peasant"@) || spec_id_has(ab[k], "laborer"@)),
            !farm_like ==> forall|k: int| 0 <= k < i ==> !(spec_id_has(#[trigger] ab[k], source@)
                || (clerk && (spec_id_has(ab[k], "laborer"@) || spec_id_has(ab[k], "machinist"@)))
                || (bureaucrat && spec_id_has(ab[k], "clerk"@))
                || (machinist && spec_id_has(ab[k], "laborer"@))),
        decreases abundant@.len() - i,
    {
        let id = abundant[i].as_str();
        assert(ab[i as int] == id@);
        let hit = if farm_like {
            id_has(id, "peasant") || id_has(id, "laborer")
        } else {
            id_has(id, source) || (clerk && (id_has(id, "laborer") || id_has(id, "machinist")))
                || (bureaucrat && id_has(id, "clerk")) || (machinist && id_has(id, "laborer"))
        };
        if hit {
            return true;
        }
        i = i + 1;
    }
    false
}

/// Player-facing text for one lever: `{target}`, `{source}` and
/// `{building}` placeholders are filled in by [`fill_lever`].
#[derive(Debug, Clone, PartialEq, Eq)]
pub struct LeverCopy {
    pub title: String,
    pub detail: String,
}

/// Lever texts for one profession, keyed by [`LeverKey::as_str`].
#[derive(Debug, Clone, PartialEq, Eq)]
pub struct ProfessionCopy {
    pub levers: Vec<(String, LeverCopy)>,
}

/// A lever chosen for a qualification shortage, with its filled-in text.
#[derive(Debug, Clone, PartialEq, Eq)]
pub struct ChosenLever {
    pub key: LeverKey,
    pub title: String,
    pub detail: String,
    pub building: Option<String>,
    pub source: String,
}

/// `s` with every non-overlapping occurrence of `pat` (left to right)
/// replaced by `rep`.
pub open spec fn replace_all(s: Seq<char>, pat: Seq<char>, rep: Seq<char>) -> Seq<char>
    recommends
        pat.len() > 0,
    decreases s.len(),
{
    if s.len() == 0 || pat.len() == 0 {
        s
    } else if pat.len() <= s.len() && s.subrange(0, pat.len() as int) == pat {
        rep + replace_all(s.subrange(pat.len() as int, s.len() as int), pat, rep)
    } else {
        seq![s[0]] + replace_all(s.drop_first(), pat, rep)
    }
}

fn prefix_at(s: &Vec<char>, i: usize, pat: &Vec<char>) -> (b: bool)
    requires
        i <= s@.len(),
    ensures
        b == (pat@.len() <= s@.len() - i && s@.subrange(i as int, s@.len() as int).subrange(0, pat@.len() as int) == pat@),
{
    let sl = s.len();
    if pat.len() > sl - i {
        return false;
    }
    let mut k: usize = 0;
    while k < pat.len()
        invariant
            sl == s@.len(),
            i <= s@.len(),
            pat@.len() <= s@.len() - i,
            k <= pat@.len(),
            forall|j: int| 0 <= j < k ==> s@[i + j] == pat@[j],
        decreases pat@.len() - k,
    {
        if s[i + k] != pat[k] {
            assert(s@.subrange(i as int, s@.len() as int).subrange(0, pat@.len() as int)[k as int] != pat@[k as int]);
            return false;
        }
        k = k + 1;
    }
    assert(s@.subrange(i as int, s@.len() as int).subrange(0, pat@.len() as int) =~= pat@);
    true
}

/// Replaces every non-overlapping occurrence of `pat` in `s` with `rep`,
/// scanning left to right (std `str::replace`).
pub fn replace_str(s: &str, pat: &str, rep: &str) -> (out: String)
    requires
        pat@.len() > 0,
    ensures
        out@ == replace_all(s@, pat@, rep@),
{
    let cs = crate::text::chars_of(s);
    let ps = crate::text::chars_of(pat);
    let n = cs.len();
    let mut out = String::new();
    let mut i: usize = 0;
    assert(cs@.subrange(0, n as int) =~= s@);
    while i < n
        invariant
            cs@ == s@,
            ps@ == pat@,
            n == cs@.len(),
            pat@.len() > 0,
            i <= n,
            out@ + replace_all(cs@.subrange(i as int, n as int), pat@, rep@) == replace_all(s@, pat@, rep@),
        decreases n - i,
    {
        let ghost rest = cs@.subrange(i as int, n as int);
        let ghost before = out@;
        if prefix_at(&cs, i, &ps) {
            append_str(&mut out, rep);
            assert(rest.subrange(ps@.len() as int, rest.len() as int) =~= cs@.subrange(i + ps@.len(), n as int));
            i = i + ps.len();
        } else {
            push_char(&mut out, cs[i]);
            assert(rest.drop_first() =~= cs@.subrange(i + 1, n as int));
            assert(out@ =~= before + seq![rest[0]]);
            i = i + 1;
        }
    }
    assert(cs@.subrange(n as int, n as int) =~= Seq::<char>::empty());
    out
}

/// Fills the `{target}`, `{source}` and `{building}` placeholders, in that order.
pub open spec fn spec_subst(text: Seq<char>, target: Seq<char>, source: Seq<char>, building: Seq<char>) -> Seq<char> {
    replace_all(
        replace_all(replace_all(text, "{target}"@, target), "{source}"@, source),
        "{building}"@,
        building,
    )
}

/// See [`spec_subst`].
pub fn subst(text: &str, target: &str, source: &str, building: &str) -> (out: String)
    ensures
        out@ == spec_subst(text@, target@, source@, building@),
{
    proof {
        reveal_strlit("{target}");
        reveal_strlit("{source}");
        reveal_strlit("{building}");
    }
    let a = replace_str(text, "{target}", target);
    let b = replace_str(a.as_str(), "{source}", source);
    replace_str(b.as_str(), "{building}", building)
}

/// The copy entry stored under `key`, if any (first entry wins).
pub open spec fn lookup_copy(levers: Seq<(String, LeverCopy)>, key: Seq<char>) -> Option<LeverCopy>
    decreases levers.len(),
{
    if levers.len() == 0 {
        None
    } else if levers[0].0@ == key {
        Some(levers[0].1)
    } else {
        lookup_copy(levers.drop_first(), key)
    }
}

fn find_copy<'a>(levers: &'a Vec<(String, LeverCopy)>, key: &str) -> (r: Option<&'a LeverCopy>)
    ensures
        (match r {
            Some(c) => lookup_copy(levers@, key@) == Some(*c),
            None => lookup_copy(levers@, key@) is None,
        }),
{
    let mut i: usize = 0;
    assert(levers@.subrange(0, levers@.len() as int) =~= levers@);
    while i < levers.len()
        invariant
            i <= levers@.len(),
            lookup_copy(levers@, key@) == lookup_copy(levers@.subrange(i as int, levers@.len() as int), key@),
        decreases levers@.len() - i,
    {
        assert(levers@.subrange(i as int, levers@.len() as int).drop_first() =~= levers@.subrange(i + 1, levers@.len() as int));
        if crate::text::str_eq(levers[i].0.as_str(), key) {
            return Some(&levers[i].1);
        }
        i = i + 1;
    }
    None
}

/// Text used for lever `key`: the profession's copy, else the defaults'
/// copy, else the lever id as title with an empty detail.
pub open spec fn chosen_copy(key: LeverKey, copy: ProfessionCopy, defaults: ProfessionCopy) -> (Seq<char>, Seq<char>) {
    match lookup_copy(copy.levers@, lever_id(key)) {
        Some(c) => (c.title@, c.detail@),
        None => match lookup_copy(defaults.levers@, lever_id(key)) {
            Some(c) => (c.title@, c.detail@),
            None => (lever_id(key), seq![]),
        },
    }
}

/// Builds a [`ChosenLever`]: placeholders are filled with `target`,
/// `source`, and `building` (or the lever's fallback building).
pub fn fill_lever(
    key: LeverKey,
    copy: &ProfessionCopy,
    defaults: &ProfessionCopy,
    target: &str,
    source: &str,
    building: Option<String>,
) -> (c: ChosenLever)
    ensures
        c.key == key,
        c.title@ == spec_subst(
            chosen_copy(key, *copy, *defaults).0,
            target@,
            source@,
            match building {
                Some(b) => b@,
                None => spec_fallback_building(key),
            },
        ),
        c.detail@ == spec_subst(
            chosen_copy(key, *copy, *defaults).1,
            target@,
            source@,
            match building {
                Some(b) => b@,
                None => spec_fallback_building(key),
            },
        ),
        c.building == building,
        c.source@ == source@,
{
    let id = key.as_str();
    let (title, detail) = match find_copy(&copy.levers, id) {
        Some(c) => (c.title.clone(), c.detail.clone()),
        None => match find_copy(&defaults.levers, id) {
            Some(c) => (c.title.clone(), c.detail.clone()),
            None => (owned(id), String::new()),
        },
    };
    let (t, d) = match &building {
        Some(b) => (subst(title.as_str(), target, source, b.as_str()), subst(detail.as_str(), target, source, b.as_str())),
        None => {
            let fb = key.fallback_building();
            (subst(title.as_str(), target, source, fb), subst(detail.as_str(), target, source, fb))
        },
    };
    ChosenLever { key, title: t, detail: d, building, source: owned(source) }
}

/// Copy for profession `target`: the entry with exactly that id, else the
/// first entry whose id occurs in `target`, else `defaults`.
pub fn profession_copy<'a>(
    files: &'a Vec<(String, ProfessionCopy)>,
    defaults: &'a ProfessionCopy,
    target: &str,
) -> (c: &'a ProfessionCopy)
    ensures
        (exists|i: int| 0 <= i < files@.len() && #[trigger] files@[i].0@ == target@) ==> exists|i: int|
            0 <= i < files@.len() && #[trigger] files@[i].0@ == target@ && *c == files@[i].1,
        (!exists|i: int| 0 <= i < files@.len() && #[trigger] files@[i].0@ == target@) ==> (
        (exists|i: int| 0 <= i < files@.len() && spec_id_has(target@, #[trigger] files@[i].0@)) ==> exists|i: int|
            0 <= i < files@.len() && spec_id_has(target@, #[trigger] files@[i].0@) && *c == files@[i].1
            && forall|j: int| 0 <= j < i ==> !spec_id_has(target@, #[trigger] files@[j].0@)),
        (!exists|i: int| 0 <= i < files@.len() && spec_id_has(target@, #[trigger] files@[i].0@)) ==> *c == *defaults,
{
    let mut i: usize = 0;
    while i < files.len()
        invariant
            i <= files@.len(),
            forall|k: int| 0 <= k < i ==> #[trigger] files@[k].0@ != target@,
        decreases files@.len() - i,
    {
        if crate::text::str_eq(files[i].0.as_str(), target) {
            proof {
                let t = lower(target@);
                assert(t.subrange(0, t.len() as int) =~= t);
                assert(occurs_at(t, lower(files@[i as int].0@), 0));
            }
            return &files[i].1;
        }
        i = i + 1;
    }
    let mut j: usize = 0;
    while j < files.len()
        invariant
            j <= files@.len(),
            forall|k: int| 0 <= k < files@.len() ==> #[trigger] files@[k].0@ != target@,
            forall|k: int| 0 <= k < j ==> !spec_id_has(target@, #[trigger] files@[k].0@),
        decreases files@.len() - j,
    {
        if id_has(target, files[j].0.as_str()) {
            return &files[j].1;
        }
        j = j + 1;
    }
    defaults
}


/// A building definition as the lever lookups read it.
#[derive(Debug, Clone, PartialEq, Eq)]
pub struct BuildingDef {
    pub id: String,
    pub group: Option<String>,
    pub city_type: Option<String>,
    pub production_method_groups: Vec<String>,
}

/// The definitions the lever lookups read: building definitions in id
/// order, the methods of each method group, and the professions each
/// method employs. Lookups take the first entry with a given key.
#[derive(Debug, Clone, PartialEq, Eq)]
pub struct LeverDefs {
    pub buildings: Vec<BuildingDef>,
    pub method_groups: Vec<(String, Vec<String>)>,
    pub method_professions: Vec<(String, Vec<String>)>,
}

/// The first definition of `bs` with id `id`.
pub open spec fn def_of(bs: Seq<BuildingDef>, id: Seq<char>) -> Option<BuildingDef>
    decreases bs.len(),
{
    if bs.len() == 0 {
        None
    } else if bs[0].id@ == id {
        Some(bs[0])
    } else {
        def_of(bs.drop_first(), id)
    }
}

/// The value of the first entry of `es` with key `key`.
pub open spec fn entry_of(es: Seq<(String, Vec<String>)>, key: Seq<char>) -> Option<Seq<Seq<char>>>
    decreases es.len(),
{
    if es.len() == 0 {
        None
    } else if es[0].0@ == key {
        Some(views(es[0].1@))
    } else {
        entry_of(es.drop_first(), key)
    }
}

fn find_def<'a>(bs: &'a Vec<BuildingDef>, id: &str) -> (r: Option<&'a BuildingDef>)
    ensures
        r matches Some(b) ==> def_of(bs@, id@) == Some(*b),
        r is None ==> def_of(bs@, id@) is None,
{
    let mut i: usize = 0;
    assert(bs@.skip(0) =~= bs@);
    while i < bs.len()
        invariant
            i <= bs@.len(),
            def_of(bs@, id@) == def_of(bs@.skip(i as int), id@),
        decreases bs@.len() - i,
    {
        assert(bs@.skip(i as int)[0] == bs@[i as int]);
        if crate::text::str_eq(bs[i].id.as_str(), id) {
            return Some(&bs[i]);
        }
        assert(bs@.skip(i as int).drop_first() =~= bs@.skip(i + 1));
        i = i + 1;
    }
    None
}

fn find_entry<'a>(es: &'a Vec<(String, Vec<String>)>, key: &str) -> (r: Option<&'a Vec<String>>)
    ensures
        r matches Some(v) ==> entry_of(es@, key@) == Some(views(v@)),
        r is None ==> entry_of(es@, key@) is None,
{
    let mut i: usize = 0;
    assert(es@.skip(0) =~= es@);
    while i < es.len()
        invariant
            i <= es@.len(),
            entry_of(es@, key@) == entry_of(es@.skip(i as int), key@),
        decreases es@.len() - i,
    {
        assert(es@.skip(i as int)[0] == es@[i as int]);
        if crate::text::str_eq(es[i].0.as_str(), key) {
            return Some(&es[i].1);
        }
        assert(es@.skip(i as int).drop_first() =~= es@.skip(i + 1));
        i = i + 1;
    }
    None
}

/// Subsistence buildings: the id says so, or the definition's group does.
pub open spec fn spec_is_subsistence(defs: LeverDefs, type_id: Seq<char>) -> bool {
    spec_id_has(type_id, "subsistence"@) || match def_of(defs.buildings@, type_id) {
        Some(b) => match b.group {
            Some(g) => spec_id_has(g@, "subsistence"@),
            None => false,
        },
        None => false,
    }
}

/// See [`spec_is_subsistence`].
pub fn is_subsistence(type_id: &str, defs: &LeverDefs) -> (b: bool)
    ensures
        b == spec_is_subsistence(*defs, type_id@),
{
    if id_has(type_id, "subsistence") {
        return true;
    }
    match find_def(&defs.buildings, type_id) {
        Some(b) => match &b.group {
            Some(g) => id_has(g.as_str(), "subsistence"),
            None => false,
        },
        None => false,
    }
}

/// Whether method `pm` employs profession `p`.
pub open spec fn pm_employs(defs: LeverDefs, pm: Seq<char>, p: Seq<char>) -> bool {
    match entry_of(defs.method_professions@, pm) {
        Some(profs) => profs.contains(p),
        None => false,
    }
}

/// Whether some method of group `g` employs profession `p`.
pub open spec fn group_employs(defs: LeverDefs, g: Seq<char>, p: Seq<char>) -> bool {
    match entry_of(defs.method_groups@, g) {
        Some(pms) => exists|j: int| 0 <= j < pms.len() && pm_employs(defs, #[trigger] pms[j], p),
        None => false,
    }
}

/// Whether some method of a method group of `b` employs profession `p`.
pub open spec fn def_employs(defs: LeverDefs, b: BuildingDef, p: Seq<char>) -> bool {
    exists|i: int| 0 <= i < b.production_method_groups@.len()
        && group_employs(defs, #[trigger] b.production_method_groups@[i]@, p)
}

/// Whether the building type `type_id` employs profession `p` under any of
/// its production methods.
pub open spec fn type_employs(defs: LeverDefs, type_id: Seq<char>, p: Seq<char>) -> bool {
    match def_of(defs.buildings@, type_id) {
        Some(b) => def_employs(defs, b, p),
        None => false,
    }
}

fn add_all(out: &mut Vec<String>, v: &Vec<String>)
    requires
        strictly_sorted(views(old(out)@)),
    ensures
        strictly_sorted(views(final(out)@)),
        forall|t: Seq<char>| #[trigger] views(final(out)@).contains(t) <==> (views(old(out)@).contains(t) || views(v@).contains(t)),
{
    let ghost start = views(out@);
    let mut i: usize = 0;
    while i < v.len()
        invariant
            i <= v@.len(),
            strictly_sorted(views(out@)),
            forall|t: Seq<char>| #[trigger] views(out@).contains(t) <==> (start.contains(t) || views(v@).subrange(0, i as int).contains(t)),
        decreases v@.len() - i,
    {
        insert_unique(out, v[i].clone());
        proof {
            let pre = views(v@).subrange(0, i as int);
            let nxt = views(v@).subrange(0, i + 1);
            assert(nxt =~= pre.push(v@[i as int]@));
            assert forall|t: Seq<char>| nxt.contains(t) <==> (pre.contains(t) || t == v@[i as int]@) by {
                if nxt.contains(t) {
                    let k = choose|k: int| 0 <= k < nxt.len() && nxt[k] == t;
                    if k < i {
                        assert(pre[k] == t);
                    }
                }
                if pre.contains(t) {
                    let k = choose|k: int| 0 <= k < pre.len() && pre[k] == t;
                    assert(nxt[k] == t);
                }
                if t == v@[i as int]@ {
                    assert(nxt[i as int] == t);
                }
            }
        }
        i = i + 1;
    }
    assert(views(v@).subrange(0, v@.len() as int) =~= views(v@));
}

fn add_group(defs: &LeverDefs, out: &mut Vec<String>, g: &str)
    requires
        strictly_sorted(views(old(out)@)),
    ensures
        strictly_sorted(views(final(out)@)),
        forall|t: Seq<char>| #[trigger] views(final(out)@).contains(t) <==> (views(old(out)@).contains(t) || group_employs(*defs, g@, t)),
{
    let pms = match find_entry(&defs.method_groups, g) {
        Some(pms) => pms,
        None => {
            return;
        },
    };
    let ghost start = views(out@);
    let ghost pv = views(pms@);
    let mut j: usize = 0;
    while j < pms.len()
        invariant
            j <= pms@.len(),
            pv == views(pms@),
            entry_of(defs.method_groups@, g@) == Some(pv),
            strictly_sorted(views(out@)),
            forall|t: Seq<char>| #[trigger] views(out@).contains(t) <==> (start.contains(t)
                || exists|k: int| 0 <= k < j && pm_employs(*defs, #[trigger] pv[k], t)),
        decreases pms@.len() - j,
    {
        let ghost before = views(out@);
        match find_entry(&defs.method_professions, pms[j].as_str()) {
            Some(profs) => {
                add_all(out, profs);
            },
            None => {},
        }
        proof {
            assert(pv[j as int] == pms@[j as int]@);
            assert forall|t: Seq<char>| #[trigger] views(out@).contains(t) <==> (start.contains(t)
                || exists|k: int| 0 <= k < j + 1 && pm_employs(*defs, #[trigger] pv[k], t)) by {
                if exists|k: int| 0 <= k < j + 1 && pm_employs(*defs, #[trigger] pv[k], t) {
                    let k = choose|k: int| 0 <= k < j + 1 && pm_employs(*defs, #[trigger] pv[k], t);
                    if k < j {
                        assert(before.contains(t));
                    }
                }
            }
        }
        j = j + 1;
    }
    proof {
        assert(pv.len() == pms@.len());
        assert forall|t: Seq<char>| group_employs(*defs, g@, t) <==> exists|k: int| 0 <= k < pms@.len() && pm_employs(*defs, #[trigger] pv[k], t) by {
            if group_employs(*defs, g@, t) {
                let k = choose|k: int| 0 <= k < pv.len() && pm_employs(*defs, #[trigger] pv[k], t);
                assert(0 <= k < pms@.len() && pm_employs(*defs, pv[k], t));
            }
            if exists|k: int| 0 <= k < pms@.len() && pm_employs(*defs, #[trigger] pv[k], t) {
                let k = choose|k: int| 0 <= k < pms@.len() && pm_employs(*defs, #[trigger] pv[k], t);
                assert(0 <= k < pv.len() && pm_employs(*defs, pv[k], t));
            }
        }
    }
}

/// Professions that the building type `type_id` employs under any of its
/// production methods, once each, in sorted order (empty for an unknown type).
pub fn professions_employed(defs: &LeverDefs, type_id: &str) -> (out: Vec<String>)
    ensures
        strictly_sorted(views(out@)),
        forall|t: Seq<char>| #[trigger] views(out@).contains(t) <==> type_employs(*defs, type_id@, t),
{
    let mut out: Vec<String> = Vec::new();
    let b = match find_def(&defs.buildings, type_id) {
        Some(b) => b,
        None => {
            return out;
        },
    };
    let mut i: usize = 0;
    while i < b.production_method_groups.len()
        invariant
            i <= b.production_method_groups@.len(),
            def_of(defs.buildings@, type_id@) == Some(*b),
            strictly_sorted(views(out@)),
            forall|t: Seq<char>| #[trigger] views(out@).contains(t) <==> exists|k: int|
                0 <= k < i && group_employs(*defs, #[trigger] b.production_method_groups@[k]@, t),
        decreases b.production_method_groups@.len() - i,
    {
        let ghost before = views(out@);
        add_group(defs, &mut out, b.production_method_groups[i].as_str());
        proof {
            assert forall|t: Seq<char>| #[trigger] views(out@).contains(t) <==> exists|k: int|
                0 <= k < i + 1 && group_employs(*defs, #[trigger] b.production_method_groups@[k]@, t) by {
                if exists|k: int| 0 <= k < i + 1 && group_employs(*defs, #[trigger] b.production_method_groups@[k]@, t) {
                    let k = choose|k: int| 0 <= k < i + 1 && group_employs(*defs, #[trigger] b.production_method_groups@[k]@, t);
                    if k < i {
                        assert(before.contains(t));
                    }
                }
            }
        }
        i = i + 1;
    }
    out
}


/// Whether some needle of lever `key` occurs in `type_id`.
pub open spec fn needle_hit(key: LeverKey, type_id: Seq<char>) -> bool {
    exists|i: int| 0 <= i < spec_needles(key).len() && spec_id_has(type_id, #[trigger] spec_needles(key)[i])
}

/// Whether drawing pops out of profession `p` is lever `key`'s job, and its
/// buildings do not themselves employ `p`.
pub open spec fn feeds_lever(key: LeverKey, p: Seq<char>) -> bool {
    spec_levers_for_source(p).contains(key) && !spec_employs_target(key, p)
}

/// Whether building type `type_id` counts as a building of lever `key`: its
/// id carries one of the lever's needles (subsistence farms excepted for the
/// farm lever); otherwise its definition is a non-subsistence farm (farm
/// lever), or it employs a profession that the lever draws from without
/// employing it.
pub open spec fn spec_lever_matches(defs: LeverDefs, key: LeverKey, type_id: Seq<char>) -> bool {
    if needle_hit(key, type_id) {
        !(key == LeverKey::Farm && spec_is_subsistence(defs, type_id))
    } else {
        match def_of(defs.buildings@, type_id) {
            None => false,
            Some(b) => (key == LeverKey::Farm && (b.city_type matches Some(c) && c@ == "farm"@)
                && !spec_is_subsistence(defs, type_id))
                || exists|p: Seq<char>| type_employs(defs, type_id, p) && #[trigger] feeds_lever(key, p),
        }
    }
}

fn has_key(keys: &Vec<LeverKey>, key: LeverKey) -> (b: bool)
    ensures
        b == keys@.contains(key),
{
    let mut i: usize = 0;
    while i < keys.len()
        invariant
            i <= keys@.len(),
            forall|k: int| 0 <= k < i ==> keys@[k] != key,
        decreases keys@.len() - i,
    {
        if keys[i] == key {
            return true;
        }
        i = i + 1;
    }
    false
}

/// See [`spec_lever_matches`].
pub fn lever_matches_building(key: LeverKey, type_id: &str, defs: &LeverDefs) -> (b: bool)
    ensures
        b == spec_lever_matches(*defs, key, type_id@),
{
    let needles = key.needles();
    let ghost nv = needles@.map_values(|s: &str| s@);
    let mut i: usize = 0;
    let mut hit = false;
    while i < needles.len()
        invariant
            i <= needles@.len(),
            nv == needles@.map_values(|s: &str| s@),
            nv == spec_needles(key),
            hit == exists|k: int| 0 <= k < i && spec_id_has(type_id@, #[trigger] nv[k]),
        decreases needles@.len() - i,
    {
        let h = id_has(type_id, needles[i]);
        proof {
            assert(nv[i as int] == needles@[i as int]@);
        }
        hit = hit || h;
        i = i + 1;
    }
    if hit {
        return !(key == LeverKey::Farm && is_subsistence(type_id, defs));
    }
    let b = match find_def(&defs.buildings, type_id) {
        Some(b) => b,
        None => {
            return false;
        },
    };
    if key == LeverKey::Farm {
        let farm_city = match &b.city_type {
            Some(c) => crate::text::str_eq(c.as_str(), "farm"),
            None => false,
        };
        if farm_city && !is_subsistence(type_id, defs) {
            return true;
        }
    }
    let profs = professions_employed(defs, type_id);
    let mut j: usize = 0;
    while j < profs.len()
        invariant
            j <= profs@.len(),
            forall|t: Seq<char>| #[trigger] views(profs@).contains(t) <==> type_employs(*defs, type_id@, t),
            forall|k: int| 0 <= k < j ==> !feeds_lever(key, #[trigger] views(profs@)[k]),
            !needle_hit(key, type_id@),
            def_of(defs.buildings@, type_id@) == Some(*b),
            !(key == LeverKey::Farm && (b.city_type matches Some(c) && c@ == "farm"@)
                && !spec_is_subsistence(*defs, type_id@)),
        decreases profs@.len() - j,
    {
        let p = profs[j].as_str();
        let feeds = has_key(&levers_for_source(p), key) && !key.employs_target(p);
        if feeds {
            proof {
                assert(views(profs@)[j as int] == p@);
                assert(views(profs@).contains(p@));
                assert(feeds_lever(key, p@));
            }
            return true;
        }
        assert(views(profs@)[j as int] == p@);
        j = j + 1;
    }
    proof {
        assert forall|p: Seq<char>| !(type_employs(*defs, type_id@, p) && #[trigger] feeds_lever(key, p)) by {
            if type_employs(*defs, type_id@, p) {
                assert(views(profs@).contains(p));
                let k = choose|k: int| 0 <= k < views(profs@).len() && views(profs@)[k] == p;
            }
        }
    }
    false
}

/// Whether type `type_id` is a non-subsistence building of lever `key`.
pub open spec fn lever_site(defs: LeverDefs, key: LeverKey, type_id: Seq<char>) -> bool {
    !spec_is_subsistence(defs, type_id) && spec_lever_matches(defs, key, type_id)
}

/// Type of the first building of `bs` in state `state_id` that is a
/// [`lever_site`].
pub open spec fn first_state_site(bs: Seq<AreaBuilding>, defs: LeverDefs, state_id: u32, key: LeverKey) -> Option<Seq<char>>
    decreases bs.len(),
{
    if bs.len() == 0 {
        None
    } else if bs[0].state_id == Some(state_id) && lever_site(defs, key, bs[0].building_type_name@) {
        Some(bs[0].building_type_name@)
    } else {
        first_state_site(bs.drop_first(), defs, state_id, key)
    }
}

/// Id of the first definition of `ds` that is a [`lever_site`].
pub open spec fn first_def_site(ds: Seq<BuildingDef>, defs: LeverDefs, key: LeverKey) -> Option<Seq<char>>
    decreases ds.len(),
{
    if ds.len() == 0 {
        None
    } else if lever_site(defs, key, ds[0].id@) {
        Some(ds[0].id@)
    } else {
        first_def_site(ds.drop_first(), defs, key)
    }
}

/// Building to name for lever `key` in a state: the first lever building
/// already in the state, else the first lever building type in the
/// definitions.
pub open spec fn spec_building_for_lever(bs: Seq<AreaBuilding>, defs: LeverDefs, state_id: u32, key: LeverKey) -> Option<Seq<char>> {
    match first_state_site(bs, defs, state_id, key) {
        Some(t) => Some(t),
        None => first_def_site(defs.buildings@, defs, key),
    }
}

/// See [`spec_building_for_lever`]; `buildings` are the solved buildings.
pub fn building_for_lever(buildings: &Vec<AreaBuilding>, defs: &LeverDefs, state_id: u32, key: LeverKey) -> (r: Option<String>)
    ensures
        (match r {
            Some(t) => spec_building_for_lever(buildings@, *defs, state_id, key) == Some(t@),
            None => spec_building_for_lever(buildings@, *defs, state_id, key) is None,
        }),
{
    let mut i: usize = 0;
    assert(buildings@.skip(0) =~= buildings@);
    while i < buildings.len()
        invariant
            i <= buildings@.len(),
            first_state_site(buildings@, *defs, state_id, key) == first_state_site(buildings@.skip(i as int), *defs, state_id, key),
        decreases buildings@.len() - i,
    {
        assert(buildings@.skip(i as int)[0] == buildings@[i as int]);
        let b = &buildings[i];
        if b.state_id == Some(state_id) && !is_subsistence(b.building_type_name.as_str(), defs)
            && lever_matches_building(key, b.building_type_name.as_str(), defs) {
            return Some(b.building_type_name.clone());
        }
        assert(buildings@.skip(i as int).drop_first() =~= buildings@.skip(i + 1));
        i = i + 1;
    }
    let ds = &defs.buildings;
    let mut j: usize = 0;
    assert(ds@.skip(0) =~= ds@);
    while j < ds.len()
        invariant
            j <= ds@.len(),
            *ds == defs.buildings,
            first_state_site(buildings@, *defs, state_id, key) is None,
            first_def_site(ds@, *defs, key) == first_def_site(ds@.skip(j as int), *defs, key),
        decreases ds@.len() - j,
    {
        assert(ds@.skip(j as int)[0] == ds@[j as int]);
        let id = ds[j].id.as_str();
        if !is_subsistence(id, defs) && lever_matches_building(key, id, defs) {
            return Some(ds[j].id.clone());
        }
        assert(ds@.skip(j as int).drop_first() =~= ds@.skip(j + 1));
        j = j + 1;
    }
    None
}

} // verus!
