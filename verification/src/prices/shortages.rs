//! Which goods get a shortage alert, and how each alert is named.
//!
//! A good is short when the market says so (its orders or price, judged by
//! the caller) or when some building lists it among its short inputs. Each
//! short good gets one alert, in good-id order, pointing at the last
//! building that listed it.

use vstd::prelude::*;
use crate::prices::alerts::{goods_kind, kind_id, spec_goods_kind, spec_kind_id};
use crate::prices::result::{find_label, label_of};
use crate::sim::names;
use crate::text::{append_str, insert_unique, owned, str_eq, strictly_sorted, views};

verus! {

/// A building's short inputs, as the solved report lists them.
#[derive(Debug, Clone, PartialEq, Eq)]
pub struct ShortInputs {
    pub id: u32,
    pub state_id: Option<u32>,
    pub short_inputs: Vec<String>,
}

/// A good to raise a shortage alert for.
#[derive(Debug, Clone, PartialEq, Eq)]
pub struct ShortTarget {
    pub good: String,
    /// The last building listing the good as a short input, if any.
    pub building_id: Option<u32>,
    pub state_id: Option<u32>,
    /// The good is short only as some building's input, not on the market.
    pub from_short_inputs: bool,
}

/// The goods of a target list, in order.
pub open spec fn target_goods(v: Seq<ShortTarget>) -> Seq<Seq<char>> {
    v.map_values(|t: ShortTarget| t.good@)
}

/// Building `b` lists good `g` among its short inputs.
pub open spec fn lists(b: ShortInputs, g: Seq<char>) -> bool {
    names(b.short_inputs@).contains(g)
}

/// Index of the last of the first `n` buildings that lists `g`.
pub open spec fn last_lister(bs: Seq<ShortInputs>, g: Seq<char>, n: int) -> Option<int>
    decreases n,
{
    if n <= 0 {
        None
    } else if lists(bs[n - 1], g) {
        Some(n - 1)
    } else {
        last_lister(bs, g, n - 1)
    }
}

/// Good `g` is short on the market or as some building's input.
pub open spec fn is_short_good(market_short: Seq<String>, bs: Seq<ShortInputs>, g: Seq<char>) -> bool {
    names(market_short).contains(g) || exists|i: int| 0 <= i < bs.len() && lists(#[trigger] bs[i], g)
}

/// What the alert of good `g` points at.
pub open spec fn target_ok(t: ShortTarget, market_short: Seq<String>, bs: Seq<ShortInputs>) -> bool {
    let g = t.good@;
    &&& t.from_short_inputs == !names(market_short).contains(g)
    &&& match last_lister(bs, g, bs.len() as int) {
        Some(i) => t.building_id == Some(bs[i].id) && t.state_id == bs[i].state_id,
        None => t.building_id is None && t.state_id is None,
    }
}

fn names_contain(v: &Vec<String>, g: &str) -> (b: bool)
    ensures
        b == names(v@).contains(g@),
{
    let mut i: usize = 0;
    while i < v.len()
        invariant
            i <= v@.len(),
            forall|k: int| 0 <= k < i ==> #[trigger] v@[k]@ != g@,
        decreases v@.len() - i,
    {
        if str_eq(v[i].as_str(), g) {
            assert(names(v@)[i as int] == g@);
            return true;
        }
        i = i + 1;
    }
    proof {
        if names(v@).contains(g@) {
            let k = choose|k: int| 0 <= k < v@.len() && names(v@)[k] == g@;
            assert(v@[k]@ == g@);
        }
    }
    false
}

/// The last building listing `g` as a short input.
fn last_listing(bs: &Vec<ShortInputs>, g: &str) -> (r: Option<usize>)
    ensures
        (match r {
            Some(i) => i < bs@.len() && last_lister(bs@, g@, bs@.len() as int) == Some(i as int),
            None => last_lister(bs@, g@, bs@.len() as int) is None,
        }),
{
    let mut n: usize = bs.len();
    while n > 0
        invariant
            n <= bs@.len(),
            last_lister(bs@, g@, bs@.len() as int) == last_lister(bs@, g@, n as int),
        decreases n,
    {
        if names_contain(&bs[n - 1].short_inputs, g) {
            return Some(n - 1);
        }
        n = n - 1;
    }
    None
}

fn add_names(out: &mut Vec<String>, v: &Vec<String>)
    requires
        strictly_sorted(views(old(out)@)),
    ensures
        strictly_sorted(views(final(out)@)),
        forall|t: Seq<char>| #[trigger] views(final(out)@).contains(t) <==> (views(old(out)@).contains(t) || names(v@).contains(t)),
{
    let ghost start = views(out@);
    let mut i: usize = 0;
    while i < v.len()
        invariant
            i <= v@.len(),
            strictly_sorted(views(out@)),
            forall|t: Seq<char>| #[trigger] views(out@).contains(t) <==> (start.contains(t) || exists|k: int| 0 <= k < i && #[trigger] v@[k]@ == t),
        decreases v@.len() - i,
    {
        let ghost before = views(out@);
        insert_unique(out, v[i].clone());
        proof {
            assert forall|t: Seq<char>| #[trigger] views(out@).contains(t) <==> (start.contains(t) || exists|k: int| 0 <= k < i + 1 && #[trigger] v@[k]@ == t) by {
                if exists|k: int| 0 <= k < i + 1 && #[trigger] v@[k]@ == t {
                    let k = choose|k: int| 0 <= k < i + 1 && #[trigger] v@[k]@ == t;
                    if k < i {
                        assert(before.contains(t));
                    }
                }
            }
        }
        i = i + 1;
    }
    proof {
        assert forall|t: Seq<char>| names(v@).contains(t) <==> exists|k: int| 0 <= k < v@.len() && #[trigger] v@[k]@ == t by {
            if names(v@).contains(t) {
                let k = choose|k: int| 0 <= k < v@.len() && names(v@)[k] == t;
                assert(v@[k]@ == t);
            }
            if exists|k: int| 0 <= k < v@.len() && #[trigger] v@[k]@ == t {
                let k = choose|k: int| 0 <= k < v@.len() && #[trigger] v@[k]@ == t;
                assert(names(v@)[k] == t);
            }
        }
    }
}

/// The goods that get a shortage alert, once each, in good-id order.
///
/// `market_short` lists the goods the market shows short (the caller's
/// order and price test). Every short input of every building adds its good
/// too. Each target points at the last building listing the good as a short
/// input (none when no building does) and says whether the good is short
/// only as an input.
pub fn shortage_targets(market_short: &Vec<String>, buildings: &Vec<ShortInputs>) -> (out: Vec<ShortTarget>)
    ensures
        strictly_sorted(target_goods(out@)),
        forall|g: Seq<char>| #[trigger] target_goods(out@).contains(g)
            <==> is_short_good(market_short@, buildings@, g),
        forall|k: int| 0 <= k < out@.len() ==> target_ok(#[trigger] out@[k], market_short@, buildings@),
{
    let mut goods: Vec<String> = Vec::new();
    add_names(&mut goods, market_short);
    let mut i: usize = 0;
    while i < buildings.len()
        invariant
            i <= buildings@.len(),
            strictly_sorted(views(goods@)),
            forall|g: Seq<char>| #[trigger] views(goods@).contains(g) <==> (names(market_short@).contains(g)
                || exists|k: int| 0 <= k < i && lists(#[trigger] buildings@[k], g)),
        decreases buildings@.len() - i,
    {
        let ghost before = views(goods@);
        add_names(&mut goods, &buildings[i].short_inputs);
        proof {
            assert forall|g: Seq<char>| #[trigger] views(goods@).contains(g) <==> (names(market_short@).contains(g)
                || exists|k: int| 0 <= k < i + 1 && lists(#[trigger] buildings@[k], g)) by {
                if exists|k: int| 0 <= k < i + 1 && lists(#[trigger] buildings@[k], g) {
                    let k = choose|k: int| 0 <= k < i + 1 && lists(#[trigger] buildings@[k], g);
                    if k < i {
                        assert(before.contains(g));
                    }
                }
                if views(goods@).contains(g) && !before.contains(g) {
                    assert(lists(buildings@[i as int], g));
                }
            }
        }
        i = i + 1;
    }
    let mut out: Vec<ShortTarget> = Vec::new();
    let mut k: usize = 0;
    while k < goods.len()
        invariant
            k <= goods@.len(),
            target_goods(out@) == views(goods@).subrange(0, k as int),
            forall|q: int| 0 <= q < out@.len() ==> target_ok(#[trigger] out@[q], market_short@, buildings@),
        decreases goods@.len() - k,
    {
        let g = goods[k].as_str();
        let (building_id, state_id) = match last_listing(buildings, g) {
            Some(b) => (Some(buildings[b].id), buildings[b].state_id),
            None => (None, None),
        };
        let from_short_inputs = !names_contain(market_short, g);
        let ghost before = out@;
        out.push(ShortTarget { good: goods[k].clone(), building_id, state_id, from_short_inputs });
        proof {
            assert(out@.last().good@ == goods@[k as int]@);
            assert(target_goods(out@) =~= target_goods(before).push(goods@[k as int]@));
            assert(views(goods@).subrange(0, k + 1) =~= views(goods@).subrange(0, k as int).push(goods@[k as int]@));
            assert(target_goods(out@) =~= views(goods@).subrange(0, k + 1));
            assert forall|q: int| 0 <= q < out@.len() implies target_ok(#[trigger] out@[q], market_short@, buildings@) by {
                if q < before.len() {
                    assert(out@[q] == before[q]);
                }
            }
        }
        k = k + 1;
    }
    assert(views(goods@).subrange(0, goods@.len() as int) =~= views(goods@));
    out
}

/// Id of the shortage alert of good `good`: its alert kind, a colon, the good.
pub fn shortage_alert_id(good: &str) -> (id: String)
    ensures
        id@ == spec_kind_id(spec_goods_kind(good@)) + ":"@ + good@,
{
    let mut id = owned(kind_id(goods_kind(good)));
    append_str(&mut id, ":");
    append_str(&mut id, good);
    id
}

/// Display name of a short good: its market row's label, else its label in
/// the definitions, else its id.
pub open spec fn display_name(row_label: Option<Seq<char>>, labels: Seq<(String, String)>, good: Seq<char>) -> Seq<char> {
    match row_label {
        Some(l) => l,
        None => match label_of(labels, good) {
            Some(l) => l,
            None => good,
        },
    }
}

/// Title of the shortage alert of good `good` ("<name> shortage").
pub fn shortage_title(row_label: Option<&str>, labels: &Vec<(String, String)>, good: &str) -> (t: String)
    ensures
        t@ == display_name(
            match row_label {
                Some(l) => Some(l@),
                None => None,
            },
            labels@,
            good@,
        ) + " shortage"@,
{
    let mut t = match row_label {
        Some(l) => owned(l),
        None => match find_label(labels, good) {
            Some(l) => owned(l),
            None => owned(good),
        },
    };
    append_str(&mut t, " shortage");
    t
}

} // verus!
