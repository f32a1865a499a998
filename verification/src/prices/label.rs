//! Display labels for states that share a region.
//!
//! When several states split one region, every holder but the majority
//! gets its owner's demonym in front ("Prussian Rhineland"). The majority
//! is the state with the most arable land; on equal land the lowest state
//! id stays bare.

use vstd::prelude::*;
use crate::prices::result::{find_label, label_of};
use crate::text::{append_str, owned};

verus! {

/// A state as the demonym rule reads it. `arable_rank` orders states by
/// arable land (a missing value ranks as zero land).
#[derive(Debug, Clone, PartialEq, Eq)]
pub struct RegionState {
    pub id: u32,
    pub region_name: Option<String>,
    pub country_id: Option<u32>,
    pub arable_rank: u64,
    pub label: String,
}

/// The country adjective key of `tag`.
pub open spec fn adj_key(tag: Seq<char>) -> Seq<char> {
    tag + "_ADJ"@
}

/// Country demonym from the `{TAG}_ADJ` label, if defined.
pub fn country_adjective(labels: &Vec<(String, String)>, tag: &str) -> (r: Option<String>)
    ensures
        (match r {
            Some(a) => label_of(labels@, adj_key(tag@)) == Some(a@),
            None => label_of(labels@, adj_key(tag@)) is None,
        }),
{
    let mut key = owned(tag);
    append_str(&mut key, "_ADJ");
    match find_label(labels, key.as_str()) {
        Some(a) => Some(owned(a)),
        None => None,
    }
}

/// The tag of country `id` (first entry wins).
pub open spec fn tag_of(tags: Seq<(u32, String)>, id: u32) -> Option<Seq<char>>
    decreases tags.len(),
{
    if tags.len() == 0 {
        None
    } else if tags[0].0 == id {
        Some(tags[0].1@)
    } else {
        tag_of(tags.drop_first(), id)
    }
}

fn find_tag(tags: &Vec<(u32, String)>, id: u32) -> (r: Option<&str>)
    ensures
        (match r {
            Some(t) => tag_of(tags@, id) == Some(t@),
            None => tag_of(tags@, id) is None,
        }),
{
    let mut i: usize = 0;
    assert(tags@.skip(0) =~= tags@);
    while i < tags.len()
        invariant
            i <= tags@.len(),
            tag_of(tags@, id) == tag_of(tags@.skip(i as int), id),
        decreases tags@.len() - i,
    {
        assert(tags@.skip(i as int)[0] == tags@[i as int]);
        if tags[i].0 == id {
            return Some(tags[i].1.as_str());
        }
        assert(tags@.skip(i as int).drop_first() =~= tags@.skip(i + 1));
        i = i + 1;
    }
    None
}

/// Whether state `s` lies in region `r`.
pub open spec fn in_region(s: RegionState, r: Seq<char>) -> bool {
    s.region_name matches Some(x) && x@ == r
}

/// Whether `a` takes the majority from `b`: more arable land, or as much
/// and an id no larger (a later state wins a full tie).
pub open spec fn majority_over(a: RegionState, b: RegionState) -> bool {
    a.arable_rank > b.arable_rank || (a.arable_rank == b.arable_rank && a.id <= b.id)
}

/// Index of the majority holder of region `r` among the first `n` states.
pub open spec fn majority_of(states: Seq<RegionState>, r: Seq<char>, n: int) -> Option<int>
    decreases n,
{
    if n <= 0 {
        None
    } else {
        let prev = majority_of(states, r, n - 1);
        if in_region(states[n - 1], r) {
            match prev {
                None => Some(n - 1),
                Some(b) => if majority_over(states[n - 1], states[b]) { Some(n - 1) } else { Some(b) },
            }
        } else {
            prev
        }
    }
}

/// Number of states in region `r` among the first `n`.
pub open spec fn region_count(states: Seq<RegionState>, r: Seq<char>, n: int) -> int
    decreases n,
{
    if n <= 0 {
        0
    } else {
        region_count(states, r, n - 1) + if in_region(states[n - 1], r) { 1int } else { 0int }
    }
}

/// The new label of state `i`, if it gets a demonym: its region is split
/// between states, it is not the majority holder, its owner's tag and
/// demonym are known, and its label is not empty.
pub open spec fn demonym_label(
    states: Seq<RegionState>,
    tags: Seq<(u32, String)>,
    labels: Seq<(String, String)>,
    i: int,
) -> Option<Seq<char>> {
    let s = states[i];
    match s.region_name {
        None => None,
        Some(r) => if region_count(states, r@, states.len() as int) < 2
            || majority_of(states, r@, states.len() as int) == Some(i) {
            None
        } else {
            match s.country_id {
                None => None,
                Some(c) => match tag_of(tags, c) {
                    None => None,
                    Some(t) => match label_of(labels, adj_key(t)) {
                        None => None,
                        Some(adj) => if s.label@.len() == 0 { None } else { Some(adj + " "@ + s.label@) },
                    },
                },
            }
        },
    }
}

/// Majority index and size of region `r` over all states.
fn region_summary(states: &Vec<RegionState>, r: &str) -> (out: (usize, usize))
    ensures
        out.1 as int == region_count(states@, r@, states@.len() as int),
        out.1 > 0 ==> majority_of(states@, r@, states@.len() as int) == Some(out.0 as int),
{
    let mut best: usize = 0;
    let mut count: usize = 0;
    let mut j: usize = 0;
    while j < states.len()
        invariant
            j <= states@.len(),
            count as int == region_count(states@, r@, j as int),
            count <= j,
            count > 0 ==> best < j && majority_of(states@, r@, j as int) == Some(best as int),
            count == 0 ==> majority_of(states@, r@, j as int) is None,
        decreases states@.len() - j,
    {
        let s = &states[j];
        let here = match &s.region_name {
            Some(x) => crate::text::str_eq(x.as_str(), r),
            None => false,
        };
        if here {
            if count == 0 {
                best = j;
            } else {
                let b = &states[best];
                if s.arable_rank > b.arable_rank || (s.arable_rank == b.arable_rank && s.id <= b.id) {
                    best = j;
                }
            }
            count = count + 1;
        }
        j = j + 1;
    }
    (best, count)
}

fn demonym_for(states: &Vec<RegionState>, tags: &Vec<(u32, String)>, labels: &Vec<(String, String)>, i: usize) -> (r: Option<String>)
    requires
        i < states@.len(),
    ensures
        (match r {
            Some(l) => demonym_label(states@, tags@, labels@, i as int) == Some(l@),
            None => demonym_label(states@, tags@, labels@, i as int) is None,
        }),
{
    let s = &states[i];
    let r = match &s.region_name {
        Some(r) => r,
        None => {
            return None;
        },
    };
    let (major, count) = region_summary(states, r.as_str());
    proof {
        if count > 0 {
            assert(majority_of(states@, r@, states@.len() as int) == Some(major as int));
        }
    }
    if count < 2 || major == i {
        return None;
    }
    let c = match s.country_id {
        Some(c) => c,
        None => {
            return None;
        },
    };
    let t = match find_tag(tags, c) {
        Some(t) => t,
        None => {
            return None;
        },
    };
    let adj = match country_adjective(labels, t) {
        Some(a) => a,
        None => {
            return None;
        },
    };
    if s.label.unicode_len() == 0 {
        return None;
    }
    let mut out = adj;
    append_str(&mut out, " ");
    append_str(&mut out, s.label.as_str());
    proof {
        reveal_strlit(" ");
    }
    Some(out)
}

/// Prefixes the label of every minority holder of a split region with its
/// owner's demonym (see [`demonym_label`]); other fields are unchanged.
pub fn apply_split_state_demonyms(
    states: &mut Vec<RegionState>,
    tags_by_country: &Vec<(u32, String)>,
    labels: &Vec<(String, String)>,
)
    ensures
        final(states)@.len() == old(states)@.len(),
        forall|i: int| 0 <= i < old(states)@.len() ==> {
            &&& (#[trigger] final(states)@[i]).id == old(states)@[i].id
            &&& final(states)@[i].region_name == old(states)@[i].region_name
            &&& final(states)@[i].country_id == old(states)@[i].country_id
            &&& final(states)@[i].arable_rank == old(states)@[i].arable_rank
            &&& final(states)@[i].label@ == match demonym_label(old(states)@, tags_by_country@, labels@, i) {
                Some(l) => l,
                None => old(states)@[i].label@,
            }
        },
{
    let ghost orig = states@;
    let mut renames: Vec<Option<String>> = Vec::new();
    let mut i: usize = 0;
    while i < states.len()
        invariant
            states@ == orig,
            i <= states@.len(),
            renames@.len() == i,
            forall|k: int| 0 <= k < i ==> match #[trigger] renames@[k] {
                Some(l) => demonym_label(orig, tags_by_country@, labels@, k) == Some(l@),
                None => demonym_label(orig, tags_by_country@, labels@, k) is None,
            },
        decreases states@.len() - i,
    {
        let r = demonym_for(states, tags_by_country, labels, i);
        renames.push(r);
        i = i + 1;
    }
    let mut k: usize = 0;
    while k < renames.len()
        invariant
            renames@.len() == orig.len(),
            states@.len() == orig.len(),
            k <= renames@.len(),
            forall|q: int| 0 <= q < renames@.len() ==> match #[trigger] renames@[q] {
                Some(l) => demonym_label(orig, tags_by_country@, labels@, q) == Some(l@),
                None => demonym_label(orig, tags_by_country@, labels@, q) is None,
            },
            forall|q: int| 0 <= q < orig.len() ==> {
                &&& (#[trigger] states@[q]).id == orig[q].id
                &&& states@[q].region_name == orig[q].region_name
                &&& states@[q].country_id == orig[q].country_id
                &&& states@[q].arable_rank == orig[q].arable_rank
                &&& states@[q].label@ == if q < k {
                    match demonym_label(orig, tags_by_country@, labels@, q) {
                        Some(l) => l,
                        None => orig[q].label@,
                    }
                } else {
                    orig[q].label@
                }
            },
        decreases renames@.len() - k,
    {
        match &renames[k] {
            Some(l) => {
                let s = &states[k];
                let ns = RegionState {
                    id: s.id,
                    region_name: s.region_name.clone(),
                    country_id: s.country_id,
                    arable_rank: s.arable_rank,
                    label: l.clone(),
                };
                states.set(k, ns);
            },
            None => {},
        }
        k = k + 1;
    }
}

} // verus!
