//! Session-binding helpers: projection checks for the table providers, the
//! per-binding alert cache, and good display names.

use vstd::prelude::*;
use crate::prices::result::{find_label, label_of};
use crate::text::str_eq;

verus! {

/// Whether a projection includes column `col` (`None` = all columns).
pub fn projection_includes(projection: Option<&Vec<usize>>, col: usize) -> (b: bool)
    ensures
        projection is None ==> b,
        projection matches Some(cols) ==> (b <==> cols@.contains(col)),
{
    match projection {
        None => true,
        Some(cols) => {
            let mut i: usize = 0;
            while i < cols.len()
                invariant
                    projection == Some(cols),
                    i <= cols@.len(),
                    forall|k: int| 0 <= k < i ==> cols@[k] != col,
                decreases cols@.len() - i,
            {
                if cols[i] == col {
                    assert(cols@[i as int] == col);
                    return true;
                }
                i = i + 1;
            }
            false
        },
    }
}

/// Whether some column of `cols` is in `json_cols`.
pub open spec fn shares_any(cols: Seq<usize>, json_cols: Seq<usize>) -> bool {
    exists|i: int| 0 <= i < cols.len() && json_cols.contains(#[trigger] cols[i])
}

/// Whether a projection includes any of `json_cols` (`None` = all columns).
///
/// Prefer [`projection_includes`] for mitigations-only checks: evidence alone
/// must not force mitigation builders.
pub fn projection_needs_json(projection: Option<&Vec<usize>>, json_cols: &[usize]) -> (b: bool)
    ensures
        projection is None ==> b,
        projection matches Some(cols) ==> (b <==> shares_any(cols@, json_cols@)),
{
    match projection {
        None => true,
        Some(cols) => {
            let mut i: usize = 0;
            while i < cols.len()
                invariant
                    projection == Some(cols),
                    i <= cols@.len(),
                    forall|k: int, l: int| 0 <= k < i && 0 <= l < json_cols@.len() ==> #[trigger] json_cols@[l] != #[trigger] cols@[k],
                decreases cols@.len() - i,
            {
                let c = cols[i];
                let mut j: usize = 0;
                while j < json_cols.len()
                    invariant
                        projection == Some(cols),
                        i < cols@.len(),
                        c == cols@[i as int],
                        j <= json_cols@.len(),
                        forall|k: int, l: int| 0 <= k < i && 0 <= l < json_cols@.len() ==> #[trigger] json_cols@[l] != #[trigger] cols@[k],
                        forall|k: int| 0 <= k < j ==> json_cols@[k] != c,
                    decreases json_cols@.len() - j,
                {
                    if json_cols[j] == c {
                        assert(json_cols@[j as int] == cols@[i as int]);
                        assert(json_cols@.contains(cols@[i as int]));
                        assert(shares_any(cols@, json_cols@));
                        return true;
                    }
                    j = j + 1;
                }
                i = i + 1;
            }
            false
        },
    }
}


/// Cached results of one alert pass, one entry per mitigation mode.
#[derive(Debug, Clone, PartialEq, Eq)]
pub struct AlertsCache<T> {
    pub with_mitigations: Option<T>,
    pub without_mitigations: Option<T>,
}

/// The entry for mitigation mode `with_mitigations`.
pub open spec fn cache_slot<T>(c: AlertsCache<T>, with_mitigations: bool) -> Option<T> {
    if with_mitigations {
        c.with_mitigations
    } else {
        c.without_mitigations
    }
}

/// `c` with `v` stored for mitigation mode `with_mitigations`.
pub open spec fn cache_stored<T>(c: AlertsCache<T>, with_mitigations: bool, v: T) -> AlertsCache<T> {
    if with_mitigations {
        AlertsCache { with_mitigations: Some(v), ..c }
    } else {
        AlertsCache { without_mitigations: Some(v), ..c }
    }
}

impl<T> AlertsCache<T> {
    /// An empty cache (a fresh binding, or a cloned one).
    pub fn new() -> (c: Self)
        ensures
            c.with_mitigations is None,
            c.without_mitigations is None,
    {
        AlertsCache { with_mitigations: None, without_mitigations: None }
    }

    /// The cached result for a mitigation mode, if one was stored.
    pub fn cached(&self, with_mitigations: bool) -> (r: Option<&T>)
        ensures
            (match r {
                Some(v) => cache_slot(*self, with_mitigations) == Some(*v),
                None => cache_slot(*self, with_mitigations) is None,
            }),
    {
        if with_mitigations {
            self.with_mitigations.as_ref()
        } else {
            self.without_mitigations.as_ref()
        }
    }

    /// Stores the computed result for a mitigation mode.
    pub fn store(&mut self, with_mitigations: bool, value: T)
        ensures
            *final(self) == cache_stored(*old(self), with_mitigations, value),
    {
        if with_mitigations {
            self.with_mitigations = Some(value);
        } else {
            self.without_mitigations = Some(value);
        }
    }
}

/// A stored result is what a later lookup of the same mode gives back, and
/// storing one mode leaves the other mode's entry as it was.
pub proof fn law_cache_read_after_write<T>(c: AlertsCache<T>, with_mitigations: bool, v: T)
    ensures
        cache_slot(cache_stored(c, with_mitigations, v), with_mitigations) == Some(v),
        cache_slot(cache_stored(c, with_mitigations, v), !with_mitigations) == cache_slot(c, !with_mitigations),
{
}

/// A good as the display-name lookup reads it from the price rows.
#[derive(Debug, Clone, PartialEq, Eq)]
pub struct GoodLabelRow {
    pub good_name: String,
    pub good_label: Option<String>,
}

/// The label of the first row named `name`, if that row has one.
pub open spec fn row_label(rows: Seq<GoodLabelRow>, name: Seq<char>) -> Option<Seq<char>>
    decreases rows.len(),
{
    if rows.len() == 0 {
        None
    } else if rows[0].good_name@ == name {
        match rows[0].good_label {
            Some(l) => Some(l@),
            None => None,
        }
    } else {
        row_label(rows.drop_first(), name)
    }
}

/// Display label of a good: the definitions' label, else the label of the
/// first price row with that name.
pub fn good_name(labels: &Vec<(String, String)>, rows: &Vec<GoodLabelRow>, name: &str) -> (r: Option<String>)
    ensures
        (match r {
            Some(l) => l@ == (match label_of(labels@, name@) {
                Some(d) => d,
                None => row_label(rows@, name@)->0,
            }) && (label_of(labels@, name@) is Some || row_label(rows@, name@) is Some),
            None => label_of(labels@, name@) is None && row_label(rows@, name@) is None,
        }),
{
    if let Some(l) = find_label(labels, name) {
        return Some(crate::text::owned(l));
    }
    let mut i: usize = 0;
    assert(rows@.skip(0) =~= rows@);
    while i < rows.len()
        invariant
            label_of(labels@, name@) is None,
            i <= rows@.len(),
            row_label(rows@, name@) == row_label(rows@.skip(i as int), name@),
        decreases rows@.len() - i,
    {
        assert(rows@.skip(i as int)[0] == rows@[i as int]);
        if str_eq(rows[i].good_name.as_str(), name) {
            return match &rows[i].good_label {
                Some(l) => Some(l.clone()),
                None => None,
            };
        }
        assert(rows@.skip(i as int).drop_first() =~= rows@.skip(i + 1));
        i = i + 1;
    }
    assert(rows@.skip(i as int).len() == 0);
    None
}

} // verus!
