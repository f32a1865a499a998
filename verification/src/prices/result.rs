//! Option and result types of the price solve, and their small helpers.

use vstd::prelude::*;
use crate::text::owned;

verus! {

/// Default iteration cap of a solve.
pub fn default_max_iters() -> (n: u32)
    ensures
        n == 100,
{
    100
}

/// Extra building levels applied before a re-solve. Employment stays frozen.
#[derive(Debug, Clone, PartialEq, Eq)]
pub struct WhatIfOpts {
    /// Building type id.
    pub building: String,
    /// Extra levels added to matching buildings.
    pub extra_levels: u32,
}

/// Replace one building's active production methods (clears its saved IO).
#[derive(Debug, Clone, PartialEq, Eq)]
pub struct ProductionMethodDelta {
    pub building_id: u32,
    pub methods: Vec<String>,
}

/// Extra levels on a building type and/or a single instance.
///
/// When `building_id` is set it wins; otherwise `building` names a type.
/// Neither set is a no-op.
#[derive(Debug, Clone, PartialEq, Eq)]
pub struct ExtraLevelsDelta {
    pub building: Option<String>,
    pub building_id: Option<u32>,
    pub extra_levels: u32,
}

/// Subsidy toggle. Ignored until subsidies are modeled.
#[derive(Debug, Clone, PartialEq, Eq)]
pub struct SubsidizeDelta {
    pub building_id: u32,
    pub enabled: bool,
}

/// Preview mutation: extra levels, then production methods.
#[derive(Debug, Clone, PartialEq, Eq)]
pub struct WorldDelta {
    pub production_methods: Vec<ProductionMethodDelta>,
    pub extra_levels: Vec<ExtraLevelsDelta>,
    pub subsidize: Vec<SubsidizeDelta>,
}

impl WorldDelta {
    /// The delta that adds `opts.extra_levels` to every building of type
    /// `opts.building` and changes nothing else.
    pub fn from_what_if(opts: WhatIfOpts) -> (d: WorldDelta)
        ensures
            d.production_methods@.len() == 0,
            d.subsidize@.len() == 0,
            d.extra_levels@.len() == 1,
            d.extra_levels@[0] == (ExtraLevelsDelta {
                building: Some(opts.building),
                building_id: None,
                extra_levels: opts.extra_levels,
            }),
    {
        let mut extra: Vec<ExtraLevelsDelta> = Vec::new();
        extra.push(ExtraLevelsDelta { building: Some(opts.building), building_id: None, extra_levels: opts.extra_levels });
        WorldDelta { production_methods: Vec::new(), extra_levels: extra, subsidize: Vec::new() }
    }
}

/// Why a solve stopped.
#[derive(Debug, Clone, Copy, PartialEq, Eq, Hash)]
pub enum SolveStatus {
    /// The residual is below the requested threshold.
    Converged,
    /// Iteration budget exhausted with the residual still at or above it.
    MaxIters,
    /// The solver reported failure and successive substitution did not recover.
    Failed,
}

/// Snake-case display text of a status.
pub open spec fn status_text(s: SolveStatus) -> Seq<char> {
    match s {
        SolveStatus::Converged => "converged"@,
        SolveStatus::MaxIters => "max_iters"@,
        SolveStatus::Failed => "failed"@,
    }
}

impl SolveStatus {
    /// Snake-case display text.
    pub fn as_str(self) -> (s: &'static str)
        ensures
            s@ == status_text(self),
    {
        match self {
            SolveStatus::Converged => "converged",
            SolveStatus::MaxIters => "max_iters",
            SolveStatus::Failed => "failed",
        }
    }

    /// The status as an owned string, as it is shown to users.
    pub fn to_string(self) -> (s: String)
        ensures
            s@ == status_text(self),
    {
        owned(self.as_str())
    }
}

/// Which equilibrium formulation a solve uses.
#[derive(Debug, Clone, Copy, PartialEq, Eq, Hash)]
pub enum SolveStrategy {
    Nested,
    Joint,
}

/// Solver work counters.
#[derive(Debug, Clone, Copy, PartialEq, Eq, Hash)]
pub struct SolveStats {
    pub strategy: SolveStrategy,
    pub param_dim: usize,
    pub n_residual_evals: u64,
    pub n_jacobian_evals: u64,
}

/// Counters of a solve that did no work (no goods to price).
pub fn empty_stats(strategy: SolveStrategy) -> (s: SolveStats)
    ensures
        s == (SolveStats { strategy, param_dim: 0, n_residual_evals: 0, n_jacobian_evals: 0 }),
{
    SolveStats { strategy, param_dim: 0, n_residual_evals: 0, n_jacobian_evals: 0 }
}

/// One country row of a price report.
#[derive(Debug, Clone, PartialEq, Eq)]
pub struct CountryInfo {
    pub id: u32,
    pub tag: String,
    pub name: Option<String>,
    /// Localized demonym from `{TAG}_ADJ`.
    pub adjective: Option<String>,
    /// Selected coat-of-arms id when a current flag could be determined.
    pub flag_coa: Option<String>,
    /// PNG data URL for the selected flag.
    pub flag_data_url: Option<String>,
}

/// One building type row of a price report.
#[derive(Debug, Clone, PartialEq, Eq)]
pub struct BuildingTypeInfo {
    pub id: String,
    pub name: Option<String>,
    pub group_id: Option<String>,
    pub city_type: Option<String>,
}

/// One building group row of a price report.
#[derive(Debug, Clone, PartialEq, Eq)]
pub struct BuildingGroupInfo {
    pub id: String,
    pub name: Option<String>,
    pub category: Option<String>,
    pub land_usage: Option<String>,
    pub always_possible: bool,
    pub default_building: Option<String>,
    pub parent_group: Option<String>,
}

/// What the save and definitions actually contributed to the market.
///
/// Every price equals its base price when nothing places an order; these
/// counts tell a balanced market from an empty one.
#[derive(Debug, Clone, PartialEq, Eq, Default)]
pub struct MarketInputs {
    /// Pops whose consumption entered the solve.
    pub pops: usize,
    /// Save pops dropped for missing size or wealth.
    pub skipped_pops: usize,
    /// Buildings whose goods flows entered the solve.
    pub buildings: usize,
    /// Save buildings dropped for a missing type id.
    pub skipped_buildings: usize,
    /// Buildings with neither saved IO nor a known production method.
    pub buildings_without_method: usize,
    /// Buildings with no saved IO and no usable recipe orders.
    pub buildings_without_orders: usize,
    /// Goods carrying a non-zero buy or sell order.
    pub goods_with_orders: usize,
}

impl MarketInputs {
    /// Whether the solve had no order to price at all.
    pub fn is_empty_market(&self) -> (b: bool)
        ensures
            b == (self.goods_with_orders == 0),
    {
        self.goods_with_orders == 0
    }
}

/// Lookup tables used when a report's interned ids are turned into text.
#[derive(Debug, Clone, PartialEq, Eq)]
pub struct EmitTables {
    /// Interned names; id `i` names `names[i]`.
    pub names: Vec<String>,
    /// Localized labels by script id (first entry wins).
    pub labels: Vec<(String, String)>,
}

/// The label stored for `id`, if any (first entry wins).
pub open spec fn label_of(labels: Seq<(String, String)>, id: Seq<char>) -> Option<Seq<char>>
    decreases labels.len(),
{
    if labels.len() == 0 {
        None
    } else if labels[0].0@ == id {
        Some(labels[0].1@)
    } else {
        label_of(labels.drop_first(), id)
    }
}

impl EmitTables {
    /// The interned name with id `id`, if `id` is present and known.
    pub fn name(&self, id: Option<u16>) -> (r: Option<&str>)
        ensures
            (match r {
                Some(s) => id matches Some(i) && (i as int) < self.names@.len() && s@ == self.names@[i as int]@,
                None => id is None || id->0 as int >= self.names@.len(),
            }),
    {
        match id {
            Some(i) => {
                if (i as usize) < self.names.len() {
                    Some(self.names[i as usize].as_str())
                } else {
                    None
                }
            },
            None => None,
        }
    }

    /// The label stored for script id `id`, if any.
    pub fn label(&self, id: &str) -> (r: Option<&str>)
        ensures
            (match r {
                Some(s) => label_of(self.labels@, id@) == Some(s@),
                None => label_of(self.labels@, id@) is None,
            }),
    {
        find_label(&self.labels, id)
    }
}

/// The label stored for `id` in `labels`, if any (first entry wins).
pub fn find_label<'a>(labels: &'a Vec<(String, String)>, id: &str) -> (r: Option<&'a str>)
    ensures
        (match r {
            Some(s) => label_of(labels@, id@) == Some(s@),
            None => label_of(labels@, id@) is None,
        }),
{
    let mut i: usize = 0;
    assert(labels@.subrange(0, labels@.len() as int) =~= labels@);
    while i < labels.len()
        invariant
            i <= labels@.len(),
            label_of(labels@, id@) == label_of(labels@.subrange(i as int, labels@.len() as int), id@),
        decreases labels@.len() - i,
    {
        assert(labels@.subrange(i as int, labels@.len() as int).drop_first()
            =~= labels@.subrange(i + 1, labels@.len() as int));
        if crate::text::str_eq(labels[i].0.as_str(), id) {
            return Some(labels[i].1.as_str());
        }
        i = i + 1;
    }
    None
}

} // verus!
