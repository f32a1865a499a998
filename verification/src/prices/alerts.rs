//! Alert kinds, mitigation records, and the mitigation builders that need
//! no solved prices.

use vstd::prelude::*;
use crate::prices::qualification::{id_has, spec_id_has};
use crate::text::{append_str, owned, push_decimal, decimal, views};
use crate::text::{str_eq, strictly_sorted};

verus! {

/// Detector kind.
#[derive(Debug, Clone, Copy, PartialEq, Eq, PartialOrd, Ord, Hash)]
pub enum AlertKind {
    ElectricityShortage,
    TransportationShortage,
    GoodsShortage,
    NeedsUnmet,
    LowMarketAccess,
    UnfilledEducation,
    UnfilledPops,
    Underemployed,
}

/// Labelled observation shown under an alert.
#[derive(Debug, Clone, PartialEq, Eq)]
pub struct Evidence {
    pub label: String,
    pub value: String,
}

/// Suggested follow-up action.
#[derive(Debug, Clone, PartialEq, Eq)]
pub enum MitigationAction {
    Build { building_type_name: String, state_id: Option<u32>, extra_levels: Option<u32> },
    Pm { building_id: u32, production_method: String, methods: Vec<String> },
    Subsidize { building_id: u32 },
    TradeAlloc { state_id: u32, good_name: String },
    FeederJob { building_type_name: String, profession: String, state_id: Option<u32> },
    SolGoods { good_name: String, state_id: Option<u32> },
}

/// Ranked advice. `apply_ready` is always false.
#[derive(Debug, Clone, PartialEq, Eq)]
pub struct Mitigation {
    pub id: String,
    pub title: String,
    pub detail: String,
    pub rank: u32,
    pub action: Option<MitigationAction>,
    pub apply_ready: bool,
    /// Estimated impact on the short good; omitted outside shortage alerts.
    pub effect: Option<String>,
}

/// Options for alert detection.
///
/// When `with_mitigations` is false, detectors still emit alerts but skip
/// mitigation builders. When `mitigation_ids` is `Some`, only those alert
/// ids get mitigation lists.
#[derive(Debug, Clone, PartialEq, Eq)]
pub struct AlertsOptions {
    pub with_mitigations: bool,
    /// Alert ids to expand (duplicates mean nothing); `None` = every alert.
    pub mitigation_ids: Option<Vec<String>>,
}

/// Whether `id` is listed in `ids`.
pub open spec fn list_has(ids: Seq<String>, id: Seq<char>) -> bool {
    exists|i: int| 0 <= i < ids.len() && #[trigger] ids[i]@ == id
}

/// Whether an optional id list admits `id` (`None` admits every id).
pub open spec fn ids_allow(ids: Option<Vec<String>>, id: Seq<char>) -> bool {
    match ids {
        None => true,
        Some(v) => list_has(v@, id),
    }
}

impl AlertsOptions {
    /// Mitigations on, for every alert.
    pub fn default_opts() -> (o: AlertsOptions)
        ensures
            o.with_mitigations,
            o.mitigation_ids is None,
    {
        AlertsOptions { with_mitigations: true, mitigation_ids: None }
    }

    /// Whether mitigation builders should run for `alert_id`.
    pub fn wants_mitigations(&self, alert_id: &str) -> (b: bool)
        ensures
            b == (self.with_mitigations && ids_allow(self.mitigation_ids, alert_id@)),
    {
        if !self.with_mitigations {
            return false;
        }
        match &self.mitigation_ids {
            None => true,
            Some(ids) => {
                let mut i: usize = 0;
                while i < ids.len()
                    invariant
                        self.mitigation_ids == Some(*ids),
                        self.with_mitigations,
                        i <= ids@.len(),
                        forall|k: int| 0 <= k < i ==> #[trigger] ids@[k]@ != alert_id@,
                    decreases ids@.len() - i,
                {
                    if crate::text::str_eq(ids[i].as_str(), alert_id) {
                        assert(ids@[i as int]@ == alert_id@);
                        assert(list_has(ids@, alert_id@));
                        return true;
                    }
                    i = i + 1;
                }
                false
            },
        }
    }
}

impl Default for AlertsOptions {
    fn default() -> (o: AlertsOptions)
        ensures
            o.with_mitigations,
            o.mitigation_ids is None,
    {
        AlertsOptions::default_opts()
    }
}

/// Snake-case id of an alert kind.
pub open spec fn spec_kind_id(kind: AlertKind) -> Seq<char> {
    match kind {
        AlertKind::ElectricityShortage => "electricity_shortage"@,
        AlertKind::TransportationShortage => "transportation_shortage"@,
        AlertKind::GoodsShortage => "goods_shortage"@,
        AlertKind::NeedsUnmet => "needs_unmet"@,
        AlertKind::LowMarketAccess => "low_market_access"@,
        AlertKind::UnfilledEducation => "unfilled_education"@,
        AlertKind::UnfilledPops => "unfilled_pops"@,
        AlertKind::Underemployed => "underemployed"@,
    }
}

/// See [`spec_kind_id`].
pub fn kind_id(kind: AlertKind) -> (s: &'static str)
    ensures
        s@ == spec_kind_id(kind),
{
    match kind {
        AlertKind::ElectricityShortage => "electricity_shortage",
        AlertKind::TransportationShortage => "transportation_shortage",
        AlertKind::GoodsShortage => "goods_shortage",
        AlertKind::NeedsUnmet => "needs_unmet",
        AlertKind::LowMarketAccess => "low_market_access",
        AlertKind::UnfilledEducation => "unfilled_education",
        AlertKind::UnfilledPops => "unfilled_pops",
        AlertKind::Underemployed => "underemployed",
    }
}

/// Shortage kind of a good: electricity and transportation have their own.
pub open spec fn spec_goods_kind(good_id: Seq<char>) -> AlertKind {
    if spec_id_has(good_id, "electricity"@) {
        AlertKind::ElectricityShortage
    } else if spec_id_has(good_id, "transportation"@) {
        AlertKind::TransportationShortage
    } else {
        AlertKind::GoodsShortage
    }
}

/// See [`spec_goods_kind`].
pub fn goods_kind(good_id: &str) -> (k: AlertKind)
    ensures
        k == spec_goods_kind(good_id@),
{
    if id_has(good_id, "electricity") {
        AlertKind::ElectricityShortage
    } else if id_has(good_id, "transportation") {
        AlertKind::TransportationShortage
    } else {
        AlertKind::GoodsShortage
    }
}

/// Summary line of a goods shortage alert; `buy` and `sell` are the
/// market's order totals as displayed.
pub open spec fn spec_goods_summary(kind: AlertKind, tradeable: bool, buy: Seq<char>, sell: Seq<char>) -> Seq<char> {
    let note = match kind {
        AlertKind::ElectricityShortage => "Electricity is short"@,
        AlertKind::TransportationShortage => "Transportation is short"@,
        _ => "A tradeable (or other) good is short"@,
    };
    let trade = if tradeable {
        "Trade-center import advice is included."@
    } else {
        "This good is local-only; imports cannot help."@
    };
    note + ": buy "@ + buy + " vs sell "@ + sell + ". "@ + trade
}

/// Summary line of a goods shortage alert (see [`spec_goods_summary`]).
pub fn goods_summary(kind: AlertKind, tradeable: bool, buy: &str, sell: &str) -> (s: String)
    ensures
        s@ == spec_goods_summary(kind, tradeable, buy@, sell@),
{
    let mut s = match kind {
        AlertKind::ElectricityShortage => owned("Electricity is short"),
        AlertKind::TransportationShortage => owned("Transportation is short"),
        _ => owned("A tradeable (or other) good is short"),
    };
    append_str(&mut s, ": buy ");
    append_str(&mut s, buy);
    append_str(&mut s, " vs sell ");
    append_str(&mut s, sell);
    append_str(&mut s, ". ");
    if tradeable {
        append_str(&mut s, "Trade-center import advice is included.");
    } else {
        append_str(&mut s, "This good is local-only; imports cannot help.");
    }
    s
}

/// Whether a good can be imported: electricity and transportation are
/// local-only; otherwise it is tradeable unless the definitions list it with
/// a zero traded quantity (`has_traded_quantity` is `None` for goods
/// missing from the definitions, `Some(q > 0)` otherwise).
pub fn is_tradeable(good_id: &str, has_traded_quantity: Option<bool>) -> (b: bool)
    ensures
        b == (!spec_id_has(good_id@, "electricity"@) && !spec_id_has(good_id@, "transportation"@)
            && match has_traded_quantity {
            Some(t) => t,
            None => true,
        }),
{
    if id_has(good_id, "electricity") || id_has(good_id, "transportation") {
        return false;
    }
    match has_traded_quantity {
        Some(t) => t,
        None => true,
    }
}

/// Whether a mitigation suggests building a university.
pub fn is_university_build(item: &Mitigation) -> (b: bool)
    ensures
        b == (item.action matches Some(MitigationAction::Build { building_type_name, .. })
            && spec_id_has(building_type_name@, "university"@)),
{
    match &item.action {
        Some(MitigationAction::Build { building_type_name, .. }) => id_has(building_type_name.as_str(), "university"),
        _ => false,
    }
}

/// A mitigation with no action (rank 0 until ranked).
pub fn plain(id: String, title: String, detail: String) -> (m: Mitigation)
    ensures
        m == (Mitigation { id, title, detail, rank: 0, action: None, apply_ready: false, effect: None }),
{
    Mitigation { id, title, detail, rank: 0, action: None, apply_ready: false, effect: None }
}

/// A mitigation carrying `action` (rank 0 until ranked).
pub fn action_mit(id: String, title: String, detail: String, action: MitigationAction) -> (m: Mitigation)
    ensures
        m == (Mitigation { id, title, detail, rank: 0, action: Some(action), apply_ready: false, effect: None }),
{
    Mitigation { id, title, detail, rank: 0, action: Some(action), apply_ready: false, effect: None }
}

/// `item` with its estimated effect set.
pub fn with_effect(item: Mitigation, effect: String) -> (m: Mitigation)
    ensures
        m == (Mitigation { effect: Some(effect), ..item }),
{
    Mitigation { effect: Some(effect), ..item }
}

/// 1-based rank of position `i`, saturating at `u32::MAX`.
pub open spec fn rank_of(i: int) -> u32 {
    if i + 1 > u32::MAX { u32::MAX } else { (i + 1) as u32 }
}

/// Number the list 1, 2, 3, … in order; nothing becomes apply-ready.
pub fn rank(items: Vec<Mitigation>) -> (out: Vec<Mitigation>)
    ensures
        out@.len() == items@.len(),
        forall|i: int| 0 <= i < items@.len() ==> #[trigger] out@[i] == (Mitigation {
            rank: rank_of(i),
            apply_ready: false,
            ..items@[i]
        }),
{
    let mut items = items;
    let ghost orig = items@;
    let mut i: usize = 0;
    while i < items.len()
        invariant
            items@.len() == orig.len(),
            i <= items@.len(),
            forall|k: int| 0 <= k < i ==> #[trigger] items@[k] == (Mitigation {
                rank: rank_of(k),
                apply_ready: false,
                ..orig[k]
            }),
            forall|k: int| i <= k < items@.len() ==> #[trigger] items@[k] == orig[k],
        decreases items@.len() - i,
    {
        let r: u32 = if i >= 4294967295usize { 4294967295u32 } else { (i + 1) as u32 };
        let item = items.remove(i);
        let ranked = Mitigation { rank: r, apply_ready: false, ..item };
        items.insert(i, ranked);
        i = i + 1;
    }
    items
}

/// Text pieces of the "cheapen" and "import" mitigations for one need good.
pub open spec fn sol_id(state_id: u32, good: Seq<char>) -> Seq<char> {
    "needs:"@ + decimal(state_id as nat) + ":sol:"@ + good
}

pub open spec fn import_id(state_id: u32, good: Seq<char>) -> Seq<char> {
    "needs:"@ + decimal(state_id as nat) + ":import:"@ + good
}

/// The mitigation at position `k` of [`need_mitigations`]: for each of the
/// first three goods, a "cheapen" mitigation then an "import" one.
pub open spec fn need_mitigation_ok(m: Mitigation, k: int, state_id: u32, goods: Seq<(String, String)>) -> bool {
    let g = goods[k / 2].0@;
    let l = goods[k / 2].1@;
    &&& m.rank == rank_of(k)
    &&& !m.apply_ready
    &&& m.effect is None
    &&& if k % 2 == 0 {
        &&& m.id@ == sol_id(state_id, g)
        &&& m.title@ == "Cheapen "@ + l
        &&& m.detail@ == "Lower the local price of "@ + l + " (produce more or import) to cover the need basket."@
        &&& m.action matches Some(MitigationAction::SolGoods { good_name, state_id: s })
        &&& good_name@ == g
        &&& s == Some(state_id)
    } else {
        &&& m.id@ == import_id(state_id, g)
        &&& m.title@ == "Import "@ + l + " through a trade center"@
        &&& m.detail@ == "Trade-center imports of pop goods can fill the "@ + l + " basket."@
        &&& m.action matches Some(MitigationAction::TradeAlloc { state_id: s, good_name })
        &&& good_name@ == g
        &&& s == state_id
    }
}

fn concat3(a: &str, b: &str, c: &str) -> (s: String)
    ensures
        s@ == a@ + b@ + c@,
{
    let mut s = String::new();
    append_str(&mut s, a);
    append_str(&mut s, b);
    append_str(&mut s, c);
    assert(s@ =~= a@ + b@ + c@);
    s
}

fn need_id(state_id: u32, mid: &str, good: &str) -> (s: String)
    ensures
        s@ == "needs:"@ + decimal(state_id as nat) + mid@ + good@,
{
    let mut s = String::new();
    append_str(&mut s, "needs:");
    push_decimal(&mut s, state_id);
    append_str(&mut s, mid);
    append_str(&mut s, good);
    assert(s@ =~= "needs:"@ + decimal(state_id as nat) + mid@ + good@);
    s
}

/// Mitigations for an unmet need basket: for each of the first three
/// `(good, label)` pairs, lower its local price, then import it.
pub fn need_mitigations(state_id: u32, goods: &Vec<(String, String)>) -> (out: Vec<Mitigation>)
    ensures
        out@.len() == 2 * (if goods@.len() < 3 { goods@.len() as int } else { 3 }),
        forall|k: int| 0 <= k < out@.len() ==> need_mitigation_ok(#[trigger] out@[k], k, state_id, goods@),
{
    let n: usize = if goods.len() < 3 { goods.len() } else { 3 };
    let mut items: Vec<Mitigation> = Vec::new();
    let mut i: usize = 0;
    while i < n
        invariant
            n <= goods@.len(),
            n <= 3,
            i <= n,
            items@.len() == 2 * i,
            forall|k: int| 0 <= k < items@.len() ==> need_mitigation_ok(#[trigger] items@[k], k, state_id, goods@),
        decreases n - i,
    {
        let good = goods[i].0.as_str();
        let label = goods[i].1.as_str();
        let r1: u32 = (2 * i + 1) as u32;
        let r2: u32 = (2 * i + 2) as u32;
        let sol = Mitigation {
            id: need_id(state_id, ":sol:", good),
            title: concat3("Cheapen ", label, ""),
            detail: concat3("Lower the local price of ", label, " (produce more or import) to cover the need basket."),
            rank: r1,
            action: Some(MitigationAction::SolGoods { good_name: owned(good), state_id: Some(state_id) }),
            apply_ready: false,
            effect: None,
        };
        let imp = Mitigation {
            id: need_id(state_id, ":import:", good),
            title: concat3("Import ", label, " through a trade center"),
            detail: concat3("Trade-center imports of pop goods can fill the ", label, " basket."),
            rank: r2,
            action: Some(MitigationAction::TradeAlloc { state_id, good_name: owned(good) }),
            apply_ready: false,
            effect: None,
        };
        proof {
            reveal_strlit("");
            assert(sol.title@ =~= "Cheapen "@ + label@);
        }
        items.push(sol);
        items.push(imp);
        proof {
            assert((2 * i) / 2 == i);
            assert((2 * i + 1) / 2 == i);
        }
        i = i + 1;
    }
    items
}


/// A state as the market lookups read it: its id and its market.
#[derive(Debug, Clone, Copy, PartialEq, Eq)]
pub struct StateMarket {
    pub id: u32,
    pub market: Option<u32>,
}

/// Market of the first state of `states` with id `id`.
pub open spec fn market_of(states: Seq<StateMarket>, id: u32) -> Option<u32>
    decreases states.len(),
{
    if states.len() == 0 {
        None
    } else if states[0].id == id {
        states[0].market
    } else {
        market_of(states.drop_first(), id)
    }
}

/// Market of a state among the solved states (`None` when the state is
/// missing or has no market).
pub fn state_market(states: &Vec<StateMarket>, state_id: u32) -> (m: Option<u32>)
    ensures
        m == market_of(states@, state_id),
{
    let mut i: usize = 0;
    assert(states@.skip(0) =~= states@);
    while i < states.len()
        invariant
            i <= states@.len(),
            market_of(states@, state_id) == market_of(states@.skip(i as int), state_id),
        decreases states@.len() - i,
    {
        assert(states@.skip(i as int)[0] == states@[i as int]);
        if states[i].id == state_id {
            return states[i].market;
        }
        assert(states@.skip(i as int).drop_first() =~= states@.skip(i + 1));
        i = i + 1;
    }
    None
}

/// Market of a state among the snapshot's states.
pub fn world_market(states: &Vec<StateMarket>, state_id: u32) -> (m: Option<u32>)
    ensures
        m == market_of(states@, state_id),
{
    state_market(states, state_id)
}

/// Whether a building in `building_state` serves `want_state`: same state,
/// or both in `market` (a known market); a building or request without a
/// state always does.
pub open spec fn spec_same_area(
    states: Seq<StateMarket>,
    building_state: Option<u32>,
    want_state: Option<u32>,
    market: Option<u32>,
) -> bool {
    match (building_state, want_state) {
        (Some(a), Some(b)) => a == b || (market is Some && market_of(states, a) == market),
        _ => true,
    }
}

/// See [`spec_same_area`].
pub fn same_area(
    states: &Vec<StateMarket>,
    building_state: Option<u32>,
    want_state: Option<u32>,
    market: Option<u32>,
) -> (b: bool)
    ensures
        b == spec_same_area(states@, building_state, want_state, market),
{
    match (building_state, want_state) {
        (Some(a), Some(b)) => {
            if a == b {
                true
            } else {
                market.is_some() && state_market(states, a) == market
            }
        },
        _ => true,
    }
}

/// A building as the trade-center lookup reads it.
#[derive(Debug, Clone, PartialEq, Eq)]
pub struct AreaBuilding {
    pub building_type_name: String,
    pub state_id: Option<u32>,
}

/// Market of the wanted state: from the solved states, else from the snapshot.
pub open spec fn want_market(solved: Seq<StateMarket>, snapshot: Seq<StateMarket>, state_id: Option<u32>) -> Option<u32> {
    match state_id {
        Some(id) => match market_of(solved, id) {
            Some(m) => Some(m),
            None => market_of(snapshot, id),
        },
        None => None,
    }
}

/// Whether `b` is a trade center serving `state_id`.
pub open spec fn is_area_center(b: AreaBuilding, solved: Seq<StateMarket>, snapshot: Seq<StateMarket>, state_id: Option<u32>) -> bool {
    spec_id_has(b.building_type_name@, "trade_center"@)
        && spec_same_area(solved, b.state_id, state_id, want_market(solved, snapshot, state_id))
}

/// Indices below `n` of the trade centers serving `state_id`, in order.
pub open spec fn center_indices(
    bs: Seq<AreaBuilding>,
    n: int,
    solved: Seq<StateMarket>,
    snapshot: Seq<StateMarket>,
    state_id: Option<u32>,
) -> Seq<usize>
    decreases n,
{
    if n <= 0 {
        Seq::empty()
    } else {
        let prev = center_indices(bs, n - 1, solved, snapshot, state_id);
        if is_area_center(bs[n - 1], solved, snapshot, state_id) {
            prev.push((n - 1) as usize)
        } else {
            prev
        }
    }
}

/// Positions in `buildings` of the trade centers that serve `state_id`
/// (same state, or same market), in building order.
pub fn trade_centers(
    buildings: &Vec<AreaBuilding>,
    solved: &Vec<StateMarket>,
    snapshot: &Vec<StateMarket>,
    state_id: Option<u32>,
) -> (idx: Vec<usize>)
    ensures
        idx@ == center_indices(buildings@, buildings@.len() as int, solved@, snapshot@, state_id),
{
    let market = match state_id {
        Some(id) => match state_market(solved, id) {
            Some(m) => Some(m),
            None => world_market(snapshot, id),
        },
        None => None,
    };
    let mut out: Vec<usize> = Vec::new();
    let mut i: usize = 0;
    while i < buildings.len()
        invariant
            i <= buildings@.len(),
            market == want_market(solved@, snapshot@, state_id),
            out@ == center_indices(buildings@, i as int, solved@, snapshot@, state_id),
        decreases buildings@.len() - i,
    {
        let b = &buildings[i];
        if id_has(b.building_type_name.as_str(), "trade_center") && same_area(solved, b.state_id, state_id, market) {
            out.push(i);
        }
        i = i + 1;
    }
    out
}

/// Whether `line` is one of `lines`.
pub open spec fn has_line(lines: Seq<Seq<char>>, line: Seq<char>) -> bool {
    lines.contains(line)
}

/// The solve's limitations followed by each extra line not already listed.
pub open spec fn merged_limitations(base: Seq<Seq<char>>, extra: Seq<Seq<char>>) -> Seq<Seq<char>>
    decreases extra.len(),
{
    if extra.len() == 0 {
        base
    } else {
        let prev = merged_limitations(base, extra.drop_last());
        if has_line(prev, extra.last()) {
            prev
        } else {
            prev.push(extra.last())
        }
    }
}

fn contains_line(lines: &Vec<String>, line: &str) -> (b: bool)
    ensures
        b == has_line(views(lines@), line@),
{
    let mut i: usize = 0;
    while i < lines.len()
        invariant
            i <= lines@.len(),
            forall|k: int| 0 <= k < i ==> lines@[k]@ != line@,
        decreases lines@.len() - i,
    {
        if str_eq(lines[i].as_str(), line) {
            assert(views(lines@)[i as int] == line@);
            return true;
        }
        i = i + 1;
    }
    assert(!views(lines@).contains(line@)) by {
        if views(lines@).contains(line@) {
            let k = choose|k: int| 0 <= k < views(lines@).len() && views(lines@)[k] == line@;
            assert(lines@[k]@ == line@);
        }
    }
    false
}

/// The limitations of an alerts report: the solve's own list, then each
/// detector caveat that is not already there. The caveats form a set: they
/// come sorted and without repeats, and are added in that order.
pub fn merge_limitations(base: Vec<String>, extra: &Vec<String>) -> (out: Vec<String>)
    requires
        strictly_sorted(views(extra@)),
    ensures
        views(out@) == merged_limitations(views(base@), views(extra@)),
{
    let mut out = base;
    let ghost b = views(out@);
    let mut i: usize = 0;
    while i < extra.len()
        invariant
            i <= extra@.len(),
            views(out@) == merged_limitations(b, views(extra@).subrange(0, i as int)),
        decreases extra@.len() - i,
    {
        let ghost pre = views(extra@).subrange(0, i as int);
        let ghost nxt = views(extra@).subrange(0, i + 1);
        assert(nxt.drop_last() =~= pre);
        assert(nxt.last() == extra@[i as int]@);
        if !contains_line(&out, extra[i].as_str()) {
            let ghost before = views(out@);
            out.push(extra[i].clone());
            assert(views(out@) =~= before.push(extra@[i as int]@));
        }
        i = i + 1;
    }
    assert(views(extra@).subrange(0, extra@.len() as int) =~= views(extra@));
    out
}


/// One unmet need good of a state, as the needs check found it: the need's
/// label, the good's id and label, and the displayed amount or price.
#[derive(Debug, Clone, PartialEq, Eq)]
pub struct NeedTrip {
    pub need_label: String,
    pub good_name: String,
    pub good_label: String,
    pub value: String,
}

/// The goods of `trips` (id and label), first occurrence of each id only.
pub open spec fn trip_goods(trips: Seq<NeedTrip>) -> Seq<(Seq<char>, Seq<char>)>
    decreases trips.len(),
{
    if trips.len() == 0 {
        seq![]
    } else {
        let prev = trip_goods(trips.drop_last());
        let t = trips.last();
        if exists|k: int| 0 <= k < prev.len() && (#[trigger] prev[k]).0 == t.good_name@ {
            prev
        } else {
            prev.push((t.good_name@, t.good_label@))
        }
    }
}

/// What an unmet-needs alert of a state shows: one evidence line per trip
/// (`"<need>: <good>"` and its value) and the goods to cheapen, each once,
/// in the order they first appear.
pub fn needs_unmet_parts(trips: &Vec<NeedTrip>) -> (r: (Vec<Evidence>, Vec<(String, String)>))
    ensures
        r.0@.len() == trips@.len(),
        forall|i: int| 0 <= i < trips@.len() ==> (#[trigger] r.0@[i]).label@ == trips@[i].need_label@ + ": "@
            + trips@[i].good_label@ && r.0@[i].value@ == trips@[i].value@,
        r.1@.map_values(|g: (String, String)| (g.0@, g.1@)) == trip_goods(trips@),
{
    let mut evidence: Vec<Evidence> = Vec::new();
    let mut goods: Vec<(String, String)> = Vec::new();
    let mut i: usize = 0;
    while i < trips.len()
        invariant
            i <= trips@.len(),
            evidence@.len() == i,
            forall|k: int| 0 <= k < i ==> (#[trigger] evidence@[k]).label@ == trips@[k].need_label@ + ": "@
                + trips@[k].good_label@ && evidence@[k].value@ == trips@[k].value@,
            goods@.map_values(|g: (String, String)| (g.0@, g.1@)) == trip_goods(trips@.subrange(0, i as int)),
        decreases trips@.len() - i,
    {
        let t = &trips[i];
        let mut label = t.need_label.clone();
        append_str(&mut label, ": ");
        append_str(&mut label, t.good_label.as_str());
        evidence.push(Evidence { label, value: t.value.clone() });
        let ghost pre = trips@.subrange(0, i as int);
        let ghost gv = goods@.map_values(|g: (String, String)| (g.0@, g.1@));
        assert(trips@.subrange(0, i + 1).drop_last() =~= pre);
        assert(trips@.subrange(0, i + 1).last() == trips@[i as int]);
        let mut seen = false;
        let mut j: usize = 0;
        while j < goods.len()
            invariant
                j <= goods@.len(),
                gv == goods@.map_values(|g: (String, String)| (g.0@, g.1@)),
                seen == exists|k: int| 0 <= k < j && (#[trigger] gv[k]).0 == t.good_name@,
            decreases goods@.len() - j,
        {
            assert(gv[j as int].0 == goods@[j as int].0@);
            if str_eq(goods[j].0.as_str(), t.good_name.as_str()) {
                seen = true;
            }
            proof {
                if exists|k: int| 0 <= k < j + 1 && (#[trigger] gv[k]).0 == t.good_name@ {
                    let k = choose|k: int| 0 <= k < j + 1 && (#[trigger] gv[k]).0 == t.good_name@;
                    if k < j {
                        assert(gv[k].0 == t.good_name@);
                    }
                }
            }
            j = j + 1;
        }
        if !seen {
            goods.push((t.good_name.clone(), t.good_label.clone()));
            assert(goods@.map_values(|g: (String, String)| (g.0@, g.1@)) =~= gv.push((t.good_name@, t.good_label@)));
        }
        i = i + 1;
    }
    assert(trips@.subrange(0, trips@.len() as int) =~= trips@);
    (evidence, goods)
}

/// Id of the unmet-needs alert of a state.
pub fn needs_unmet_id(state_id: u32) -> (id: String)
    ensures
        id@ == "needs_unmet:"@ + decimal(state_id as nat),
{
    let mut id = owned("needs_unmet:");
    push_decimal(&mut id, state_id);
    id
}


/// Id of the low-market-access alert of a state.
pub fn market_access_id(state_id: u32) -> (id: String)
    ensures
        id@ == "low_market_access:"@ + decimal(state_id as nat),
{
    let mut id = owned("low_market_access:");
    push_decimal(&mut id, state_id);
    id
}

/// The mitigation of low market access in a state: add one railway level
/// there (ranked first, not apply-ready).
pub fn market_access_mitigations(state_id: u32) -> (out: Vec<Mitigation>)
    ensures
        out@.len() == 1,
        out@[0].id@ == "access:"@ + decimal(state_id as nat) + ":rail"@,
        out@[0].title@ == "Add infrastructure"@,
        out@[0].detail@ == "Build railways or urban infrastructure so usage no longer exceeds capacity."@,
        out@[0].rank == 1,
        !out@[0].apply_ready,
        out@[0].effect is None,
        out@[0].action matches Some(MitigationAction::Build { building_type_name, state_id: s, extra_levels })
            && building_type_name@ == "building_railway"@ && s == Some(state_id) && extra_levels == Some(1u32),
{
    let mut id = owned("access:");
    push_decimal(&mut id, state_id);
    append_str(&mut id, ":rail");
    let item = action_mit(
        id,
        owned("Add infrastructure"),
        owned("Build railways or urban infrastructure so usage no longer exceeds capacity."),
        MitigationAction::Build {
            building_type_name: owned("building_railway"),
            state_id: Some(state_id),
            extra_levels: Some(1),
        },
    );
    let out = rank(vec![item]);
    assert(out@[0] == (Mitigation { rank: rank_of(0), apply_ready: false, ..item }));
    out
}

/// Id of the unfilled-education alert of a state and profession.
pub fn education_alert_id(state_id: u32, target: &str) -> (id: String)
    ensures
        id@ == "unfilled_education:"@ + decimal(state_id as nat) + ":"@ + target@,
{
    let mut id = owned("unfilled_education:");
    push_decimal(&mut id, state_id);
    append_str(&mut id, ":");
    append_str(&mut id, target);
    id
}

} // verus!
