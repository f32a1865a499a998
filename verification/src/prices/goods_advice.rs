//! Mitigations for a goods shortage.
//!
//! A local-only good gets "produce it locally" advice. A tradeable good
//! without a trade center gets "build one"; otherwise each serving trade
//! center is fed, subsidized, staffed or extended, and its state is told to
//! import the good when it does not. A local producer and the best
//! production-method switch round the list off; the switches worth scoring
//! are listed by [`pm_upgrade_trials`].
//!
//! The estimated effect of each mitigation needs the market model; the
//! list says, next to each mitigation, what the caller estimates it from.

use vstd::prelude::*;
use crate::prices::alerts::{action_mit, plain, rank, rank_of, Mitigation, MitigationAction};
use crate::prices::result::{find_label, label_of};
use crate::text::{append_str, decimal, join_sep, owned, push_decimal, push_joined, views};
use crate::text::{lex_order, lemma_lex_eq, lemma_lex_antisym, str_eq, strictly_sorted};
use crate::prices::optimize::{candidate_pms, copy_names, used_by_type, PmBuilding};
use crate::sim::names;

verus! {

/// A trade center serving the short good's state or market.
#[derive(Debug, Clone, PartialEq, Eq)]
pub struct CenterRow {
    pub id: u32,
    pub building_type_name: String,
    pub state_id: Option<u32>,
    /// Whether every level is staffed (and there is a level).
    pub employed: bool,
    /// Whether the center runs at a loss.
    pub unprofitable: bool,
    /// Inputs the center is short on.
    pub short_inputs: Vec<String>,
    /// Staffed levels and levels, as displayed.
    pub staffing_text: String,
    pub level_text: String,
}

/// The production-method switch that adds most of the good.
#[derive(Debug, Clone, PartialEq, Eq)]
pub struct PmPick {
    pub building_id: u32,
    pub building_type_name: String,
    pub from: Vec<String>,
    pub to: Vec<String>,
    pub new_pm: String,
}

/// What the shortage advice reads.
#[derive(Debug, Clone, PartialEq, Eq)]
pub struct ShortageContext {
    pub good: String,
    pub state_id: Option<u32>,
    pub tradeable: bool,
    /// Serving trade centers, in building order.
    pub centers: Vec<CenterRow>,
    /// States that import the good.
    pub importing_states: Vec<u32>,
    /// Display labels of states.
    pub state_labels: Vec<(u32, String)>,
    /// Building type producing the good locally, if known.
    pub local_producer: Option<String>,
    pub best_pm: Option<PmPick>,
    /// Display labels of production methods.
    pub pm_labels: Vec<(String, String)>,
}

/// What the caller estimates a mitigation's effect from.
#[derive(Debug, Clone, PartialEq, Eq)]
pub enum EffectRequest {
    /// One extra level on buildings of a type (in a state, when given).
    ExtraLevels { building_type_name: String, state_id: Option<u32> },
    /// A building staffed up to its level.
    Staffing { building_id: u32 },
    /// A building switched to these methods.
    PmSwap { building_id: u32, methods: Vec<String> },
    /// A fixed text.
    Fixed(String),
}

/// The mitigations, the effect request of each, and the caveats to add to
/// the report's limitations.
#[derive(Debug, Clone, PartialEq, Eq)]
pub struct GoodsAdvice {
    pub items: Vec<Mitigation>,
    pub effects: Vec<EffectRequest>,
    pub notes: Vec<String>,
}

/// Abstract view of a mitigation's action.
pub enum ActionSpec {
    NoAction,
    Build(Seq<char>, Option<u32>, Option<u32>),
    Pm(u32, Seq<char>, Seq<Seq<char>>),
    Subsidize(u32),
    TradeAlloc(u32, Seq<char>),
    Other,
}

/// Abstract view of an effect request.
pub enum EffectSpec {
    ExtraLevels(Seq<char>, Option<u32>),
    Staffing(u32),
    PmSwap(u32, Seq<Seq<char>>),
    Fixed(Seq<char>),
}

/// Abstract view of one mitigation with its effect request.
pub struct ItemSpec {
    pub id: Seq<char>,
    pub title: Seq<char>,
    pub detail: Seq<char>,
    pub action: ActionSpec,
    pub effect: EffectSpec,
}

pub open spec fn action_spec(a: Option<MitigationAction>) -> ActionSpec {
    match a {
        None => ActionSpec::NoAction,
        Some(MitigationAction::Build { building_type_name, state_id, extra_levels }) =>
            ActionSpec::Build(building_type_name@, state_id, extra_levels),
        Some(MitigationAction::Pm { building_id, production_method, methods }) =>
            ActionSpec::Pm(building_id, production_method@, views(methods@)),
        Some(MitigationAction::Subsidize { building_id }) => ActionSpec::Subsidize(building_id),
        Some(MitigationAction::TradeAlloc { state_id, good_name }) => ActionSpec::TradeAlloc(state_id, good_name@),
        _ => ActionSpec::Other,
    }
}

pub open spec fn effect_spec(e: EffectRequest) -> EffectSpec {
    match e {
        EffectRequest::ExtraLevels { building_type_name, state_id } => EffectSpec::ExtraLevels(building_type_name@, state_id),
        EffectRequest::Staffing { building_id } => EffectSpec::Staffing(building_id),
        EffectRequest::PmSwap { building_id, methods } => EffectSpec::PmSwap(building_id, views(methods@)),
        EffectRequest::Fixed(t) => EffectSpec::Fixed(t@),
    }
}

pub open spec fn item_view(m: Mitigation, e: EffectRequest) -> ItemSpec {
    ItemSpec { id: m.id@, title: m.title@, detail: m.detail@, action: action_spec(m.action), effect: effect_spec(e) }
}

pub open spec fn alert_id(g: Seq<char>) -> Seq<char> {
    "goods:"@ + g
}

/// Label of a state: its display label, else `state {id}`.
pub open spec fn state_label(labels: Seq<(u32, String)>, id: u32) -> Seq<char>
    decreases labels.len(),
{
    if labels.len() == 0 {
        "state "@ + decimal(id as nat)
    } else if labels[0].0 == id {
        labels[0].1@
    } else {
        state_label(labels.drop_first(), id)
    }
}

/// Label of a production method: its display label, else its id.
pub open spec fn pm_label(labels: Seq<(String, String)>, id: Seq<char>) -> Seq<char> {
    match label_of(labels, id) {
        Some(l) => l,
        None => id,
    }
}

pub open spec fn pm_labels_of(labels: Seq<(String, String)>, ids: Seq<String>) -> Seq<Seq<char>> {
    ids.map_values(|s: String| pm_label(labels, s@))
}

pub open spec fn producer_type(ctx: ShortageContext) -> Seq<char> {
    match ctx.local_producer {
        Some(b) => b@,
        None => "building_"@ + ctx.good@ + "_producer"@,
    }
}

pub open spec fn local_item(ctx: ShortageContext) -> ItemSpec {
    let g = ctx.good@;
    ItemSpec {
        id: alert_id(g) + ":local"@,
        title: "Local-only good"@,
        detail: g + " is non-tradeable; skip import allocation and produce it in the state."@,
        action: ActionSpec::NoAction,
        effect: EffectSpec::Fixed("0 extra "@ + g + " from imports (local-only good)."@),
    }
}

pub open spec fn producer_item(ctx: ShortageContext) -> ItemSpec {
    let g = ctx.good@;
    ItemSpec {
        id: alert_id(g) + ":local-producer"@,
        title: "Expand a local producer"@,
        detail: "Raise local "@ + g + " output as an alternative to trade."@,
        action: ActionSpec::Build(producer_type(ctx), ctx.state_id, Some(1)),
        effect: EffectSpec::ExtraLevels(producer_type(ctx), ctx.state_id),
    }
}

pub open spec fn build_tc_item(ctx: ShortageContext) -> ItemSpec {
    let g = ctx.good@;
    ItemSpec {
        id: alert_id(g) + ":build-tc"@,
        title: "Build a trade center"@,
        detail: "No trade center in this state/market. Compare a new trade center against a local "@ + g
            + " producer."@,
        action: ActionSpec::Build("building_trade_center"@, ctx.state_id, Some(1)),
        effect: EffectSpec::ExtraLevels("building_trade_center"@, ctx.state_id),
    }
}

/// The items for one trade center: feed, subsidize or staff it when it is
/// not fully employed, else add levels; then tell its state to import the
/// good when it does not.
pub open spec fn center_items(ctx: ShortageContext, c: CenterRow) -> Seq<ItemSpec> {
    let g = ctx.good@;
    let a = alert_id(g);
    let n = decimal(c.id as nat);
    let staffing = EffectSpec::Staffing(c.id);
    let own = if !c.employed {
        (if c.short_inputs@.len() > 0 {
            seq![ItemSpec {
                id: a + ":tc-inputs-"@ + n,
                title: "Feed the trade center"@,
                detail: "Trade center "@ + n + " is short on "@ + join_sep(views(c.short_inputs@), ", "@) + "."@,
                action: ActionSpec::NoAction,
                effect: staffing,
            }]
        } else {
            seq![]
        }) + if c.unprofitable {
            seq![ItemSpec {
                id: a + ":tc-subsidy-"@ + n,
                title: "Subsidize the trade center"@,
                detail: "Trade center "@ + n + " is unprofitable and not fully employed."@,
                action: ActionSpec::Subsidize(c.id),
                effect: staffing,
            }]
        } else {
            seq![ItemSpec {
                id: a + ":tc-employ-"@ + n,
                title: "Staff the trade center"@,
                detail: "Trade center "@ + n + " is at "@ + c.staffing_text@ + " / "@ + c.level_text@
                    + " levels. Raise employment before adding levels."@,
                action: ActionSpec::NoAction,
                effect: staffing,
            }]
        }
    } else {
        seq![ItemSpec {
            id: a + ":tc-levels-"@ + n,
            title: "Add trade-center levels"@,
            detail: "Trade center "@ + n + " is fully employed; extra levels can raise throughput if this center moves "@
                + g + "."@,
            action: ActionSpec::Build(c.building_type_name@, c.state_id, Some(1)),
            effect: EffectSpec::ExtraLevels(c.building_type_name@, match c.state_id {
                Some(s) => Some(s),
                None => ctx.state_id,
            }),
        }]
    };
    let st = match c.state_id {
        Some(s) => Some(s),
        None => ctx.state_id,
    };
    own + match st {
        Some(s) => if ctx.importing_states@.contains(s) {
            seq![]
        } else {
            seq![ItemSpec {
                id: a + ":reallocate-"@ + decimal(s as nat),
                title: "Reallocate trade-center imports"@,
                detail: state_label(ctx.state_labels@, s) + " is not importing "@ + g
                    + ". Reallocation is advice only (frozen trade)."@,
                action: ActionSpec::TradeAlloc(s, g),
                effect: EffectSpec::Fixed("0 extra "@ + g + " in this model (trade volumes are frozen)."@),
            }]
        },
        None => seq![],
    }
}

/// Whether the center's state (or the alert's) is told to import.
pub open spec fn reallocates(ctx: ShortageContext, c: CenterRow) -> bool {
    match (match c.state_id {
        Some(s) => Some(s),
        None => ctx.state_id,
    }) {
        Some(s) => !ctx.importing_states@.contains(s),
        None => false,
    }
}

pub open spec fn centers_items(ctx: ShortageContext, n: int) -> Seq<ItemSpec>
    decreases n,
{
    if n <= 0 {
        seq![]
    } else {
        centers_items(ctx, n - 1) + center_items(ctx, ctx.centers@[n - 1])
    }
}

pub open spec fn pm_items(ctx: ShortageContext) -> Seq<ItemSpec> {
    match ctx.best_pm {
        None => seq![],
        Some(p) => {
            let n = decimal(p.building_id as nat);
            seq![ItemSpec {
                id: alert_id(ctx.good@) + ":pm-"@ + n,
                title: "Switch to "@ + pm_label(ctx.pm_labels@, p.new_pm@),
                detail: "On "@ + p.building_type_name@ + " #"@ + n + ", change production methods from ["@
                    + join_sep(pm_labels_of(ctx.pm_labels@, p.from@), ", "@) + "] to ["@
                    + join_sep(pm_labels_of(ctx.pm_labels@, p.to@), ", "@) + "]."@,
                action: ActionSpec::Pm(p.building_id, p.new_pm@, views(p.to@)),
                effect: EffectSpec::PmSwap(p.building_id, views(p.to@)),
            }]
        },
    }
}

/// The advice in order: a local-only good gets the local-only note and a
/// local producer; a tradeable good without a serving trade center gets a
/// new trade center and a local producer; otherwise the items of each
/// center. The production-method switch comes last.
pub open spec fn expected_items(ctx: ShortageContext) -> Seq<ItemSpec> {
    if !ctx.tradeable {
        seq![local_item(ctx), producer_item(ctx)] + pm_items(ctx)
    } else if ctx.centers@.len() == 0 {
        seq![build_tc_item(ctx), producer_item(ctx)] + pm_items(ctx)
    } else {
        centers_items(ctx, ctx.centers@.len() as int) + pm_items(ctx)
    }
}

pub open spec fn effect_note() -> Seq<char> {
    "Shortage intervention effects hold pop demand fixed and revalue building IO after the suggested delta (a local price-formula step, not a full re-solve)."@
}

pub open spec fn frozen_note() -> Seq<char> {
    "Trade volumes are frozen in this model; import reallocation cannot be applied yet."@
}

/// Caveats: the effect caveat always; the frozen-trade caveat when some
/// center's state is told to import.
pub open spec fn expected_notes(ctx: ShortageContext) -> Seq<Seq<char>> {
    if ctx.tradeable && exists|i: int| 0 <= i < ctx.centers@.len() && reallocates(ctx, #[trigger] ctx.centers@[i]) {
        seq![effect_note(), frozen_note()]
    } else {
        seq![effect_note()]
    }
}

/// Views of mitigations paired with their effect requests.
pub open spec fn views_of(items: Seq<Mitigation>, effects: Seq<EffectRequest>) -> Seq<ItemSpec> {
    Seq::new(items.len(), |i: int| item_view(items[i], effects[i]))
}

/// Mitigations as built, before ranking: rank zero, not apply-ready, no
/// effect text yet.
pub open spec fn unranked(items: Seq<Mitigation>) -> bool {
    forall|i: int| 0 <= i < items.len() ==> (#[trigger] items[i]).rank == 0 && !items[i].apply_ready && items[i].effect is None
}

fn push_item(items: &mut Vec<Mitigation>, effects: &mut Vec<EffectRequest>, m: Mitigation, e: EffectRequest)
    requires
        old(items)@.len() == old(effects)@.len(),
        unranked(old(items)@),
        m.rank == 0,
        !m.apply_ready,
        m.effect is None,
    ensures
        final(items)@.len() == final(effects)@.len(),
        unranked(final(items)@),
        views_of(final(items)@, final(effects)@) == views_of(old(items)@, old(effects)@).push(item_view(m, e)),
{
    let ghost v = views_of(items@, effects@);
    items.push(m);
    effects.push(e);
    assert(views_of(items@, effects@) =~= v.push(item_view(m, e)));
}

fn lit(s: &str) -> (r: String)
    ensures
        r@ == s@,
{
    owned(s)
}

fn cat(a: &str, b: &str) -> (r: String)
    ensures
        r@ == a@ + b@,
{
    let mut r = owned(a);
    append_str(&mut r, b);
    r
}

fn cat3(a: &str, b: &str, c: &str) -> (r: String)
    ensures
        r@ == a@ + b@ + c@,
{
    let mut r = cat(a, b);
    append_str(&mut r, c);
    r
}

/// `goods:{good}{suffix}`.
fn alert_part(good: &str, suffix: &str) -> (r: String)
    ensures
        r@ == alert_id(good@) + suffix@,
{
    let r = cat3("goods:", good, suffix);
    assert(r@ =~= alert_id(good@) + suffix@);
    r
}

/// `goods:{good}{suffix}{n}`.
fn alert_num(good: &str, suffix: &str, n: u32) -> (r: String)
    ensures
        r@ == alert_id(good@) + suffix@ + decimal(n as nat),
{
    let mut r = alert_part(good, suffix);
    push_decimal(&mut r, n);
    r
}

fn copy_strings(v: &Vec<String>) -> (r: Vec<String>)
    ensures
        views(r@) == views(v@),
{
    let mut r: Vec<String> = Vec::new();
    let mut i: usize = 0;
    while i < v.len()
        invariant
            i <= v@.len(),
            views(r@) == views(v@).subrange(0, i as int),
        decreases v@.len() - i,
    {
        let ghost before = r@;
        let x = v[i].clone();
        assert(x@ == v@[i as int]@);
        r.push(x);
        assert(r@ == before.push(x));
        assert(views(r@) =~= views(before).push(x@));
        assert(views(r@) =~= views(v@).subrange(0, i + 1));
        i = i + 1;
    }
    assert(views(v@).subrange(0, v@.len() as int) =~= views(v@));
    r
}

fn has_state(v: &Vec<u32>, x: u32) -> (b: bool)
    ensures
        b == v@.contains(x),
{
    let mut i: usize = 0;
    while i < v.len()
        invariant
            i <= v@.len(),
            forall|k: int| 0 <= k < i ==> v@[k] != x,
        decreases v@.len() - i,
    {
        if v[i] == x {
            return true;
        }
        i = i + 1;
    }
    false
}

fn state_label_exec(labels: &Vec<(u32, String)>, id: u32) -> (r: String)
    ensures
        r@ == state_label(labels@, id),
{
    let mut i: usize = 0;
    assert(labels@.skip(0) =~= labels@);
    while i < labels.len()
        invariant
            i <= labels@.len(),
            state_label(labels@, id) == state_label(labels@.skip(i as int), id),
        decreases labels@.len() - i,
    {
        assert(labels@.skip(i as int)[0] == labels@[i as int]);
        if labels[i].0 == id {
            return labels[i].1.clone();
        }
        assert(labels@.skip(i as int).drop_first() =~= labels@.skip(i + 1));
        i = i + 1;
    }
    assert(labels@.skip(i as int).len() == 0);
    let mut r = lit("state ");
    push_decimal(&mut r, id);
    r
}

fn pm_label_exec(labels: &Vec<(String, String)>, id: &str) -> (r: String)
    ensures
        r@ == pm_label(labels@, id@),
{
    match find_label(labels, id) {
        Some(l) => owned(l),
        None => owned(id),
    }
}

fn pm_labels_exec(labels: &Vec<(String, String)>, ids: &Vec<String>) -> (r: Vec<String>)
    ensures
        views(r@) == pm_labels_of(labels@, ids@),
{
    let mut r: Vec<String> = Vec::new();
    let mut i: usize = 0;
    while i < ids.len()
        invariant
            i <= ids@.len(),
            views(r@) == pm_labels_of(labels@, ids@).subrange(0, i as int),
        decreases ids@.len() - i,
    {
        let ghost before = r@;
        let l = pm_label_exec(labels, ids[i].as_str());
        r.push(l);
        assert(r@ == before.push(l));
        assert(views(r@) =~= views(before).push(l@));
        assert(views(r@) =~= pm_labels_of(labels@, ids@).subrange(0, i + 1));
        i = i + 1;
    }
    assert(pm_labels_of(labels@, ids@).subrange(0, ids@.len() as int) =~= pm_labels_of(labels@, ids@));
    r
}

fn push_producer(ctx: &ShortageContext, items: &mut Vec<Mitigation>, effects: &mut Vec<EffectRequest>)
    requires
        old(items)@.len() == old(effects)@.len(),
        unranked(old(items)@),
    ensures
        final(items)@.len() == final(effects)@.len(),
        unranked(final(items)@),
        views_of(final(items)@, final(effects)@) == views_of(old(items)@, old(effects)@).push(producer_item(*ctx)),
{
    let g = ctx.good.as_str();
    let building = match &ctx.local_producer {
        Some(b) => b.clone(),
        None => cat3("building_", g, "_producer"),
    };
    let m = action_mit(
        alert_part(g, ":local-producer"),
        lit("Expand a local producer"),
        cat3("Raise local ", g, " output as an alternative to trade."),
        MitigationAction::Build { building_type_name: building.clone(), state_id: ctx.state_id, extra_levels: Some(1) },
    );
    let e = EffectRequest::ExtraLevels { building_type_name: building, state_id: ctx.state_id };
    push_item(items, effects, m, e);
    assert(item_view(m, e) == producer_item(*ctx));
}

fn push_pm(ctx: &ShortageContext, items: &mut Vec<Mitigation>, effects: &mut Vec<EffectRequest>)
    requires
        old(items)@.len() == old(effects)@.len(),
        unranked(old(items)@),
    ensures
        final(items)@.len() == final(effects)@.len(),
        unranked(final(items)@),
        views_of(final(items)@, final(effects)@) == views_of(old(items)@, old(effects)@) + pm_items(*ctx),
{
    let p = match &ctx.best_pm {
        Some(p) => p,
        None => {
            assert(views_of(items@, effects@) + pm_items(*ctx) =~= views_of(items@, effects@));
            return;
        },
    };
    let g = ctx.good.as_str();
    let label = pm_label_exec(&ctx.pm_labels, p.new_pm.as_str());
    let from = pm_labels_exec(&ctx.pm_labels, &p.from);
    let to = pm_labels_exec(&ctx.pm_labels, &p.to);
    let mut detail = cat3("On ", p.building_type_name.as_str(), " #");
    push_decimal(&mut detail, p.building_id);
    append_str(&mut detail, ", change production methods from [");
    push_joined(&mut detail, &from, ", ");
    append_str(&mut detail, "] to [");
    push_joined(&mut detail, &to, ", ");
    append_str(&mut detail, "].");
    let m = action_mit(
        alert_num(g, ":pm-", p.building_id),
        cat("Switch to ", label.as_str()),
        detail,
        MitigationAction::Pm { building_id: p.building_id, production_method: p.new_pm.clone(), methods: copy_strings(&p.to) },
    );
    let e = EffectRequest::PmSwap { building_id: p.building_id, methods: copy_strings(&p.to) };
    let ghost v = views_of(items@, effects@);
    push_item(items, effects, m, e);
    proof {
        let n = decimal(p.building_id as nat);
        assert(m.detail@ =~= "On "@ + p.building_type_name@ + " #"@ + n + ", change production methods from ["@
            + join_sep(pm_labels_of(ctx.pm_labels@, p.from@), ", "@) + "] to ["@
            + join_sep(pm_labels_of(ctx.pm_labels@, p.to@), ", "@) + "]."@);
        assert(item_view(m, e) == pm_items(*ctx)[0]);
        assert(v.push(item_view(m, e)) =~= v + pm_items(*ctx));
    }
}

fn push_center(
    ctx: &ShortageContext,
    c: &CenterRow,
    items: &mut Vec<Mitigation>,
    effects: &mut Vec<EffectRequest>,
) -> (realloc: bool)
    requires
        old(items)@.len() == old(effects)@.len(),
        unranked(old(items)@),
    ensures
        final(items)@.len() == final(effects)@.len(),
        unranked(final(items)@),
        views_of(final(items)@, final(effects)@) == views_of(old(items)@, old(effects)@) + center_items(*ctx, *c),
        realloc == reallocates(*ctx, *c),
{
    let g = ctx.good.as_str();
    let ghost start = views_of(items@, effects@);
    let ghost n = decimal(c.id as nat);
    let ghost a = alert_id(g@);
    let mut tc = lit("Trade center ");
    push_decimal(&mut tc, c.id);
    if !c.employed {
        if c.short_inputs.len() > 0 {
            let mut detail = tc.clone();
            append_str(&mut detail, " is short on ");
            push_joined(&mut detail, &c.short_inputs, ", ");
            append_str(&mut detail, ".");
            let m = plain(alert_num(g, ":tc-inputs-", c.id), lit("Feed the trade center"), detail);
            push_item(items, effects, m, EffectRequest::Staffing { building_id: c.id });
        }
        if c.unprofitable {
            let mut detail = tc.clone();
            append_str(&mut detail, " is unprofitable and not fully employed.");
            let m = action_mit(
                alert_num(g, ":tc-subsidy-", c.id),
                lit("Subsidize the trade center"),
                detail,
                MitigationAction::Subsidize { building_id: c.id },
            );
            push_item(items, effects, m, EffectRequest::Staffing { building_id: c.id });
        } else {
            let mut detail = tc.clone();
            append_str(&mut detail, " is at ");
            append_str(&mut detail, c.staffing_text.as_str());
            append_str(&mut detail, " / ");
            append_str(&mut detail, c.level_text.as_str());
            append_str(&mut detail, " levels. Raise employment before adding levels.");
            let m = plain(alert_num(g, ":tc-employ-", c.id), lit("Staff the trade center"), detail);
            push_item(items, effects, m, EffectRequest::Staffing { building_id: c.id });
        }
    } else {
        let mut detail = tc.clone();
        append_str(&mut detail, " is fully employed; extra levels can raise throughput if this center moves ");
        append_str(&mut detail, g);
        append_str(&mut detail, ".");
        let m = action_mit(
            alert_num(g, ":tc-levels-", c.id),
            lit("Add trade-center levels"),
            detail,
            MitigationAction::Build {
                building_type_name: c.building_type_name.clone(),
                state_id: c.state_id,
                extra_levels: Some(1),
            },
        );
        let st = match c.state_id {
            Some(s) => Some(s),
            None => ctx.state_id,
        };
        push_item(items, effects, m, EffectRequest::ExtraLevels { building_type_name: c.building_type_name.clone(), state_id: st });
    }
    let ghost own = views_of(items@, effects@);
    let st = match c.state_id {
        Some(s) => Some(s),
        None => ctx.state_id,
    };
    let mut realloc = false;
    match st {
        Some(s) => {
            if !has_state(&ctx.importing_states, s) {
                let mut detail = state_label_exec(&ctx.state_labels, s);
                append_str(&mut detail, " is not importing ");
                append_str(&mut detail, g);
                append_str(&mut detail, ". Reallocation is advice only (frozen trade).");
                let m = action_mit(
                    alert_num(g, ":reallocate-", s),
                    lit("Reallocate trade-center imports"),
                    detail,
                    MitigationAction::TradeAlloc { state_id: s, good_name: owned(g) },
                );
                push_item(items, effects, m, EffectRequest::Fixed(cat3("0 extra ", g, " in this model (trade volumes are frozen).")));
                realloc = true;
            }
        },
        None => {},
    }
    proof {
        let ci = center_items(*ctx, *c);
        assert(views_of(items@, effects@) =~= start + ci);
    }
    realloc
}

/// Ranked mitigations for a goods shortage (see [`expected_items`]), each
/// with the request its effect is estimated from (all effect texts are
/// left to the caller), and the caveats the advice adds (see
/// [`expected_notes`]).
pub fn goods_mitigations(ctx: &ShortageContext) -> (adv: GoodsAdvice)
    ensures
        adv.items@.len() == adv.effects@.len(),
        views_of(adv.items@, adv.effects@) == expected_items(*ctx),
        forall|i: int| 0 <= i < adv.items@.len() ==> (#[trigger] adv.items@[i]).rank == rank_of(i)
            && !adv.items@[i].apply_ready && adv.items@[i].effect is None,
        views(adv.notes@) == expected_notes(*ctx),
{
    let g = ctx.good.as_str();
    let mut items: Vec<Mitigation> = Vec::new();
    let mut effects: Vec<EffectRequest> = Vec::new();
    let mut notes: Vec<String> = Vec::new();
    notes.push(owned("Shortage intervention effects hold pop demand fixed and revalue building IO after the suggested delta (a local price-formula step, not a full re-solve)."));
    assert(views_of(items@, effects@) =~= Seq::<ItemSpec>::empty());
    if !ctx.tradeable {
        let m = plain(
            alert_part(g, ":local"),
            lit("Local-only good"),
            cat(g, " is non-tradeable; skip import allocation and produce it in the state."),
        );
        push_item(&mut items, &mut effects, m, EffectRequest::Fixed(cat3("0 extra ", g, " from imports (local-only good).")));
        push_producer(ctx, &mut items, &mut effects);
        push_pm(ctx, &mut items, &mut effects);
        assert(views_of(items@, effects@) =~= expected_items(*ctx));
    } else if ctx.centers.len() == 0 {
        let m = action_mit(
            alert_part(g, ":build-tc"),
            lit("Build a trade center"),
            cat3("No trade center in this state/market. Compare a new trade center against a local ", g, " producer."),
            MitigationAction::Build { building_type_name: lit("building_trade_center"), state_id: ctx.state_id, extra_levels: Some(1) },
        );
        push_item(
            &mut items,
            &mut effects,
            m,
            EffectRequest::ExtraLevels { building_type_name: lit("building_trade_center"), state_id: ctx.state_id },
        );
        push_producer(ctx, &mut items, &mut effects);
        push_pm(ctx, &mut items, &mut effects);
        assert(views_of(items@, effects@) =~= expected_items(*ctx));
    } else {
        let mut any_realloc = false;
        let mut i: usize = 0;
        while i < ctx.centers.len()
            invariant
                ctx.tradeable,
                i <= ctx.centers@.len(),
                items@.len() == effects@.len(),
                unranked(items@),
                views_of(items@, effects@) == centers_items(*ctx, i as int),
                any_realloc == exists|k: int| 0 <= k < i && reallocates(*ctx, #[trigger] ctx.centers@[k]),
            decreases ctx.centers@.len() - i,
        {
            let r = push_center(ctx, &ctx.centers[i], &mut items, &mut effects);
            any_realloc = any_realloc || r;
            i = i + 1;
        }
        push_pm(ctx, &mut items, &mut effects);
        if any_realloc {
            notes.push(owned("Trade volumes are frozen in this model; import reallocation cannot be applied yet."));
        }
    }
    let ghost built = items@;
    let ranked = rank(items);
    proof {
        assert forall|i: int| 0 <= i < ranked@.len() implies item_view(ranked@[i], effects@[i]) == item_view(built[i], effects@[i]) by {}
        assert(views_of(ranked@, effects@) =~= views_of(built, effects@));
        assert(views(notes@) =~= expected_notes(*ctx));
    }
    GoodsAdvice { items: ranked, effects, notes }
}

/// A solved building and the goods it outputs.
#[derive(Debug, Clone, PartialEq, Eq)]
pub struct OutputRow {
    pub building_type_name: String,
    pub state_id: Option<u32>,
    pub outputs: Vec<String>,
}

/// A snapshot building and whether its current flows involve the good.
#[derive(Debug, Clone, PartialEq, Eq)]
pub struct FlowRow {
    pub building_type_name: String,
    pub state_id: Option<u32>,
    pub involves_good: bool,
}

/// Whether a building in `state` counts for `want` (any state when `None`).
pub open spec fn in_scope(state: Option<u32>, want: Option<u32>) -> bool {
    want matches Some(s) ==> state == Some(s)
}

pub open spec fn first_output(rows: Seq<OutputRow>, good: Seq<char>, want: Option<u32>) -> Option<Seq<char>>
    decreases rows.len(),
{
    if rows.len() == 0 {
        None
    } else if views(rows[0].outputs@).contains(good) && in_scope(rows[0].state_id, want) {
        Some(rows[0].building_type_name@)
    } else {
        first_output(rows.drop_first(), good, want)
    }
}

pub open spec fn first_flow(rows: Seq<FlowRow>, want: Option<u32>) -> Option<Seq<char>>
    decreases rows.len(),
{
    if rows.len() == 0 {
        None
    } else if rows[0].involves_good && in_scope(rows[0].state_id, want) {
        Some(rows[0].building_type_name@)
    } else {
        first_flow(rows.drop_first(), want)
    }
}

/// The building type that produces `good` locally: the first solved
/// building outputting it, else (for a known good) the first snapshot
/// building whose flows involve it; both within `want` when given.
pub open spec fn spec_local_producer(
    outputs: Seq<OutputRow>,
    flows: Seq<FlowRow>,
    good_known: bool,
    good: Seq<char>,
    want: Option<u32>,
) -> Option<Seq<char>> {
    match first_output(outputs, good, want) {
        Some(t) => Some(t),
        None => if good_known { first_flow(flows, want) } else { None },
    }
}

fn outputs_good(outs: &Vec<String>, good: &str) -> (b: bool)
    ensures
        b == views(outs@).contains(good@),
{
    let mut i: usize = 0;
    while i < outs.len()
        invariant
            i <= outs@.len(),
            forall|k: int| 0 <= k < i ==> outs@[k]@ != good@,
        decreases outs@.len() - i,
    {
        if crate::text::str_eq(outs[i].as_str(), good) {
            assert(views(outs@)[i as int] == good@);
            return true;
        }
        i = i + 1;
    }
    proof {
        if views(outs@).contains(good@) {
            let k = choose|k: int| 0 <= k < views(outs@).len() && views(outs@)[k] == good@;
            assert(outs@[k]@ == good@);
        }
    }
    false
}

/// See [`spec_local_producer`].
pub fn local_producer_type(
    outputs: &Vec<OutputRow>,
    flows: &Vec<FlowRow>,
    good_known: bool,
    good: &str,
    want: Option<u32>,
) -> (r: Option<String>)
    ensures
        opt_text(r) == spec_local_producer(outputs@, flows@, good_known, good@, want),
{
    let mut i: usize = 0;
    assert(outputs@.skip(0) =~= outputs@);
    while i < outputs.len()
        invariant
            i <= outputs@.len(),
            first_output(outputs@, good@, want) == first_output(outputs@.skip(i as int), good@, want),
        decreases outputs@.len() - i,
    {
        assert(outputs@.skip(i as int)[0] == outputs@[i as int]);
        let o = &outputs[i];
        let here = match want {
            Some(s) => o.state_id == Some(s),
            None => true,
        };
        if here && outputs_good(&o.outputs, good) {
            return Some(o.building_type_name.clone());
        }
        assert(outputs@.skip(i as int).drop_first() =~= outputs@.skip(i + 1));
        i = i + 1;
    }
    if !good_known {
        return None;
    }
    let mut j: usize = 0;
    assert(flows@.skip(0) =~= flows@);
    while j < flows.len()
        invariant
            j <= flows@.len(),
            first_output(outputs@, good@, want) is None,
            good_known,
            first_flow(flows@, want) == first_flow(flows@.skip(j as int), want),
        decreases flows@.len() - j,
    {
        assert(flows@.skip(j as int)[0] == flows@[j as int]);
        let f = &flows[j];
        let here = match want {
            Some(s) => f.state_id == Some(s),
            None => true,
        };
        if here && f.involves_good {
            return Some(f.building_type_name.clone());
        }
        assert(flows@.skip(j as int).drop_first() =~= flows@.skip(j + 1));
        j = j + 1;
    }
    None
}

pub open spec fn opt_text(o: Option<String>) -> Option<Seq<char>> {
    match o {
        Some(s) => Some(s@),
        None => None,
    }
}


/// Abstract view of a [`PmPick`].
#[verifier::ext_equal]
pub struct PickModel {
    pub building_id: u32,
    pub building_type: Seq<char>,
    pub from: Seq<Seq<char>>,
    pub to: Seq<Seq<char>>,
    pub new_pm: Seq<char>,
}

pub open spec fn pick_view(p: PmPick) -> PickModel {
    PickModel {
        building_id: p.building_id,
        building_type: p.building_type_name@,
        from: names(p.from@),
        to: names(p.to@),
        new_pm: p.new_pm@,
    }
}

/// The methods that buildings of type `ty` run, once each, in sorted order
/// (what [`candidate_pms`] returns).
pub open spec fn type_candidates(bs: Seq<PmBuilding>, ty: Seq<char>) -> Seq<Seq<char>> {
    choose|s: Seq<Seq<char>>| strictly_sorted(s) && forall|m: Seq<char>| #[trigger] s.contains(m) <==> used_by_type(bs, ty, m)
}

/// Trials for slot `slot` of `b`: each candidate other than the method in
/// that slot, in candidate order, with that slot switched to it.
pub open spec fn slot_picks(b: PmBuilding, cands: Seq<Seq<char>>, slot: int) -> Seq<PickModel> {
    let cur = names(b.production_methods@);
    cands.filter(|c: Seq<char>| c != cur[slot]).map_values(
        |c: Seq<char>| PickModel { building_id: b.id, building_type: b.building_type@, from: cur, to: cur.update(slot, c), new_pm: c },
    )
}

/// Trials for the first `n` slots of `b`, slot by slot.
pub open spec fn building_picks(b: PmBuilding, cands: Seq<Seq<char>>, n: int) -> Seq<PickModel>
    decreases n,
{
    if n <= 0 {
        seq![]
    } else {
        building_picks(b, cands, n - 1) + slot_picks(b, cands, n - 1)
    }
}

/// Every production-method trial among the first `n` buildings, in scan
/// order: buildings in scope that run some method and whose type has at
/// least two candidate methods.
pub open spec fn upgrade_trials(bs: Seq<PmBuilding>, n: int, state_id: Option<u32>) -> Seq<PickModel>
    decreases n,
{
    if n <= 0 {
        seq![]
    } else {
        let b = bs[n - 1];
        let c = type_candidates(bs, b.building_type@);
        upgrade_trials(bs, n - 1, state_id) + if in_scope(b.state, state_id) && b.production_methods@.len() > 0 && c.len() >= 2 {
            building_picks(b, c, b.production_methods@.len() as int)
        } else {
            seq![]
        }
    }
}

/// Two strictly sorted lists with the same elements are equal.
proof fn lemma_sorted_same_elements(s: Seq<Seq<char>>, t: Seq<Seq<char>>)
    requires
        strictly_sorted(s),
        strictly_sorted(t),
        forall|m: Seq<char>| #[trigger] s.contains(m) <==> t.contains(m),
    ensures
        s == t,
    decreases s.len(),
{
    if s.len() == 0 {
        if t.len() > 0 {
            assert(t.contains(t[0]));
            assert(s.contains(t[0]));
        }
        assert(s =~= t);
    } else {
        assert(s.contains(s[0]));
        assert(t.contains(s[0]));
        assert(t.contains(t[0]));
        assert(s.contains(t[0]));
        let i = choose|i: int| 0 <= i < s.len() && s[i] == t[0];
        let j = choose|j: int| 0 <= j < t.len() && t[j] == s[0];
        lemma_lex_eq(s[0], t[0]);
        lemma_lex_antisym(s[0], t[0]);
        if i > 0 {
            assert(lex_order(s[0], s[i]) < 0);
        }
        if j > 0 {
            assert(lex_order(t[0], t[j]) < 0);
        }
        assert(s[0] == t[0]);
        let s1 = s.drop_first();
        let t1 = t.drop_first();
        assert forall|m: Seq<char>| #[trigger] s1.contains(m) <==> t1.contains(m) by {
            if s1.contains(m) {
                let k = choose|k: int| 0 <= k < s1.len() && s1[k] == m;
                assert(s[k + 1] == m);
                lemma_lex_eq(s[0], m);
                assert(lex_order(s[0], s[k + 1]) < 0);
                assert(s.contains(m));
                assert(t.contains(m));
                let q = choose|q: int| 0 <= q < t.len() && t[q] == m;
                assert(q != 0);
                assert(t1[q - 1] == m);
            }
            if t1.contains(m) {
                let k = choose|k: int| 0 <= k < t1.len() && t1[k] == m;
                assert(t[k + 1] == m);
                lemma_lex_eq(t[0], m);
                assert(lex_order(t[0], t[k + 1]) < 0);
                assert(t.contains(m));
                assert(s.contains(m));
                let q = choose|q: int| 0 <= q < s.len() && s[q] == m;
                assert(q != 0);
                assert(s1[q - 1] == m);
            }
        }
        assert(strictly_sorted(s1));
        assert(strictly_sorted(t1));
        lemma_sorted_same_elements(s1, t1);
        assert(s =~= t) by {
            assert forall|k: int| 0 <= k < s.len() implies s[k] == t[k] by {
                if k > 0 {
                    assert(s[k] == s1[k - 1]);
                    assert(t[k] == t1[k - 1]);
                }
            }
        }
    }
}

/// Appends the trials for slot `slot` of `b`.
#[verifier::loop_isolation(false)]
fn push_slot_picks(out: &mut Vec<PmPick>, b: &PmBuilding, cands: &Vec<String>, slot: usize)
    requires
        slot < b.production_methods@.len(),
    ensures
        final(out)@.map_values(|p: PmPick| pick_view(p)) == old(out)@.map_values(|p: PmPick| pick_view(p))
            + slot_picks(*b, views(cands@), slot as int),
{
    let ghost start = out@.map_values(|p: PmPick| pick_view(p));
    let ghost cur = names(b.production_methods@);
    let ghost f = |c: Seq<char>| PickModel { building_id: b.id, building_type: b.building_type@, from: cur, to: cur.update(slot as int, c), new_pm: c };
    let ghost keep = |c: Seq<char>| c != cur[slot as int];
    let mut k: usize = 0;
    while k < cands.len()
        invariant
            slot < b.production_methods@.len(),
            cur == names(b.production_methods@),
            k <= cands@.len(),
            out@.map_values(|p: PmPick| pick_view(p)) == start + views(cands@).subrange(0, k as int).filter(keep).map_values(f),
        decreases cands@.len() - k,
    {
        let ghost pre = views(cands@).subrange(0, k as int);
        let ghost nxt = views(cands@).subrange(0, k + 1);
        assert(nxt.drop_last() =~= pre);
        assert(nxt.last() == cands@[k as int]@);
        let ghost before = out@.map_values(|p: PmPick| pick_view(p));
        let differs = !str_eq(cands[k].as_str(), b.production_methods[slot].as_str());
        if differs {
            let mut to = copy_names(&b.production_methods);
            assert(names(to@).len() == to@.len());
            to.set(slot, cands[k].clone());
            let pick = PmPick {
                building_id: b.id,
                building_type_name: b.building_type.clone(),
                from: copy_names(&b.production_methods),
                to,
                new_pm: cands[k].clone(),
            };
            assert(names(pick.to@) =~= cur.update(slot as int, cands@[k as int]@));
            assert(pick_view(pick) =~= f(cands@[k as int]@));
            out.push(pick);
            assert(out@.map_values(|p: PmPick| pick_view(p)) =~= before.push(f(cands@[k as int]@)));
        }
        proof {
            reveal_with_fuel(Seq::<Seq<char>>::filter, 1);
            let fp = pre.filter(keep);
            assert(nxt.filter(keep) == if keep(cands@[k as int]@) { fp.push(cands@[k as int]@) } else { fp });
            if differs {
                assert(fp.push(cands@[k as int]@).map_values(f) =~= fp.map_values(f).push(f(cands@[k as int]@)));
            }
            assert(out@.map_values(|p: PmPick| pick_view(p)) =~= start + nxt.filter(keep).map_values(f));
        }
        k = k + 1;
    }
    assert(views(cands@).subrange(0, cands@.len() as int) =~= views(cands@));
    assert(slot_picks(*b, views(cands@), slot as int) =~= views(cands@).filter(keep).map_values(f));
}

/// Every production-method switch worth scoring for the best-method
/// mitigation, in scan order.
///
/// For each building in `state_id` (any building when `None`) that runs some
/// method and whose type has at least two candidate methods (see
/// [`candidate_pms`]), for each slot, for each candidate other than the
/// slot's method: the building's method list with that slot switched. The
/// caller scores each trial by the good's net output and keeps the first one
/// that beats every earlier one.
pub fn pm_upgrade_trials(buildings: &Vec<PmBuilding>, state_id: Option<u32>) -> (out: Vec<PmPick>)
    ensures
        out@.map_values(|p: PmPick| pick_view(p)) == upgrade_trials(buildings@, buildings@.len() as int, state_id),
{
    let mut out: Vec<PmPick> = Vec::new();
    let mut i: usize = 0;
    while i < buildings.len()
        invariant
            i <= buildings@.len(),
            out@.map_values(|p: PmPick| pick_view(p)) == upgrade_trials(buildings@, i as int, state_id),
        decreases buildings@.len() - i,
    {
        let b = &buildings[i];
        let ghost before = out@.map_values(|p: PmPick| pick_view(p));
        let in_state = match state_id {
            None => true,
            Some(s) => match b.state {
                Some(x) => x == s,
                None => false,
            },
        };
        let mut added = false;
        if in_state && b.production_methods.len() > 0 {
            let cands = candidate_pms(buildings, b.building_type.as_str());
            proof {
                let w = views(cands@);
                assert(strictly_sorted(w) && forall|m: Seq<char>| #[trigger] w.contains(m) <==> used_by_type(buildings@, b.building_type@, m));
                let c = type_candidates(buildings@, b.building_type@);
                lemma_sorted_same_elements(c, w);
            }
            if cands.len() >= 2 {
                added = true;
                let mut slot: usize = 0;
                while slot < b.production_methods.len()
                    invariant
                        i < buildings@.len(),
                        *b == buildings@[i as int],
                        slot <= b.production_methods@.len(),
                        out@.map_values(|p: PmPick| pick_view(p)) == before + building_picks(*b, views(cands@), slot as int),
                    decreases b.production_methods@.len() - slot,
                {
                    push_slot_picks(&mut out, b, &cands, slot);
                    proof {
                        assert(building_picks(*b, views(cands@), slot + 1) == building_picks(*b, views(cands@), slot as int)
                            + slot_picks(*b, views(cands@), slot as int));
                        assert(out@.map_values(|p: PmPick| pick_view(p)) =~= before + building_picks(*b, views(cands@), slot + 1));
                    }
                    slot = slot + 1;
                }
            }
        }
        proof {
            let c = type_candidates(buildings@, b.building_type@);
            assert(added == (in_scope(b.state, state_id) && b.production_methods@.len() > 0 && c.len() >= 2));
            if !added {
                assert(out@.map_values(|p: PmPick| pick_view(p)) =~= upgrade_trials(buildings@, i + 1, state_id));
            }
        }
        i = i + 1;
    }
    out
}

} // verus!
