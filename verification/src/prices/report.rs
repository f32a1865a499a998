//! Report helpers that need no solved prices: country and building-type
//! rows, flag data URLs, and the solver caveat list.

use vstd::prelude::*;
use crate::text::{append_str, owned, push_char};
use crate::prices::label::{adj_key, country_adjective};
use crate::prices::qualification::BuildingDef;
use crate::prices::result::{find_label, label_of, BuildingGroupInfo, BuildingTypeInfo, CountryInfo, MarketInputs};
use crate::prices::world::WorldCountry;

verus! {

/// The base64 alphabet character for a sextet value in `0..64`.
pub open spec fn b64_char(v: int) -> char {
    if v < 26 {
        (65 + v) as char
    } else if v < 52 {
        (97 + (v - 26)) as char
    } else if v < 62 {
        (48 + (v - 52)) as char
    } else if v == 62 {
        '+'
    } else {
        '/'
    }
}

/// Standard padded base64 of one chunk of one to three bytes.
pub open spec fn b64_chunk(c: Seq<u8>) -> Seq<char> {
    let a = c[0] as int;
    let b = if c.len() > 1 { c[1] as int } else { 0 };
    let d = if c.len() > 2 { c[2] as int } else { 0 };
    seq![
        b64_char(a / 4),
        b64_char((a % 4) * 16 + b / 16),
        if c.len() > 1 { b64_char((b % 16) * 4 + d / 64) } else { '=' },
        if c.len() > 2 { b64_char(d % 64) } else { '=' },
    ]
}

/// Standard padded base64 (RFC 4648 alphabet) of `bytes`.
pub open spec fn spec_base64(bytes: Seq<u8>) -> Seq<char>
    decreases bytes.len(),
{
    if bytes.len() == 0 {
        seq![]
    } else if bytes.len() <= 3 {
        b64_chunk(bytes)
    } else {
        b64_chunk(bytes.take(3)) + spec_base64(bytes.skip(3))
    }
}

/// Base64 text is four characters per started group of three bytes.
pub proof fn law_base64_length(bytes: Seq<u8>)
    ensures
        spec_base64(bytes).len() == 4 * ((bytes.len() + 2) / 3),
    decreases bytes.len(),
{
    if bytes.len() > 3 {
        law_base64_length(bytes.skip(3));
    }
}

fn b64_exec(v: u8) -> (c: char)
    requires
        v < 64,
    ensures
        c == b64_char(v as int),
{
    if v < 26 {
        (65u8 + v) as char
    } else if v < 52 {
        (97u8 + (v - 26)) as char
    } else if v < 62 {
        (48u8 + (v - 52)) as char
    } else if v == 62 {
        '+'
    } else {
        '/'
    }
}

/// Padded base64 of `bytes` (the flag PNG data-URL payload).
pub fn base64_encode(bytes: &[u8]) -> (out: String)
    ensures
        out@ == spec_base64(bytes@),
{
    let n = bytes.len();
    let mut out = String::new();
    let mut i: usize = 0;
    assert(bytes@.skip(0) =~= bytes@);
    assert(out@ + spec_base64(bytes@.skip(0)) =~= spec_base64(bytes@));
    while i < n
        invariant
            n == bytes@.len(),
            i <= n,
            out@ + spec_base64(bytes@.skip(i as int)) == spec_base64(bytes@),
        decreases n - i,
    {
        let rest = n - i;
        let a = bytes[i];
        let b: u8 = if rest > 1 { bytes[i + 1] } else { 0 };
        let d: u8 = if rest > 2 { bytes[i + 2] } else { 0 };
        let ghost tail = bytes@.skip(i as int);
        let ghost chunk = if rest <= 3 { tail } else { tail.take(3) };
        assert(chunk.len() == if rest < 3 { rest as int } else { 3 });
        assert(chunk[0] == a);
        assert(rest > 1 ==> chunk[1] == b);
        assert(rest > 2 ==> chunk[2] == d);
        let ghost before = out@;
        push_char(&mut out, b64_exec(a / 4));
        push_char(&mut out, b64_exec((a % 4) * 16 + b / 16));
        if rest > 1 {
            push_char(&mut out, b64_exec((b % 16) * 4 + d / 64));
        } else {
            push_char(&mut out, '=');
        }
        if rest > 2 {
            push_char(&mut out, b64_exec(d % 64));
        } else {
            push_char(&mut out, '=');
        }
        assert(out@ =~= before + b64_chunk(chunk));
        if rest <= 3 {
            assert(spec_base64(tail) == b64_chunk(chunk));
            assert(bytes@.skip(n as int) =~= Seq::<u8>::empty());
            i = n;
        } else {
            assert(tail.skip(3) =~= bytes@.skip(i + 3));
            i = i + 3;
        }
    }
    assert(bytes@.skip(n as int) =~= Seq::<u8>::empty());
    out
}


/// The fixed solver caveats copied into every price report, in order.
pub open spec fn limitation_text(i: int) -> Seq<char> {
    if i == 0 {
        "Wealth is relaxed continuous then rounded; not the discrete in-game ladder during the solve."@
    } else if i == 1 {
        "Prices are clamped to ±PRICE_RANGE; the clamp is part of the model."@
    } else if i == 2 {
        "Employment, wages, and trade volumes are frozen except explicit what-if deltas."@
    } else if i == 3 {
        "Pops shop at each state's MAPI-blended local prices; state orders are infrastructure-access-scaled into one whole-save market; missing access defaults to 100%, and extra MAPI modifiers and overseas convoy constraints are not modeled."@
    } else {
        "The solve residual is part of the answer; a large residual means the model did not find a consistent pop/price fixed point."@
    }
}

/// Appended to a preview's limitations when the delta asks to subsidize.
pub open spec fn subsidy_not_modeled() -> Seq<char> {
    "Subsidies are not modeled; subsidy toggles were ignored."@
}

/// The solver caveats of every report (see [`limitation_text`]).
pub fn solve_limitations() -> (v: Vec<String>)
    ensures
        v@.len() == 5,
        forall|i: int| 0 <= i < 5 ==> #[trigger] v@[i]@ == limitation_text(i),
{
    let mut v: Vec<String> = Vec::new();
    v.push(crate::text::owned("Wealth is relaxed continuous then rounded; not the discrete in-game ladder during the solve."));
    v.push(crate::text::owned("Prices are clamped to ±PRICE_RANGE; the clamp is part of the model."));
    v.push(crate::text::owned("Employment, wages, and trade volumes are frozen except explicit what-if deltas."));
    v.push(crate::text::owned("Pops shop at each state's MAPI-blended local prices; state orders are infrastructure-access-scaled into one whole-save market; missing access defaults to 100%, and extra MAPI modifiers and overseas convoy constraints are not modeled."));
    v.push(crate::text::owned("The solve residual is part of the answer; a large residual means the model did not find a consistent pop/price fixed point."));
    v
}

/// The subsidy caveat text.
pub fn subsidy_limitation() -> (s: String)
    ensures
        s@ == subsidy_not_modeled(),
{
    crate::text::owned("Subsidies are not modeled; subsidy toggles were ignored.")
}

/// A preview's limitations: the solve's list, plus the subsidy caveat when
/// the delta asked for subsidies (which are ignored).
pub fn preview_limitations(solved: Vec<String>, has_subsidies: bool) -> (v: Vec<String>)
    ensures
        has_subsidies ==> v@ == solved@.push(v@.last()) && v@.last()@ == subsidy_not_modeled(),
        !has_subsidies ==> v@ == solved@,
{
    let mut v = solved;
    if has_subsidies {
        v.push(subsidy_limitation());
    }
    v
}

/// Version of this library.
pub fn version() -> (s: &'static str)
    ensures
        s@ == "0.1.0"@,
{
    "0.1.0"
}

pub open spec fn opt_view(o: Option<String>) -> Option<Seq<char>> {
    match o {
        Some(s) => Some(s@),
        None => None,
    }
}

/// The PNG stored for coat of arms `coa` (first entry wins).
pub open spec fn flag_of(flags: Seq<(String, Vec<u8>)>, coa: Seq<char>) -> Option<Seq<u8>>
    decreases flags.len(),
{
    if flags.len() == 0 {
        None
    } else if flags[0].0@ == coa {
        Some(flags[0].1@)
    } else {
        flag_of(flags.drop_first(), coa)
    }
}

/// A PNG data URL.
pub open spec fn png_data_url(png: Seq<u8>) -> Seq<char> {
    "data:image/png;base64,"@ + spec_base64(png)
}

/// The report row of `country` whose selected coat of arms is `coa`: its
/// label and demonym from the labels, and the flag as a data URL when the
/// coat of arms has a rendered PNG.
pub open spec fn country_row_ok(
    r: CountryInfo,
    country: WorldCountry,
    coa: Option<String>,
    labels: Seq<(String, String)>,
    flags: Seq<(String, Vec<u8>)>,
) -> bool {
    &&& r.id == country.id
    &&& r.tag@ == country.tag@
    &&& opt_view(r.name) == label_of(labels, country.tag@)
    &&& opt_view(r.adjective) == label_of(labels, adj_key(country.tag@))
    &&& opt_view(r.flag_coa) == opt_view(coa)
    &&& opt_view(r.flag_data_url) == match coa {
        Some(c) => match flag_of(flags, c@) {
            Some(png) => Some(png_data_url(png)),
            None => None,
        },
        None => None,
    }
}

fn find_flag<'a>(flags: &'a Vec<(String, Vec<u8>)>, coa: &str) -> (r: Option<&'a Vec<u8>>)
    ensures
        (match r {
            Some(p) => flag_of(flags@, coa@) == Some(p@),
            None => flag_of(flags@, coa@) is None,
        }),
{
    let mut i: usize = 0;
    assert(flags@.skip(0) =~= flags@);
    while i < flags.len()
        invariant
            i <= flags@.len(),
            flag_of(flags@, coa@) == flag_of(flags@.skip(i as int), coa@),
        decreases flags@.len() - i,
    {
        assert(flags@.skip(i as int)[0] == flags@[i as int]);
        if crate::text::str_eq(flags[i].0.as_str(), coa) {
            return Some(&flags[i].1);
        }
        assert(flags@.skip(i as int).drop_first() =~= flags@.skip(i + 1));
        i = i + 1;
    }
    None
}

fn copy_opt(o: &Option<String>) -> (r: Option<String>)
    ensures
        opt_view(r) == opt_view(*o),
{
    match o {
        Some(s) => Some(s.clone()),
        None => None,
    }
}

fn opt_label(labels: &Vec<(String, String)>, id: &str) -> (r: Option<String>)
    ensures
        opt_view(r) == label_of(labels@, id@),
{
    match find_label(labels, id) {
        Some(l) => Some(owned(l)),
        None => None,
    }
}

/// Country rows of a report, in country order; `coas[i]` is the coat of
/// arms selected for `countries[i]`.
pub fn country_rows(
    countries: &Vec<WorldCountry>,
    coas: &Vec<Option<String>>,
    labels: &Vec<(String, String)>,
    flags: &Vec<(String, Vec<u8>)>,
) -> (rows: Vec<CountryInfo>)
    requires
        coas@.len() == countries@.len(),
    ensures
        rows@.len() == countries@.len(),
        forall|i: int| 0 <= i < rows@.len() ==> country_row_ok(#[trigger] rows@[i], countries@[i], coas@[i], labels@, flags@),
{
    let mut rows: Vec<CountryInfo> = Vec::new();
    let mut i: usize = 0;
    while i < countries.len()
        invariant
            coas@.len() == countries@.len(),
            i <= countries@.len(),
            rows@.len() == i,
            forall|k: int| 0 <= k < i ==> country_row_ok(#[trigger] rows@[k], countries@[k], coas@[k], labels@, flags@),
        decreases countries@.len() - i,
    {
        let c = &countries[i];
        let tag = c.tag.as_str();
        let flag_data_url = match &coas[i] {
            Some(coa) => match find_flag(flags, coa.as_str()) {
                Some(png) => {
                    let mut url = owned("data:image/png;base64,");
                    let b = base64_encode(png.as_slice());
                    append_str(&mut url, b.as_str());
                    Some(url)
                },
                None => None,
            },
            None => None,
        };
        let row = CountryInfo {
            id: c.id,
            tag: c.tag.clone(),
            name: opt_label(labels, tag),
            adjective: country_adjective(labels, tag),
            flag_coa: copy_opt(&coas[i]),
            flag_data_url,
        };
        assert(country_row_ok(row, countries@[i as int], coas@[i as int], labels@, flags@));
        rows.push(row);
        i = i + 1;
    }
    rows
}

/// Building-type rows of a report: one per definition, in definition
/// order, with its label.
pub fn building_type_infos(buildings: &Vec<BuildingDef>, labels: &Vec<(String, String)>) -> (rows: Vec<BuildingTypeInfo>)
    ensures
        rows@.len() == buildings@.len(),
        forall|i: int| 0 <= i < rows@.len() ==> {
            &&& (#[trigger] rows@[i]).id@ == buildings@[i].id@
            &&& opt_view(rows@[i].name) == label_of(labels@, buildings@[i].id@)
            &&& opt_view(rows@[i].group_id) == opt_view(buildings@[i].group)
            &&& opt_view(rows@[i].city_type) == opt_view(buildings@[i].city_type)
        },
{
    let mut rows: Vec<BuildingTypeInfo> = Vec::new();
    let mut i: usize = 0;
    while i < buildings.len()
        invariant
            i <= buildings@.len(),
            rows@.len() == i,
            forall|k: int| 0 <= k < i ==> {
                &&& (#[trigger] rows@[k]).id@ == buildings@[k].id@
                &&& opt_view(rows@[k].name) == label_of(labels@, buildings@[k].id@)
                &&& opt_view(rows@[k].group_id) == opt_view(buildings@[k].group)
                &&& opt_view(rows@[k].city_type) == opt_view(buildings@[k].city_type)
            },
        decreases buildings@.len() - i,
    {
        let b = &buildings[i];
        rows.push(BuildingTypeInfo {
            id: b.id.clone(),
            name: opt_label(labels, b.id.as_str()),
            group_id: copy_opt(&b.group),
            city_type: copy_opt(&b.city_type),
        });
        i = i + 1;
    }
    rows
}

/// A building group definition.
#[derive(Debug, Clone, PartialEq, Eq)]
pub struct BuildingGroupDef {
    pub id: String,
    pub category: Option<String>,
    pub land_usage: Option<String>,
    pub always_possible: bool,
    pub default_building: Option<String>,
    pub parent_group: Option<String>,
}

/// Building-group rows of a report: one per group definition, in order,
/// with its label.
pub fn building_group_infos(groups: &Vec<BuildingGroupDef>, labels: &Vec<(String, String)>) -> (rows: Vec<BuildingGroupInfo>)
    ensures
        rows@.len() == groups@.len(),
        forall|i: int| 0 <= i < rows@.len() ==> {
            &&& (#[trigger] rows@[i]).id@ == groups@[i].id@
            &&& opt_view(rows@[i].name) == label_of(labels@, groups@[i].id@)
            &&& opt_view(rows@[i].category) == opt_view(groups@[i].category)
            &&& opt_view(rows@[i].land_usage) == opt_view(groups@[i].land_usage)
            &&& rows@[i].always_possible == groups@[i].always_possible
            &&& opt_view(rows@[i].default_building) == opt_view(groups@[i].default_building)
            &&& opt_view(rows@[i].parent_group) == opt_view(groups@[i].parent_group)
        },
{
    let mut rows: Vec<BuildingGroupInfo> = Vec::new();
    let mut i: usize = 0;
    while i < groups.len()
        invariant
            i <= groups@.len(),
            rows@.len() == i,
            forall|k: int| 0 <= k < i ==> {
                &&& (#[trigger] rows@[k]).id@ == groups@[k].id@
                &&& opt_view(rows@[k].name) == label_of(labels@, groups@[k].id@)
                &&& opt_view(rows@[k].category) == opt_view(groups@[k].category)
                &&& opt_view(rows@[k].land_usage) == opt_view(groups@[k].land_usage)
                &&& rows@[k].always_possible == groups@[k].always_possible
                &&& opt_view(rows@[k].default_building) == opt_view(groups@[k].default_building)
                &&& opt_view(rows@[k].parent_group) == opt_view(groups@[k].parent_group)
            },
        decreases groups@.len() - i,
    {
        let g = &groups[i];
        rows.push(BuildingGroupInfo {
            id: g.id.clone(),
            name: opt_label(labels, g.id.as_str()),
            category: copy_opt(&g.category),
            land_usage: copy_opt(&g.land_usage),
            always_possible: g.always_possible,
            default_building: copy_opt(&g.default_building),
            parent_group: copy_opt(&g.parent_group),
        });
        i = i + 1;
    }
    rows
}


/// What the market-input counts read of one building of the world.
#[derive(Debug, Clone, Copy, PartialEq, Eq)]
pub struct BuildingFlags {
    /// It has saved goods flows or a production method the definitions know.
    pub known_method: bool,
    /// It has saved goods flows or a recipe that places orders.
    pub has_orders: bool,
}

/// How many of `bs` lack a known method (`method == true`) or orders.
pub open spec fn count_lacking(bs: Seq<BuildingFlags>, method: bool) -> nat
    decreases bs.len(),
{
    if bs.len() == 0 {
        0
    } else {
        count_lacking(bs.drop_last(), method) + if (if method { bs.last().known_method } else { bs.last().has_orders }) {
            0nat
        } else {
            1nat
        }
    }
}

/// How many entries of `flags` are set.
pub open spec fn count_set(flags: Seq<bool>) -> nat
    decreases flags.len(),
{
    if flags.len() == 0 {
        0
    } else {
        count_set(flags.drop_last()) + if flags.last() { 1nat } else { 0nat }
    }
}

proof fn lemma_count_lacking_bound(bs: Seq<BuildingFlags>, method: bool)
    ensures
        count_lacking(bs, method) <= bs.len(),
    decreases bs.len(),
{
    if bs.len() > 0 {
        lemma_count_lacking_bound(bs.drop_last(), method);
    }
}

proof fn lemma_count_set_bound(flags: Seq<bool>)
    ensures
        count_set(flags) <= flags.len(),
    decreases flags.len(),
{
    if flags.len() > 0 {
        lemma_count_set_bound(flags.drop_last());
    }
}

/// The solve's input counts: pops and buildings that entered it, those
/// dropped while reading the save, buildings without a known method or
/// without orders, and goods with an order (`goods_with_orders[i]` says
/// whether good `i` has a buy or sell order above the order epsilon).
pub fn market_inputs(
    pops: usize,
    skipped_pops: usize,
    skipped_buildings: usize,
    buildings: &Vec<BuildingFlags>,
    goods_with_orders: &Vec<bool>,
) -> (r: MarketInputs)
    ensures
        r.pops == pops,
        r.skipped_pops == skipped_pops,
        r.buildings == buildings@.len(),
        r.skipped_buildings == skipped_buildings,
        r.buildings_without_method == count_lacking(buildings@, true),
        r.buildings_without_orders == count_lacking(buildings@, false),
        r.goods_with_orders == count_set(goods_with_orders@),
{
    let mut no_method: usize = 0;
    let mut no_orders: usize = 0;
    let mut i: usize = 0;
    while i < buildings.len()
        invariant
            i <= buildings@.len(),
            no_method == count_lacking(buildings@.subrange(0, i as int), true),
            no_orders == count_lacking(buildings@.subrange(0, i as int), false),
        decreases buildings@.len() - i,
    {
        proof {
            let pre = buildings@.subrange(0, i as int);
            assert(buildings@.subrange(0, i + 1).drop_last() =~= pre);
            lemma_count_lacking_bound(pre, true);
            lemma_count_lacking_bound(pre, false);
        }
        if !buildings[i].known_method {
            no_method = no_method + 1;
        }
        if !buildings[i].has_orders {
            no_orders = no_orders + 1;
        }
        i = i + 1;
    }
    assert(buildings@.subrange(0, buildings@.len() as int) =~= buildings@);
    let mut with_orders: usize = 0;
    let mut k: usize = 0;
    while k < goods_with_orders.len()
        invariant
            k <= goods_with_orders@.len(),
            with_orders == count_set(goods_with_orders@.subrange(0, k as int)),
        decreases goods_with_orders@.len() - k,
    {
        proof {
            let pre = goods_with_orders@.subrange(0, k as int);
            assert(goods_with_orders@.subrange(0, k + 1).drop_last() =~= pre);
            lemma_count_set_bound(pre);
        }
        if goods_with_orders[k] {
            with_orders = with_orders + 1;
        }
        k = k + 1;
    }
    assert(goods_with_orders@.subrange(0, goods_with_orders@.len() as int) =~= goods_with_orders@);
    MarketInputs {
        pops,
        skipped_pops,
        buildings: buildings.len(),
        skipped_buildings,
        buildings_without_method: no_method,
        buildings_without_orders: no_orders,
        goods_with_orders: with_orders,
    }
}

} // verus!
