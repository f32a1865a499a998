use vic3_analyzer::prices::alerts::{
    action_mit, goods_kind, goods_summary, is_tradeable, is_university_build, kind_id, merge_limitations,
    education_alert_id, market_access_id, market_access_mitigations, need_mitigations, needs_unmet_id, needs_unmet_parts, plain, rank, NeedTrip, same_area, state_market, trade_centers, with_effect,
    world_market, AlertKind, AlertsOptions, AreaBuilding, MitigationAction, StateMarket,
};

fn s(x: &str) -> String {
    x.to_string()
}

fn markets() -> Vec<StateMarket> {
    vec![
        StateMarket { id: 1, market: Some(100) },
        StateMarket { id: 2, market: Some(100) },
        StateMarket { id: 3, market: Some(200) },
        StateMarket { id: 4, market: None },
    ]
}

#[test]
fn wants_mitigations_follows_options() {
    let all = AlertsOptions::default();
    assert!(all.with_mitigations);
    assert!(all.mitigation_ids.is_none());
    assert!(all.wants_mitigations("goods:grain"));
    let none = AlertsOptions {
        with_mitigations: false,
        mitigation_ids: None,
    };
    assert!(!none.wants_mitigations("goods:grain"));
    let some = AlertsOptions {
        with_mitigations: true,
        mitigation_ids: Some(vec![s("needs:3")]),
    };
    assert!(some.wants_mitigations("needs:3"));
    assert!(!some.wants_mitigations("goods:grain"));
    let off = AlertsOptions {
        with_mitigations: false,
        mitigation_ids: Some(vec![s("needs:3")]),
    };
    assert!(!off.wants_mitigations("needs:3"));
}

#[test]
fn kind_ids_are_snake_case() {
    assert_eq!(kind_id(AlertKind::ElectricityShortage), "electricity_shortage");
    assert_eq!(kind_id(AlertKind::TransportationShortage), "transportation_shortage");
    assert_eq!(kind_id(AlertKind::GoodsShortage), "goods_shortage");
    assert_eq!(kind_id(AlertKind::NeedsUnmet), "needs_unmet");
    assert_eq!(kind_id(AlertKind::LowMarketAccess), "low_market_access");
    assert_eq!(kind_id(AlertKind::UnfilledEducation), "unfilled_education");
    assert_eq!(kind_id(AlertKind::UnfilledPops), "unfilled_pops");
    assert_eq!(kind_id(AlertKind::Underemployed), "underemployed");
}

#[test]
fn goods_kinds_and_tradeability() {
    assert_eq!(goods_kind("electricity"), AlertKind::ElectricityShortage);
    assert_eq!(goods_kind("Transportation"), AlertKind::TransportationShortage);
    assert_eq!(goods_kind("grain"), AlertKind::GoodsShortage);
    assert!(!is_tradeable("electricity", Some(true)));
    assert!(!is_tradeable("transportation", None));
    assert!(is_tradeable("grain", None));
    assert!(is_tradeable("grain", Some(true)));
    assert!(!is_tradeable("services", Some(false)));
}

#[test]
fn ranking_numbers_items_and_clears_apply_ready() {
    let a = plain(s("a"), s("A"), s("first"));
    let b = with_effect(
        action_mit(
            s("b"),
            s("B"),
            s("second"),
            MitigationAction::Subsidize { building_id: 7 },
        ),
        s("+1 grain sell"),
    );
    let mut b2 = b.clone();
    b2.apply_ready = true;
    let out = rank(vec![a, b2]);
    assert_eq!(out.len(), 2);
    assert_eq!(out[0].rank, 1);
    assert_eq!(out[1].rank, 2);
    assert!(!out[1].apply_ready);
    assert_eq!(out[1].effect.as_deref(), Some("+1 grain sell"));
    assert_eq!(out[0].id, "a");
    assert_eq!(out[0].detail, "first");
}

#[test]
fn university_builds_are_recognised() {
    let uni = action_mit(
        s("u"),
        s("Build"),
        s(""),
        MitigationAction::Build {
            building_type_name: s("building_University"),
            state_id: Some(1),
            extra_levels: Some(1),
        },
    );
    assert!(is_university_build(&uni));
    let farm = action_mit(
        s("f"),
        s("Build"),
        s(""),
        MitigationAction::Build {
            building_type_name: s("building_rye_farm"),
            state_id: None,
            extra_levels: None,
        },
    );
    assert!(!is_university_build(&farm));
    assert!(!is_university_build(&plain(s("p"), s("t"), s("d"))));
}

#[test]
fn need_mitigations_cheapen_then_import_first_three() {
    let goods = vec![
        (s("grain"), s("Grain")),
        (s("clothes"), s("Clothes")),
        (s("wood"), s("Wood")),
        (s("tea"), s("Tea")),
    ];
    let out = need_mitigations(12, &goods);
    assert_eq!(out.len(), 6);
    assert_eq!(out[0].id, "needs:12:sol:grain");
    assert_eq!(out[0].title, "Cheapen Grain");
    assert_eq!(
        out[0].detail,
        "Lower the local price of Grain (produce more or import) to cover the need basket."
    );
    assert_eq!(out[0].rank, 1);
    assert_eq!(
        out[0].action,
        Some(MitigationAction::SolGoods {
            good_name: s("grain"),
            state_id: Some(12)
        })
    );
    assert_eq!(out[1].id, "needs:12:import:grain");
    assert_eq!(out[1].title, "Import Grain through a trade center");
    assert_eq!(
        out[1].detail,
        "Trade-center imports of pop goods can fill the Grain basket."
    );
    assert_eq!(
        out[1].action,
        Some(MitigationAction::TradeAlloc {
            state_id: 12,
            good_name: s("grain")
        })
    );
    assert_eq!(out[5].id, "needs:12:import:wood");
    assert_eq!(out[5].rank, 6);
    assert!(need_mitigations(1, &Vec::new()).is_empty());
}

#[test]
fn market_lookups_take_first_state() {
    let m = markets();
    assert_eq!(state_market(&m, 3), Some(200));
    assert_eq!(state_market(&m, 4), None);
    assert_eq!(state_market(&m, 9), None);
    assert_eq!(world_market(&m, 1), Some(100));
}

#[test]
fn same_area_by_state_or_market() {
    let m = markets();
    assert!(same_area(&m, Some(1), Some(1), None));
    assert!(same_area(&m, Some(2), Some(1), Some(100)));
    assert!(!same_area(&m, Some(3), Some(1), Some(100)));
    assert!(!same_area(&m, Some(2), Some(1), None));
    assert!(same_area(&m, None, Some(1), None));
    assert!(same_area(&m, Some(3), None, None));
}

#[test]
fn trade_centers_in_the_wanted_market() {
    let solved = markets();
    let snapshot = vec![StateMarket { id: 5, market: Some(200) }];
    let buildings = vec![
        AreaBuilding { building_type_name: s("building_trade_center"), state_id: Some(2) },
        AreaBuilding { building_type_name: s("building_rye_farm"), state_id: Some(1) },
        AreaBuilding { building_type_name: s("building_trade_center"), state_id: Some(3) },
        AreaBuilding { building_type_name: s("building_trade_center"), state_id: None },
        AreaBuilding { building_type_name: s("building_trade_center"), state_id: Some(1) },
    ];
    assert_eq!(trade_centers(&buildings, &solved, &snapshot, Some(1)), vec![0, 3, 4]);
    // State 5 is only in the snapshot, in market 200 with state 3.
    assert_eq!(trade_centers(&buildings, &solved, &snapshot, Some(5)), vec![2, 3]);
    assert_eq!(trade_centers(&buildings, &solved, &snapshot, None), vec![0, 2, 3, 4]);
}

#[test]
fn limitations_merge_without_repeats() {
    let base = vec![s("a"), s("b")];
    let extra = vec![s("b"), s("c"), s("d")];
    assert_eq!(merge_limitations(base, &extra), vec![s("a"), s("b"), s("c"), s("d")]);
    assert_eq!(merge_limitations(Vec::new(), &Vec::new()), Vec::<String>::new());
}

#[test]
fn goods_summary_names_kind_and_trade_route() {
    assert_eq!(
        goods_summary(AlertKind::ElectricityShortage, false, "120", "80.50"),
        "Electricity is short: buy 120 vs sell 80.50. This good is local-only; imports cannot help."
    );
    assert_eq!(
        goods_summary(AlertKind::GoodsShortage, true, "12", "3"),
        "A tradeable (or other) good is short: buy 12 vs sell 3. Trade-center import advice is included."
    );
    assert!(goods_summary(AlertKind::TransportationShortage, false, "1", "0")
        .starts_with("Transportation is short: buy 1 vs sell 0."));
}

fn trip(need: &str, good: &str, label: &str, value: &str) -> NeedTrip {
    NeedTrip { need_label: s(need), good_name: s(good), good_label: s(label), value: s(value) }
}

#[test]
fn needs_unmet_parts_list_every_trip_and_each_good_once() {
    let trips = vec![
        trip("Basic Food", "grain", "Grain", "120 vs sell 80"),
        trip("Heating", "wood", "Wood", "60 / 40 (max)"),
        trip("Simple Clothing", "grain", "Grain", "10 vs sell 0"),
    ];
    let (evidence, goods) = needs_unmet_parts(&trips);
    assert_eq!(evidence.len(), 3);
    assert_eq!(evidence[0].label, "Basic Food: Grain");
    assert_eq!(evidence[0].value, "120 vs sell 80");
    assert_eq!(evidence[2].label, "Simple Clothing: Grain");
    assert_eq!(goods, vec![(s("grain"), s("Grain")), (s("wood"), s("Wood"))]);
    let mits = need_mitigations(4, &goods);
    assert_eq!(mits.len(), 4);
    assert_eq!(needs_unmet_id(4), "needs_unmet:4");
    let (e, g) = needs_unmet_parts(&Vec::new());
    assert!(e.is_empty() && g.is_empty());
}

#[test]
fn market_access_advice_adds_one_railway_level() {
    assert_eq!(market_access_id(12), "low_market_access:12");
    let mits = market_access_mitigations(12);
    assert_eq!(mits.len(), 1);
    assert_eq!(mits[0].id, "access:12:rail");
    assert_eq!(mits[0].title, "Add infrastructure");
    assert_eq!(mits[0].rank, 1);
    assert!(!mits[0].apply_ready);
    assert_eq!(
        mits[0].action,
        Some(MitigationAction::Build {
            building_type_name: s("building_railway"),
            state_id: Some(12),
            extra_levels: Some(1),
        })
    );
    assert_eq!(education_alert_id(3, "engineers"), "unfilled_education:3:engineers");
}
