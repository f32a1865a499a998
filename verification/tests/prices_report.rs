use vic3_analyzer::prices::profile_markers::{replay, BasinIterTracker, PriceSolveSpan, SolverEvent};
use vic3_analyzer::prices::report::{
    base64_encode, preview_limitations, solve_limitations, subsidy_limitation, version,
};
use vic3_analyzer::prices::result::{
    default_max_iters, empty_stats, EmitTables, ExtraLevelsDelta, MarketInputs, SolveStatus,
    SolveStrategy, WhatIfOpts, WorldDelta,
};
use vic3_analyzer::prices::world::resolve_profession_key;
use vic3_analyzer::prices::qualification::BuildingDef;
use vic3_analyzer::prices::report::{building_group_infos, building_type_infos, country_rows, BuildingGroupDef};
use vic3_analyzer::prices::report::{market_inputs, BuildingFlags};
use vic3_analyzer::prices::world::WorldCountry;

#[test]
fn lib_version_is_semver() {
    assert!(!version().is_empty());
    assert_eq!(version().split('.').count(), 3);
}

#[test]
fn limitations_nonempty_and_matches_const() {
    let limitations = solve_limitations();
    assert!(!limitations.is_empty());
    assert_eq!(limitations.len(), 5);
    assert_eq!(
        limitations[0],
        "Wealth is relaxed continuous then rounded; not the discrete in-game ladder during the solve."
    );
    assert_eq!(
        limitations[1],
        "Prices are clamped to ±PRICE_RANGE; the clamp is part of the model."
    );
    assert_eq!(
        limitations[2],
        "Employment, wages, and trade volumes are frozen except explicit what-if deltas."
    );
    assert_eq!(
        limitations[3],
        "Pops shop at each state's MAPI-blended local prices; state orders are infrastructure-access-scaled into one whole-save market; missing access defaults to 100%, and extra MAPI modifiers and overseas convoy constraints are not modeled."
    );
    assert_eq!(
        limitations[4],
        "The solve residual is part of the answer; a large residual means the model did not find a consistent pop/price fixed point."
    );
}

#[test]
fn base64_known_vectors() {
    assert_eq!(base64_encode(b""), "");
    assert_eq!(base64_encode(b"f"), "Zg==");
    assert_eq!(base64_encode(b"fo"), "Zm8=");
    assert_eq!(base64_encode(b"foo"), "Zm9v");
    assert_eq!(base64_encode(b"foob"), "Zm9vYg==");
    assert_eq!(base64_encode(b"fooba"), "Zm9vYmE=");
    assert_eq!(base64_encode(b"foobar"), "Zm9vYmFy");
    assert_eq!(base64_encode(&[0xff, 0xfe, 0x3e]), "//4+");
    assert_eq!(base64_encode(&[0x89, b'P', b'N', b'G']), "iVBORw==");
}

#[test]
fn preview_adds_subsidy_caveat_only_when_asked() {
    let base = solve_limitations();
    let with = preview_limitations(base.clone(), true);
    assert_eq!(with.len(), 6);
    assert_eq!(
        with[5],
        "Subsidies are not modeled; subsidy toggles were ignored."
    );
    assert_eq!(with[5], subsidy_limitation());
    let without = preview_limitations(base.clone(), false);
    assert_eq!(without, base);
}

#[test]
fn result_helpers() {
    assert_eq!(default_max_iters(), 100);
    let s = empty_stats(SolveStrategy::Joint);
    assert_eq!(s.param_dim, 0);
    assert_eq!(s.n_residual_evals, 0);
    assert_eq!(s.n_jacobian_evals, 0);
    assert_eq!(s.strategy, SolveStrategy::Joint);
    assert_eq!(SolveStatus::Converged.as_str(), "converged");
    assert_eq!(SolveStatus::Converged.to_string(), "converged");
    let d = WorldDelta::from_what_if(WhatIfOpts {
        building: "building_farm".into(),
        extra_levels: 2,
    });
    assert!(d.production_methods.is_empty());
    assert!(d.subsidize.is_empty());
    assert_eq!(
        d.extra_levels,
        vec![ExtraLevelsDelta {
            building: Some("building_farm".into()),
            building_id: None,
            extra_levels: 2
        }]
    );
}

#[test]
fn market_inputs_empty_iff_no_good_has_orders() {
    let mut m = MarketInputs {
        pops: 3,
        skipped_pops: 0,
        buildings: 2,
        skipped_buildings: 0,
        buildings_without_method: 0,
        buildings_without_orders: 0,
        goods_with_orders: 0,
    };
    assert!(m.is_empty_market());
    m.goods_with_orders = 1;
    assert!(!m.is_empty_market());
}

#[test]
fn emit_tables_lookups() {
    let t = EmitTables {
        names: vec!["grain".into(), "wood".into()],
        labels: vec![
            ("grain".into(), "Grain".into()),
            ("grain".into(), "Other".into()),
        ],
    };
    assert_eq!(t.name(Some(1)), Some("wood"));
    assert_eq!(t.name(Some(2)), None);
    assert_eq!(t.name(None), None);
    assert_eq!(t.label("grain"), Some("Grain"));
    assert_eq!(t.label("wood"), None);
}

#[test]
fn profession_keys_resolve_vanilla_indices() {
    assert_eq!(resolve_profession_key("0"), "academics");
    assert_eq!(resolve_profession_key("+3"), "capitalists");
    assert_eq!(resolve_profession_key("15"), "15");
    assert_eq!(resolve_profession_key("x"), "x");
    assert_eq!(resolve_profession_key("machinists"), "machinists");
}

#[test]
fn tracker_counts_iterations() {
    let t = replay(&vec![
        SolverEvent::Residual,
        SolverEvent::Residual,
        SolverEvent::BeginJacobian,
        SolverEvent::EndJacobian,
        SolverEvent::Residual,
        SolverEvent::EndJacobian,
    ]);
    assert_eq!(t.opened, 2);
    assert!(!t.open);
    let mut u = BasinIterTracker::new();
    u.note_residual_or_cost();
    u.begin_jacobian();
    assert_eq!(u.opened, 1);
    u.end_jacobian();
    u.begin_jacobian();
    assert_eq!(u.opened, 2);
    u.close();
    assert!(!u.open);
    let mut span = PriceSolveSpan::new(SolveStrategy::Nested);
    assert!(!span.entered);
    let g = span.enter();
    assert!(span.entered);
    assert_eq!(g.strategy, SolveStrategy::Nested);
}

#[test]
fn country_and_building_rows() {
    let countries = vec![
        WorldCountry { id: 1, tag: "PRU".into(), laws: Vec::new(), overlord: None, subject_type: None },
        WorldCountry { id: 2, tag: "FRA".into(), laws: Vec::new(), overlord: None, subject_type: None },
    ];
    let labels = vec![
        ("PRU".to_string(), "Prussia".to_string()),
        ("PRU_ADJ".to_string(), "Prussian".to_string()),
        ("building_farm".to_string(), "Farm".to_string()),
        ("bg_agriculture".to_string(), "Agriculture".to_string()),
    ];
    let flags = vec![("coa_pru".to_string(), vec![b'f', b'o', b'o'])];
    let coas = vec![Some("coa_pru".to_string()), Some("coa_none".to_string())];
    let rows = country_rows(&countries, &coas, &labels, &flags);
    assert_eq!(rows[0].tag, "PRU");
    assert_eq!(rows[0].name.as_deref(), Some("Prussia"));
    assert_eq!(rows[0].adjective.as_deref(), Some("Prussian"));
    assert_eq!(rows[0].flag_coa.as_deref(), Some("coa_pru"));
    assert_eq!(rows[0].flag_data_url.as_deref(), Some("data:image/png;base64,Zm9v"));
    assert_eq!(rows[1].name, None);
    assert_eq!(rows[1].adjective, None);
    assert_eq!(rows[1].flag_coa.as_deref(), Some("coa_none"));
    assert_eq!(rows[1].flag_data_url, None);

    let defs = vec![BuildingDef {
        id: "building_farm".into(),
        group: Some("bg_agriculture".into()),
        city_type: Some("farm".into()),
        production_method_groups: Vec::new(),
    }];
    let types = building_type_infos(&defs, &labels);
    assert_eq!(types.len(), 1);
    assert_eq!(types[0].name.as_deref(), Some("Farm"));
    assert_eq!(types[0].group_id.as_deref(), Some("bg_agriculture"));
    let groups = building_group_infos(
        &vec![BuildingGroupDef {
            id: "bg_agriculture".into(),
            category: Some("rural".into()),
            land_usage: None,
            always_possible: true,
            default_building: Some("building_farm".into()),
            parent_group: None,
        }],
        &labels,
    );
    assert_eq!(groups[0].name.as_deref(), Some("Agriculture"));
    assert!(groups[0].always_possible);
    assert_eq!(groups[0].default_building.as_deref(), Some("building_farm"));
}

#[test]
fn market_inputs_count_buildings_and_goods() {
    let flags = vec![
        BuildingFlags { known_method: true, has_orders: true },
        BuildingFlags { known_method: false, has_orders: false },
        BuildingFlags { known_method: true, has_orders: false },
    ];
    let inputs = market_inputs(120, 3, 2, &flags, &vec![true, false, true, true]);
    assert_eq!(inputs.pops, 120);
    assert_eq!(inputs.skipped_pops, 3);
    assert_eq!(inputs.buildings, 3);
    assert_eq!(inputs.skipped_buildings, 2);
    assert_eq!(inputs.buildings_without_method, 1);
    assert_eq!(inputs.buildings_without_orders, 2);
    assert_eq!(inputs.goods_with_orders, 3);
    assert!(!inputs.is_empty_market());
    let empty = market_inputs(0, 0, 0, &Vec::new(), &vec![false, false]);
    assert_eq!(empty.goods_with_orders, 0);
    assert!(empty.is_empty_market());
}

#[test]
fn base64_is_four_chars_per_started_triple() {
    for n in 0..10usize {
        let bytes: Vec<u8> = (0..n as u8).map(|b| b.wrapping_mul(37)).collect();
        assert_eq!(base64_encode(&bytes).len(), 4 * ((n + 2) / 3), "n={n}");
    }
}
