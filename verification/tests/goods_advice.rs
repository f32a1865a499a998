use vic3_analyzer::prices::alerts::{is_tradeable, MitigationAction};
use vic3_analyzer::prices::goods_advice::{
    goods_mitigations, CenterRow, EffectRequest, PmPick, ShortageContext,
};
use vic3_analyzer::prices::goods_advice::{local_producer_type, pm_upgrade_trials, FlowRow, OutputRow};
use vic3_analyzer::prices::optimize::PmBuilding;

fn s(x: &str) -> String {
    x.to_string()
}

fn center(id: u32, state: Option<u32>, employed: bool, unprofitable: bool, short: &[&str]) -> CenterRow {
    CenterRow {
        id,
        building_type_name: s("building_trade_center"),
        state_id: state,
        employed,
        unprofitable,
        short_inputs: short.iter().map(|x| s(x)).collect(),
        staffing_text: s("2"),
        level_text: s("5"),
    }
}

fn ctx(good: &str, tradeable: bool, centers: Vec<CenterRow>) -> ShortageContext {
    ShortageContext {
        good: s(good),
        state_id: Some(1),
        tradeable,
        centers,
        importing_states: Vec::new(),
        state_labels: vec![(1, s("Brandenburg"))],
        local_producer: None,
        best_pm: None,
        pm_labels: vec![(s("pm_rich"), s("Rich method"))],
    }
}

#[test]
fn tradeable_shortage_includes_trade_center_mitigation() {
    let grain = goods_mitigations(&ctx("grain", is_tradeable("grain", Some(true)), vec![center(7, Some(1), true, false, &[])]));
    assert!(grain.items.iter().any(|mit| {
        mit.title.to_ascii_lowercase().contains("trade")
            || matches!(
                mit.action,
                Some(MitigationAction::TradeAlloc { .. })
                    | Some(MitigationAction::Build { .. })
                    | Some(MitigationAction::Pm { .. })
                    | Some(MitigationAction::Subsidize { .. })
            )
    }));
    assert!(grain
        .notes
        .iter()
        .any(|line| line.to_ascii_lowercase().contains("frozen") && line.to_ascii_lowercase().contains("trade")));

    let power = goods_mitigations(&ctx("electricity", is_tradeable("electricity", Some(true)), Vec::new()));
    assert!(power.items.iter().any(|mit| mit.detail.to_ascii_lowercase().contains("non-tradeable")
        || mit.title.to_ascii_lowercase().contains("local-only")));
    assert!(!power
        .items
        .iter()
        .any(|mit| matches!(mit.action, Some(MitigationAction::TradeAlloc { .. }))));
}

#[test]
fn local_only_good_advice() {
    let adv = goods_mitigations(&ctx("electricity", false, Vec::new()));
    let ids: Vec<&str> = adv.items.iter().map(|m| m.id.as_str()).collect();
    assert_eq!(ids, ["goods:electricity:local", "goods:electricity:local-producer"]);
    assert_eq!(adv.items[0].title, "Local-only good");
    assert_eq!(
        adv.items[0].detail,
        "electricity is non-tradeable; skip import allocation and produce it in the state."
    );
    assert_eq!(
        adv.effects[0],
        EffectRequest::Fixed(s("0 extra electricity from imports (local-only good)."))
    );
    assert_eq!(
        adv.items[1].action,
        Some(MitigationAction::Build {
            building_type_name: s("building_electricity_producer"),
            state_id: Some(1),
            extra_levels: Some(1)
        })
    );
    assert_eq!(adv.items[0].rank, 1);
    assert_eq!(adv.items[1].rank, 2);
    assert_eq!(adv.notes.len(), 1);
}

#[test]
fn no_trade_center_suggests_building_one() {
    let mut c = ctx("grain", true, Vec::new());
    c.local_producer = Some(s("building_wheat_farm"));
    c.best_pm = Some(PmPick {
        building_id: 12,
        building_type_name: s("building_wheat_farm"),
        from: vec![s("pm_poor"), s("pm_tools")],
        to: vec![s("pm_rich"), s("pm_tools")],
        new_pm: s("pm_rich"),
    });
    let adv = goods_mitigations(&c);
    let ids: Vec<&str> = adv.items.iter().map(|m| m.id.as_str()).collect();
    assert_eq!(ids, ["goods:grain:build-tc", "goods:grain:local-producer", "goods:grain:pm-12"]);
    assert_eq!(
        adv.effects[0],
        EffectRequest::ExtraLevels {
            building_type_name: s("building_trade_center"),
            state_id: Some(1)
        }
    );
    assert_eq!(
        adv.effects[1],
        EffectRequest::ExtraLevels {
            building_type_name: s("building_wheat_farm"),
            state_id: Some(1)
        }
    );
    assert_eq!(adv.items[2].title, "Switch to Rich method");
    assert_eq!(
        adv.items[2].detail,
        "On building_wheat_farm #12, change production methods from [pm_poor, pm_tools] to [Rich method, pm_tools]."
    );
    assert_eq!(
        adv.effects[2],
        EffectRequest::PmSwap {
            building_id: 12,
            methods: vec![s("pm_rich"), s("pm_tools")]
        }
    );
}

#[test]
fn trade_centers_are_fed_subsidized_staffed_or_extended() {
    let mut c = ctx(
        "grain",
        true,
        vec![
            center(3, Some(1), false, true, &["paper", "clippers"]),
            center(4, Some(2), false, false, &[]),
            center(5, None, true, false, &[]),
        ],
    );
    c.importing_states = vec![2];
    let adv = goods_mitigations(&c);
    let ids: Vec<&str> = adv.items.iter().map(|m| m.id.as_str()).collect();
    assert_eq!(
        ids,
        [
            "goods:grain:tc-inputs-3",
            "goods:grain:tc-subsidy-3",
            "goods:grain:reallocate-1",
            "goods:grain:tc-employ-4",
            "goods:grain:tc-levels-5",
            "goods:grain:reallocate-1",
        ]
    );
    assert_eq!(adv.items[0].detail, "Trade center 3 is short on paper, clippers.");
    assert_eq!(adv.items[1].action, Some(MitigationAction::Subsidize { building_id: 3 }));
    assert_eq!(
        adv.items[2].detail,
        "Brandenburg is not importing grain. Reallocation is advice only (frozen trade)."
    );
    assert_eq!(
        adv.items[3].detail,
        "Trade center 4 is at 2 / 5 levels. Raise employment before adding levels."
    );
    assert_eq!(adv.effects[3], EffectRequest::Staffing { building_id: 4 });
    // A center without a state extends levels in the alert's state.
    assert_eq!(
        adv.effects[4],
        EffectRequest::ExtraLevels {
            building_type_name: s("building_trade_center"),
            state_id: Some(1)
        }
    );
    assert_eq!(adv.notes.len(), 2);
    assert_eq!(
        adv.notes[1],
        "Trade volumes are frozen in this model; import reallocation cannot be applied yet."
    );
    let ranks: Vec<u32> = adv.items.iter().map(|m| m.rank).collect();
    assert_eq!(ranks, [1, 2, 3, 4, 5, 6]);
}

#[test]
fn unlabelled_state_falls_back_to_its_id() {
    let mut c = ctx("grain", true, vec![center(3, Some(9), true, false, &[])]);
    c.state_labels = Vec::new();
    let adv = goods_mitigations(&c);
    assert_eq!(
        adv.items[1].detail,
        "state 9 is not importing grain. Reallocation is advice only (frozen trade)."
    );
}

#[test]
fn local_producer_prefers_solved_outputs_then_flows() {
    let outputs = vec![
        OutputRow { building_type_name: s("building_farm_a"), state_id: Some(2), outputs: vec![s("grain")] },
        OutputRow { building_type_name: s("building_mill"), state_id: Some(1), outputs: vec![s("flour")] },
        OutputRow { building_type_name: s("building_farm_b"), state_id: Some(1), outputs: vec![s("wood"), s("grain")] },
    ];
    let flows = vec![
        FlowRow { building_type_name: s("building_bakery"), state_id: Some(3), involves_good: true },
        FlowRow { building_type_name: s("building_port"), state_id: Some(1), involves_good: false },
    ];
    assert_eq!(local_producer_type(&outputs, &flows, true, "grain", Some(1)).as_deref(), Some("building_farm_b"));
    assert_eq!(local_producer_type(&outputs, &flows, true, "grain", None).as_deref(), Some("building_farm_a"));
    assert_eq!(local_producer_type(&outputs, &flows, true, "grain", Some(3)).as_deref(), Some("building_bakery"));
    assert_eq!(local_producer_type(&outputs, &flows, false, "grain", Some(3)), None);
    assert_eq!(local_producer_type(&outputs, &flows, true, "grain", Some(4)), None);
}

fn pm_building(id: u32, state: Option<u32>, ty: &str, methods: &[&str]) -> PmBuilding {
    PmBuilding {
        id,
        state,
        building_type: s(ty),
        production_methods: methods.iter().map(|m| s(m)).collect(),
    }
}

fn trial(id: u32, ty: &str, from: &[&str], to: &[&str], new_pm: &str) -> PmPick {
    PmPick {
        building_id: id,
        building_type_name: s(ty),
        from: from.iter().map(|m| s(m)).collect(),
        to: to.iter().map(|m| s(m)).collect(),
        new_pm: s(new_pm),
    }
}

#[test]
fn pm_upgrade_trials_switch_one_slot_at_a_time_in_scan_order() {
    let buildings = vec![
        pm_building(1, Some(1), "building_steel_mill", &["pm_blister", "pm_no_automation"]),
        pm_building(2, Some(2), "building_steel_mill", &["pm_bessemer", "pm_no_automation"]),
        pm_building(3, Some(1), "building_farm", &["pm_simple_farming"]),
        pm_building(4, Some(1), "building_mine", &[]),
    ];
    let trials = pm_upgrade_trials(&buildings, Some(1));
    let from = ["pm_blister", "pm_no_automation"];
    assert_eq!(
        trials,
        vec![
            trial(1, "building_steel_mill", &from, &["pm_bessemer", "pm_no_automation"], "pm_bessemer"),
            trial(1, "building_steel_mill", &from, &["pm_no_automation", "pm_no_automation"], "pm_no_automation"),
            trial(1, "building_steel_mill", &from, &["pm_blister", "pm_bessemer"], "pm_bessemer"),
            trial(1, "building_steel_mill", &from, &["pm_blister", "pm_blister"], "pm_blister"),
        ]
    );
    // Every state: the second mill is scanned too; the farm's type has a single method.
    let all = pm_upgrade_trials(&buildings, None);
    assert_eq!(all.len(), 8);
    assert_eq!(all[4].building_id, 2);
    assert_eq!(all[4].to, vec![s("pm_blister"), s("pm_no_automation")]);
    assert!(pm_upgrade_trials(&buildings, Some(3)).is_empty());
}
