use std::collections::BTreeSet;

use vic3_analyzer::prices::optimize::{
    candidate_pms, changes_from_delta, optimize_limitations, player_building_ids,
    player_state_ids, pop_in_scope, techs_present, trial_delta, PlayerCountry, PmBuilding,
    MAX_PM_TRIALS,
};
use vic3_analyzer::prices::pm_search::{search_groups, start, step, SearchAction, SearchPhase};
use vic3_analyzer::prices::result::{ProductionMethodDelta, WorldDelta};
use vic3_analyzer::prices::world::{apply_delta, extra_levels_on_type};

fn s(x: &str) -> String {
    x.to_string()
}

fn workshop(id: u32, state: Option<u32>, method: &str) -> PmBuilding {
    PmBuilding {
        id,
        state,
        building_type: s("workshop"),
        production_methods: vec![s(method)],
    }
}

fn empty_delta() -> WorldDelta {
    WorldDelta {
        production_methods: Vec::new(),
        extra_levels: Vec::new(),
        subsidize: Vec::new(),
    }
}

/// Grain income of the buildings after `delta`: a rich method makes 40
/// grain, a poor one 1, each sold at the base price 20.
fn income(buildings: &[PmBuilding], delta: &WorldDelta) -> f64 {
    let changes = apply_delta(&buildings.to_vec(), delta);
    changes
        .iter()
        .map(|c| {
            let per: f64 = c
                .production_methods
                .iter()
                .map(|m| if m == "pm_rich" { 40.0 } else { 1.0 })
                .sum();
            per * 20.0
        })
        .sum()
}

/// Runs the search, judging each trial by [`income`]; returns the accepted
/// entries, the number of trials, and the best income.
fn run_search(buildings: &[PmBuilding], player: &BTreeSet<u32>) -> (Vec<ProductionMethodDelta>, u32, f64) {
    let groups = search_groups(&buildings.to_vec(), player);
    let baseline = income(buildings, &empty_delta());
    let mut best = baseline;
    let mut st = start();
    let mut verdict = false;
    let mut trials = 0u32;
    loop {
        let (next, action) = step(&groups, st, verdict);
        st = next;
        match action {
            SearchAction::Continue => verdict = false,
            SearchAction::Trial(d) => {
                trials += 1;
                let score = income(buildings, &d);
                verdict = score > best + 1e-9;
                if verdict {
                    best = score;
                }
            }
            SearchAction::Finished => break,
        }
    }
    assert_eq!(st.phase, SearchPhase::Done);
    assert_eq!(st.trials, trials);
    (st.accepted, trials, best - baseline)
}

#[test]
fn optimizer_selects_strictly_more_profitable_pm() {
    let buildings = vec![workshop(1, None, "pm_rich"), workshop(2, None, "pm_poor")];
    // No player country: every building counts.
    let player = player_building_ids(&buildings, None);
    let (accepted, _trials, income_delta) = run_search(&buildings, &player);
    let delta = WorldDelta {
        production_methods: accepted,
        ..empty_delta()
    };
    let changes = changes_from_delta(&buildings, &delta);
    let poor = changes
        .iter()
        .find(|change| change.building_id == 2)
        .expect("poor workshop should change");
    assert_eq!(poor.building_type, "workshop");
    assert_eq!(poor.from, ["pm_poor"]);
    assert_eq!(poor.to, ["pm_rich"]);
    assert!(income_delta > 0.0, "income should rise, got {income_delta}");
    assert_eq!(delta.production_methods[0].methods, ["pm_rich"]);
    let limitations = optimize_limitations(Vec::new(), false);
    assert!(limitations
        .iter()
        .any(|line| line == "PM search is a greedy one-slot heuristic, not a full combinatorial search."));
}

#[test]
fn optimizer_adds_tech_gating_limitation_when_techs_present() {
    let player = PlayerCountry {
        id: 1,
        states: Vec::new(),
        techs: vec![s("tech_romanticism")],
    };
    let buildings = vec![workshop(1, None, "pm_poor")];
    let states = player_state_ids(Some(&player), &Vec::new()).unwrap();
    let ids = player_building_ids(&buildings, Some(&states));
    assert!(ids.is_empty());
    let (accepted, trials, _) = run_search(&buildings, &ids);
    assert!(accepted.is_empty());
    assert_eq!(trials, 0);
    let techs = techs_present(Some(&player), &vec![player.clone()]);
    let limitations = optimize_limitations(Vec::new(), techs);
    assert!(limitations.iter().any(|line| line == "PM tech gating incomplete"));
}

#[test]
fn search_never_exceeds_trial_budget() {
    // Many buildings and methods, and every trial improves: the search
    // keeps going until the budget runs out.
    let mut buildings = Vec::new();
    for id in 0..6u32 {
        buildings.push(PmBuilding {
            id,
            state: Some(1),
            building_type: format!("type_{}", id % 3),
            production_methods: vec![format!("pm_{id}_a"), format!("pm_{id}_b")],
        });
    }
    let player = player_building_ids(&buildings, None);
    let groups = search_groups(&buildings, &player);
    assert_eq!(groups.len(), 3);
    let mut st = start();
    let mut verdict = false;
    let mut trials = 0u32;
    loop {
        let (next, action) = step(&groups, st, verdict);
        st = next;
        match action {
            SearchAction::Trial(d) => {
                trials += 1;
                assert!(d.extra_levels.is_empty() && d.subsidize.is_empty());
                verdict = true;
            }
            SearchAction::Continue => verdict = false,
            SearchAction::Finished => break,
        }
        assert!(st.trials <= MAX_PM_TRIALS);
    }
    assert_eq!(trials, MAX_PM_TRIALS);
}

#[test]
fn groups_by_type_in_type_order() {
    let buildings = vec![
        PmBuilding { id: 1, state: Some(1), building_type: s("b_mill"), production_methods: vec![s("pm_x")] },
        PmBuilding { id: 2, state: Some(2), building_type: s("a_farm"), production_methods: vec![s("pm_z")] },
        PmBuilding { id: 3, state: Some(1), building_type: s("b_mill"), production_methods: vec![s("pm_y")] },
        PmBuilding { id: 4, state: Some(9), building_type: s("b_mill"), production_methods: vec![s("pm_w")] },
    ];
    let states: BTreeSet<u32> = [1u32, 2].into_iter().collect();
    let ids = player_building_ids(&buildings, Some(&states));
    assert_eq!(ids.iter().copied().collect::<Vec<_>>(), vec![1, 2, 3]);
    assert!(pop_in_scope(2, Some(&states)));
    assert!(!pop_in_scope(9, Some(&states)));
    assert!(pop_in_scope(9, None));
    let groups = search_groups(&buildings, &ids);
    let types: Vec<&str> = groups.iter().map(|g| g.building_type.as_str()).collect();
    assert_eq!(types, ["a_farm", "b_mill"]);
    let mill_ids: Vec<u32> = groups[1].buildings.iter().map(|b| b.id).collect();
    assert_eq!(mill_ids, [1, 3]);
    // Candidates come from every building of the type, player or not.
    assert_eq!(groups[1].candidates, ["pm_w", "pm_x", "pm_y"]);
    assert_eq!(candidate_pms(&buildings, "b_mill"), ["pm_w", "pm_x", "pm_y"]);
    assert!(candidate_pms(&buildings, "c_none").is_empty());
}

#[test]
fn changes_sorted_by_type_then_id() {
    let buildings = vec![
        PmBuilding { id: 5, state: None, building_type: s("mill"), production_methods: vec![s("a")] },
        PmBuilding { id: 2, state: None, building_type: s("mill"), production_methods: vec![s("a")] },
        PmBuilding { id: 9, state: None, building_type: s("farm"), production_methods: vec![s("b")] },
        PmBuilding { id: 7, state: None, building_type: s("farm"), production_methods: vec![s("c")] },
    ];
    let delta = WorldDelta {
        production_methods: vec![
            ProductionMethodDelta { building_id: 5, methods: vec![s("z")] },
            ProductionMethodDelta { building_id: 9, methods: vec![s("z")] },
            ProductionMethodDelta { building_id: 7, methods: vec![s("c")] },
            ProductionMethodDelta { building_id: 2, methods: vec![s("z")] },
            ProductionMethodDelta { building_id: 40, methods: vec![s("z")] },
        ],
        ..empty_delta()
    };
    let changes = changes_from_delta(&buildings, &delta);
    let keys: Vec<(&str, u32)> = changes.iter().map(|c| (c.building_type.as_str(), c.building_id)).collect();
    assert_eq!(keys, [("farm", 9), ("mill", 2), ("mill", 5)]);
    assert_eq!(changes[0].from, ["b"]);
    assert_eq!(changes[0].to, ["z"]);
}

#[test]
fn trial_delta_replaces_entries_of_changed_buildings() {
    let buildings = vec![workshop(1, None, "pm_a"), workshop(2, None, "pm_b")];
    let delta = WorldDelta {
        production_methods: vec![ProductionMethodDelta { building_id: 1, methods: vec![s("pm_c")] }],
        ..empty_delta()
    };
    let (d, changed) = trial_delta(delta, &buildings, &vec![s("pm_b")]);
    assert!(changed);
    let entries: Vec<(u32, Vec<String>)> = d.production_methods.iter().map(|e| (e.building_id, e.methods.clone())).collect();
    assert_eq!(entries, vec![(1, vec![s("pm_b")])]);
    let (same, changed) = trial_delta(d, &buildings, &vec![s("pm_b")]);
    assert!(!changed);
    assert_eq!(same.production_methods.len(), 1);
}

#[test]
fn extra_levels_and_methods_from_a_delta() {
    let buildings = vec![
        workshop(1, Some(1), "pm_a"),
        workshop(2, Some(2), "pm_a"),
        PmBuilding { id: 3, state: Some(1), building_type: s("farm"), production_methods: vec![s("pm_f")] },
    ];
    let on_type = extra_levels_on_type(&buildings, "workshop", Some(1), 2);
    assert_eq!(on_type.extra_levels.len(), 1);
    assert_eq!(on_type.extra_levels[0].building_id, Some(1));
    assert_eq!(on_type.extra_levels[0].extra_levels, 2);
    let all = extra_levels_on_type(&buildings, "workshop", None, 1);
    assert_eq!(all.extra_levels.len(), 2);

    let mut delta = on_type;
    delta.extra_levels.push(vic3_analyzer::prices::result::ExtraLevelsDelta {
        building: Some(s("workshop")),
        building_id: None,
        extra_levels: 3,
    });
    delta.extra_levels.push(vic3_analyzer::prices::result::ExtraLevelsDelta {
        building: Some(s("farm")),
        building_id: Some(2),
        extra_levels: 5,
    });
    delta.extra_levels.push(vic3_analyzer::prices::result::ExtraLevelsDelta {
        building: None,
        building_id: None,
        extra_levels: 7,
    });
    delta.production_methods.push(ProductionMethodDelta { building_id: 3, methods: vec![s("pm_g")] });
    delta.production_methods.push(ProductionMethodDelta { building_id: 3, methods: vec![s("pm_h")] });
    let out = apply_delta(&buildings, &delta);
    let added: Vec<u64> = out.iter().map(|c| c.added_levels).collect();
    // Building ids win over types; an entry with neither adds nothing.
    assert_eq!(added, [5, 8, 0]);
    assert!(!out[0].methods_replaced);
    assert_eq!(out[0].production_methods, ["pm_a"]);
    assert!(out[2].methods_replaced);
    assert_eq!(out[2].production_methods, ["pm_h"]);
}
