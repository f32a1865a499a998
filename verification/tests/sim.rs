use std::collections::hash_map::DefaultHasher;
use std::hash::{Hash, Hasher};

use vic3_analyzer::sim::{
    apply_action, below_cap, building_candidates, cap_candidates, BuildingGoods, successors_for_atoms, version, Action, Atom, Event,
    PlanningState, Rel, SimConfig,
};

fn state_at(day: i64) -> PlanningState {
    PlanningState {
        day,
        country: "GER".to_string(),
        techs: Vec::new(),
        queued_tech: None,
        queued_building: None,
        building_level_deltas: Vec::new(),
    }
}

fn fingerprint(state: &PlanningState) -> u64 {
    let mut h = DefaultHasher::new();
    state.hash(&mut h);
    h.finish()
}

fn research_config(days: u16) -> SimConfig {
    SimConfig {
        research_days: days,
        ..SimConfig::default()
    }
}

#[test]
fn version_is_semver() {
    assert!(!version().is_empty());
    let parts: Vec<&str> = version().split('.').collect();
    assert_eq!(parts.len(), 3);
    assert!(parts.iter().all(|p| p.parse::<u32>().is_ok()));
}

#[test]
fn queue_tech_then_wait_reaches_has_tech() {
    // The open atoms of the goal `research(tech=nitroglycerin)`.
    let atoms = vec![Atom::HasTech("nitroglycerin".to_string())];
    let start = state_at(0);

    let decisions = successors_for_atoms(&start, &atoms, research_config(100), None);
    assert_eq!(decisions.len(), 1);
    assert_eq!(decisions[0].days, 0);
    assert!(matches!(
        decisions[0].action,
        Action::QueueTech { ref tech } if tech == "nitroglycerin"
    ));

    let waits = successors_for_atoms(&decisions[0].state, &atoms, research_config(100), None);
    assert_eq!(waits.len(), 1);
    assert_eq!(waits[0].days, 100);
    assert_eq!(waits[0].state.day - start.day, 100);
    assert!(waits[0].state.queued_tech.is_none());
    assert!(waits[0].state.has_tech("nitroglycerin"));
}

#[test]
fn i8_actions_deterministic_and_hash_stable() {
    let state = state_at(7);
    let action = Action::QueueTech {
        tech: "railways".into(),
    };
    let a = apply_action(&state, &action, false).unwrap();
    let b = apply_action(&state.clone(), &action.clone(), false).unwrap();
    assert_eq!(a, b);
    assert_eq!(fingerprint(&a), fingerprint(&b));

    let wait = Action::WaitForEvent {
        event: Event::TechCompleted {
            tech: "railways".into(),
        },
        days: 45,
    };
    let a = apply_action(&a, &wait, false).unwrap();
    let b = apply_action(&b, &wait, false).unwrap();
    assert_eq!(a, b);
    assert_eq!(fingerprint(&a), fingerprint(&b));
}

#[test]
fn default_config_durations() {
    let c = SimConfig::default();
    assert_eq!(c.research_days, 365);
    assert_eq!(c.construction_days, 180);
    assert_eq!(c.max_added_levels_per_type, 10);
}

#[test]
fn apply_advances_clock_by_wait_days() {
    let mut s = state_at(10);
    s.queued_tech = Some("railways".into());
    let wait = Action::WaitForEvent {
        event: Event::TechCompleted {
            tech: "railways".into(),
        },
        days: 30,
    };
    let next = apply_action(&s, &wait, false).unwrap();
    assert_eq!(next.day, 40);
    let queue = apply_action(&state_at(10), &Action::QueueTech { tech: "x".into() }, false).unwrap();
    assert_eq!(queue.day, 10);
}

#[test]
fn apply_rejects_unmet_preconditions() {
    let s = state_at(0);
    // Empty technology, and a building decision without an economy.
    assert!(apply_action(&s, &Action::QueueTech { tech: String::new() }, false).is_none());
    assert!(apply_action(
        &s,
        &Action::QueueBuildingLevel {
            building: "building_farm".into()
        },
        false
    )
    .is_none());
    // Waiting for a technology that is not queued, or for zero days.
    let wait = Action::WaitForEvent {
        event: Event::TechCompleted { tech: "a".into() },
        days: 5,
    };
    assert!(apply_action(&s, &wait, false).is_none());
    let mut q = state_at(0);
    q.queued_tech = Some("a".into());
    let zero = Action::WaitForEvent {
        event: Event::TechCompleted { tech: "a".into() },
        days: 0,
    };
    assert!(apply_action(&q, &zero, false).is_none());
    // A researched technology cannot be queued again.
    let mut r = state_at(0);
    r.techs.push("a".into());
    assert!(apply_action(&r, &Action::QueueTech { tech: "a".into() }, false).is_none());
}

#[test]
fn building_completion_adds_one_level() {
    let mut s = state_at(0);
    s.queued_building = Some("building_farm".into());
    s.building_level_deltas.push(("building_farm".into(), 2));
    let wait = Action::WaitForEvent {
        event: Event::BuildingCompleted {
            building: "building_farm".into(),
        },
        days: 180,
    };
    assert!(apply_action(&s, &wait, false).is_none());
    let next = apply_action(&s, &wait, true).unwrap();
    assert_eq!(next.level_of("building_farm"), 3);
    assert_eq!(next.level_of("building_mine"), 0);
    assert!(next.queued_building.is_none());
    assert_eq!(next.day, 180);
}

#[test]
fn idle_state_has_no_wait_edge() {
    let atoms = vec![Atom::Gdp { rel: Rel::Ge }, Atom::Other];
    let out = successors_for_atoms(&state_at(0), &atoms, SimConfig::default(), None);
    assert!(out.is_empty());
}

#[test]
fn tech_decisions_are_distinct_and_skip_researched() {
    let mut s = state_at(0);
    s.techs.push("b".into());
    let atoms = vec![
        Atom::HasTech("a".into()),
        Atom::HasTech("b".into()),
        Atom::HasTech("a".into()),
        Atom::HasTech("c".into()),
    ];
    let out = successors_for_atoms(&s, &atoms, SimConfig::default(), None);
    let techs: Vec<String> = out
        .iter()
        .map(|e| match &e.action {
            Action::QueueTech { tech } => tech.clone(),
            other => panic!("unexpected {other:?}"),
        })
        .collect();
    assert_eq!(techs, ["a", "c"]);
}

#[test]
fn economy_candidates_become_building_decisions_and_wait() {
    let s = state_at(0);
    let atoms = vec![Atom::GoodPrice {
        good: "wood".into(),
        rel: Rel::Le,
    }];
    let candidates = vec!["building_logging_camp".to_string()];
    let out = successors_for_atoms(&s, &atoms, SimConfig::default(), Some(&candidates));
    assert_eq!(out.len(), 1);
    assert_eq!(out[0].days, 0);
    let next = &out[0].state;
    assert_eq!(next.queued_building.as_deref(), Some("building_logging_camp"));
    let waits = successors_for_atoms(next, &atoms, SimConfig::default(), Some(&candidates));
    assert_eq!(waits.len(), 1);
    assert_eq!(waits[0].days, 180);
    assert_eq!(waits[0].state.level_of("building_logging_camp"), 1);
}

#[test]
fn cap_filters_candidates_in_order() {
    let mut s = state_at(0);
    s.building_level_deltas.push(("a".into(), 10));
    s.building_level_deltas.push(("b".into(), 3));
    assert!(!below_cap(&s, "a", 10));
    assert!(below_cap(&s, "b", 10));
    let c = vec!["b".to_string(), "a".to_string(), "c".to_string()];
    assert_eq!(cap_candidates(&s, &c, 10), ["b", "c"]);
}

fn goods_row(type_id: &str, produces: &[&str], consumes: &[&str]) -> BuildingGoods {
    BuildingGoods {
        type_id: type_id.to_string(),
        produces: produces.iter().map(|s| s.to_string()).collect(),
        consumes: consumes.iter().map(|s| s.to_string()).collect(),
    }
}

#[test]
fn building_candidates_follow_price_direction_and_cap() {
    let mut state = state_at(0);
    state.building_level_deltas.push(("building_iron_mine".to_string(), 2));
    let rows = vec![
        goods_row("building_tooling_workshops", &["tools"], &["iron", "wood"]),
        goods_row("building_iron_mine", &["iron"], &["tools"]),
        goods_row("building_logging_camp", &["wood"], &["tools"]),
        goods_row("building_tooling_workshops", &["tools"], &["iron"]),
    ];
    let lower_tools = vec![Atom::GoodPrice { good: "tools".to_string(), rel: Rel::Le }];
    let out = building_candidates(&state, &lower_tools, &rows, &Vec::new(), 10);
    assert_eq!(out, vec!["building_tooling_workshops".to_string()]);

    let raise_tools = vec![Atom::GoodPrice { good: "tools".to_string(), rel: Rel::Gt }];
    let out = building_candidates(&state, &raise_tools, &rows, &Vec::new(), 10);
    assert_eq!(
        out,
        vec!["building_iron_mine".to_string(), "building_logging_camp".to_string()]
    );
    // The iron mine already has its two allowed added levels.
    let out = building_candidates(&state, &raise_tools, &rows, &Vec::new(), 2);
    assert_eq!(out, vec!["building_logging_camp".to_string()]);

    let either_iron = vec![Atom::GoodPrice { good: "iron".to_string(), rel: Rel::Eq }];
    let out = building_candidates(&state, &either_iron, &rows, &Vec::new(), 10);
    assert_eq!(
        out,
        vec!["building_iron_mine".to_string(), "building_tooling_workshops".to_string()]
    );
}

#[test]
fn building_candidates_add_top_three_gdp_types_under_cap() {
    let mut state = state_at(0);
    state.building_level_deltas.push(("building_b".to_string(), 3));
    let ranked: Vec<String> = ["building_d", "building_b", "building_c", "building_a", "building_e"]
        .iter()
        .map(|s| s.to_string())
        .collect();
    let grow = vec![Atom::Gdp { rel: Rel::Ge }, Atom::Other];
    let out = building_candidates(&state, &grow, &Vec::new(), &ranked, 3);
    assert_eq!(
        out,
        vec!["building_a".to_string(), "building_c".to_string(), "building_d".to_string()]
    );
    let shrink = vec![Atom::Gdp { rel: Rel::Lt }];
    assert!(building_candidates(&state, &shrink, &Vec::new(), &ranked, 3).is_empty());
    let none: Vec<Atom> = Vec::new();
    assert!(building_candidates(&state, &none, &Vec::new(), &ranked, 3).is_empty());
}

#[test]
fn expanding_a_candidate_stays_within_the_cap() {
    let mut state = state_at(0);
    state.building_level_deltas.push(("building_logging_camp".to_string(), 1));
    let rows = vec![goods_row("building_logging_camp", &["wood"], &["tools"])];
    let atoms = vec![Atom::GoodPrice { good: "wood".to_string(), rel: Rel::Lt }];
    let cap = 2;
    let candidates = building_candidates(&state, &atoms, &rows, &Vec::new(), cap);
    assert_eq!(candidates, vec!["building_logging_camp".to_string()]);
    let config = SimConfig::default();
    let edges = successors_for_atoms(&state, &atoms, config, Some(&candidates));
    assert_eq!(edges.len(), 1);
    let queued = &edges[0].state;
    let done = successors_for_atoms(queued, &atoms, config, Some(&candidates));
    assert_eq!(done.len(), 1);
    assert_eq!(done[0].days, config.construction_days);
    let after = &done[0].state;
    assert_eq!(after.level_of("building_logging_camp"), 2);
    assert!(after.level_of("building_logging_camp") <= cap as u32);
    // At the cap, the type is no longer a candidate.
    assert!(building_candidates(after, &atoms, &rows, &Vec::new(), cap).is_empty());
}
