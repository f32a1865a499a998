use vic3_analyzer::prices::alerts::AreaBuilding;
use vic3_analyzer::prices::levers::{select_levers, source_list, LeverInputs, SourceRow};
use vic3_analyzer::prices::qualification::{
    BuildingDef, LeverCopy, LeverDefs, LeverKey, ProfessionCopy,
};

fn s(x: &str) -> String {
    x.to_string()
}

fn source(id: &str, rank: u64, present: bool) -> SourceRow {
    SourceRow {
        id: s(id),
        weight_rank: rank,
        present,
    }
}

fn inputs(target: &str, sources: Vec<SourceRow>, abundant: &[&str], peasants: bool) -> LeverInputs {
    LeverInputs {
        target: s(target),
        can_always_hire: false,
        wealth: false,
        literacy: false,
        literate_enough: false,
        sources,
        abundant: abundant.iter().map(|a| s(a)).collect(),
        peasants_present: peasants,
        state_id: 1,
    }
}

fn defaults() -> ProfessionCopy {
    let keys = [
        "farm", "mine", "workshop", "government", "urban", "barracks", "university", "wealth",
        "always_hire",
    ];
    ProfessionCopy {
        levers: keys
            .iter()
            .map(|k| {
                (
                    s(k),
                    LeverCopy {
                        title: format!("{k}: {{target}} from {{source}}"),
                        detail: s("at {building}"),
                    },
                )
            })
            .collect(),
    }
}

fn no_defs() -> LeverDefs {
    LeverDefs {
        buildings: Vec::new(),
        method_groups: Vec::new(),
        method_professions: Vec::new(),
    }
}

fn keys(levers: &[vic3_analyzer::prices::qualification::ChosenLever]) -> Vec<LeverKey> {
    levers.iter().map(|l| l.key).collect()
}

#[test]
fn sources_by_weight_then_id() {
    let rows = vec![
        source("laborers", 1, false),
        source("clerks", 3, false),
        source("soldiers", 2, false),
        source("artisans", 3, true),
    ];
    assert_eq!(source_list(&rows), vec![3, 1, 2, 0]);
    assert!(source_list(&Vec::new()).is_empty());
}

#[test]
fn always_hire_profession_gets_one_lever() {
    let mut inp = inputs("laborers", vec![source("peasants", 1, false)], &["peasants"], true);
    inp.can_always_hire = true;
    let out = select_levers(&inp, &ProfessionCopy { levers: Vec::new() }, &defaults(), &Vec::new(), &no_defs());
    assert_eq!(keys(&out), vec![LeverKey::AlwaysHire]);
    assert_eq!(out[0].title, "always_hire: laborers from laborers");
    assert_eq!(out[0].source, "laborers");
}

#[test]
fn machinist_shortage_in_peasant_state_recommends_farms_and_mines() {
    let mut inp = inputs("machinists", vec![source("laborers", 1, false)], &["peasants"], true);
    inp.literacy = true;
    let out = select_levers(&inp, &ProfessionCopy { levers: Vec::new() }, &defaults(), &Vec::new(), &no_defs());
    assert_eq!(keys(&out), vec![LeverKey::Farm, LeverKey::Mine]);
    assert_eq!(out[0].title, "farm: machinists from laborers");
    assert_eq!(out[0].detail, "at building_rye_farm");
    assert!(out.iter().all(|l| l.key != LeverKey::University && l.key != LeverKey::Workshop));
}

#[test]
fn engineers_with_machinists_get_a_university() {
    let mut inp = inputs("engineers", vec![source("machinists", 1, true)], &["machinists"], false);
    inp.literacy = true;
    inp.literate_enough = true;
    let defs = LeverDefs {
        buildings: vec![BuildingDef {
            id: s("building_university"),
            group: Some(s("bg_education")),
            city_type: None,
            production_method_groups: Vec::new(),
        }],
        method_groups: Vec::new(),
        method_professions: Vec::new(),
    };
    let out = select_levers(&inp, &ProfessionCopy { levers: Vec::new() }, &defaults(), &Vec::new(), &defs);
    assert_eq!(keys(&out), vec![LeverKey::University]);
    assert_eq!(out[0].building.as_deref(), Some("building_university"));
    assert_eq!(out[0].source, "machinists");
    assert!(!out.iter().any(|l| l.key == LeverKey::Farm));
}

#[test]
fn hireable_feeders_first_at_most_three() {
    let sources = vec![
        source("laborers", 1, false),
        source("clerks", 3, false),
        source("soldiers", 2, false),
    ];
    let inp = inputs("aristocrats", sources, &["laborers"], true);
    let out = select_levers(&inp, &ProfessionCopy { levers: Vec::new() }, &defaults(), &Vec::new(), &no_defs());
    // Government (clerks, hireable), Barracks (soldiers, peasants only),
    // Farm and Mine (laborers, hireable): hireable first, three kept.
    assert_eq!(keys(&out), vec![LeverKey::Government, LeverKey::Farm, LeverKey::Mine]);
    assert_eq!(out[0].source, "clerks");
    assert_eq!(out[1].source, "laborers");
}

#[test]
fn unhireable_sources_are_skipped_without_peasants() {
    let sources = vec![source("soldiers", 2, false), source("farmers", 1, true)];
    let mut inp = inputs("aristocrats", sources, &[], false);
    inp.wealth = true;
    inp.literacy = true;
    inp.literate_enough = true;
    let buildings = vec![AreaBuilding {
        building_type_name: s("building_university"),
        state_id: Some(1),
    }];
    let out = select_levers(&inp, &ProfessionCopy { levers: Vec::new() }, &defaults(), &buildings, &no_defs());
    assert_eq!(keys(&out), vec![LeverKey::Wealth, LeverKey::University]);
    assert_eq!(out[0].source, "farmers");
    assert_eq!(out[0].title, "wealth: aristocrats from farmers");
    assert_eq!(out[1].building.as_deref(), Some("building_university"));
}

#[test]
fn feeders_skip_levers_that_employ_the_target() {
    // Workshops employ machinists: no workshop feeder for a machinist shortage.
    let inp = inputs("machinists", vec![source("machinists_apprentice", 1, false)], &["machinists"], true);
    let out = select_levers(&inp, &ProfessionCopy { levers: Vec::new() }, &defaults(), &Vec::new(), &no_defs());
    assert!(out.is_empty());
}
