use vic3_analyzer::prices::alerts::AreaBuilding;
use vic3_analyzer::prices::qualification::{
    building_for_lever, can_hire_from, fill_lever, id_has, is_subsistence, lever_matches_building,
    levers_for_source, profession_copy, professions_employed, replace_str, subst, BuildingDef,
    LeverCopy, LeverDefs, LeverKey, ProfessionCopy,
};

fn s(x: &str) -> String {
    x.to_string()
}

fn copy(entries: &[(&str, &str, &str)]) -> ProfessionCopy {
    ProfessionCopy {
        levers: entries
            .iter()
            .map(|(k, t, d)| (s(k), LeverCopy { title: s(t), detail: s(d) }))
            .collect(),
    }
}

fn def(id: &str, group: Option<&str>, city: Option<&str>, groups: &[&str]) -> BuildingDef {
    BuildingDef {
        id: s(id),
        group: group.map(s),
        city_type: city.map(s),
        production_method_groups: groups.iter().map(|g| s(g)).collect(),
    }
}

fn defs() -> LeverDefs {
    LeverDefs {
        buildings: vec![
            def("building_coal_mine", Some("bg_mining"), None, &["pmg_mine"]),
            def("building_rye_farm", Some("bg_agriculture"), Some("farm"), &["pmg_farm"]),
            def("building_subsistence_farms", Some("bg_subsistence_agriculture"), Some("farm"), &["pmg_sub"]),
            def("building_textile_mills", Some("bg_manufacturing"), None, &["pmg_textile", "pmg_owner"]),
            def("building_wheat_plantation", Some("bg_plantations"), Some("farm"), &["pmg_plant"]),
        ],
        method_groups: vec![
            (s("pmg_mine"), vec![s("pm_picks")]),
            (s("pmg_farm"), vec![s("pm_simple_farming")]),
            (s("pmg_sub"), vec![s("pm_subsistence")]),
            (s("pmg_textile"), vec![s("pm_handsewn"), s("pm_sewing_machines")]),
            (s("pmg_owner"), vec![s("pm_merchant_guilds")]),
            (s("pmg_plant"), vec![s("pm_plantation")]),
        ],
        method_professions: vec![
            (s("pm_picks"), vec![s("laborers"), s("machinists")]),
            (s("pm_simple_farming"), vec![s("farmers"), s("laborers")]),
            (s("pm_subsistence"), vec![s("peasants")]),
            (s("pm_handsewn"), vec![s("laborers"), s("shopkeepers")]),
            (s("pm_sewing_machines"), vec![s("machinists"), s("laborers"), s("engineers")]),
            (s("pm_merchant_guilds"), vec![s("shopkeepers")]),
            (s("pm_plantation"), vec![s("laborers")]),
        ],
    }
}

#[test]
fn id_has_ignores_ascii_case() {
    assert!(id_has("pop_type_Machinists", "machinist"));
    assert!(id_has("machinists", "MACHIN"));
    assert!(id_has("x", ""));
    assert!(!id_has("clerks", "clergymen"));
    assert!(!id_has("", "a"));
}

#[test]
fn lever_keys_text() {
    assert_eq!(LeverKey::AlwaysHire.as_str(), "always_hire");
    assert_eq!(LeverKey::Government.fallback_building(), "building_government_administration");
    assert_eq!(LeverKey::Wealth.fallback_building_owned(), "");
    assert_eq!(LeverKey::Workshop.needles(), vec!["workshop", "manufactur"]);
    assert!(LeverKey::Workshop.employs_target("machinists"));
    assert!(!LeverKey::Mine.employs_target("miners"));
    assert!(LeverKey::Farm.employs_target("farmers"));
}

#[test]
fn levers_follow_source_profession() {
    assert_eq!(levers_for_source("laborers"), vec![LeverKey::Farm, LeverKey::Mine]);
    assert_eq!(levers_for_source("peasants"), vec![LeverKey::Farm]);
    assert_eq!(levers_for_source("machinists"), vec![LeverKey::Workshop]);
    assert_eq!(levers_for_source("clerks"), vec![LeverKey::Government]);
    assert_eq!(levers_for_source("clergymen"), vec![LeverKey::Urban]);
    assert_eq!(levers_for_source("officers"), vec![LeverKey::Barracks]);
    assert!(levers_for_source("aristocrats").is_empty());
}

#[test]
fn hiring_from_abundant_professions() {
    let peasants = vec![s("peasants")];
    assert!(can_hire_from(&peasants, "farmers"));
    assert!(!can_hire_from(&peasants, "clerks"));
    let laborers = vec![s("laborers")];
    assert!(can_hire_from(&laborers, "clerks"));
    assert!(can_hire_from(&laborers, "machinists"));
    assert!(!can_hire_from(&laborers, "bureaucrats"));
    assert!(can_hire_from(&vec![s("clerks")], "bureaucrats"));
    assert!(can_hire_from(&vec![s("engineers")], "engineers"));
    assert!(!can_hire_from(&Vec::new(), "engineers"));
}

#[test]
fn placeholders_are_filled() {
    assert_eq!(replace_str("a{x}b{x}", "{x}", "yy"), "ayybyy");
    assert_eq!(replace_str("aaa", "aa", "b"), "ba");
    assert_eq!(
        subst("{target} from {source} at {building}", "engineers", "machinists", "building_university"),
        "engineers from machinists at building_university"
    );
}

#[test]
fn fill_lever_prefers_profession_copy_then_defaults() {
    let own = copy(&[("university", "Teach {target}", "Build {building} for {source}")]);
    let defaults = copy(&[
        ("university", "Default", ""),
        ("farm", "More farms for {source}", "Farms at {building}"),
    ]);
    let c = fill_lever(LeverKey::University, &own, &defaults, "engineers", "machinists", None);
    assert_eq!(c.title, "Teach engineers");
    assert_eq!(c.detail, "Build building_university for machinists");
    assert_eq!(c.building, None);
    assert_eq!(c.source, "machinists");
    let f = fill_lever(
        LeverKey::Farm,
        &own,
        &defaults,
        "engineers",
        "peasants",
        Some(s("building_wheat_farm")),
    );
    assert_eq!(f.title, "More farms for peasants");
    assert_eq!(f.detail, "Farms at building_wheat_farm");
    assert_eq!(f.building.as_deref(), Some("building_wheat_farm"));
    let m = fill_lever(LeverKey::Mine, &own, &defaults, "engineers", "laborers", None);
    assert_eq!(m.title, "mine");
    assert_eq!(m.detail, "");
    assert_eq!(m.key, LeverKey::Mine);
}

#[test]
fn profession_copy_exact_then_substring_then_defaults() {
    let files = vec![
        (s("clerks"), copy(&[("government", "Clerks", "")])),
        (s("engineers"), copy(&[("university", "Engineers", "")])),
    ];
    let defaults = copy(&[("farm", "Defaults", "")]);
    assert_eq!(profession_copy(&files, &defaults, "engineers"), &files[1].1);
    assert_eq!(profession_copy(&files, &defaults, "pop_type_clerks"), &files[0].1);
    assert_eq!(profession_copy(&files, &defaults, "aristocrats"), &defaults);
}

#[test]
fn subsistence_by_id_or_group() {
    let d = defs();
    assert!(is_subsistence("building_subsistence_farms", &d));
    assert!(is_subsistence("building_Subsistence_orchards", &d));
    assert!(!is_subsistence("building_rye_farm", &d));
    assert!(!is_subsistence("building_unknown", &d));
    let mut g = defs();
    g.buildings.push(def("building_hunting_camp", Some("bg_subsistence_hunting"), None, &[]));
    assert!(is_subsistence("building_hunting_camp", &g));
}

#[test]
fn professions_employed_sorted_and_unique() {
    let d = defs();
    assert_eq!(
        professions_employed(&d, "building_textile_mills"),
        vec![s("engineers"), s("laborers"), s("machinists"), s("shopkeepers")]
    );
    assert_eq!(professions_employed(&d, "building_coal_mine"), vec![s("laborers"), s("machinists")]);
    assert!(professions_employed(&d, "building_unknown").is_empty());
}

#[test]
fn lever_buildings_by_needle_city_type_or_employment() {
    let d = defs();
    // By needle, subsistence farms excepted for the farm lever.
    assert!(lever_matches_building(LeverKey::Farm, "building_rye_farm", &d));
    assert!(!lever_matches_building(LeverKey::Farm, "building_subsistence_farms", &d));
    assert!(lever_matches_building(LeverKey::Mine, "building_coal_mine", &d));
    // A plantation is a farm by city type.
    assert!(lever_matches_building(LeverKey::Farm, "building_wheat_plantation", &d));
    // Textile mills employ machinists and shopkeepers, whom the workshop and
    // urban levers' own buildings employ too, and laborers (mine lever).
    assert!(!lever_matches_building(LeverKey::Workshop, "building_textile_mills", &d));
    assert!(!lever_matches_building(LeverKey::Urban, "building_textile_mills", &d));
    assert!(lever_matches_building(LeverKey::Mine, "building_textile_mills", &d));
    assert!(!lever_matches_building(LeverKey::University, "building_textile_mills", &d));
    assert!(!lever_matches_building(LeverKey::Government, "building_unknown", &d));
}

#[test]
fn lever_building_prefers_state_then_definitions() {
    let d = defs();
    let solved = vec![
        AreaBuilding { building_type_name: s("building_coal_mine"), state_id: Some(2) },
        AreaBuilding { building_type_name: s("building_subsistence_farms"), state_id: Some(1) },
        AreaBuilding { building_type_name: s("building_wheat_plantation"), state_id: Some(1) },
    ];
    assert_eq!(
        building_for_lever(&solved, &d, 1, LeverKey::Farm).as_deref(),
        Some("building_wheat_plantation")
    );
    assert_eq!(
        building_for_lever(&solved, &d, 2, LeverKey::Farm).as_deref(),
        Some("building_coal_mine")
    );
    assert_eq!(
        building_for_lever(&solved, &d, 3, LeverKey::Farm).as_deref(),
        Some("building_coal_mine")
    );
    assert_eq!(building_for_lever(&solved, &d, 1, LeverKey::Barracks), None);
}
