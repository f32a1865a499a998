use vic3_analyzer::prices::alerts::{is_university_build, plain, AreaBuilding, MitigationAction};
use vic3_analyzer::prices::qualification::{BuildingDef, ChosenLever, LeverDefs, LeverKey};
use vic3_analyzer::prices::staffing_advice::{
    commercial_farm, education_mitigations, pop_shortage_mitigations, qualification_levers, PopGood,
};
use vic3_analyzer::prices::alerts::AlertKind;
use vic3_analyzer::prices::staffing_advice::{
    employment_alert_plans, has_employee_qual_shortage, has_unstaffed_university, shortage_target,
    EmploymentAlertPlan, QualShortRow, StaffedBuilding, StaffingRow,
};
use vic3_analyzer::prices::staffing_advice::{employment_alert_id, employment_alert_text, qualification_pointer, Blocker};

fn s(x: &str) -> String {
    x.to_string()
}

fn lever(key: LeverKey, building: Option<&str>, source: &str) -> ChosenLever {
    ChosenLever {
        key,
        title: format!("title {}", key.as_str()),
        detail: s("detail"),
        building: building.map(s),
        source: s(source),
    }
}

#[test]
fn ladder_mitigations_by_lever_kind() {
    let levers = vec![
        lever(LeverKey::Farm, None, "peasants"),
        lever(LeverKey::Mine, Some("building_iron_mine"), "laborers"),
        lever(LeverKey::Wealth, None, "farmers"),
        lever(LeverKey::University, None, "farmers"),
        lever(LeverKey::AlwaysHire, None, "laborers"),
    ];
    let out = qualification_levers(levers, 4, Some(s("clothes")));
    let ids: Vec<&str> = out.iter().map(|m| m.id.as_str()).collect();
    assert_eq!(
        ids,
        ["ladder:4:farm:0", "ladder:4:mine:1", "ladder:4:wealth:2", "ladder:4:university:3", "ladder:4:always_hire:4"]
    );
    assert_eq!(
        out[0].action,
        Some(MitigationAction::FeederJob {
            building_type_name: s("building_rye_farm"),
            profession: s("peasants"),
            state_id: Some(4)
        })
    );
    assert_eq!(
        out[1].action,
        Some(MitigationAction::FeederJob {
            building_type_name: s("building_iron_mine"),
            profession: s("laborers"),
            state_id: Some(4)
        })
    );
    assert_eq!(
        out[2].action,
        Some(MitigationAction::SolGoods { good_name: s("clothes"), state_id: Some(4) })
    );
    assert_eq!(
        out[3].action,
        Some(MitigationAction::Build {
            building_type_name: s("building_university"),
            state_id: Some(4),
            extra_levels: Some(1)
        })
    );
    assert_eq!(out[4].action, None);
    assert_eq!(out[0].title, "title farm");
    assert!(out.iter().all(|m| m.rank == 0 && !m.apply_ready && m.effect.is_none()));
    let wealth = qualification_levers(vec![lever(LeverKey::Wealth, None, "farmers")], 4, None);
    assert_eq!(
        wealth[0].action,
        Some(MitigationAction::SolGoods { good_name: s("grain"), state_id: Some(4) })
    );
}

#[test]
fn unstaffed_campus_replaces_university_builds() {
    let items = qualification_levers(
        vec![
            lever(LeverKey::University, None, "farmers"),
            lever(LeverKey::Farm, None, "peasants"),
        ],
        2,
        None,
    );
    let out = education_mitigations(items.clone(), true, 2);
    assert_eq!(out.len(), 2);
    assert_eq!(out[0].id, "ladder:2:farm:1");
    assert_eq!(out[1].id, "edu:2:staff-uni");
    assert_eq!(out[1].title, "Staff the university already in this state");
    assert!(!out.iter().any(is_university_build));
    assert_eq!((out[0].rank, out[1].rank), (1, 2));

    let kept = education_mitigations(items.clone(), false, 2);
    assert_eq!(kept.len(), 2);
    assert!(is_university_build(&kept[0]));
    assert_eq!(kept[1].rank, 2);

    let no_uni = education_mitigations(vec![plain(s("a"), s("A"), s("x"))], true, 2);
    assert_eq!(no_uni.len(), 1);
    assert_eq!(no_uni[0].rank, 1);
}

#[test]
fn commercial_farm_skips_subsistence_and_other_states() {
    let defs = LeverDefs {
        buildings: vec![BuildingDef {
            id: s("building_subsistence_farms"),
            group: Some(s("bg_subsistence_agriculture")),
            city_type: Some(s("farm")),
            production_method_groups: Vec::new(),
        }],
        method_groups: Vec::new(),
        method_professions: Vec::new(),
    };
    let buildings = vec![
        AreaBuilding { building_type_name: s("building_subsistence_farms"), state_id: Some(1) },
        AreaBuilding { building_type_name: s("building_wheat_farm"), state_id: Some(2) },
        AreaBuilding { building_type_name: s("building_rye_farm"), state_id: Some(1) },
    ];
    assert_eq!(commercial_farm(&buildings, &defs, Some(1)).as_deref(), Some("building_rye_farm"));
    assert_eq!(commercial_farm(&buildings, &defs, None).as_deref(), Some("building_wheat_farm"));
    assert_eq!(commercial_farm(&buildings, &defs, Some(3)), None);
}

#[test]
fn pop_shortage_advice() {
    let goods = vec![
        PopGood { id: s("grain"), label: s("Grain"), tradeable: true },
        PopGood { id: s("services"), label: s("Services"), tradeable: false },
        PopGood { id: s("wine"), label: s("Wine"), tradeable: true },
    ];
    let out = pop_shortage_mitigations(3, Some(77), &goods, true, Some(s("building_wheat_farm")));
    let ids: Vec<&str> = out.iter().map(|m| m.id.as_str()).collect();
    assert_eq!(
        ids,
        [
            "pops:77:sol:grain",
            "pops:77:import:grain",
            "pops:77:sol:services",
            "pops:77:peasants",
            "pops:77:migration",
            "pops:77:levels",
        ]
    );
    assert_eq!(out[0].title, "Lower the price of Grain");
    assert_eq!(out[1].title, "Import Grain through a trade center");
    assert_eq!(
        out[3].action,
        Some(MitigationAction::FeederJob {
            building_type_name: s("building_wheat_farm"),
            profession: s("farmers"),
            state_id: Some(3)
        })
    );
    let bare = pop_shortage_mitigations(3, None, &Vec::new(), false, None);
    let ids: Vec<&str> = bare.iter().map(|m| m.id.as_str()).collect();
    assert_eq!(ids, ["pops:3:migration", "pops:3:levels"]);
}

#[test]
fn employment_alert_texts() {
    let blocker = Some(Blocker {
        name: s("engineers"),
        label: None,
        pretty: s("Engineers"),
        shortage_text: s("1200"),
    });
    let (t, m) = employment_alert_text("Ruhr", true, &blocker, 1);
    assert_eq!(t, "Ruhr buildings cannot fill Engineers jobs");
    assert_eq!(
        m,
        "Ruhr is short 1200 engineers. 1 building below full staffing. Extra levels add more empty jobs; the qualification shortage for this state has the next steps."
    );
    let (t, m) = employment_alert_text("Ruhr", true, &None, 3);
    assert_eq!(t, "Understaffed buildings in Ruhr");
    assert_eq!(m, "3 buildings in Ruhr are below full staffing because of missing qualifications.");
    let (t, m) = employment_alert_text("Ruhr", false, &None, 2);
    assert_eq!(t, "Not enough people for jobs in Ruhr");
    assert_eq!(
        m,
        "2 buildings in Ruhr have open jobs and enough qualified people. The state is short of workers, not diplomas."
    );
    assert_eq!(employment_alert_id(AlertKind::Underemployed, 12), "underemployed:12");
    assert_eq!(employment_alert_id(AlertKind::UnfilledPops, 3), "unfilled_pops:3");
    let p = qualification_pointer(12, Some("Engineers"), "Ruhr");
    assert_eq!(p.id, "under:12:qual");
    assert_eq!(p.title, "See the Engineers qualification shortage for Ruhr");
    let w = qualification_pointer(12, None, "Ruhr");
    assert_eq!(w.title, "See the workers qualification shortage for Ruhr");
}

fn staffed(state: Option<u32>, ty: &str, understaffed: bool) -> StaffedBuilding {
    StaffedBuilding { state_id: state, building_type_name: s(ty), understaffed }
}

#[test]
fn unstaffed_university_is_found_in_either_list() {
    let solved = vec![staffed(Some(1), "building_University", false), staffed(Some(2), "building_university", true)];
    let world = vec![staffed(Some(3), "building_university", true), staffed(Some(1), "building_textile_mills", true)];
    assert!(!has_unstaffed_university(&solved, &world, 1));
    assert!(has_unstaffed_university(&solved, &world, 2));
    assert!(has_unstaffed_university(&solved, &world, 3));
    assert!(has_unstaffed_university(&Vec::new(), &vec![staffed(Some(4), "building_UNIVERSITY", true)], 4));
    assert!(!has_unstaffed_university(&solved, &world, 5));
}

#[test]
fn employee_qualification_shortage_needs_state_and_short_row() {
    let rows = vec![
        QualShortRow { state_id: 1, name: s("engineers"), short: true },
        QualShortRow { state_id: 1, name: s("machinists"), short: false },
        QualShortRow { state_id: 2, name: s("machinists"), short: true },
    ];
    let staff = vec![s("laborers"), s("engineers")];
    assert!(has_employee_qual_shortage(Some(1), &staff, &rows));
    assert!(!has_employee_qual_shortage(None, &staff, &rows));
    assert!(!has_employee_qual_shortage(Some(2), &staff, &rows));
    assert!(has_employee_qual_shortage(Some(2), &vec![s("machinists")], &rows));
    assert!(!has_employee_qual_shortage(Some(1), &vec![s("machinists")], &rows));
    assert!(!has_employee_qual_shortage(Some(1), &Vec::new(), &rows));
}

#[test]
fn shortage_target_is_first_short_employee_profession() {
    let rows = vec![
        QualShortRow { state_id: 1, name: s("engineers"), short: true },
        QualShortRow { state_id: 1, name: s("clerks"), short: true },
        QualShortRow { state_id: 1, name: s("machinists"), short: false },
    ];
    let staff = vec![s("machinists"), s("clerks"), s("engineers")];
    assert_eq!(shortage_target(Some(1), &staff, &rows), Some(s("clerks")));
    assert_eq!(shortage_target(None, &staff, &rows), None);
    assert_eq!(shortage_target(Some(2), &staff, &rows), None);
    assert_eq!(shortage_target(Some(1), &vec![s("machinists")], &rows), None);
}

fn srow(state: Option<u32>, understaffed: bool, qual_short: bool) -> StaffingRow {
    StaffingRow { state_id: state, understaffed, qual_short }
}

#[test]
fn employment_alert_plans_group_by_state_then_kind() {
    let rows = vec![
        srow(Some(7), true, true),
        srow(Some(3), true, false),
        srow(None, true, false),
        srow(Some(7), true, false),
        srow(Some(3), false, true),
        srow(Some(7), true, true),
        srow(Some(5), true, true),
    ];
    let (plans, migration) = employment_alert_plans(&rows);
    assert!(migration);
    assert_eq!(
        plans,
        vec![
            EmploymentAlertPlan { state_id: 3, kind: AlertKind::UnfilledPops, severity: 1, qual_short: false, buildings: vec![1] },
            EmploymentAlertPlan { state_id: 5, kind: AlertKind::Underemployed, severity: 2, qual_short: true, buildings: vec![6] },
            EmploymentAlertPlan { state_id: 7, kind: AlertKind::UnfilledPops, severity: 1, qual_short: false, buildings: vec![3] },
            EmploymentAlertPlan { state_id: 7, kind: AlertKind::Underemployed, severity: 2, qual_short: true, buildings: vec![0, 5] },
        ]
    );
    let (only_qual, migration) = employment_alert_plans(&vec![srow(Some(1), true, true)]);
    assert_eq!(only_qual.len(), 1);
    assert!(!migration);
    let (none, migration) = employment_alert_plans(&vec![srow(Some(1), false, false), srow(None, true, false)]);
    assert!(none.is_empty());
    assert!(!migration);
}
