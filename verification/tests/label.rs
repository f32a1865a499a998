use vic3_analyzer::prices::label::{apply_split_state_demonyms, country_adjective, RegionState};

fn labels(pairs: &[(&str, &str)]) -> Vec<(String, String)> {
    pairs
        .iter()
        .map(|(k, v)| (k.to_string(), v.to_string()))
        .collect()
}

/// `arable` is the state's rank by arable land (missing land ranks as 0).
fn state(id: u32, region: &str, name: &str, country_id: u32, arable: u64) -> RegionState {
    RegionState {
        id,
        region_name: Some(region.into()),
        country_id: Some(country_id),
        arable_rank: arable,
        label: name.into(),
    }
}

fn tags(pairs: &[(u32, &str)]) -> Vec<(u32, String)> {
    pairs.iter().map(|(c, t)| (*c, t.to_string())).collect()
}

#[test]
fn country_adjective_reads_adj_key() {
    let defs = labels(&[("PRU", "Prussia"), ("PRU_ADJ", "Prussian")]);
    assert_eq!(country_adjective(&defs, "PRU").as_deref(), Some("Prussian"));
    assert_eq!(country_adjective(&defs, "FRA"), None);
}

#[test]
fn split_demonym_prefixes_minority_only() {
    let defs = labels(&[
        ("PRU_ADJ", "Prussian"),
        ("FRA_ADJ", "French"),
        ("STATE_RHINE", "Rhineland"),
    ]);
    // Arable land 80, 20 and 5 rank as 3, 2 and 1.
    let mut states = vec![
        state(10, "STATE_RHINE", "Rhineland", 1, 3),
        state(20, "STATE_RHINE", "Rhineland", 2, 2),
        state(30, "STATE_OTHER", "Other", 2, 1),
    ];
    let tags = tags(&[(1, "FRA"), (2, "PRU")]);
    apply_split_state_demonyms(&mut states, &tags, &defs);
    assert_eq!(states[0].label, "Rhineland");
    assert_eq!(states[1].label, "Prussian Rhineland");
    assert_eq!(states[2].label, "Other");
}

#[test]
fn split_demonym_tie_keeps_lowest_id_bare() {
    let defs = labels(&[("PRU_ADJ", "Prussian"), ("FRA_ADJ", "French")]);
    // Both states have 50 arable land.
    let mut states = vec![
        state(20, "STATE_RHINE", "Rhineland", 2, 1),
        state(10, "STATE_RHINE", "Rhineland", 1, 1),
    ];
    let tags = tags(&[(1, "FRA"), (2, "PRU")]);
    apply_split_state_demonyms(&mut states, &tags, &defs);
    assert_eq!(states[0].label, "Prussian Rhineland");
    assert_eq!(states[1].label, "Rhineland");
}

#[test]
fn split_demonym_skips_when_adjective_missing() {
    let defs = labels(&[]);
    let mut states = vec![
        state(1, "STATE_RHINE", "Rhineland", 1, 2),
        state(2, "STATE_RHINE", "Rhineland", 2, 1),
    ];
    let tags = tags(&[(1, "FRA"), (2, "PRU")]);
    apply_split_state_demonyms(&mut states, &tags, &defs);
    assert_eq!(states[0].label, "Rhineland");
    assert_eq!(states[1].label, "Rhineland");
}

#[test]
fn split_demonym_leaves_regionless_and_empty_labels() {
    let defs = labels(&[("PRU_ADJ", "Prussian")]);
    let mut states = vec![
        state(1, "STATE_RHINE", "Rhineland", 1, 5),
        state(2, "STATE_RHINE", "", 2, 1),
        RegionState {
            id: 3,
            region_name: None,
            country_id: Some(2),
            arable_rank: 0,
            label: "Sea".into(),
        },
    ];
    let tags = tags(&[(2, "PRU")]);
    apply_split_state_demonyms(&mut states, &tags, &defs);
    assert_eq!(states[1].label, "");
    assert_eq!(states[2].label, "Sea");
    assert_eq!(states[0].label, "Rhineland");
    assert_eq!(states[2].id, 3);
}
