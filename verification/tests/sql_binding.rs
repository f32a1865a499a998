use vic3_analyzer::sql::binding::{
    good_name, projection_includes, projection_needs_json, AlertsCache, GoodLabelRow,
};

#[test]
fn evidence_projection_does_not_need_mitigations() {
    // alerts_schema: evidence=8, mitigations=9
    assert!(projection_includes(Some(&vec![8]), 8));
    assert!(!projection_includes(Some(&vec![8]), 9));
    assert!(projection_includes(Some(&vec![9]), 9));
    assert!(projection_includes(None, 9));
    // Legacy helper still ORs columns — do not use it for mitigations gating.
    assert!(projection_needs_json(Some(&vec![8]), &[8, 9]));
}

#[test]
fn projection_needs_json_is_false_without_overlap() {
    assert!(!projection_needs_json(Some(&vec![1, 2]), &[8, 9]));
    assert!(projection_needs_json(None, &[8, 9]));
    assert!(!projection_needs_json(Some(&vec![]), &[8, 9]));
}

#[test]
fn alerts_cache_keeps_one_entry_per_mode() {
    let mut cache: AlertsCache<Vec<u32>> = AlertsCache::new();
    assert_eq!(cache.cached(true), None);
    assert_eq!(cache.cached(false), None);
    cache.store(true, vec![1, 2]);
    assert_eq!(cache.cached(true), Some(&vec![1, 2]));
    assert_eq!(cache.cached(false), None);
    cache.store(false, vec![3]);
    cache.store(true, vec![4]);
    assert_eq!(cache.cached(true), Some(&vec![4]));
    assert_eq!(cache.cached(false), Some(&vec![3]));
}

#[test]
fn good_name_prefers_definition_label_then_price_row() {
    let labels = vec![("steel".to_string(), "Steel".to_string())];
    let rows = vec![
        GoodLabelRow { good_name: "steel".to_string(), good_label: Some("Row steel".to_string()) },
        GoodLabelRow { good_name: "tools".to_string(), good_label: Some("Tools".to_string()) },
        GoodLabelRow { good_name: "coal".to_string(), good_label: None },
        GoodLabelRow { good_name: "coal".to_string(), good_label: Some("Coal".to_string()) },
    ];
    assert_eq!(good_name(&labels, &rows, "steel"), Some("Steel".to_string()));
    assert_eq!(good_name(&labels, &rows, "tools"), Some("Tools".to_string()));
    assert_eq!(good_name(&labels, &rows, "coal"), None);
    assert_eq!(good_name(&labels, &rows, "wood"), None);
}
