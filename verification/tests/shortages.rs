use vic3_analyzer::prices::shortages::{
    shortage_alert_id, shortage_targets, shortage_title, ShortInputs, ShortTarget,
};

fn s(x: &str) -> String {
    x.to_string()
}

fn inputs(id: u32, state: Option<u32>, goods: &[&str]) -> ShortInputs {
    ShortInputs { id, state_id: state, short_inputs: goods.iter().map(|g| s(g)).collect() }
}

#[test]
fn shortage_targets_merge_market_and_input_shortages() {
    let market = vec![s("wood"), s("electricity"), s("wood")];
    let buildings = vec![
        inputs(10, Some(1), &["iron", "wood"]),
        inputs(11, Some(2), &["iron"]),
        inputs(12, None, &[]),
    ];
    let targets = shortage_targets(&market, &buildings);
    assert_eq!(
        targets,
        vec![
            ShortTarget { good: s("electricity"), building_id: None, state_id: None, from_short_inputs: false },
            ShortTarget { good: s("iron"), building_id: Some(11), state_id: Some(2), from_short_inputs: true },
            ShortTarget { good: s("wood"), building_id: Some(10), state_id: Some(1), from_short_inputs: false },
        ]
    );
    assert!(shortage_targets(&Vec::new(), &Vec::new()).is_empty());
}

#[test]
fn shortage_alert_names() {
    assert_eq!(shortage_alert_id("electricity"), "electricity_shortage:electricity");
    assert_eq!(shortage_alert_id("grain"), "goods_shortage:grain");
    assert_eq!(shortage_alert_id("transportation"), "transportation_shortage:transportation");
    let labels = vec![(s("grain"), s("Grain"))];
    assert_eq!(shortage_title(Some("Fine Grain"), &labels, "grain"), "Fine Grain shortage");
    assert_eq!(shortage_title(None, &labels, "grain"), "Grain shortage");
    assert_eq!(shortage_title(None, &labels, "tools"), "tools shortage");
}
