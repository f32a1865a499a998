use vic3_analyzer::sql::filter::{
    between_str, classify_eq_str, classify_eq_u32, classify_range_str, in_str_range,
    Bound, Expr, Operator, Pred, ScalarValue,
};
use vic3_analyzer::text::str_order;
use vic3_analyzer::sql::format::{
    batches_to_rows, csv_cell, csv_escape, rows_to_csv, Batch, Cell, FormatError,
};
use vic3_analyzer::sql::host::{
    latest_cache_hit, route_error, same_entry, save_route, EngineLoadOpts, SaveKey, SaveLocation,
    SaveRoute,
};

fn col(name: &str) -> Box<Expr> {
    Box::new(Expr::Column(name.to_string()))
}

fn lit(v: ScalarValue) -> Box<Expr> {
    Box::new(Expr::Literal(v))
}

fn text(v: &str) -> ScalarValue {
    ScalarValue::Utf8(Some(v.to_string()))
}

fn bin(left: Box<Expr>, op: Operator, right: Box<Expr>) -> Expr {
    Expr::BinaryExpr { left, op, right }
}

const COLS: &[&str] = &["state_id", "good"];

#[test]
fn eq_u32_accepts_either_side_and_integer_widths() {
    let e = bin(col("state_id"), Operator::Eq, lit(ScalarValue::Int64(Some(7))));
    assert_eq!(classify_eq_u32(&e, COLS), Some(("state_id".to_string(), 7)));
    let flipped = bin(lit(ScalarValue::UInt32(Some(9))), Operator::Eq, col("state_id"));
    assert_eq!(classify_eq_u32(&flipped, COLS), Some(("state_id".to_string(), 9)));
    let aliased = bin(
        Box::new(Expr::Alias(col("state_id"))),
        Operator::Eq,
        lit(ScalarValue::Int32(Some(3))),
    );
    assert_eq!(classify_eq_u32(&aliased, COLS), Some(("state_id".to_string(), 3)));
    let negative = bin(col("state_id"), Operator::Eq, lit(ScalarValue::Int64(Some(-1))));
    assert_eq!(classify_eq_u32(&negative, COLS), None);
    let big = bin(col("state_id"), Operator::Eq, lit(ScalarValue::UInt64(Some(1 << 40))));
    assert_eq!(classify_eq_u32(&big, COLS), None);
    let other_col = bin(col("id"), Operator::Eq, lit(ScalarValue::Int64(Some(7))));
    assert_eq!(classify_eq_u32(&other_col, COLS), None);
    let lt = bin(col("state_id"), Operator::Lt, lit(ScalarValue::Int64(Some(7))));
    assert_eq!(classify_eq_u32(&lt, COLS), None);
    let null = bin(col("state_id"), Operator::Eq, lit(ScalarValue::Int64(None)));
    assert_eq!(classify_eq_u32(&null, COLS), None);
}

#[test]
fn eq_str_reads_string_literals() {
    let e = bin(col("good"), Operator::Eq, lit(text("grain")));
    assert_eq!(classify_eq_str(&e, COLS), Some(("good".to_string(), "grain".to_string())));
    let view = bin(lit(ScalarValue::Utf8View(Some("wood".into()))), Operator::Eq, col("good"));
    assert_eq!(classify_eq_str(&view, COLS), Some(("good".to_string(), "wood".to_string())));
    let num = bin(col("good"), Operator::Eq, lit(ScalarValue::Int64(Some(1))));
    assert_eq!(classify_eq_str(&num, COLS), None);
}

#[test]
fn range_str_flips_with_operand_order() {
    let gt = bin(col("good"), Operator::Gt, lit(text("m")));
    assert_eq!(
        classify_range_str(&gt, COLS),
        Some(Pred::RangeStr {
            column: "good".into(),
            low: Some(Bound::Exclusive("m".into())),
            high: None
        })
    );
    let lit_le = bin(lit(text("m")), Operator::LtEq, col("good"));
    assert_eq!(
        classify_range_str(&lit_le, COLS),
        Some(Pred::RangeStr {
            column: "good".into(),
            low: Some(Bound::Inclusive("m".into())),
            high: None
        })
    );
    let lt = bin(col("good"), Operator::Lt, lit(text("m")));
    assert_eq!(
        classify_range_str(&lt, COLS),
        Some(Pred::RangeStr {
            column: "good".into(),
            low: None,
            high: Some(Bound::Exclusive("m".into()))
        })
    );
    let lit_ge = bin(lit(text("m")), Operator::GtEq, col("good"));
    assert_eq!(
        classify_range_str(&lit_ge, COLS),
        Some(Pred::RangeStr {
            column: "good".into(),
            low: None,
            high: Some(Bound::Inclusive("m".into()))
        })
    );
    let eq = bin(col("good"), Operator::Eq, lit(text("m")));
    assert_eq!(classify_range_str(&eq, COLS), None);
}

#[test]
fn between_is_inclusive_and_rejects_negation() {
    let b = Expr::Between {
        expr: col("good"),
        negated: false,
        low: lit(text("a")),
        high: lit(text("f")),
    };
    assert_eq!(
        between_str(&b, COLS),
        Some(Pred::RangeStr {
            column: "good".into(),
            low: Some(Bound::Inclusive("a".into())),
            high: Some(Bound::Inclusive("f".into()))
        })
    );
    let n = Expr::Between {
        expr: col("good"),
        negated: true,
        low: lit(text("a")),
        high: lit(text("f")),
    };
    assert_eq!(between_str(&n, COLS), None);
}

#[test]
fn string_ranges_compare_by_code_point() {
    assert_eq!(str_order("abc", "abd"), -1);
    assert_eq!(str_order("abc", "abc"), 0);
    assert_eq!(str_order("b", "abc"), 1);
    assert_eq!(str_order("ab", "abc"), -1);
    let low = Some(Bound::Inclusive("b".to_string()));
    let high = Some(Bound::Exclusive("d".to_string()));
    assert!(in_str_range("b", &low, &high));
    assert!(in_str_range("cz", &low, &high));
    assert!(!in_str_range("d", &low, &high));
    assert!(!in_str_range("a", &low, &high));
    assert!(in_str_range("anything", &None, &None));
}

#[test]
fn csv_quotes_only_when_needed() {
    assert_eq!(csv_escape("plain"), "plain");
    assert_eq!(csv_escape("a,b"), "\"a,b\"");
    assert_eq!(csv_escape("say \"hi\""), "\"say \"\"hi\"\"\"");
    assert_eq!(csv_escape("line\nbreak"), "\"line\nbreak\"");
    assert_eq!(csv_cell(&Cell::Null), "");
    assert_eq!(csv_cell(&Cell::Bool(true)), "true");
    assert_eq!(csv_cell(&Cell::Bool(false)), "false");
    assert_eq!(csv_cell(&Cell::Number("1.5".into())), "1.5");
    assert_eq!(csv_cell(&Cell::Other("[1,2]".into())), "\"[1,2]\"");
}

#[test]
fn batches_to_json_round_trips_primitives() {
    // Two rows of (state_id, good): (1, "grain") and (2, NULL).
    let batch = Batch {
        column_names: vec!["state_id".into(), "good".into()],
        columns: vec![
            vec![Cell::Number("1".into()), Cell::Number("2".into())],
            vec![Cell::Str("grain".into()), Cell::Null],
        ],
        num_rows: 2,
    };
    let (columns, rows) = batches_to_rows(&vec![batch]).unwrap();
    assert_eq!(rows.len(), 2);
    assert_eq!(columns, ["state_id", "good"]);
    assert_eq!(rows[0][0], Cell::Number("1".into()));
    assert_eq!(rows[0][1], Cell::Str("grain".into()));
    assert_eq!(rows[1][1], Cell::Null);
    assert_eq!(rows_to_csv(&columns, &rows), "state_id,good\n1,grain\n2,\n");
}

#[test]
fn batches_must_share_column_count() {
    let a = Batch {
        column_names: vec!["x".into()],
        columns: vec![vec![Cell::Bool(true)]],
        num_rows: 1,
    };
    let b = Batch {
        column_names: vec!["x".into(), "y".into()],
        columns: vec![vec![], vec![]],
        num_rows: 0,
    };
    assert_eq!(
        batches_to_rows(&vec![a.clone(), b]),
        Err(FormatError::Message(
            "inconsistent RecordBatch schemas in query result".into()
        ))
    );
    let (cols, rows) = batches_to_rows(&Vec::new()).unwrap();
    assert!(cols.is_empty() && rows.is_empty());
    let (_, rows) = batches_to_rows(&vec![a.clone(), a]).unwrap();
    assert_eq!(rows.len(), 2);
}

#[test]
fn use_save_routes_and_errors() {
    assert_eq!(save_route(true, false), SaveRoute::ByName);
    assert_eq!(save_route(false, true), SaveRoute::BySelector);
    assert_eq!(save_route(true, true), SaveRoute::BothGiven);
    assert_eq!(save_route(false, false), SaveRoute::NoneGiven);
    assert_eq!(route_error(SaveRoute::ByName), None);
    assert_eq!(
        route_error(SaveRoute::BothGiven),
        Some("use_save: provide exactly one of name or selector")
    );
    assert_eq!(
        route_error(SaveRoute::NoneGiven),
        Some("use_save: provide name or selector (latest|latest_autosave|latest_named)")
    );
}

#[test]
fn latest_cache_serves_only_the_same_save() {
    let key = SaveKey {
        name: "autosave".into(),
        location: SaveLocation::Local,
        mtime_secs: 100,
        mtime_nanos: 5,
        path: Some("/saves/autosave.v3".into()),
    };
    let mut newer = key.clone();
    newer.mtime_secs = 101;
    let mut cloud = key.clone();
    cloud.location = SaveLocation::SteamCloud;
    assert!(same_entry(&key, &key.clone()));
    assert!(!same_entry(&key, &newer));
    assert!(!same_entry(&key, &cloud));
    assert!(latest_cache_hit(&Some(key.clone()), &key));
    assert!(!latest_cache_hit(&Some(key.clone()), &newer));
    assert!(!latest_cache_hit(&None, &key));
}

#[test]
fn engine_load_options() {
    let o = EngineLoadOpts::new(std::path::PathBuf::from("defs.bin"));
    assert!(o.tokens.is_none());
    assert_eq!(o.solve_opts_json, "{}");
    let t = o.with_tokens(std::path::PathBuf::from("tokens.txt"));
    assert_eq!(t.tokens, Some(std::path::PathBuf::from("tokens.txt")));
    assert_eq!(t.defs_blob, std::path::PathBuf::from("defs.bin"));
}

fn range_of(p: Pred) -> (Option<Bound<String>>, Option<Bound<String>>) {
    match p {
        Pred::RangeStr { low, high, .. } => (low, high),
        other => panic!("not a range: {other:?}"),
    }
}

#[test]
fn range_pushdown_matches_sql_comparison_on_samples() {
    let keys = ["", "a", "b", "ba", "c", "wood", "Wood", "zz"];
    let ops = [Operator::Lt, Operator::LtEq, Operator::Gt, Operator::GtEq];
    for op in ops {
        for flipped in [false, true] {
            let e = if flipped {
                bin(lit(text("b")), op, col("good"))
            } else {
                bin(col("good"), op, lit(text("b")))
            };
            let (low, high) = range_of(classify_range_str(&e, COLS).expect("range"));
            for key in keys {
                // SQL semantics, written with Rust's own string order.
                let (a, b) = if flipped { ("b", key) } else { (key, "b") };
                let holds = match op {
                    Operator::Lt => a < b,
                    Operator::LtEq => a <= b,
                    Operator::Gt => a > b,
                    Operator::GtEq => a >= b,
                    _ => unreachable!(),
                };
                assert_eq!(in_str_range(key, &low, &high), holds, "{key:?} {op:?} flipped={flipped}");
            }
        }
    }
    let between = Expr::Between {
        expr: col("good"),
        negated: false,
        low: lit(text("b")),
        high: lit(text("c")),
    };
    let (low, high) = range_of(between_str(&between, COLS).expect("between"));
    for key in keys {
        assert_eq!(in_str_range(key, &low, &high), ("b" <= key && key <= "c"), "{key:?}");
    }
}

fn read_field(f: &str) -> String {
    if f.len() >= 2 && f.starts_with('"') && f.ends_with('"') {
        f[1..f.len() - 1].replace("\"\"", "\"")
    } else {
        f.to_string()
    }
}

#[test]
fn csv_escape_reads_back_unchanged() {
    for text in ["", "plain", "a,b", "say \"hi\"", "\"", "\"\"", "line\nbreak", "cr\r", "\"quoted\""] {
        assert_eq!(read_field(&csv_escape(text)), text, "{text:?}");
    }
}
