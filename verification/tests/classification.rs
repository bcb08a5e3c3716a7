use openshell_fractal::classification::{highest_level, is_tagged, keeps_taint};
use openshell_fractal::constitution::{compute_structural_hash, scan_patterns};
use openshell_fractal::json::Json;
use openshell_fractal::json_text::parse_json;
use openshell_fractal::schema::{
    CellContract, CellIdentity, CellLineage, CellType, ClassificationLevel, FractalCell,
};
use openshell_fractal::validate_cell;

fn json(text: &str) -> Json {
    parse_json(text).unwrap()
}

#[test]
fn tags_are_found_at_any_depth() {
    let schema = json(r#"{"a": [1, {"b": "string<pii>"}], "c": "string", "<secret>": null}"#);
    assert!(is_tagged(&schema, "<pii>"));
    assert!(!is_tagged(&schema, "<secret>"));
    assert_eq!(highest_level(&schema), Some(ClassificationLevel::Pii));
    assert_eq!(highest_level(&json("\"string<internal>\"")), Some(ClassificationLevel::Internal));
    assert_eq!(highest_level(&json("[\"a<public>\", \"b<secret>\"]")), Some(ClassificationLevel::Secret));
    assert_eq!(highest_level(&json("{\"a\": \"list<string>\", \"b\": true}")), None);
    // Of two entries with one key, the later one counts.
    let twice = Json::Object(vec![
        ("k".into(), Json::Text("t<secret>".into())),
        ("k".into(), Json::Text("t<public>".into())),
    ]);
    assert_eq!(highest_level(&twice), Some(ClassificationLevel::Public));
}

#[test]
fn taint_is_inherited() {
    let levels = ["public", "internal", "pii", "secret"];
    for (i, taken) in levels.iter().enumerate() {
        for (o, given) in levels.iter().enumerate() {
            let input = json(&format!("{{\"x\": \"t<{}>\", \"y\": \"t<public>\"}}", taken));
            let output = json(&format!("{{\"x\": \"t<secret>\", \"y\": \"t<{}>\"}}", given));
            assert_eq!(keeps_taint(&input, &output), o >= i);
        }
    }
    assert!(keeps_taint(&json("{}"), &json("{\"x\": \"t<public>\"}")));
    assert!(keeps_taint(&json("{\"x\": \"t<secret>\"}"), &json("{}")));
}

#[test]
fn declassifying_without_approval_does_not_pass() {
    let mut cell = FractalCell {
        identity: CellIdentity {
            name: "c".into(),
            cell_type: CellType::Transformer,
            version: "1".into(),
        },
        contract: CellContract {
            input: json(r#"{"a": "string<secret>"}"#),
            output: json(r#"{"b": "string<public>"}"#),
        },
        channels: vec![],
        logic: "return 1;".into(),
        lineage: CellLineage {
            source: "s".into(),
            trigger: "t".into(),
            justification: "j".into(),
            signature: "g".into(),
        },
        signature: None,
    };
    cell.signature = Some(compute_structural_hash(&cell));
    let check = validate_cell(&cell);
    assert_eq!((check.checks_passed, check.checks_total), (8, 10));
    assert!(!check.classification_valid);
    assert_eq!(check.declassifier_approved, None);
    cell.contract.output = json(r#"{"b": "string<secret>"}"#);
    cell.signature = Some(compute_structural_hash(&cell));
    let check = validate_cell(&cell);
    assert_eq!(check.checks_passed, 10);
    assert!(check.classification_valid);
}

#[test]
fn text_around_banned_logic_hides_nothing() {
    for logic in ["eval (x)", "import(a + b)", "WebAssembly.Module", "new  Function (", "setTimeout"] {
        let alone = scan_patterns(logic);
        for (before, after) in [("x", "y"), ("// ", "\n"), ("\n\"", "\""), ("^", "$")] {
            let whole = scan_patterns(&format!("{}{}{}", before, logic, after));
            assert!(alone.passed || !whole.passed);
            for v in &alone.violations {
                assert!(whole.violations.iter().any(|w| w.pattern == v.pattern));
            }
        }
    }
}
