use openshell_fractal::constitution::{
    assess_cell, compute_structural_hash, find_location, is_lineage_valid, scan_patterns,
    scan_with_hits, structural_preimage,
};
use openshell_fractal::json::Json;
use openshell_fractal::schema::{
    CellContract, CellIdentity, CellLineage, CellType, ClassificationLevel, FractalCell,
    PatternScanResult, TypedChannelConfig, ViolationSeverity,
};
use openshell_fractal::validate_cell;

fn object(key: &str, value: &str) -> Json {
    Json::Object(vec![(key.to_string(), Json::Text(value.to_string()))])
}

fn test_cell(logic: &str) -> FractalCell {
    FractalCell {
        identity: CellIdentity {
            name: "test".into(),
            cell_type: CellType::Transformer,
            version: "1.0.0".into(),
        },
        contract: CellContract {
            input: object("prompt", "string<public>"),
            output: object("result", "string<public>"),
        },
        channels: Vec::new(),
        logic: logic.to_string(),
        lineage: CellLineage {
            source: "test-agent".into(),
            trigger: "unit-test".into(),
            justification: "testing constitutional checks".into(),
            signature: "abc123".into(),
        },
        signature: None,
    }
}

#[test]
fn test_clean_logic_passes() {
    let cell = test_cell("const x = input.prompt;\nreturn { result: x };");
    let check = validate_cell(&cell);
    assert!(check.pattern_scan.passed);
    assert!(check.checks_passed >= 7);
}

#[test]
fn test_eval_blocked() {
    let cell = test_cell("eval('2 + 2');");
    let check = validate_cell(&cell);
    assert!(!check.pattern_scan.passed);
    let blocks: Vec<_> = check
        .pattern_scan
        .violations
        .iter()
        .filter(|v| matches!(v.severity, ViolationSeverity::Block))
        .collect();
    assert!(!blocks.is_empty());
}

#[test]
fn test_fetch_blocked() {
    let cell = test_cell("fetch('https://evil.com');");
    let check = validate_cell(&cell);
    assert!(!check.pattern_scan.passed);
}

#[test]
fn test_process_env_blocked() {
    let cell = test_cell("const token = process.env.SECRET;");
    let check = validate_cell(&cell);
    assert!(!check.pattern_scan.passed);
}

#[test]
fn clean_unsigned_cell_passes_nine_checks() {
    let check = validate_cell(&test_cell("const x = input.prompt;\nreturn { result: x };"));
    assert_eq!(check.checks_passed, 9);
    assert_eq!(check.checks_total, 10);
    assert!(check.classification_valid);
    assert_eq!(check.declassifier_approved, None);
    assert!(check.pattern_scan.violations.is_empty());
}

#[test]
fn signing_a_cell_passes_one_more_check() {
    let mut cell = test_cell("return input;");
    let unsigned = validate_cell(&cell);
    cell.signature = Some(unsigned.structural_hash.clone());
    let signed = validate_cell(&cell);
    assert_eq!(signed.structural_hash, unsigned.structural_hash);
    assert_eq!(signed.checks_passed, unsigned.checks_passed + 1);
    assert_eq!(signed.checks_passed, 10);
    cell.signature = Some("0xdeadbeef".into());
    assert_eq!(validate_cell(&cell).checks_passed, 9);
}

#[test]
fn structural_hash_is_the_digest_of_the_preimage() {
    let cell = test_cell("const x = input.prompt;\nreturn { result: x };");
    let preimage: &[u8] = b"test\0\"transformer\"\x001.0.0\0{\"input\":{\"prompt\":\"string<public>\"},\"output\":{\"result\":\"string<public>\"}}\0const x = input.prompt;\nreturn { result: x };\0{\"source\":\"test-agent\",\"trigger\":\"unit-test\",\"justification\":\"testing constitutional checks\",\"signature\":\"abc123\"}";
    assert_eq!(structural_preimage(&cell), preimage);
    assert_eq!(
        compute_structural_hash(&cell),
        "c294cc1e9a17762e1202ad5523bb2b22be26e9c3c73a4bb44d96ae48043c027b"
    );
}

#[test]
fn structural_hash_covers_identity_contract_logic_and_lineage() {
    let base = compute_structural_hash(&test_cell("return 1;"));
    assert_eq!(base.len(), 64);
    assert!(base.chars().all(|c| c.is_ascii_digit() || ('a'..='f').contains(&c)));
    assert_ne!(base, compute_structural_hash(&test_cell("return 2;")));

    let mut renamed = test_cell("return 1;");
    renamed.identity.name = "other".into();
    assert_ne!(base, compute_structural_hash(&renamed));

    let mut versioned = test_cell("return 1;");
    versioned.identity.version = "1.0.1".into();
    assert_ne!(base, compute_structural_hash(&versioned));

    let mut typed = test_cell("return 1;");
    typed.identity.cell_type = CellType::Keeper;
    assert_ne!(base, compute_structural_hash(&typed));

    let mut contracted = test_cell("return 1;");
    contracted.contract.output = Json::Null;
    assert_ne!(base, compute_structural_hash(&contracted));

    let mut inherited = test_cell("return 1;");
    inherited.lineage.trigger = "manual".into();
    assert_ne!(base, compute_structural_hash(&inherited));

    let mut channelled = test_cell("return 1;");
    channelled.channels.push(TypedChannelConfig {
        name: "c".into(),
        kind: "file".into(),
        scope: Json::Null,
    });
    channelled.signature = Some("x".into());
    assert_eq!(base, compute_structural_hash(&channelled));
}

#[test]
fn key_order_of_a_contract_does_not_matter() {
    let mut a = test_cell("return 1;");
    let mut b = test_cell("return 1;");
    a.contract.input = Json::Object(vec![
        ("x".into(), Json::Bool(true)),
        ("y".into(), Json::Array(vec![Json::Null])),
    ]);
    b.contract.input = Json::Object(vec![
        ("y".into(), Json::Array(vec![Json::Null])),
        ("x".into(), Json::Bool(false)),
        ("x".into(), Json::Bool(true)),
    ]);
    assert_eq!(compute_structural_hash(&a), compute_structural_hash(&b));
}

#[test]
fn warnings_do_not_block() {
    let check = validate_cell(&test_cell("console.log('hi');\nsetTimeout(f, 1);"));
    assert!(check.pattern_scan.passed);
    assert_eq!(check.pattern_scan.violations.len(), 2);
    assert_eq!(check.pattern_scan.violations[0].severity, ViolationSeverity::Warn);
    assert_eq!(check.pattern_scan.violations[0].pattern, "console\\.(log|warn|error|debug)\\s*\\(");
    assert_eq!(check.pattern_scan.violations[1].pattern, "setTimeout|setInterval");
    assert_eq!(check.checks_passed, 8);
}

#[test]
fn every_banned_pattern_is_found() {
    let samples = [
        ("eval (x)", "eval\\s*\\("),
        ("new  Function ('x')", "new\\s+Function\\s*\\("),
        ("process.env", "process\\.env"),
        ("WebAssembly.instantiate", "WebAssembly\\.(compile|instantiate|Module)"),
        ("fetch(x)", "fetch\\s*\\("),
        ("XMLHttpRequest", "XMLHttpRequest"),
        ("require('fs')", "require\\s*\\("),
        ("import('fs')", "import\\s*\\(.*\\)"),
        ("globalThis", "globalThis"),
        ("Deno.x", "Deno\\."),
    ];
    for (logic, pattern) in samples {
        let scan = scan_patterns(logic);
        assert!(!scan.passed, "{}", logic);
        assert_eq!(scan.violations.len(), 1, "{}", logic);
        assert_eq!(scan.violations[0].pattern, pattern);
        assert_eq!(scan.violations[0].severity, ViolationSeverity::Block);
    }
    assert!(scan_patterns("evaluate(x); Denominator; import x from 'y'").passed);
}

#[test]
fn locations_are_lines_that_show_the_pattern() {
    let scan = scan_patterns("let a = 1;\r\nlet b = globalThis;\nXMLHttpRequest");
    assert_eq!(scan.violations.len(), 2);
    assert_eq!(scan.violations[0].pattern, "XMLHttpRequest");
    assert_eq!(scan.violations[0].location, Some("line 3".to_string()));
    assert_eq!(scan.violations[1].location, Some("line 2".to_string()));
    // The pattern is sought as it is written, so one with an escape is not found.
    assert_eq!(scan_patterns("eval(1)").violations[0].location, None);
    assert_eq!(find_location("a\nb\\(", "b\\s*\\("), Some("line 2".to_string()));
    assert_eq!(find_location("a\nb\\s*\\(", "b\\s*\\("), Some("line 2".to_string()));
    assert_eq!(find_location("", "x"), None);
    assert_eq!(find_location("", ""), None);
    assert_eq!(find_location("\n", ""), Some("line 1".to_string()));
    assert_eq!(find_location(&"\n".repeat(11), "q"), None);
    assert_eq!(find_location(&format!("{}q", "\n".repeat(11)), "q"), Some("line 12".to_string()));
    assert_eq!(find_location("x\r\ny", "x\r"), None);
    assert_eq!(find_location("x\r", "x\r"), Some("line 1".to_string()));
}

#[test]
fn scan_with_given_hits() {
    let mut banned = vec![false; 10];
    let mut warned = vec![false; 2];
    assert!(scan_with_hits("", &banned, &warned).passed);
    warned[0] = true;
    let scan = scan_with_hits("", &banned, &warned);
    assert!(scan.passed);
    assert_eq!(scan.violations.len(), 1);
    banned[8] = true;
    let scan = scan_with_hits("\nglobalThis", &banned, &warned);
    assert!(!scan.passed);
    assert_eq!(scan.violations[0].pattern, "globalThis");
    assert_eq!(scan.violations[0].location, Some("line 2".to_string()));
    assert_eq!(scan.violations[1].severity, ViolationSeverity::Warn);
}

#[test]
fn incomplete_cells_fail_their_checks() {
    let mut cell = test_cell(" \t\u{3000}\n");
    cell.identity.version = String::new();
    cell.contract.input = Json::Text("object".into());
    cell.lineage.justification = String::new();
    let scan = PatternScanResult { passed: true, violations: Vec::new() };
    let check = assess_cell(&cell, "h".into(), scan, None);
    assert_eq!(check.checks_passed, 5);
    assert_eq!(check.structural_hash, "h");
    let mut signed = cell.clone();
    signed.signature = Some("h".into());
    let scan = PatternScanResult { passed: false, violations: Vec::new() };
    assert_eq!(assess_cell(&signed, "h".into(), scan, None).checks_passed, 5);
}

#[test]
fn lineage_needs_all_fields() {
    let lineage = test_cell("x").lineage;
    assert!(is_lineage_valid(&lineage));
    assert!(!is_lineage_valid(&CellLineage { source: String::new(), ..lineage.clone() }));
    assert!(!is_lineage_valid(&CellLineage { trigger: String::new(), ..lineage.clone() }));
    assert!(!is_lineage_valid(&CellLineage { justification: String::new(), ..lineage.clone() }));
    assert!(!is_lineage_valid(&CellLineage { signature: String::new(), ..lineage }));
}

#[test]
fn classification_levels_are_ordered() {
    let levels = [
        ClassificationLevel::Public,
        ClassificationLevel::Internal,
        ClassificationLevel::Pii,
        ClassificationLevel::Secret,
    ];
    for (i, a) in levels.iter().enumerate() {
        assert_eq!(a.rank() as usize, i);
        for (j, b) in levels.iter().enumerate() {
            assert_eq!(a.dominates(b), i >= j);
        }
    }
}
