use openshell_fractal::constitution::compute_structural_hash;
use openshell_fractal::json::Json;
use openshell_fractal::json_text::to_compact;
use openshell_fractal::report::{
    format_channel_results, parse_input, report_cell, report_scaffold, report_validation, run_cell,
    run_scaffold, scaffold_from_cells, skip_notes, summarize, validate_cells, write_summary_json,
    CommandOutput, OutputLine, PolicyEntry,
};
use openshell_fractal::schema::{CellContract, CellIdentity, CellLineage, CellType};
use openshell_fractal::{map_all, validate_cell, FractalCell, TypedChannelConfig};

fn channel(name: &str, kind: &str) -> TypedChannelConfig {
    TypedChannelConfig { name: name.into(), kind: kind.into(), scope: Json::Object(vec![]) }
}

fn cell(name: &str, logic: &str) -> FractalCell {
    FractalCell {
        identity: CellIdentity {
            name: name.into(),
            cell_type: CellType::Keeper,
            version: "2.0".into(),
        },
        contract: CellContract { input: Json::Object(vec![]), output: Json::Object(vec![]) },
        channels: vec![channel("f", "file"), channel("m", "mistral"), channel("p", "postgres")],
        logic: logic.into(),
        lineage: CellLineage {
            source: "s".into(),
            trigger: "t".into(),
            justification: "j".into(),
            signature: "g".into(),
        },
        signature: None,
    }
}

/// The lines of an output, those on standard error after a `!`.
fn shown(output: &CommandOutput) -> Vec<String> {
    output
        .lines
        .iter()
        .map(|l| match l {
            OutputLine::Stdout(s) => s.clone(),
            OutputLine::Stderr(s) => format!("!{}", s),
        })
        .collect()
}

const BAD: &str = "console.log(Deno.x);\nglobalThis;";

#[test]
fn input_is_read() {
    assert_eq!(to_compact(&parse_input("{\"x\": 1}").unwrap()), "{\"x\":1}");
    let message = parse_input("{x").unwrap_err();
    assert!(message.starts_with("Invalid JSON input: key must be a string"));
}

#[test]
fn clean_cell_is_reported() {
    let r = run_cell(&cell("c", "return 1;"));
    assert!(r.success);
    assert_eq!(
        shown(&r),
        [
            "Cell: c v2.0",
            "Type: Keeper",
            "Constitution: 9/10 checks passed",
            "  Channel: f → 0 network policies, 1 fs policies",
            "  Channel: m → 1 network policies, 0 fs policies",
            "  Channel: p (skipped: read-only via SQL inspection is unsound — use a Postgres read-only role)",
            "✓ Cell validated. Run with `openshell sandbox create` to execute.",
        ]
    );
}

#[test]
fn blocked_cell_is_reported() {
    let c = cell("c", BAD);
    let r = run_cell(&c);
    assert!(!r.success);
    assert_eq!(
        shown(&r),
        [
            "Cell: c v2.0",
            "Type: Keeper",
            "Constitution: 6/10 checks passed",
            "!❌ Pattern scan FAILED:",
            "!  - globalThis (Block)",
            "!  - Deno\\. (Block)",
            "!  - console\\.(log|warn|error|debug)\\s*\\( (Warn)",
        ]
    );
    let again = report_cell(&c, &validate_cell(&c), &vec![]);
    assert_eq!(shown(&again), shown(&r));
}

#[test]
fn scaffold_is_reported() {
    let cells = vec![cell("a", "return 1;"), cell("b", BAD)];
    let s = scaffold_from_cells(Some("dir".into()), cells, vec!["a".into()]);
    assert_eq!(s.execution_order, ["a", "b"]);
    assert_eq!(s.pause_after, ["a"]);
    let r = run_scaffold(&s);
    assert!(!r.success);
    assert_eq!(
        shown(&r),
        [
            "Scaffold: dir (2 cells)",
            "  1. a",
            "  2. b",
            "  ✓ a (9/10)",
            "!❌ b: pattern scan FAILED",
        ]
    );
    let s = scaffold_from_cells(None, vec![cell("a", "return 1;")], vec![]);
    let r = report_scaffold(&s, &vec![validate_cell(&s.cells[0])]);
    assert!(r.success);
    assert_eq!(
        shown(&r),
        [
            "Scaffold: unnamed (1 cells)",
            "  1. a",
            "  ✓ a (9/10)",
            "✓ All cells validated. Run with `openshell sandbox create` to execute.",
        ]
    );
}

#[test]
fn validation_as_text() {
    let cells = vec![cell("a", "return 1;"), cell("b", BAD)];
    let summary = validate_cells(&cells);
    assert_eq!(summary.cells_validated, 2);
    assert_eq!((summary.checks_total, summary.checks_passed), (20, 15));
    let r = report_validation(&summary, "text");
    assert!(!r.success);
    assert_eq!(
        shown(&r),
        [
            "Cells validated: 2",
            "Checks: 15/20 passed",
            "!❌ 1 cells failed:",
            "!  b: 6/10 checks passed",
            "!    - globalThis (Block)",
            "!    - Deno\\. (Block)",
            "!    - console\\.(log|warn|error|debug)\\s*\\( (Warn)",
        ]
    );
    let clean = validate_cells(&vec![cell("a", "return 1;")]);
    let r = report_validation(&clean, "anything");
    assert!(r.success);
    assert_eq!(
        shown(&r),
        [
            "Cells validated: 1",
            "Checks: 9/10 passed",
            "✓ All cells pass constitutional validation.",
        ]
    );
}

#[test]
fn validation_in_quiet() {
    let bad = validate_cells(&vec![cell("b", BAD)]);
    let r = report_validation(&bad, "quiet");
    assert!(!r.success && r.lines.is_empty());
    let good = validate_cells(&vec![]);
    let r = report_validation(&good, "quiet");
    assert!(r.success && r.lines.is_empty());
}

#[test]
fn validation_as_json() {
    let c = cell("b", BAD);
    let hash = compute_structural_hash(&c);
    let summary = summarize(&vec![c.clone()], vec![validate_cell(&c)]);
    let expected = format!(
        "{{\"cells_validated\":1,\"checks_passed\":6,\"checks_total\":10,\"failures\":[{{\"cell\":\"b\",\"structural_hash\":\"{}\",\"violations\":[{{\"location\":\"line 2\",\"pattern\":\"globalThis\",\"severity\":\"Block\"}},{{\"location\":null,\"pattern\":\"Deno\\\\.\",\"severity\":\"Block\"}},{{\"location\":null,\"pattern\":\"console\\\\.(log|warn|error|debug)\\\\s*\\\\(\",\"severity\":\"Warn\"}}]}}]}}",
        hash
    );
    assert_eq!(to_compact(&write_summary_json(&summary)), expected);
    // A report in JSON succeeds even where a cell fails.
    let r = report_validation(&summary, "json");
    assert!(r.success);
    let empty = report_validation(&validate_cells(&vec![]), "json");
    assert_eq!(
        shown(&empty),
        ["{\n  \"cells_validated\": 0,\n  \"checks_passed\": 0,\n  \"checks_total\": 0,\n  \"failures\": []\n}"]
    );
}

#[test]
fn any_number_of_cells_is_summed_up() {
    let cells: Vec<_> = (0..300).map(|_| cell("a", "return 1;")).collect();
    let summary = validate_cells(&cells);
    assert_eq!(summary.cells_validated, 300);
    assert_eq!((summary.checks_total, summary.checks_passed), (3000, 2700));
    let r = report_validation(&summary, "text");
    assert_eq!(shown(&r)[1], "Checks: 2700/3000 passed");
    let expected =
        "{\"cells_validated\":300,\"checks_passed\":2700,\"checks_total\":3000,\"failures\":[]}";
    assert_eq!(to_compact(&write_summary_json(&summary)), expected);
}

#[test]
fn channel_policies_are_listed() {
    let results = map_all(&cell("c", "").channels);
    let report = format_channel_results("c", &results);
    assert_eq!(report.fractal_cell, "c");
    assert_eq!(report.policies.len(), 3);
    assert!(matches!(&report.policies[0], PolicyEntry::Filesystem(p) if p.read_write.is_some()));
    assert!(matches!(&report.policies[1], PolicyEntry::Network(p) if p.name == "fractal_mistral_m"));
    assert!(matches!(&report.policies[2], PolicyEntry::Skipped { key, note }
        if key == "_skipped_p" && note == "postgres channel: read-only via SQL inspection is unsound — use a Postgres read-only role"));
    assert_eq!(
        skip_notes(&results),
        ["Note: p (postgres): read-only via SQL inspection is unsound — use a Postgres read-only role"]
    );
}
