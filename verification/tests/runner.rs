use openshell_fractal::cell_runner::{
    conclude_cell, gate_cell, plan_cell, policy_anomalies, CellError,
};
use openshell_fractal::constitution::{assess_cell, compute_structural_hash};
use openshell_fractal::json::Json;
use openshell_fractal::scaffold::{execute_scaffold_as, find_cell, run_id_at, uuid_v7, ScaffoldRun};
use openshell_fractal::schema::{
    CellContract, CellIdentity, CellLineage, CellType, HealthStatus, TypedChannelConfig,
};
use openshell_fractal::{
    execute_cell, execute_scaffold, map_all, validate_cell, CellHealth, CellOutput,
    ClassificationLevel, FractalCell, FractalScaffold,
};

fn cell(name: &str, logic: &str) -> FractalCell {
    let mut cell = FractalCell {
        identity: CellIdentity {
            name: name.into(),
            cell_type: CellType::Reactor,
            version: "1.0.0".into(),
        },
        contract: CellContract { input: Json::Object(vec![]), output: Json::Object(vec![]) },
        channels: vec![TypedChannelConfig {
            name: "r".into(),
            kind: "file".into(),
            scope: Json::Object(vec![(
                "protectedPaths".into(),
                Json::Array(vec![Json::Text("x".into())]),
            )]),
        }],
        logic: logic.into(),
        lineage: CellLineage {
            source: "s".into(),
            trigger: "t".into(),
            justification: "j".into(),
            signature: "g".into(),
        },
        signature: None,
    };
    cell.signature = Some(compute_structural_hash(&cell));
    cell
}

fn output(text: &str) -> CellOutput {
    CellOutput {
        data: Json::Text(text.into()),
        classification: ClassificationLevel::Internal,
        health: CellHealth { status: HealthStatus::Degraded, budget_remaining: 7 },
    }
}

fn text(j: &Json) -> &str {
    j.as_str().unwrap()
}

fn scaffold(order: &[&str], pause: &[&str]) -> FractalScaffold {
    FractalScaffold {
        name: "s".into(),
        cells: vec![cell("a", "return 1;"), cell("b", "return 2;"), cell("a", "return 3;")],
        execution_order: order.iter().map(|s| s.to_string()).collect(),
        pause_after: pause.iter().map(|s| s.to_string()).collect(),
    }
}

const NOT_WIRED: &str = "Sandbox creation via OpenShell runtime is not yet wired. Cells execute via the Fractal npm runtime (Javy Wasm void) by default. Install OpenShell and rebuild for kernel-level sandboxing.";

#[test]
fn admitted_cell_stops_at_the_sandbox() {
    let e = execute_cell(&cell("a", "return 1;"), Json::Null).unwrap_err();
    assert!(matches!(&e, CellError::Other(s) if s == NOT_WIRED));
    assert_eq!(e.message(), NOT_WIRED);
}

#[test]
fn blocked_cell_is_refused() {
    let e = execute_cell(&cell("a", "x;\nglobalThis.eval(1)"), Json::Null).unwrap_err();
    let expected = "Cell 'a' failed constitutional checks: eval\\s*\\( (unknown), globalThis (line 2). Checks passed: 8/10.";
    assert!(matches!(&e, CellError::ConstitutionalViolation(s) if s == expected));
    assert_eq!(e.message(), format!("Constitutional violation: {}", expected));
    let blocked = cell("a", "fetch(1)");
    let r = plan_cell(&blocked, validate_cell(&blocked));
    assert!(matches!(r, Err(CellError::ConstitutionalViolation(_))));
}

#[test]
fn incomplete_cell_is_refused() {
    let mut unsigned = cell("a", "return 1;");
    unsigned.signature = None;
    let e = execute_cell(&unsigned, Json::Null).unwrap_err();
    assert!(matches!(&e, CellError::ConstitutionalViolation(s)
        if s == "Cell 'a' failed constitutional checks: . Checks passed: 9/10."));
}

#[test]
fn warnings_alone_do_not_refuse_a_cell() {
    let noisy = cell("a", "console.log(1); return 1;");
    let check = validate_cell(&noisy);
    assert_eq!(check.checks_passed, 9);
    assert!(gate_cell(&noisy, &check).is_ok());
    let mut unsigned = noisy.clone();
    unsigned.signature = None;
    assert!(gate_cell(&unsigned, &validate_cell(&unsigned)).is_err());
}

fn tagged_cell(input: &str, output: &str) -> FractalCell {
    let mut c = cell("a", "return 1;");
    c.contract.input = Json::Object(vec![("x".into(), Json::Text(input.into()))]);
    c.contract.output = Json::Object(vec![("y".into(), Json::Text(output.into()))]);
    c.signature = Some(compute_structural_hash(&c));
    c
}

#[test]
fn runs_are_concluded() {
    let c = cell("a", "return 1;");
    let check = validate_cell(&c);
    let r = conclude_cell(&c, &check, Ok(output("in"))).unwrap();
    assert_eq!(text(&r.data), "in");
    assert_eq!(r.classification, ClassificationLevel::Internal);
    assert_eq!(r.health, CellHealth { status: HealthStatus::Degraded, budget_remaining: 7 });
    let r = conclude_cell(&c, &check, Err(CellError::Timeout(3)));
    assert!(matches!(r, Err(CellError::Timeout(3))));
}

#[test]
fn outputs_must_dominate_inputs() {
    let c = tagged_cell("string<internal>", "string<pii>");
    assert!(conclude_cell(&c, &validate_cell(&c), Ok(output("in"))).is_ok());
    let c = tagged_cell("string<pii>", "string<pii>");
    let mut check = validate_cell(&c);
    let e = conclude_cell(&c, &check, Ok(output("in"))).unwrap_err();
    assert_eq!(e.message(), "Classification mismatch: output Internal must dominate input Pii");
    check.declassifier_approved = Some(true);
    assert!(conclude_cell(&c, &check, Ok(output("in"))).is_ok());
}

#[test]
fn lowering_a_level_is_refused() {
    let c = tagged_cell("string<secret>", "string<public>");
    let e = execute_cell(&c, Json::Null).unwrap_err();
    assert_eq!(
        e.message(),
        "Constitutional violation: Cell 'a' failed constitutional checks: . Checks passed: 8/10."
    );
    let hash = compute_structural_hash(&c);
    let scan = validate_cell(&c).pattern_scan;
    let refused = assess_cell(&c, hash.clone(), scan.clone(), Some(false));
    assert_eq!(refused.checks_passed, 8);
    assert!(gate_cell(&c, &refused).is_err());
    let approved = assess_cell(&c, hash, scan, Some(true));
    assert_eq!(approved.checks_passed, 9);
    assert!(gate_cell(&c, &approved).is_ok());
    assert!(matches!(execute_cell(&tagged_cell("t<pii>", "t<secret>"), Json::Null),
        Err(CellError::Other(s)) if s == NOT_WIRED));
}

#[test]
fn plans_hold_the_anomalies() {
    let c = cell("a", "return 1;");
    let plan = plan_cell(&c, validate_cell(&c)).unwrap();
    assert_eq!(plan.channels.len(), 1);
    assert_eq!(plan.anomalies.len(), 1);
    assert!(plan.anomalies[0].starts_with("file channel 'r': "));
    assert_eq!(policy_anomalies(&map_all(&c.channels)), plan.anomalies);
}

#[test]
fn errors_have_messages() {
    let mismatch = CellError::ClassificationMismatch {
        input: ClassificationLevel::Pii,
        output: ClassificationLevel::Public,
    };
    assert_eq!(mismatch.message(), "Classification mismatch: output Public must dominate input Pii");
    assert_eq!(CellError::SandboxError("x".into()).message(), "Sandbox error: x");
    assert_eq!(CellError::Timeout(300).message(), "Cell timed out after 300s");
    assert_eq!(CellError::ChannelError("x".into()).message(), "Channel error: x");
    assert_eq!(CellError::Paused("x".into()).message(), "Pipeline paused at checkpoint: x");
    assert_eq!(CellError::Io("denied".into()).message(), "denied");
    assert_eq!(CellError::Other("x".into()).message(), "x");
}

#[test]
fn outputs_are_threaded() {
    let s = scaffold(&["a", "b", "a"], &[]);
    let initial = Json::Text("start".into());
    let mut run = ScaffoldRun::new();
    let (i, input) = run.next_cell(&s, &initial).unwrap();
    // Of two cells with one name, the last one counts.
    assert_eq!(i, 2);
    assert_eq!(text(&input), "start");
    assert!(!run.record(&s, output("one")));
    let (i, input) = run.next_cell(&s, &initial).unwrap();
    assert_eq!((i, text(&input)), (1, "one"));
    assert!(!run.record(&s, output("two")));
    let (i, input) = run.next_cell(&s, &initial).unwrap();
    assert_eq!((i, text(&input)), (2, "two"));
    assert!(!run.record(&s, output("three")));
    let r = run.finish(&s, false, "id".into());
    assert_eq!(text(&r.final_output.data), "three");
    assert_eq!(r.final_output.classification, ClassificationLevel::Internal);
    assert_eq!(r.cells_executed, 3);
    assert_eq!(r.paused_at, None);
    assert_eq!(r.run_id, "id");
}

#[test]
fn pipelines_pause() {
    let s = scaffold(&["a", "b"], &["x", "a"]);
    let mut run = ScaffoldRun::new();
    run.next_cell(&s, &Json::Null).unwrap();
    assert!(run.record(&s, output("one")));
    let r = run.finish(&s, true, "id".into());
    assert_eq!(r.paused_at.as_deref(), Some("a"));
    assert_eq!(r.cells_executed, 1);
    assert_eq!(text(&r.final_output.data), "one");
}

#[test]
fn missing_cells_stop_a_pipeline() {
    let s = scaffold(&["a", "zz"], &[]);
    let mut run = ScaffoldRun::new();
    run.next_cell(&s, &Json::Null).unwrap();
    run.record(&s, output("one"));
    let e = run.next_cell(&s, &Json::Null).unwrap_err();
    assert_eq!(e.message(), "Cell 'zz' in execution order not found in scaffold");
    let e = execute_scaffold(&scaffold(&["zz"], &[]), Json::Null).unwrap_err();
    assert_eq!(e.message(), "Cell 'zz' in execution order not found in scaffold");
    assert_eq!(find_cell(&s.cells, "zz"), None);
}

#[test]
fn scaffolds_stop_at_the_sandbox() {
    let s = scaffold(&["a", "zz"], &[]);
    let e = execute_scaffold_as(&s, Json::Null, "id".into()).unwrap_err();
    assert_eq!(e.message(), NOT_WIRED);
}

#[test]
fn run_identifiers() {
    assert_eq!(run_id_at(0), "0000000000000000-0000");
    assert_eq!(run_id_at(0xFFFF), "000000000000ffff-0000");
    assert_eq!(run_id_at(0x18f_1234_abcd), "0000018f1234abcd-bf90");
    assert_eq!(run_id_at(u64::MAX as u128 + 1), "10000000000000000-0001");
    let times = [0u64, 1, 9, 10, 0xFFFE, 0xFFFF, 0x10000, 0x18f_1234_abcd, u64::MAX - 1, u64::MAX];
    for pair in times.windows(2) {
        assert!(run_id_at(pair[0] as u128) < run_id_at(pair[1] as u128));
    }
    let id = uuid_v7();
    assert_eq!(id.len(), 21);
    assert_eq!(id.as_bytes()[16], b'-');
    assert_ne!(id, run_id_at(0));
}

#[test]
fn banned_texts_are_refused() {
    let texts = [
        "x = eval(y)",
        "a.process.env.B",
        "fetch('https://x')",
        "new XMLHttpRequest()",
        "require(\"fs\")",
        "globalThis",
        "Deno.readFile",
        "new Function('x')",
        "WebAssembly.compile(b)",
        "await import('x')",
    ];
    for logic in texts {
        let c = cell("a", logic);
        assert!(!validate_cell(&c).pattern_scan.passed, "{}", logic);
        let r = execute_cell(&c, Json::Null);
        assert!(matches!(r, Err(CellError::ConstitutionalViolation(_))), "{}", logic);
    }
}
