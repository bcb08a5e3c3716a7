use openshell_fractal::cell_file::{
    cell_from_document, cell_type_named, is_cell_file, parse_cell_from_yaml, parse_cell_type,
    parse_fc_file, require_cells,
};
use openshell_fractal::json::Json;
use openshell_fractal::json_text::{parse_json, to_compact};
use openshell_fractal::schema::CellType;
use openshell_fractal::{validate_cell, MappingResult};

const GREET: &str = r#"
cell:
  identity:
    name: "greet"
    version: "1.2.0"
    type: "REACTOR"
  contract:
    input:
      prompt: "string<public>"
    output: "object"
  channels:
    - name: web
      kind: http
      scope:
        allowedHosts: [a.com]
    - 7
  logic:
    lang: "typescript"
    process: |
      const x = 1;
      return x;
  lineage:
    source: "s"
    trigger: "t"
    justification: "j"
    parent_context_hash: "h"
  signature: "0xabc"
"#;

#[test]
fn whole_cell_is_read() {
    let cell = parse_fc_file(GREET, "g.fc").unwrap();
    assert_eq!(cell.identity.name, "greet");
    assert_eq!(cell.identity.version, "1.2.0");
    assert_eq!(cell.identity.cell_type, CellType::Reactor);
    assert_eq!(to_compact(&cell.contract.input), r#"{"prompt":"string<public>"}"#);
    assert_eq!(cell.contract.output.as_str(), Some("object"));
    assert_eq!(cell.logic, "const x = 1;\nreturn x;\n");
    assert_eq!(cell.channels.len(), 2);
    assert_eq!(cell.channels[0].name, "web");
    assert_eq!(cell.channels[0].kind, "http");
    assert_eq!(to_compact(&cell.channels[0].scope), r#"{"allowedHosts":["a.com"]}"#);
    assert_eq!(cell.channels[1].name, "unnamed");
    assert_eq!(cell.channels[1].kind, "unknown");
    assert_eq!(to_compact(&cell.channels[1].scope), "{}");
    assert_eq!(cell.lineage.source, "s");
    assert_eq!(cell.lineage.trigger, "t");
    assert_eq!(cell.lineage.justification, "j");
    assert_eq!(cell.lineage.signature, "h");
    assert_eq!(cell.signature.as_deref(), Some("0xabc"));
    // The output contract is no object, and the signature does not match.
    assert_eq!(validate_cell(&cell).checks_passed, 8);
    let results = openshell_fractal::map_all(&cell.channels);
    assert!(matches!(&results[0], MappingResult::Mapped(_)));
    assert!(matches!(&results[1], MappingResult::Skipped(_)));
}

#[test]
fn missing_parts_have_defaults() {
    let cell = parse_fc_file("cell: {identity: 1, contract: [], logic: null, channels: x}", "p").unwrap();
    assert_eq!(cell.identity.name, "unnamed");
    assert_eq!(cell.identity.version, "0.1.0");
    assert_eq!(cell.identity.cell_type, CellType::Transformer);
    assert_eq!(to_compact(&cell.contract.input), "{}");
    assert_eq!(to_compact(&cell.contract.output), "{}");
    assert!(cell.channels.is_empty());
    assert_eq!(cell.logic, "");
    assert_eq!(cell.lineage.source, "unknown");
    assert_eq!(cell.lineage.trigger, "manual");
    assert_eq!(cell.lineage.justification, "");
    assert_eq!(cell.lineage.signature, "");
    assert_eq!(cell.signature, None);
}

#[test]
fn identity_contract_and_logic_are_asked_for() {
    let why = |text: &str| parse_fc_file(text, "d/x.fc").unwrap_err();
    assert_eq!(why("cell: {}"), "Invalid cell in d/x.fc: missing identity");
    assert_eq!(why("cell: {identity: {}, logic: {}}"), "Invalid cell in d/x.fc: missing contract");
    assert_eq!(why("cell: {identity: {}, contract: {}}"), "Invalid cell in d/x.fc: missing logic");
    assert_eq!(why("other: 1"), "Missing 'cell:' key in d/x.fc");
    assert_eq!(why("[cell]"), "Missing 'cell:' key in d/x.fc");
    assert!(why("cell: [").starts_with("YAML parse error in d/x.fc: "));
    assert_eq!(
        cell_from_document(Err("boom".into()), "p").unwrap_err(),
        "YAML parse error in p: boom"
    );
    assert_eq!(parse_cell_from_yaml(&Json::Null).unwrap_err(), "missing identity");
}

#[test]
fn cell_types_are_named_in_any_case() {
    assert_eq!(parse_cell_type("Keeper"), CellType::Keeper);
    assert_eq!(parse_cell_type("\u{212a}eeper"), CellType::Keeper);
    assert_eq!(parse_cell_type("CHANNEL"), CellType::Channel);
    assert_eq!(parse_cell_type("reactor"), CellType::Reactor);
    assert_eq!(parse_cell_type("Transformer"), CellType::Transformer);
    assert_eq!(parse_cell_type("else"), CellType::Transformer);
    assert_eq!(cell_type_named("Keeper"), CellType::Transformer);
    for t in [CellType::Transformer, CellType::Reactor, CellType::Keeper, CellType::Channel] {
        assert_eq!(parse_cell_type(t.name()), t);
    }
}

#[test]
fn cell_files_are_told_by_extension() {
    assert!(is_cell_file(Some("fc")));
    assert!(!is_cell_file(Some("FC")));
    assert!(!is_cell_file(Some("")));
    assert!(!is_cell_file(None));
}

#[test]
fn a_directory_must_hold_a_cell() {
    assert_eq!(require_cells(vec![], "dir").unwrap_err(), "No .fc files found in dir");
    let cell = parse_fc_file(GREET, "g.fc").unwrap();
    assert_eq!(require_cells(vec![cell], "dir").unwrap().len(), 1);
}

#[test]
fn json_and_yaml_read_alike() {
    let from_json = parse_json(r#"{"b": [1, -2, 0.5, true, null], "a": {"k": "v"}}"#).unwrap();
    let from_yaml =
        openshell_fractal::json_text::parse_yaml("b: [1, -2, 0.5, true, null]\na: {k: v}\n").unwrap();
    let expected = r#"{"a":{"k":"v"},"b":[1,-2,0.5,true,null]}"#;
    assert_eq!(to_compact(&from_json), expected);
    assert_eq!(to_compact(&from_yaml), expected);
}
