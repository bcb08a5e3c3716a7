//! What holds of cells: how they are read, scanned, checked, admitted and run.

use crate::cell_file::{cell_of, cell_reading, cell_type_of, file_cell};
use crate::cell_runner::{
    admitted, approved, cell_outcome, concluded, outcome, outcome_view, plan_of, refusal,
    sandbox_view, CellError, CellPlan, ErrorView,
};
use crate::channel_mapper::{mapping, MappingView};
use crate::classification::{covers, has_level, highest, inherits_taint, tagged};
use crate::constitution::{
    banned_patterns, banned_texts, check, check_of, checks, contract_json, count_passed, line_shows, lineage_json,
    location, pattern_hits, preimage, scan, scan_of, shows_banned_text, structural_hash,
    violations_of, warning_patterns,
};
use crate::json::JsonView;
use crate::json_text::compact_json;
use crate::laws::{gives_output, threaded_input};
use crate::outside::{hex_text, lower, regex_match, sha256, within};
use crate::sandbox::{lemma_sandbox_is_not_wired, sandbox_run};
use crate::scaffold::{
    advance, cell_at, lemma_cell_at, next_input, pipeline, result_of, run_id, scaffold_view, start,
    ResultView, RunView, ScaffoldResult,
};
use crate::schema::{
    CellOutput, CellType, CellView, CheckView, ClassificationLevel, ConstitutionalCheck, FractalCell,
    FractalScaffold, OutputView, PatternScanResult, PatternViolation, ScaffoldView, ScanView, TypedChannelConfig, ViolationSeverity, ViolationView,
};
use crate::text::{blank, decimal, has_part, joined, padded_hex, replaced};
use vstd::prelude::*;
use vstd::utf8::encode_utf8;

verus! {

// Cell files.

/// A cell is refused for the first of identity, contract and logic that its node does not have.
pub proof fn law_first_missing_part_is_named(node: JsonView)
    ensures
        node.field("identity"@) is None ==> cell_of(node) == Err::<CellView, Seq<char>>(
            "missing identity"@,
        ),
        node.field("identity"@) is Some && node.field("contract"@) is None ==> cell_of(node) == Err::<
            CellView,
            Seq<char>,
        >("missing contract"@),
        node.field("identity"@) is Some && node.field("contract"@) is Some && node.field(
            "logic"@,
        ) is None ==> cell_of(node) == Err::<CellView, Seq<char>>("missing logic"@),
{
}

/// Tells whether a text of a cell is the one that its node gives under a key, or else a default.
pub open spec fn is_given(s: Seq<char>, node: JsonView, key: Seq<char>, default: Seq<char>) -> bool {
    match node.text_field(key) {
        Some(given) => s == given,
        None => s == default,
    }
}

/// Tells whether a value of a cell is the one that its node gives under a key, whatever its kind, or else
/// an empty object.
pub open spec fn is_given_value(v: JsonView, node: JsonView, key: Seq<char>) -> bool {
    match node.field(key) {
        Some(given) => v == given,
        None => v == JsonView::Object(Map::empty()),
    }
}

/// What a node gives of a cell is kept as given; only what it does not give has a default.
pub proof fn law_given_parts_are_kept(node: JsonView)
    ensures
        cell_of(node) matches Ok(cell) ==> {
            let identity = node.field("identity"@)->0;
            let contract = node.field("contract"@)->0;
            let logic = node.field("logic"@)->0;
            let lineage = match node.field("lineage"@) {
                Some(given) => given,
                None => JsonView::Null,
            };
            &&& is_given(cell.identity.name, identity, "name"@, "unnamed"@)
            &&& is_given(cell.identity.version, identity, "version"@, "0.1.0"@)
            &&& is_given_value(cell.contract.input, contract, "input"@)
            &&& is_given_value(cell.contract.output, contract, "output"@)
            &&& is_given(cell.logic, logic, "process"@, ""@)
            &&& is_given(cell.lineage.source, lineage, "source"@, "unknown"@)
            &&& is_given(cell.lineage.trigger, lineage, "trigger"@, "manual"@)
            &&& is_given(cell.lineage.justification, lineage, "justification"@, ""@)
            &&& is_given(cell.lineage.signature, lineage, "parent_context_hash"@, ""@)
            &&& cell.signature == node.text_field("signature"@)
        },
{
}

/// The type of a cell is the one that its identity names in any case. Where it names none of the others,
/// it is a transformer.
pub proof fn law_given_type_is_kept(node: JsonView)
    ensures
        cell_of(node) matches Ok(cell) ==> match node.field("identity"@)->0.text_field("type"@) {
            None => cell.identity.cell_type == CellType::Transformer,
            Some(s) => cell.identity.cell_type == cell_type_of(lower(s)) && {
                &&& lower(s) == "reactor"@ ==> cell.identity.cell_type == CellType::Reactor
                &&& lower(s) == "keeper"@ ==> cell.identity.cell_type == CellType::Keeper
                &&& lower(s) == "channel"@ ==> cell.identity.cell_type == CellType::Channel
                &&& lower(s) != "reactor"@ && lower(s) != "keeper"@ && lower(s) != "channel"@
                    ==> cell.identity.cell_type == CellType::Transformer
            },
        },
{
    reveal_strlit("reactor");
    reveal_strlit("keeper");
    reveal_strlit("channel");
    assert("reactor"@[0] == 'r' && "keeper"@[0] == 'k' && "channel"@[0] == 'c');
}

/// The channels of a cell are the items of the array that its node gives, one for one and in order, each
/// with its name, kind and scope as given.
pub proof fn law_given_channels_are_kept(node: JsonView, i: int)
    ensures
        cell_of(node) matches Ok(cell) ==> match node.field("channels"@) {
            Some(JsonView::Array(items)) => {
                &&& cell.channels.len() == items.len()
                &&& 0 <= i < items.len() ==> {
                    &&& is_given(cell.channels[i].name, items[i], "name"@, "unnamed"@)
                    &&& is_given(cell.channels[i].kind, items[i], "kind"@, "unknown"@)
                    &&& is_given_value(cell.channels[i].scope, items[i], "scope"@)
                }
            },
            _ => cell.channels.len() == 0,
        },
{
}

/// A file gives the cell under the key `cell` of its document. What is wrong with it is said with the path
/// of the file.
pub proof fn law_files_give_their_cell(
    document: Result<JsonView, Seq<char>>,
    path: Seq<char>,
    r: Result<FractalCell, String>,
)
    ensures
        match document {
            Err(e) => file_cell(document, path) == Err::<CellView, Seq<char>>(
                "YAML parse error in "@ + path + ": "@ + e,
            ),
            Ok(root) => match root.field("cell"@) {
                None => file_cell(document, path) == Err::<CellView, Seq<char>>(
                    "Missing 'cell:' key in "@ + path,
                ),
                Some(node) => match cell_of(node) {
                    Err(e) => file_cell(document, path) == Err::<CellView, Seq<char>>(
                        "Invalid cell in "@ + path + ": "@ + e,
                    ),
                    Ok(cell) => file_cell(document, path) == Ok::<CellView, Seq<char>>(cell),
                },
            },
        },
        match r {
            Ok(cell) => cell_reading(r) == Ok::<CellView, Seq<char>>(cell@),
            Err(e) => cell_reading(r) == Err::<CellView, Seq<char>>(e@),
        },
{
}

// Pattern scans.

/// The place of a pattern among those that are scanned for: the banned ones come first, then the warnings.
pub open spec fn place(p: Seq<char>) -> int {
    if p == "eval\\s*\\("@ {
        0
    } else if p == "new\\s+Function\\s*\\("@ {
        1
    } else if p == "process\\.env"@ {
        2
    } else if p == "WebAssembly\\.(compile|instantiate|Module)"@ {
        3
    } else if p == "fetch\\s*\\("@ {
        4
    } else if p == "XMLHttpRequest"@ {
        5
    } else if p == "require\\s*\\("@ {
        6
    } else if p == "import\\s*\\(.*\\)"@ {
        7
    } else if p == "globalThis"@ {
        8
    } else if p == "Deno\\."@ {
        9
    } else if p == "console\\.(log|warn|error|debug)\\s*\\("@ {
        10
    } else if p == "setTimeout|setInterval"@ {
        11
    } else {
        -1
    }
}

proof fn lemma_places()
    ensures
        banned_patterns().len() == 10,
        warning_patterns().len() == 2,
        forall|i: int| 0 <= i < 10 ==> place(#[trigger] banned_patterns()[i]) == i,
        forall|i: int| 0 <= i < 2 ==> place(#[trigger] warning_patterns()[i]) == 10 + i,
        forall|p: Seq<char>|
            0 <= #[trigger] place(p) < 10 ==> p == banned_patterns()[place(p)],
        forall|p: Seq<char>|
            10 <= #[trigger] place(p) < 12 ==> p == warning_patterns()[place(p) - 10],
        forall|p: Seq<char>| -1 <= #[trigger] place(p) < 12,
{
    reveal_strlit("eval\\s*\\(");
    reveal_strlit("new\\s+Function\\s*\\(");
    reveal_strlit("process\\.env");
    reveal_strlit("WebAssembly\\.(compile|instantiate|Module)");
    reveal_strlit("fetch\\s*\\(");
    reveal_strlit("XMLHttpRequest");
    reveal_strlit("require\\s*\\(");
    reveal_strlit("import\\s*\\(.*\\)");
    reveal_strlit("globalThis");
    reveal_strlit("Deno\\.");
    reveal_strlit("console\\.(log|warn|error|debug)\\s*\\(");
    reveal_strlit("setTimeout|setInterval");
    assert("eval\\s*\\("@[0] == 'e' && "new\\s+Function\\s*\\("@[0] == 'n');
    assert("process\\.env"@[0] == 'p' && "WebAssembly\\.(compile|instantiate|Module)"@[0] == 'W');
    assert("fetch\\s*\\("@[0] == 'f' && "XMLHttpRequest"@[0] == 'X' && "require\\s*\\("@[0] == 'r');
    assert("import\\s*\\(.*\\)"@[0] == 'i' && "globalThis"@[0] == 'g' && "Deno\\."@[0] == 'D');
    assert("console\\.(log|warn|error|debug)\\s*\\("@[0] == 'c');
    assert("setTimeout|setInterval"@[0] == 's');
    let (b, w) = (banned_patterns(), warning_patterns());
    assert(place(b[0]) == 0 && place(b[1]) == 1 && place(b[2]) == 2 && place(b[3]) == 3);
    assert(place(b[4]) == 4 && place(b[5]) == 5 && place(b[6]) == 6 && place(b[7]) == 7);
    assert(place(b[8]) == 8 && place(b[9]) == 9 && place(w[0]) == 10 && place(w[1]) == 11);
}

/// Tells whether a list of violations reports a pattern.
pub open spec fn is_reported(violations: Seq<ViolationView>, p: Seq<char>) -> bool {
    exists|k: int| 0 <= k < violations.len() && (#[trigger] violations[k]).pattern == p
}

proof fn lemma_reported_of(
    patterns: Seq<Seq<char>>,
    hits: Seq<bool>,
    logic: Seq<char>,
    severity: ViolationSeverity,
    from: int,
)
    requires
        patterns.len() == hits.len(),
        forall|i: int| 0 <= i < patterns.len() ==> place(#[trigger] patterns[i]) == from + i,
    ensures
        ({
            let list = violations_of(patterns, hits, logic, severity);
            &&& forall|k: int|
                0 <= k < list.len() ==> {
                    let v = #[trigger] list[k];
                    &&& from <= place(v.pattern) < from + patterns.len()
                    &&& hits[place(v.pattern) - from]
                    &&& v.severity == severity
                    &&& v.location == location(logic, v.pattern)
                }
            &&& forall|k: int, l: int|
                0 <= k < l < list.len() ==> place((#[trigger] list[k]).pattern) < place(
                    (#[trigger] list[l]).pattern,
                )
            &&& forall|i: int|
                0 <= i < hits.len() && #[trigger] hits[i] ==> is_reported(list, patterns[i])
        }),
    decreases patterns.len(),
{
    if patterns.len() > 0 {
        let (p, h) = (patterns.drop_last(), hits.drop_last());
        assert forall|i: int| 0 <= i < p.len() implies place(#[trigger] p[i]) == from + i by {
            assert(p[i] == patterns[i]);
        }
        lemma_reported_of(p, h, logic, severity, from);
        let earlier = violations_of(p, h, logic, severity);
        let list = violations_of(patterns, hits, logic, severity);
        assert(place(patterns[patterns.len() - 1]) == from + patterns.len() - 1);
        assert forall|k: int| 0 <= k < list.len() implies {
            let v = #[trigger] list[k];
            &&& from <= place(v.pattern) < from + patterns.len()
            &&& hits[place(v.pattern) - from]
            &&& v.severity == severity
            &&& v.location == location(logic, v.pattern)
        } by {
            if k < earlier.len() {
                assert(list[k] == earlier[k]);
                assert(h[place(earlier[k].pattern) - from]);
            }
        }
        assert forall|k: int, l: int| 0 <= k < l < list.len() implies place(
            (#[trigger] list[k]).pattern,
        ) < place((#[trigger] list[l]).pattern) by {
            assert(list[k] == earlier[k]);
            if l < earlier.len() {
                assert(list[l] == earlier[l]);
            }
        }
        assert forall|i: int| 0 <= i < hits.len() && #[trigger] hits[i] implies is_reported(
            list,
            patterns[i],
        ) by {
            if i < hits.len() - 1 {
                assert(h[i] && p[i] == patterns[i]);
                let k = choose|k: int|
                    0 <= k < earlier.len() && (#[trigger] earlier[k]).pattern == p[i];
                assert(list[k] == earlier[k]);
            } else {
                assert(list[list.len() - 1].pattern == patterns[i]);
            }
        }
    }
}

/// A scan reports exactly the patterns that hit: the banned ones as blocks, then the warnings, each once,
/// in the order of their places, and with the place in the logic where it shows. It passes where no banned
/// pattern hits.
pub proof fn law_scans_report_hits(
    logic: Seq<char>,
    banned: Seq<bool>,
    warned: Seq<bool>,
    p: Seq<char>,
    k: int,
    l: int,
)
    requires
        banned.len() == 10,
        warned.len() == 2,
    ensures
        ({
            let list = scan_of(logic, banned, warned).violations;
            &&& is_reported(list, p) <==> (0 <= place(p) < 10 && banned[place(p)]) || (10 <= place(p)
                < 12 && warned[place(p) - 10])
            &&& 0 <= k < list.len() ==> {
                &&& list[k].severity == ViolationSeverity::Block <==> place(list[k].pattern) < 10
                &&& list[k].location == location(logic, list[k].pattern)
            }
            &&& 0 <= k < l < list.len() ==> place(list[k].pattern) < place(list[l].pattern)
            &&& scan_of(logic, banned, warned).passed <==> forall|i: int|
                0 <= i < 10 ==> !#[trigger] banned[i]
        }),
{
    lemma_places();
    let blocks = violations_of(banned_patterns(), banned, logic, ViolationSeverity::Block);
    let warnings = violations_of(warning_patterns(), warned, logic, ViolationSeverity::Warn);
    lemma_reported_of(banned_patterns(), banned, logic, ViolationSeverity::Block, 0);
    lemma_reported_of(warning_patterns(), warned, logic, ViolationSeverity::Warn, 10);
    let list = scan_of(logic, banned, warned).violations;
    assert(list =~= blocks + warnings);
    if is_reported(list, p) {
        let m = choose|m: int| 0 <= m < list.len() && (#[trigger] list[m]).pattern == p;
        if m < blocks.len() {
            assert(list[m] == blocks[m]);
        } else {
            assert(list[m] == warnings[m - blocks.len()]);
        }
    }
    if 0 <= place(p) < 10 && banned[place(p)] {
        assert(is_reported(blocks, banned_patterns()[place(p)]));
        let m = choose|m: int| 0 <= m < blocks.len() && (#[trigger] blocks[m]).pattern == p;
        assert(list[m] == blocks[m]);
    }
    if 10 <= place(p) < 12 && warned[place(p) - 10] {
        assert(is_reported(warnings, warning_patterns()[place(p) - 10]));
        let m = choose|m: int| 0 <= m < warnings.len() && (#[trigger] warnings[m]).pattern == p;
        assert(list[blocks.len() + m] == warnings[m]);
    }
    if 0 <= k < list.len() {
        if k < blocks.len() {
            assert(list[k] == blocks[k]);
        } else {
            assert(list[k] == warnings[k - blocks.len()]);
        }
        if k < l < list.len() {
            if l < blocks.len() {
                assert(list[l] == blocks[l]);
            } else {
                assert(list[l] == warnings[l - blocks.len()]);
            }
        }
    }
    if exists|i: int| 0 <= i < 10 && #[trigger] banned[i] {
        let i = choose|i: int| 0 <= i < 10 && #[trigger] banned[i];
        assert(is_reported(blocks, banned_patterns()[i]));
        let m = choose|m: int|
            0 <= m < blocks.len() && (#[trigger] blocks[m]).pattern == banned_patterns()[i];
        assert(list[m] == blocks[m]);
        assert(list[m].severity == ViolationSeverity::Block);
    }
    if !scan_of(logic, banned, warned).passed {
        let m = choose|m: int|
            0 <= m < list.len() && (#[trigger] list[m]).severity == ViolationSeverity::Block;
        if m < blocks.len() {
            assert(list[m] == blocks[m]);
            assert(banned[place(blocks[m].pattern)]);
        } else {
            assert(list[m] == warnings[m - blocks.len()]);
        }
    }
}

/// The scan of some logic reports a pattern exactly where the pattern is one of those that are scanned for
/// and its regular expression matches in the logic, whatever else the logic holds. It passes exactly where
/// no banned pattern matches.
pub proof fn law_scan_reports_exactly_what_matches(logic: Seq<char>, p: Seq<char>, k: int, l: int)
    ensures
        is_reported(scan(logic).violations, p) <==> place(p) >= 0 && regex_match(p, logic) == Some(
            true,
        ),
        ({
            let list = scan(logic).violations;
            &&& 0 <= k < list.len() ==> {
                &&& list[k].severity == ViolationSeverity::Block <==> place(list[k].pattern) < 10
                &&& list[k].location == location(logic, list[k].pattern)
            }
            &&& 0 <= k < l < list.len() ==> place(list[k].pattern) < place(list[l].pattern)
        }),
        scan(logic).passed <==> forall|q: Seq<char>|
            0 <= #[trigger] place(q) < 10 ==> regex_match(q, logic) != Some(true),
{
    lemma_places();
    let banned = pattern_hits(banned_patterns(), logic);
    let warned = pattern_hits(warning_patterns(), logic);
    law_scans_report_hits(logic, banned, warned, p, k, l);
    if scan(logic).passed {
        assert forall|q: Seq<char>| 0 <= #[trigger] place(q) < 10 implies regex_match(q, logic)
            != Some(true) by {
            assert(!banned[place(q)]);
        }
    } else {
        let i = choose|i: int| 0 <= i < 10 && #[trigger] banned[i];
        assert(place(banned_patterns()[i]) == i);
    }
}

/// A line shows a pattern where it holds the pattern as it is written, or as it is written without `\s*`.
pub proof fn law_lines_show_patterns(line: Seq<char>, p: Seq<char>)
    ensures
        line_shows(line, p) <==> has_part(line, p) || has_part(line, replaced(p, "\\s*"@, ""@)),
{
}

/// Some logic shows a banned text where it holds a call of `eval`, `fetch` or `require`, or the text
/// `process.env`, `XMLHttpRequest`, `globalThis` or `Deno.`.
pub proof fn law_banned_texts(logic: Seq<char>, before: Seq<char>, after: Seq<char>)
    ensures
        shows_banned_text(logic) <==> has_part(logic, "eval("@) || has_part(logic, "fetch("@)
            || has_part(logic, "require("@) || has_part(logic, "process.env"@) || has_part(
            logic,
            "XMLHttpRequest"@,
        ) || has_part(logic, "globalThis"@) || has_part(logic, "Deno."@),
        within(before, logic, after) == before + logic + after,
{
    let list = banned_texts();
    if has_part(logic, "eval("@) {
        assert(has_part(logic, list[0]));
    }
    if has_part(logic, "process.env"@) {
        assert(has_part(logic, list[1]));
    }
    if has_part(logic, "fetch("@) {
        assert(has_part(logic, list[2]));
    }
    if has_part(logic, "XMLHttpRequest"@) {
        assert(has_part(logic, list[3]));
    }
    if has_part(logic, "require("@) {
        assert(has_part(logic, list[4]));
    }
    if has_part(logic, "globalThis"@) {
        assert(has_part(logic, list[5]));
    }
    if has_part(logic, "Deno."@) {
        assert(has_part(logic, list[6]));
    }
}

// The structural signature.

/// The bytes that are hashed: name, type, version, contract, logic and lineage, with a zero byte between
/// each two. Type, contract and lineage are written as JSON.
pub proof fn law_hashed_bytes(cell: CellView)
    ensures
        preimage(cell) == encode_utf8(cell.identity.name) + seq![0u8] + encode_utf8(
            compact_json(JsonView::Text(cell.identity.cell_type.spec_tag())),
        ) + seq![0u8] + encode_utf8(cell.identity.version) + seq![0u8] + encode_utf8(
            contract_json(cell.contract),
        ) + seq![0u8] + encode_utf8(cell.logic) + seq![0u8] + encode_utf8(
            lineage_json(cell.lineage),
        ),
        contract_json(cell.contract) == "{\"input\":"@ + compact_json(cell.contract.input)
            + ",\"output\":"@ + compact_json(cell.contract.output) + "}"@,
        lineage_json(cell.lineage) == "{\"source\":"@ + compact_json(
            JsonView::Text(cell.lineage.source),
        ) + ",\"trigger\":"@ + compact_json(JsonView::Text(cell.lineage.trigger))
            + ",\"justification\":"@ + compact_json(JsonView::Text(cell.lineage.justification))
            + ",\"signature\":"@ + compact_json(JsonView::Text(cell.lineage.signature)) + "}"@,
        structural_hash(cell) == hex_text(sha256(preimage(cell))),
{
}

// The checks.

/// One for what holds.
pub open spec fn one(b: bool) -> int {
    if b {
        1
    } else {
        0
    }
}

/// Tells whether a scan reports a violation of a severity.
pub open spec fn reports_severity(scan: ScanView, severity: ViolationSeverity) -> bool {
    exists|k: int|
        0 <= k < scan.violations.len() && (#[trigger] scan.violations[k]).severity == severity
}

/// How many of the ten things that are checked hold of a cell.
pub open spec fn checked(
    cell: CellView,
    hash: Seq<char>,
    scan: ScanView,
    approval: Option<bool>,
) -> int {
    let inherits = inherits_taint(cell.contract.input, cell.contract.output);
    one(cell.identity.name.len() > 0 && cell.identity.version.len() > 0) + one(
        cell.contract.input is Object && cell.contract.output is Object,
    ) + one(!blank(cell.logic)) + one(
        cell.lineage.source.len() > 0 && cell.lineage.trigger.len() > 0
            && cell.lineage.justification.len() > 0 && cell.lineage.signature.len() > 0,
    ) + one(cell.signature == Some(hash)) + one(
        !reports_severity(scan, ViolationSeverity::Block),
    ) + one(!reports_severity(scan, ViolationSeverity::Warn)) + one(scan.passed) + one(inherits)
        + one(inherits || approval == Some(true))
}

/// A check counts one for each of the ten things that hold of a cell, and says what it was made with.
pub proof fn law_checks_count_what_holds(
    cell: CellView,
    hash: Seq<char>,
    scan: ScanView,
    approval: Option<bool>,
)
    ensures
        ({
            let c = check_of(cell, hash, scan, approval);
            &&& c.checks_passed == checked(cell, hash, scan, approval)
            &&& c.checks_total == 10
            &&& c.structural_hash == hash
            &&& c.pattern_scan == scan
            &&& c.declassifier_approved == approval
            &&& c.classification_valid == inherits_taint(cell.contract.input, cell.contract.output)
        }),
{
    let list = checks(cell, hash, scan, approval);
    assert(list.len() == 10);
    reveal_with_fuel(count_passed, 11);
    assert(count_passed(list) == one(list[0]) + one(list[1]) + one(list[2]) + one(list[3]) + one(
        list[4],
    ) + one(list[5]) + one(list[6]) + one(list[7]) + one(list[8]) + one(list[9]));
}

/// A cell is checked with its own signature and the scan of its own logic, and without approval.
pub proof fn law_cells_are_checked_by_themselves(cell: CellView)
    ensures
        check(cell).structural_hash == structural_hash(cell),
        check(cell).pattern_scan == scan(cell.logic),
        check(cell).declassifier_approved is None,
        check(cell).checks_total == 10,
        check(cell).checks_passed == checked(cell, structural_hash(cell), scan(cell.logic), None),
        check(cell).classification_valid == inherits_taint(
            cell.contract.input,
            cell.contract.output,
        ),
{
    law_checks_count_what_holds(cell, structural_hash(cell), scan(cell.logic), None);
}

// Classification.

/// The levels from public to secret are ranked, and a level dominates those that are not ranked higher.
pub proof fn law_levels_are_ranked(a: ClassificationLevel, b: ClassificationLevel)
    ensures
        a.spec_rank() == match a {
            ClassificationLevel::Public => 0u8,
            ClassificationLevel::Internal => 1u8,
            ClassificationLevel::Pii => 2u8,
            ClassificationLevel::Secret => 3u8,
        },
        a.spec_dominates(b) <==> a.spec_rank() >= b.spec_rank(),
        a.spec_tag() == match a {
            ClassificationLevel::Public => "<public>"@,
            ClassificationLevel::Internal => "<internal>"@,
            ClassificationLevel::Pii => "<pii>"@,
            ClassificationLevel::Secret => "<secret>"@,
        },
        a.spec_name() == match a {
            ClassificationLevel::Public => "Public"@,
            ClassificationLevel::Internal => "Internal"@,
            ClassificationLevel::Pii => "Pii"@,
            ClassificationLevel::Secret => "Secret"@,
        },
{
}

/// Cell types and severities have their names, and cell types their tags.
pub proof fn law_types_have_names(t: CellType, s: ViolationSeverity)
    ensures
        t.spec_name() == match t {
            CellType::Transformer => "Transformer"@,
            CellType::Reactor => "Reactor"@,
            CellType::Keeper => "Keeper"@,
            CellType::Channel => "Channel"@,
        },
        t.spec_tag() == match t {
            CellType::Transformer => "transformer"@,
            CellType::Reactor => "reactor"@,
            CellType::Keeper => "keeper"@,
            CellType::Channel => "channel"@,
        },
        s.spec_name() == match s {
            ViolationSeverity::Block => "Block"@,
            ViolationSeverity::Warn => "Warn"@,
        },
{
}

/// A tag occurs in a text that holds it, in an array or object where it occurs in an item or field, and
/// nowhere else. A level occurs where its tag does.
pub proof fn law_tags_occur(schema: JsonView, tag: Seq<char>, level: ClassificationLevel)
    ensures
        match schema {
            JsonView::Text(s) => tagged(schema, tag) <==> has_part(s, tag),
            JsonView::Array(items) => tagged(schema, tag) <==> exists|i: int|
                0 <= i < items.len() && tagged(#[trigger] items[i], tag),
            JsonView::Object(fields) => fields.dom().finite() ==> (tagged(schema, tag)
                <==> exists|key: Seq<char>|
                fields.contains_key(key) && tagged(#[trigger] fields[key], tag)),
            _ => !tagged(schema, tag),
        },
        has_level(schema, level) <==> tagged(schema, level.spec_tag()),
{
}

/// The highest level of a schema occurs in it and dominates every level that does. A level covers a schema
/// where it dominates every level that occurs in it.
pub proof fn law_highest_level(schema: JsonView, level: ClassificationLevel)
    ensures
        highest(schema) matches Some(top) ==> has_level(schema, top),
        has_level(schema, level) ==> (highest(schema) matches Some(top) && top.spec_dominates(
            level,
        )),
        covers(level, schema) <==> forall|other: ClassificationLevel|
            #[trigger] has_level(schema, other) ==> level.spec_dominates(other),
{
    if covers(level, schema) {
        assert forall|other: ClassificationLevel| #[trigger] has_level(
            schema,
            other,
        ) implies level.spec_dominates(other) by {
            assert(highest(schema)->0.spec_dominates(other));
        }
    } else {
        assert(has_level(schema, highest(schema)->0));
    }
}

// Admission and execution.

/// A cell is admitted where its scan passes and the checks that fail are at most the excused ones: one for
/// warnings, and one for a declassifier that a human has approved.
pub proof fn law_admission_counts_checks(c: CheckView)
    ensures
        admitted(c) <==> c.pattern_scan.passed && c.checks_passed + (if exists|k: int|
            0 <= k < c.pattern_scan.violations.len() && (
            #[trigger] c.pattern_scan.violations[k]).severity == ViolationSeverity::Warn {
            1int
        } else {
            0int
        }) + (if c.declassifier_approved == Some(true) && !c.classification_valid {
            1int
        } else {
            0int
        }) >= c.checks_total,
        approved(c) <==> c.declassifier_approved == Some(true),
{
}

/// The refusal of a cell names it, lists the violations that block, each with its location, and says how
/// many checks passed.
pub proof fn law_refusals_name_what_blocks(cell: CellView, c: CheckView)
    ensures
        refusal(cell, c) == ErrorView::ConstitutionalViolation(
            "Cell '"@ + cell.identity.name + "' failed constitutional checks: "@ + joined(
                c.pattern_scan.violations.filter(
                    |v: ViolationView| v.severity == ViolationSeverity::Block,
                ).map_values(
                    |v: ViolationView|
                        v.pattern + " ("@ + (match v.location {
                            Some(at) => at,
                            None => "unknown"@,
                        }) + ")"@,
                ),
                ", "@,
            ) + ". Checks passed: "@ + decimal(c.checks_passed as nat) + "/"@ + decimal(
                c.checks_total as nat,
            ) + "."@,
        ),
{
    let blocks = c.pattern_scan.violations.filter(
        |v: ViolationView| v.severity == ViolationSeverity::Block,
    );
    assert(crate::cell_runner::block_notes(c.pattern_scan.violations) =~= blocks.map_values(
        |v: ViolationView|
            v.pattern + " ("@ + (match v.location {
                Some(at) => at,
                None => "unknown"@,
            }) + ")"@,
    ));
}

/// Every error has its message.
pub proof fn law_errors_have_messages(
    s: Seq<char>,
    secs: u32,
    input: ClassificationLevel,
    output: ClassificationLevel,
)
    ensures
        ErrorView::ConstitutionalViolation(s).message() == "Constitutional violation: "@ + s,
        ErrorView::SandboxError(s).message() == "Sandbox error: "@ + s,
        ErrorView::Timeout(secs).message() == "Cell timed out after "@ + decimal(secs as nat) + "s"@,
        ErrorView::ChannelError(s).message() == "Channel error: "@ + s,
        (ErrorView::ClassificationMismatch { input, output }).message()
            == "Classification mismatch: output "@ + output.spec_name() + " must dominate input "@
            + input.spec_name(),
        ErrorView::Paused(s).message() == "Pipeline paused at checkpoint: "@ + s,
        ErrorView::Io(s).message() == s,
        ErrorView::Other(s).message() == s,
{
}

/// The plan of a cell has its check, the mapping of each of its channels in order, and the anomalies of
/// those that are mapped, one after the other.
pub proof fn law_plans_map_every_channel(cell: CellView, c: CheckView, i: int)
    ensures
        plan_of(cell, c).check == c,
        plan_of(cell, c).channels.len() == cell.channels.len(),
        0 <= i < cell.channels.len() ==> plan_of(cell, c).channels[i] == mapping(cell.channels[i]),
        plan_of(cell, c).anomalies == plan_of(cell, c).channels.flat_map(
            |m: MappingView|
                match m {
                    MappingView::Mapped(mapped) => mapped.anomalies,
                    MappingView::Skipped(_) => Seq::empty(),
                },
        ),
{
    let a = |m: MappingView| crate::cell_runner::anomalies_of(m);
    let b = |m: MappingView|
        match m {
            MappingView::Mapped(mapped) => mapped.anomalies,
            MappingView::Skipped(_) => Seq::empty(),
        };
    assert(a =~= b);
}

/// What a run comes to: its error, or its output unless this is less sensitive than the input of the cell
/// and no human has approved it, which is a mismatch of the two levels. A cell that is not admitted is
/// refused.
pub proof fn law_runs_come_to(
    cell: CellView,
    c: CheckView,
    output: OutputView,
    e: ErrorView,
    run: Result<OutputView, ErrorView>,
)
    ensures
        concluded(cell, c, Err(e)) == Err::<OutputView, ErrorView>(e),
        c.declassifier_approved == Some(true) || covers(output.classification, cell.contract.input)
            ==> concluded(cell, c, Ok(output)) == Ok::<OutputView, ErrorView>(output),
        c.declassifier_approved != Some(true) && !covers(output.classification, cell.contract.input)
            ==> concluded(cell, c, Ok(output)) == Err::<OutputView, ErrorView>(
            ErrorView::ClassificationMismatch {
                input: highest(cell.contract.input)->0,
                output: output.classification,
            },
        ),
        admitted(c) ==> outcome(cell, c, run) == concluded(cell, c, run),
        !admitted(c) ==> outcome(cell, c, run) == Err::<OutputView, ErrorView>(refusal(cell, c)),
{
}

/// A cell is executed under its own check: refused where this does not admit it, and else told that
/// sandboxes are not wired.
pub proof fn law_execution_of_cells(cell: CellView, input: JsonView)
    ensures
        !admitted(check(cell)) ==> cell_outcome(cell, input) == Err::<OutputView, ErrorView>(
            refusal(cell, check(cell)),
        ),
        admitted(check(cell)) ==> cell_outcome(cell, input) == Err::<OutputView, ErrorView>(
            ErrorView::Other(
                "Sandbox creation via OpenShell runtime is not yet wired. Cells execute via the Fractal npm runtime (Javy Wasm void) by default. Install OpenShell and rebuild for kernel-level sandboxing."@,
            ),
        ),
{
    let plan = plan_of(cell, check(cell));
    lemma_sandbox_is_not_wired(cell, plan, input, sandbox_run(cell, plan, input));
}

// Scaffolds.

/// The cell of a name is the last one that has it.
pub proof fn law_last_cell_of_a_name(cells: Seq<CellView>, name: Seq<char>, i: int)
    ensures
        0 <= i < cells.len() && cells[i].identity.name == name && (forall|j: int|
            i < j < cells.len() ==> (#[trigger] cells[j]).identity.name != name) ==> cell_at(
            cells,
            name,
        ) == Some(i),
        (forall|j: int| 0 <= j < cells.len() ==> (#[trigger] cells[j]).identity.name != name)
            ==> cell_at(cells, name) is None,
{
    lemma_cell_at(cells, name);
    if let Some(j) = cell_at(cells, name) {
        if 0 <= i < cells.len() && cells[i].identity.name == name {
            assert(j >= i) by {
                if j < i {
                    assert(cells[i].identity.name != name);
                }
            }
        }
    } else if 0 <= i < cells.len() {
        assert(cells[i].identity.name != name);
    }
}

/// A run starts with nothing, and keeps each output under the name of the cell that gave it, along with
/// those under other names. The first cell gets the initial input, every other one the data that is kept
/// under the name of the cell before it.
pub proof fn law_steps_of_a_run(
    scaffold: ScaffoldView,
    run: RunView,
    output: OutputView,
    initial: JsonView,
    paused: bool,
    id: Seq<char>,
    name: Seq<char>,
)
    requires
        run.cells_executed < scaffold.execution_order.len(),
    ensures
        start().cells_executed == 0,
        !start().outputs.contains_key(name),
        next_input(scaffold, start(), initial) == initial,
        ({
            let last = scaffold.execution_order[run.cells_executed as int];
            let next = advance(scaffold, run, output);
            let result = result_of(scaffold, next, paused, id);
            &&& next.cells_executed == run.cells_executed + 1
            &&& next.outputs.contains_key(last) && next.outputs[last] == output
            &&& name != last ==> (next.outputs.contains_key(name) <==> run.outputs.contains_key(name))
            &&& name != last && run.outputs.contains_key(name) ==> next.outputs[name]
                == run.outputs[name]
            &&& next_input(scaffold, next, initial) == output.data
            &&& result.final_output == output
            &&& result.cells_executed == run.cells_executed + 1
            &&& result.paused_at == if paused {
                Some(last)
            } else {
                None
            }
            &&& result.run_id == id
        }),
{
}

proof fn lemma_pipeline_from(
    scaffold: ScaffoldView,
    run: RunView,
    initial: JsonView,
    id: Seq<char>,
    execute: spec_fn(CellView, JsonView) -> Result<OutputView, ErrorView>,
    outputs: Seq<OutputView>,
) -> (last: RunView)
    requires
        run.cells_executed <= outputs.len() <= scaffold.execution_order.len(),
        forall|i: int|
            0 <= i < outputs.len() ==> #[trigger] gives_output(
                scaffold,
                outputs,
                initial,
                execute,
                i,
            ),
        forall|i: int|
            0 <= i < outputs.len() - 1 ==> !scaffold.pause_after.contains(
                #[trigger] scaffold.execution_order[i],
            ),
        run.cells_executed > 0 ==> {
            let name = scaffold.execution_order[run.cells_executed - 1];
            run.outputs.contains_key(name) && run.outputs[name] == outputs[run.cells_executed - 1]
        },
        run.cells_executed == outputs.len() || run.cells_executed == 0
            || !scaffold.pause_after.contains(
            scaffold.execution_order[run.cells_executed - 1],
        ),
    ensures
        last.cells_executed == outputs.len(),
        outputs.len() > 0 ==> {
            let name = scaffold.execution_order[outputs.len() - 1];
            last.outputs.contains_key(name) && last.outputs[name] == outputs.last()
        },
        run.cells_executed < outputs.len() && scaffold.pause_after.contains(
            scaffold.execution_order[outputs.len() - 1],
        ) ==> pipeline(scaffold, run, initial, id, execute) == Ok::<ResultView, ErrorView>(
            result_of(scaffold, last, true, id),
        ),
        run.cells_executed == outputs.len() || !scaffold.pause_after.contains(
            scaffold.execution_order[outputs.len() - 1],
        ) ==> pipeline(scaffold, run, initial, id, execute) == pipeline(
            scaffold,
            last,
            initial,
            id,
            execute,
        ),
    decreases outputs.len() - run.cells_executed,
{
    if run.cells_executed == outputs.len() {
        run
    } else {
        let i = run.cells_executed as int;
        let name = scaffold.execution_order[i];
        assert(gives_output(scaffold, outputs, initial, execute, i));
        assert(next_input(scaffold, run, initial) == threaded_input(outputs, initial, i));
        let next = advance(scaffold, run, outputs[i]);
        if i == outputs.len() - 1 {
            if !scaffold.pause_after.contains(name) {
                assert(pipeline(scaffold, run, initial, id, execute) == pipeline(
                    scaffold,
                    next,
                    initial,
                    id,
                    execute,
                ));
            }
            next
        } else {
            assert(!scaffold.pause_after.contains(name));
            assert(pipeline(scaffold, run, initial, id, execute) == pipeline(
                scaffold,
                next,
                initial,
                id,
                execute,
            ));
            lemma_pipeline_from(scaffold, next, initial, id, execute, outputs)
        }
    }
}

/// A pipeline whose first cells give some outputs, each for the input that is threaded to it, and which does
/// not pause before the last of these: it pauses after that one if it is asked to; it ends with that output
/// if no cell is left; and else the next cell decides. If this is missing, or gives an error for the input
/// that is threaded to it, the pipeline fails so.
pub proof fn law_pipelines_step_by_step(
    scaffold: ScaffoldView,
    initial: JsonView,
    id: Seq<char>,
    execute: spec_fn(CellView, JsonView) -> Result<OutputView, ErrorView>,
    outputs: Seq<OutputView>,
)
    requires
        outputs.len() <= scaffold.execution_order.len(),
        forall|i: int|
            0 <= i < outputs.len() ==> #[trigger] gives_output(
                scaffold,
                outputs,
                initial,
                execute,
                i,
            ),
        forall|i: int|
            0 <= i < outputs.len() - 1 ==> !scaffold.pause_after.contains(
                #[trigger] scaffold.execution_order[i],
            ),
    ensures
        ({
            let order = scaffold.execution_order;
            let r = pipeline(scaffold, start(), initial, id, execute);
            let n = outputs.len() as int;
            let pauses = n > 0 && scaffold.pause_after.contains(order[n - 1]);
            &&& pauses ==> r == Ok::<ResultView, ErrorView>(
                ResultView {
                    final_output: outputs.last(),
                    cells_executed: outputs.len(),
                    paused_at: Some(order[n - 1]),
                    run_id: id,
                },
            )
            &&& !pauses && 0 < n == order.len() ==> r == Ok::<ResultView, ErrorView>(
                ResultView {
                    final_output: outputs.last(),
                    cells_executed: outputs.len(),
                    paused_at: None,
                    run_id: id,
                },
            )
            &&& !pauses && n < order.len() ==> match cell_at(scaffold.cells, order[n]) {
                None => r == Err::<ResultView, ErrorView>(
                    ErrorView::Other(
                        "Cell '"@ + order[n] + "' in execution order not found in scaffold"@,
                    ),
                ),
                Some(at) => execute(
                    scaffold.cells[at],
                    threaded_input(outputs, initial, n),
                ) matches Err(e) ==> r == Err::<ResultView, ErrorView>(e),
            }
        }),
{
    let order = scaffold.execution_order;
    let n = outputs.len() as int;
    let last = lemma_pipeline_from(scaffold, start(), initial, id, execute, outputs);
    if !(n > 0 && scaffold.pause_after.contains(order[n - 1])) {
        assert(pipeline(scaffold, start(), initial, id, execute) == pipeline(
            scaffold,
            last,
            initial,
            id,
            execute,
        ));
        if n < order.len() {
            assert(next_input(scaffold, last, initial) == threaded_input(outputs, initial, n));
        }
    }
}

/// The identifier of a run is its time in at least sixteen hexadecimal digits, a dash, and the rest of the
/// time by 65535 in at least four.
pub proof fn law_run_ids_hold_the_time(millis: nat)
    ensures
        run_id(millis) == padded_hex(millis, 16) + "-"@ + padded_hex(millis % 65535, 4),
{
}

// What the types stand for.

/// A cell stands for its fields, one by one.
pub proof fn law_cell_views(cell: FractalCell, channel: TypedChannelConfig, i: int)
    ensures
        cell@.identity.name == cell.identity.name@,
        cell@.identity.cell_type == cell.identity.cell_type,
        cell@.identity.version == cell.identity.version@,
        cell@.contract.input == cell.contract.input@,
        cell@.contract.output == cell.contract.output@,
        cell@.channels.len() == cell.channels@.len(),
        0 <= i < cell.channels@.len() ==> cell@.channels[i] == cell.channels@[i]@,
        cell@.logic == cell.logic@,
        cell@.lineage.source == cell.lineage.source@,
        cell@.lineage.trigger == cell.lineage.trigger@,
        cell@.lineage.justification == cell.lineage.justification@,
        cell@.lineage.signature == cell.lineage.signature@,
        cell@.signature is Some <==> cell.signature is Some,
        cell.signature is Some ==> cell@.signature->0 == cell.signature->0@,
        channel@.name == channel.name@,
        channel@.kind == channel.kind@,
        channel@.scope == channel.scope@,
{
}

/// A check stands for its fields, one by one.
pub proof fn law_check_views(
    c: ConstitutionalCheck,
    scan: PatternScanResult,
    v: PatternViolation,
    i: int,
)
    ensures
        c@.structural_hash == c.structural_hash@,
        c@.pattern_scan == c.pattern_scan@,
        c@.classification_valid == c.classification_valid,
        c@.declassifier_approved == c.declassifier_approved,
        c@.checks_passed == c.checks_passed,
        c@.checks_total == c.checks_total,
        scan@.passed == scan.passed,
        scan@.violations.len() == scan.violations@.len(),
        0 <= i < scan.violations@.len() ==> scan@.violations[i] == scan.violations@[i]@,
        v@.pattern == v.pattern@,
        v@.location is Some <==> v.location is Some,
        v.location is Some ==> v@.location->0 == v.location->0@,
        v@.severity == v.severity,
{
}

/// Outputs, plans, scaffolds and their results stand for their fields, one by one.
pub proof fn law_run_views(
    output: CellOutput,
    plan: CellPlan,
    scaffold: FractalScaffold,
    result: ScaffoldResult,
    i: int,
)
    ensures
        output@.data == output.data@,
        output@.classification == output.classification,
        output@.health == output.health,
        plan@.check == plan.check@,
        plan@.channels.len() == plan.channels@.len(),
        0 <= i < plan.channels@.len() ==> plan@.channels[i] == plan.channels@[i]@,
        plan@.anomalies.len() == plan.anomalies@.len(),
        0 <= i < plan.anomalies@.len() ==> plan@.anomalies[i] == plan.anomalies@[i]@,
        scaffold@.name == scaffold.name@,
        scaffold@.cells.len() == scaffold.cells@.len(),
        0 <= i < scaffold.cells@.len() ==> scaffold@.cells[i] == scaffold.cells@[i]@,
        scaffold@.execution_order.len() == scaffold.execution_order@.len(),
        0 <= i < scaffold.execution_order@.len() ==> scaffold@.execution_order[i]
            == scaffold.execution_order@[i]@,
        scaffold@.pause_after.len() == scaffold.pause_after@.len(),
        0 <= i < scaffold.pause_after@.len() ==> scaffold@.pause_after[i]
            == scaffold.pause_after@[i]@,
        result@.final_output == result.final_output@,
        result@.cells_executed == result.cells_executed,
        result@.paused_at is Some <==> result.paused_at is Some,
        result.paused_at is Some ==> result@.paused_at->0 == result.paused_at->0@,
        result@.run_id == result.run_id@,
{
}

/// Results stand for what they hold, and errors for their kinds and texts.
pub proof fn law_error_views(
    r: Result<CellOutput, CellError>,
    granted: Result<(), CellError>,
    finished: Result<ScaffoldResult, CellError>,
    s: String,
    secs: u32,
    input: ClassificationLevel,
    output: ClassificationLevel,
)
    ensures
        match r {
            Ok(o) => outcome_view(r) == Ok::<OutputView, ErrorView>(o@),
            Err(e) => outcome_view(r) == Err::<OutputView, ErrorView>(e@),
        },
        match granted {
            Ok(_) => sandbox_view(granted) == Ok::<(), ErrorView>(()),
            Err(e) => sandbox_view(granted) == Err::<(), ErrorView>(e@),
        },
        match finished {
            Ok(result) => scaffold_view(finished) == Ok::<ResultView, ErrorView>(result@),
            Err(e) => scaffold_view(finished) == Err::<ResultView, ErrorView>(e@),
        },
        CellError::ConstitutionalViolation(s)@ == ErrorView::ConstitutionalViolation(s@),
        CellError::SandboxError(s)@ == ErrorView::SandboxError(s@),
        CellError::Timeout(secs)@ == ErrorView::Timeout(secs),
        CellError::ChannelError(s)@ == ErrorView::ChannelError(s@),
        (CellError::ClassificationMismatch { input, output })@
            == (ErrorView::ClassificationMismatch { input, output }),
        CellError::Paused(s)@ == ErrorView::Paused(s@),
        CellError::Io(s)@ == ErrorView::Io(s@),
        CellError::Other(s)@ == ErrorView::Other(s@),
{
}

} // verus!
