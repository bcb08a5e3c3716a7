//! What the commands print: the reports of running, validating and mapping cells.

use crate::channel_mapper::{map_all, mapping, MappingResult, MappingView};
use crate::constitution::{check, validate_cell};
use crate::json::{entries_view, items_view, lemma_entries_push, Json, JsonView};
use crate::json_text::{count_json, json_document, parse_json, pretty_json, to_pretty, unsigned};
use crate::policy::{FilesystemPolicy, FilesystemView, NetworkPolicy, NetworkView};
use crate::schema::{
    views, CellView, ChannelView, CheckView, ConstitutionalCheck, FractalCell,
    FractalScaffold, PatternViolation, ScaffoldView, ViolationView,
};
use crate::text::{decimal, decimal_text, same_text, texts};
use vstd::prelude::*;

verus! {

/// A line that a command prints.
#[derive(Debug, Clone)]
pub enum OutputLine {
    Stdout(String),
    Stderr(String),
}

#[verifier::ext_equal]
pub enum LineView {
    Stdout(Seq<char>),
    Stderr(Seq<char>),
}

impl View for OutputLine {
    type V = LineView;

    open spec fn view(&self) -> LineView {
        match self {
            OutputLine::Stdout(s) => LineView::Stdout(s@),
            OutputLine::Stderr(s) => LineView::Stderr(s@),
        }
    }
}

/// What a command prints, and whether it succeeds.
#[derive(Debug, Clone)]
pub struct CommandOutput {
    pub lines: Vec<OutputLine>,
    pub success: bool,
}

#[verifier::ext_equal]
pub struct CommandView {
    pub lines: Seq<LineView>,
    pub success: bool,
}

impl View for CommandOutput {
    type V = CommandView;

    open spec fn view(&self) -> CommandView {
        CommandView { lines: views(self.lines@), success: self.success }
    }
}

fn out(lines: &mut Vec<OutputLine>, s: String)
    ensures
        views(final(lines)@) == views(old(lines)@).push(LineView::Stdout(s@)),
{
    let line = OutputLine::Stdout(s);
    lines.push(line);
    assert(views(lines@) == views(old(lines)@).push(line@));
}

fn err(lines: &mut Vec<OutputLine>, s: String)
    ensures
        views(final(lines)@) == views(old(lines)@).push(LineView::Stderr(s@)),
{
    let line = OutputLine::Stderr(s);
    lines.push(line);
    assert(views(lines@) == views(old(lines)@).push(line@));
}

/// How many of how many checks passed.
pub open spec fn score(passed: u8, total: u8) -> Seq<char> {
    decimal(passed as nat) + "/"@ + decimal(total as nat)
}

fn write_score(passed: u8, total: u8) -> (r: String)
    ensures
        r@ == score(passed, total),
{
    let mut s = decimal_text(passed as u128);
    s.append("/");
    s.append(decimal_text(total as u128).as_str());
    s
}

// Running a cell.

/// Reads the JSON input of a command.
pub fn parse_input(text: &str) -> (r: Result<Json, String>)
    ensures
        match r {
            Ok(j) => json_document(text@) == Ok::<JsonView, Seq<char>>(j@),
            Err(message) => json_document(text@) matches Err(e) && message@
                == "Invalid JSON input: "@ + e,
        },
{
    match parse_json(text) {
        Ok(j) => Ok(j),
        Err(e) => {
            let mut message = "Invalid JSON input: ".to_owned();
            message.append(e.as_str());
            Err(message)
        },
    }
}

/// A violation in a list, after `indent`.
pub open spec fn violation_line(indent: Seq<char>, v: ViolationView) -> LineView {
    LineView::Stderr(indent + "- "@ + v.pattern + " ("@ + v.severity.spec_name() + ")"@)
}

/// The violations in a list, after `indent`.
pub open spec fn violation_lines(indent: Seq<char>, violations: Seq<ViolationView>) -> Seq<LineView> {
    violations.map_values(|v: ViolationView| violation_line(indent, v))
}

fn write_violations(lines: &mut Vec<OutputLine>, indent: &str, violations: &Vec<PatternViolation>)
    ensures
        views(final(lines)@) == views(old(lines)@) + violation_lines(indent@, views(violations@)),
{
    let ghost start = views(lines@);
    let ghost all = violation_lines(indent@, views(violations@));
    assert(start + all.take(0) == start);
    for i in 0..violations.len()
        invariant
            start == views(old(lines)@),
            all == violation_lines(indent@, views(violations@)),
            views(lines@) == start + all.take(i as int),
    {
        let mut s = indent.to_owned();
        s.append("- ");
        s.append(violations[i].pattern.as_str());
        s.append(" (");
        s.append(violations[i].severity.name());
        s.append(")");
        assert(all[i as int] == LineView::Stderr(s@));
        assert((start + all.take(i as int)).push(all[i as int]) == start + all.take(i + 1));
        err(lines, s);
    }
    assert(all.take(violations@.len() as int) == all);
}

/// What is said of the mapping of a channel.
pub open spec fn channel_line(m: MappingView) -> LineView {
    LineView::Stdout(
        match m {
            MappingView::Mapped(m) => "  Channel: "@ + m.channel_name + " → "@ + decimal(
                m.network_policies.len(),
            ) + " network policies, "@ + (if m.filesystem is Some {
                "1"@
            } else {
                "0"@
            }) + " fs policies"@,
            MappingView::Skipped(s) => "  Channel: "@ + s.channel_name + " (skipped: "@ + s.reason
                + ")"@,
        },
    )
}

/// What running a cell prints, given its check and the mapping of its channels.
pub open spec fn run_cell_view(
    cell: CellView,
    check: CheckView,
    channels: Seq<MappingView>,
) -> CommandView {
    let head = seq![
        LineView::Stdout("Cell: "@ + cell.identity.name + " v"@ + cell.identity.version),
        LineView::Stdout("Type: "@ + cell.identity.cell_type.spec_name()),
        LineView::Stdout(
            "Constitution: "@ + score(check.checks_passed, check.checks_total)
                + " checks passed"@,
        ),
    ];
    if check.pattern_scan.passed {
        CommandView {
            lines: head + channels.map_values(|m: MappingView| channel_line(m)) + seq![
                LineView::Stdout(
                    "✓ Cell validated. Run with `openshell sandbox create` to execute."@,
                ),
            ],
            success: true,
        }
    } else {
        CommandView {
            lines: head + seq![LineView::Stderr("❌ Pattern scan FAILED:"@)] + violation_lines(
                "  "@,
                check.pattern_scan.violations,
            ),
            success: false,
        }
    }
}

fn write_channel(m: &MappingResult) -> (r: String)
    ensures
        LineView::Stdout(r@) == channel_line(m@),
{
    let mut s = "  Channel: ".to_owned();
    match m {
        MappingResult::Mapped(m) => {
            s.append(m.channel_name.as_str());
            s.append(" → ");
            s.append(decimal_text(m.network_policies.len() as u128).as_str());
            s.append(" network policies, ");
            if m.filesystem.is_some() {
                s.append("1");
            } else {
                s.append("0");
            }
            s.append(" fs policies");
        },
        MappingResult::Skipped(k) => {
            s.append(k.channel_name.as_str());
            s.append(" (skipped: ");
            s.append(k.reason.as_str());
            s.append(")");
        },
    }
    s
}

/// Reports on a cell, given its check and the mapping of its channels.
pub fn report_cell(
    cell: &FractalCell,
    check: &ConstitutionalCheck,
    channels: &Vec<MappingResult>,
) -> (r: CommandOutput)
    ensures
        r@ == run_cell_view(cell@, check@, views(channels@)),
{
    let mut lines: Vec<OutputLine> = Vec::new();
    let mut title = "Cell: ".to_owned();
    title.append(cell.identity.name.as_str());
    title.append(" v");
    title.append(cell.identity.version.as_str());
    out(&mut lines, title);
    let mut kind = "Type: ".to_owned();
    kind.append(cell.identity.cell_type.name());
    out(&mut lines, kind);
    let mut summary = "Constitution: ".to_owned();
    summary.append(write_score(check.checks_passed, check.checks_total).as_str());
    summary.append(" checks passed");
    out(&mut lines, summary);
    let ghost head = seq![
        LineView::Stdout(title@),
        LineView::Stdout(kind@),
        LineView::Stdout(summary@),
    ];
    assert(views(lines@) == head);
    if !check.pattern_scan.passed {
        err(&mut lines, "❌ Pattern scan FAILED:".to_owned());
        assert(views(lines@) == head + seq![LineView::Stderr("❌ Pattern scan FAILED:"@)]);
        write_violations(&mut lines, "  ", &check.pattern_scan.violations);
        return CommandOutput { lines, success: false };
    }
    let ghost all = views(channels@).map_values(|m: MappingView| channel_line(m));
    assert(head + all.take(0) == head);
    for i in 0..channels.len()
        invariant
            all == views(channels@).map_values(|m: MappingView| channel_line(m)),
            views(lines@) == head + all.take(i as int),
    {
        let s = write_channel(&channels[i]);
        assert(all[i as int] == LineView::Stdout(s@));
        assert((head + all.take(i as int)).push(all[i as int]) == head + all.take(i + 1));
        out(&mut lines, s);
    }
    assert(all.take(channels@.len() as int) == all);
    out(
        &mut lines,
        "✓ Cell validated. Run with `openshell sandbox create` to execute.".to_owned(),
    );
    CommandOutput { lines, success: true }
}

/// The mapping of the channels of a cell.
pub open spec fn channel_mappings(cell: CellView) -> Seq<MappingView> {
    cell.channels.map_values(|c: ChannelView| mapping(c))
}

/// Validates a cell, maps its channels and reports on both.
pub fn run_cell(cell: &FractalCell) -> (r: CommandOutput)
    ensures
        r@ == run_cell_view(cell@, check(cell@), channel_mappings(cell@)),
{
    report_cell(cell, &validate_cell(cell), &map_all(cell.channels.as_slice()))
}

// Running a scaffold.

/// The scaffold of some cells in the order in which they were found. `name` is that of their
/// directory, if it has one.
pub fn scaffold_from_cells(
    name: Option<String>,
    cells: Vec<FractalCell>,
    pause_after: Vec<String>,
) -> (r: FractalScaffold)
    ensures
        r.cells == cells,
        r.pause_after == pause_after,
        r@.execution_order == views(cells@).map_values(|c: CellView| c.identity.name),
        r@.name == match name {
            Some(s) => s@,
            None => "unnamed"@,
        },
{
    let mut execution_order: Vec<String> = Vec::new();
    let ghost all = views(cells@).map_values(|c: CellView| c.identity.name);
    for i in 0..cells.len()
        invariant
            all == views(cells@).map_values(|c: CellView| c.identity.name),
            texts(execution_order@) == all.take(i as int),
    {
        let s = cells[i].identity.name.clone();
        assert(texts(execution_order@.push(s)) == texts(execution_order@).push(s@));
        execution_order.push(s);
    }
    assert(all.take(cells@.len() as int) == all);
    FractalScaffold {
        name: match name {
            Some(s) => s,
            None => "unnamed".to_owned(),
        },
        cells,
        execution_order,
        pause_after,
    }
}

/// A place in the execution order.
pub open spec fn order_line(place: nat, name: Seq<char>) -> LineView {
    LineView::Stdout("  "@ + decimal(place) + ". "@ + name)
}

/// What is said of a checked cell of a scaffold.
pub open spec fn cell_line(name: Seq<char>, check: CheckView) -> LineView {
    if check.pattern_scan.passed {
        LineView::Stdout(
            "  ✓ "@ + name + " ("@ + score(check.checks_passed, check.checks_total) + ")"@,
        )
    } else {
        LineView::Stderr("❌ "@ + name + ": pattern scan FAILED"@)
    }
}

/// What running a scaffold prints, given the checks of its cells.
pub open spec fn run_scaffold_view(scaffold: ScaffoldView, checks: Seq<CheckView>) -> CommandView {
    let order = scaffold.execution_order;
    let all_passed = forall|i: int|
        0 <= i < checks.len() ==> (#[trigger] checks[i]).pattern_scan.passed;
    CommandView {
        lines: seq![
            LineView::Stdout(
                "Scaffold: "@ + scaffold.name + " ("@ + decimal(scaffold.cells.len())
                    + " cells)"@,
            ),
        ] + Seq::new(order.len(), |i: int| order_line((i + 1) as nat, order[i])) + Seq::new(
            checks.len(),
            |i: int| cell_line(scaffold.cells[i].identity.name, checks[i]),
        ) + if all_passed {
            seq![
                LineView::Stdout(
                    "✓ All cells validated. Run with `openshell sandbox create` to execute."@,
                ),
            ]
        } else {
            Seq::empty()
        },
        success: all_passed,
    }
}

/// Reports on a scaffold, given the checks of its cells.
pub fn report_scaffold(scaffold: &FractalScaffold, checks: &Vec<ConstitutionalCheck>) -> (r:
    CommandOutput)
    requires
        checks@.len() == scaffold.cells@.len(),
    ensures
        r@ == run_scaffold_view(scaffold@, views(checks@)),
{
    let mut lines: Vec<OutputLine> = Vec::new();
    let mut title = "Scaffold: ".to_owned();
    title.append(scaffold.name.as_str());
    title.append(" (");
    title.append(decimal_text(scaffold.cells.len() as u128).as_str());
    title.append(" cells)");
    out(&mut lines, title);
    let ghost head = seq![LineView::Stdout(title@)];
    assert(views(lines@) == head);
    let ghost order = scaffold@.execution_order;
    let ghost places = Seq::new(order.len(), |i: int| order_line((i + 1) as nat, order[i]));
    assert(head + places.take(0) == head);
    for i in 0..scaffold.execution_order.len()
        invariant
            order == texts(scaffold.execution_order@),
            places == Seq::new(order.len(), |i: int| order_line((i + 1) as nat, order[i])),
            views(lines@) == head + places.take(i as int),
    {
        let mut s = "  ".to_owned();
        s.append(decimal_text(i as u128 + 1).as_str());
        s.append(". ");
        s.append(scaffold.execution_order[i].as_str());
        assert(places[i as int] == LineView::Stdout(s@));
        assert((head + places.take(i as int)).push(places[i as int]) == head + places.take(i + 1));
        out(&mut lines, s);
    }
    assert(places.take(order.len() as int) == places);
    let ghost front = head + places;
    let ghost results = Seq::new(
        views(checks@).len(),
        |i: int| cell_line(scaffold@.cells[i].identity.name, views(checks@)[i]),
    );
    assert(front + results.take(0) == front);
    let mut all_passed = true;
    for i in 0..checks.len()
        invariant
            checks@.len() == scaffold.cells@.len(),
            results == Seq::new(
                views(checks@).len(),
                |i: int| cell_line(scaffold@.cells[i].identity.name, views(checks@)[i]),
            ),
            views(lines@) == front + results.take(i as int),
            all_passed == (forall|j: int|
                0 <= j < i ==> (#[trigger] views(checks@)[j]).pattern_scan.passed),
    {
        let name = scaffold.cells[i].identity.name.as_str();
        assert(views(checks@)[i as int] == checks@[i as int]@);
        assert((front + results.take(i as int)).push(results[i as int]) == front + results.take(
            i + 1,
        ));
        if !checks[i].pattern_scan.passed {
            let mut s = "❌ ".to_owned();
            s.append(name);
            s.append(": pattern scan FAILED");
            assert(results[i as int] == LineView::Stderr(s@));
            err(&mut lines, s);
            all_passed = false;
        } else {
            let mut s = "  ✓ ".to_owned();
            s.append(name);
            s.append(" (");
            s.append(write_score(checks[i].checks_passed, checks[i].checks_total).as_str());
            s.append(")");
            assert(results[i as int] == LineView::Stdout(s@));
            out(&mut lines, s);
        }
    }
    assert(results.take(checks@.len() as int) == results);
    if all_passed {
        out(
            &mut lines,
            "✓ All cells validated. Run with `openshell sandbox create` to execute.".to_owned(),
        );
    }
    CommandOutput { lines, success: all_passed }
}

fn check_all(cells: &Vec<FractalCell>) -> (r: Vec<ConstitutionalCheck>)
    ensures
        views(r@) == views(cells@).map_values(|c: CellView| check(c)),
{
    let mut checks: Vec<ConstitutionalCheck> = Vec::new();
    let ghost all = views(cells@).map_values(|c: CellView| check(c));
    for i in 0..cells.len()
        invariant
            all == views(cells@).map_values(|c: CellView| check(c)),
            views(checks@) == all.take(i as int),
    {
        let one = validate_cell(&cells[i]);
        assert(views(checks@.push(one)) == views(checks@).push(one@));
        checks.push(one);
    }
    assert(all.take(cells@.len() as int) == all);
    checks
}

/// Validates the cells of a scaffold and reports on them.
pub fn run_scaffold(scaffold: &FractalScaffold) -> (r: CommandOutput)
    ensures
        r@ == run_scaffold_view(
            scaffold@,
            scaffold@.cells.map_values(|c: CellView| check(c)),
        ),
{
    let checks = check_all(&scaffold.cells);
    assert(views(checks@).len() == checks@.len());
    report_scaffold(scaffold, &checks)
}

// Validating cells.

/// The checks of some cells, summed up. A failure is a cell that does not pass the pattern scan.
#[derive(Debug, Clone)]
pub struct ValidationSummary {
    pub cells_validated: usize,
    pub checks_total: u128,
    pub checks_passed: u128,
    pub failures: Vec<(String, ConstitutionalCheck)>,
}

#[verifier::ext_equal]
pub struct SummaryView {
    pub cells_validated: nat,
    pub checks_total: nat,
    pub checks_passed: nat,
    pub failures: Seq<(Seq<char>, CheckView)>,
}

/// What some failures stand for.
pub open spec fn failures_view(list: Seq<(String, ConstitutionalCheck)>) -> Seq<
    (Seq<char>, CheckView),
> {
    list.map_values(|f: (String, ConstitutionalCheck)| (f.0@, f.1@))
}

impl View for ValidationSummary {
    type V = SummaryView;

    open spec fn view(&self) -> SummaryView {
        SummaryView {
            cells_validated: self.cells_validated as nat,
            checks_total: self.checks_total as nat,
            checks_passed: self.checks_passed as nat,
            failures: failures_view(self.failures@),
        }
    }
}

/// How many checks there were.
pub open spec fn sum_total(checks: Seq<CheckView>) -> nat
    decreases checks.len(),
{
    if checks.len() == 0 {
        0
    } else {
        sum_total(checks.drop_last()) + checks.last().checks_total as nat
    }
}

/// How many checks passed.
pub open spec fn sum_passed(checks: Seq<CheckView>) -> nat
    decreases checks.len(),
{
    if checks.len() == 0 {
        0
    } else {
        sum_passed(checks.drop_last()) + checks.last().checks_passed as nat
    }
}

/// The cells that do not pass the pattern scan, by name, with their checks.
pub open spec fn failed(names: Seq<Seq<char>>, checks: Seq<CheckView>) -> Seq<
    (Seq<char>, CheckView),
>
    decreases checks.len(),
{
    if checks.len() == 0 {
        Seq::empty()
    } else {
        let earlier = failed(names.drop_last(), checks.drop_last());
        if checks.last().pattern_scan.passed {
            earlier
        } else {
            earlier.push((names.last(), checks.last()))
        }
    }
}

/// The checks of some cells, summed up.
pub open spec fn summary_of(names: Seq<Seq<char>>, checks: Seq<CheckView>) -> SummaryView {
    SummaryView {
        cells_validated: checks.len(),
        checks_total: sum_total(checks),
        checks_passed: sum_passed(checks),
        failures: failed(names, checks),
    }
}

proof fn lemma_sums_bounded(checks: Seq<CheckView>)
    ensures
        sum_total(checks) <= 255 * checks.len(),
        sum_passed(checks) <= 255 * checks.len(),
    decreases checks.len(),
{
    if checks.len() > 0 {
        lemma_sums_bounded(checks.drop_last());
    }
}

/// The names of some cells.
pub open spec fn cell_names(cells: Seq<CellView>) -> Seq<Seq<char>> {
    cells.map_values(|c: CellView| c.identity.name)
}

/// Sums up the checks of some cells.
pub fn summarize(cells: &Vec<FractalCell>, checks: Vec<ConstitutionalCheck>) -> (r: ValidationSummary)
    requires
        checks@.len() == cells@.len(),
    ensures
        r@ == summary_of(cell_names(views(cells@)), views(checks@)),
{
    let mut checks_total: u128 = 0;
    let mut checks_passed: u128 = 0;
    let mut failures: Vec<(String, ConstitutionalCheck)> = Vec::new();
    let ghost given = checks@;
    let ghost all = views(checks@);
    let ghost names = cell_names(views(cells@));
    let cells_validated = cells.len();
    let mut i: usize = 0;
    for one in it: checks
        invariant
            it.seq() == given,
            given.len() == cells@.len() == cells_validated,
            all == views(given),
            names == cell_names(views(cells@)),
            i == it.index(),
            checks_total == sum_total(all.take(i as int)),
            checks_passed == sum_passed(all.take(i as int)),
            failures_view(failures@) == failed(names.take(i as int), all.take(i as int)),
    {
        proof {
            lemma_sums_bounded(all.take(i as int));
            assert(all.take(i + 1).drop_last() == all.take(i as int));
            assert(names.take(i + 1).drop_last() == names.take(i as int));
            assert(all.take(i + 1).last() == one@);
            assert(names.take(i + 1).last() == cells@[i as int]@.identity.name);
        }
        checks_total = checks_total + one.checks_total as u128;
        checks_passed = checks_passed + one.checks_passed as u128;
        if !one.pattern_scan.passed {
            let failure = (cells[i].identity.name.clone(), one);
            proof {
                assert(failures_view(failures@.push(failure)) == failures_view(failures@).push(
                    (failure.0@, failure.1@),
                ));
            }
            failures.push(failure);
        }
        i = i + 1;
    }
    assert(all.take(all.len() as int) == all);
    assert(names.take(all.len() as int) == names);
    ValidationSummary { cells_validated, checks_total, checks_passed, failures }
}

/// Validates some cells and sums up their checks.
pub fn validate_cells(cells: &Vec<FractalCell>) -> (r: ValidationSummary)
    ensures
        r@ == summary_of(
            cell_names(views(cells@)),
            views(cells@).map_values(|c: CellView| check(c)),
        ),
{
    let checks = check_all(cells);
    assert(views(checks@).len() == checks@.len());
    summarize(cells, checks)
}

/// A violation in a JSON report.
pub open spec fn violation_json(v: ViolationView) -> JsonView {
    JsonView::Object(
        Map::empty().insert("pattern"@, JsonView::Text(v.pattern)).insert(
            "severity"@,
            JsonView::Text(v.severity.spec_name()),
        ).insert(
            "location"@,
            match v.location {
                Some(s) => JsonView::Text(s),
                None => JsonView::Null,
            },
        ),
    )
}

/// A failure in a JSON report.
pub open spec fn failure_json(f: (Seq<char>, CheckView)) -> JsonView {
    JsonView::Object(
        Map::empty().insert("cell"@, JsonView::Text(f.0)).insert(
            "structural_hash"@,
            JsonView::Text(f.1.structural_hash),
        ).insert(
            "violations"@,
            JsonView::Array(
                f.1.pattern_scan.violations.map_values(|v: ViolationView| violation_json(v)),
            ),
        ),
    )
}

/// A JSON report: the counts of cells, of checks and of checks passed, and the failures.
pub open spec fn summary_json(s: SummaryView) -> JsonView {
    JsonView::Object(
        Map::empty().insert(
            "cells_validated"@,
            count_json(s.cells_validated as u128),
        ).insert("checks_total"@, count_json(s.checks_total as u128)).insert(
            "checks_passed"@,
            count_json(s.checks_passed as u128),
        ).insert(
            "failures"@,
            JsonView::Array(s.failures.map_values(|f: (Seq<char>, CheckView)| failure_json(f))),
        ),
    )
}

fn add_field(entries: &mut Vec<(String, Json)>, key: &str, value: Json)
    ensures
        entries_view(final(entries)@) == entries_view(old(entries)@).insert(key@, value@),
{
    let entry = (key.to_owned(), value);
    proof {
        lemma_entries_push(entries@, entry);
    }
    entries.push(entry);
}

fn write_violation_json(v: &PatternViolation) -> (r: Json)
    ensures
        r@ == violation_json(v@),
{
    let mut entries: Vec<(String, Json)> = Vec::new();
    add_field(&mut entries, "pattern", Json::Text(v.pattern.clone()));
    add_field(&mut entries, "severity", Json::Text(v.severity.name().to_owned()));
    let location = match &v.location {
        Some(s) => Json::Text(s.clone()),
        None => Json::Null,
    };
    add_field(&mut entries, "location", location);
    Json::Object(entries)
}

fn write_failure_json(name: &String, check: &ConstitutionalCheck) -> (r: Json)
    ensures
        r@ == failure_json((name@, check@)),
{
    let violations = &check.pattern_scan.violations;
    let mut items: Vec<Json> = Vec::new();
    let ghost all = views(violations@).map_values(|v: ViolationView| violation_json(v));
    for i in 0..violations.len()
        invariant
            all == views(violations@).map_values(|v: ViolationView| violation_json(v)),
            items_view(items@) == all.take(i as int),
    {
        let item = write_violation_json(&violations[i]);
        assert(all[i as int] == item@);
        assert(items@.push(item).drop_last() == items@);
        items.push(item);
    }
    assert(all.take(violations@.len() as int) == all);
    let mut entries: Vec<(String, Json)> = Vec::new();
    add_field(&mut entries, "cell", Json::Text(name.clone()));
    add_field(&mut entries, "structural_hash", Json::Text(check.structural_hash.clone()));
    add_field(&mut entries, "violations", Json::Array(items));
    Json::Object(entries)
}

/// The JSON report of a validation.
pub fn write_summary_json(summary: &ValidationSummary) -> (r: Json)
    ensures
        r@ == summary_json(summary@),
{
    let failures = &summary.failures;
    let mut items: Vec<Json> = Vec::new();
    let ghost all = failures_view(failures@).map_values(
        |f: (Seq<char>, CheckView)| failure_json(f),
    );
    for i in 0..failures.len()
        invariant
            all == failures_view(failures@).map_values(
                |f: (Seq<char>, CheckView)| failure_json(f),
            ),
            items_view(items@) == all.take(i as int),
    {
        let item = write_failure_json(&failures[i].0, &failures[i].1);
        assert(all[i as int] == item@);
        assert(items@.push(item).drop_last() == items@);
        items.push(item);
    }
    assert(all.take(failures@.len() as int) == all);
    let mut entries: Vec<(String, Json)> = Vec::new();
    add_field(&mut entries, "cells_validated", unsigned(summary.cells_validated as u128));
    add_field(&mut entries, "checks_total", unsigned(summary.checks_total));
    add_field(&mut entries, "checks_passed", unsigned(summary.checks_passed));
    add_field(&mut entries, "failures", Json::Array(items));
    Json::Object(entries)
}

/// What a failure prints.
pub open spec fn failure_lines(f: (Seq<char>, CheckView)) -> Seq<LineView> {
    seq![
        LineView::Stderr(
            "  "@ + f.0 + ": "@ + score(f.1.checks_passed, f.1.checks_total) + " checks passed"@,
        ),
    ] + violation_lines("    "@, f.1.pattern_scan.violations)
}

/// What a validation prints as text.
pub open spec fn summary_lines(s: SummaryView) -> Seq<LineView> {
    seq![
        LineView::Stdout("Cells validated: "@ + decimal(s.cells_validated)),
        LineView::Stdout(
            "Checks: "@ + decimal(s.checks_passed) + "/"@ + decimal(s.checks_total) + " passed"@,
        ),
    ] + if s.failures.len() == 0 {
        seq![LineView::Stdout("✓ All cells pass constitutional validation."@)]
    } else {
        seq![LineView::Stderr("❌ "@ + decimal(s.failures.len()) + " cells failed:"@)]
            + s.failures.flat_map(|f: (Seq<char>, CheckView)| failure_lines(f))
    }
}

/// What a validation prints in a format: `json`, `quiet`, or else text. Reporting in JSON always
/// succeeds; the other formats fail where a cell fails.
pub open spec fn validation_view(s: SummaryView, format: Seq<char>) -> CommandView {
    if format == "json"@ {
        CommandView {
            lines: seq![LineView::Stdout(pretty_json(summary_json(s)))],
            success: true,
        }
    } else if format == "quiet"@ {
        CommandView { lines: Seq::empty(), success: s.failures.len() == 0 }
    } else {
        CommandView { lines: summary_lines(s), success: s.failures.len() == 0 }
    }
}

fn write_failure(lines: &mut Vec<OutputLine>, name: &String, check: &ConstitutionalCheck)
    ensures
        views(final(lines)@) == views(old(lines)@) + failure_lines((name@, check@)),
{
    let ghost start = views(lines@);
    let mut s = "  ".to_owned();
    s.append(name.as_str());
    s.append(": ");
    s.append(write_score(check.checks_passed, check.checks_total).as_str());
    s.append(" checks passed");
    err(lines, s);
    write_violations(lines, "    ", &check.pattern_scan.violations);
    assert(views(lines@) == start + failure_lines((name@, check@)));
}

/// Reports a validation as text.
fn report_text(summary: &ValidationSummary) -> (r: CommandOutput)
    ensures
        r@ == (CommandView {
            lines: summary_lines(summary@),
            success: summary@.failures.len() == 0,
        }),
{
    let mut lines: Vec<OutputLine> = Vec::new();
    let mut count = "Cells validated: ".to_owned();
    count.append(decimal_text(summary.cells_validated as u128).as_str());
    out(&mut lines, count);
    let mut sums = "Checks: ".to_owned();
    sums.append(decimal_text(summary.checks_passed).as_str());
    sums.append("/");
    sums.append(decimal_text(summary.checks_total).as_str());
    sums.append(" passed");
    out(&mut lines, sums);
    let ghost head = seq![LineView::Stdout(count@), LineView::Stdout(sums@)];
    assert(views(lines@) == head);
    let failures = &summary.failures;
    if failures.len() == 0 {
        out(&mut lines, "✓ All cells pass constitutional validation.".to_owned());
        return CommandOutput { lines, success: true };
    }
    let mut title = "❌ ".to_owned();
    title.append(decimal_text(failures.len() as u128).as_str());
    title.append(" cells failed:");
    err(&mut lines, title);
    let ghost front = head + seq![LineView::Stderr(title@)];
    let ghost all = failures_view(failures@);
    let ghost print = |f: (Seq<char>, CheckView)| failure_lines(f);
    proof {
        assert(all.take(0) == Seq::<(Seq<char>, CheckView)>::empty());
        assert(all.take(0).flat_map(print) == Seq::<LineView>::empty());
        assert(views(lines@) == front + all.take(0).flat_map(print));
    }
    for i in 0..failures.len()
        invariant
            all == failures_view(failures@),
            print == (|f: (Seq<char>, CheckView)| failure_lines(f)),
            views(lines@) == front + all.take(i as int).flat_map(print),
    {
        write_failure(&mut lines, &failures[i].0, &failures[i].1);
        proof {
            all.lemma_flat_map_take_append(print, i as int);
            let earlier = all.take(i as int).flat_map(print);
            assert(front + earlier + print(all[i as int]) == front + (earlier + print(
                all[i as int],
            )));
        }
    }
    assert(all.take(failures@.len() as int) == all);
    assert(front + all.flat_map(print) == head + (seq![LineView::Stderr(title@)] + all.flat_map(
        print,
    )));
    CommandOutput { lines, success: false }
}

/// Reports a validation in the given format.
pub fn report_validation(summary: &ValidationSummary, format: &str) -> (r: CommandOutput)
    ensures
        r@ == validation_view(summary@, format@),
{
    if same_text(format, "json") {
        let mut lines: Vec<OutputLine> = Vec::new();
        out(&mut lines, to_pretty(&write_summary_json(summary)));
        CommandOutput { lines, success: true }
    } else if same_text(format, "quiet") {
        CommandOutput { lines: Vec::new(), success: summary.failures.len() == 0 }
    } else {
        report_text(summary)
    }
}

// Channel policies.

/// A block of a channel report.
#[derive(Debug)]
pub enum PolicyEntry<'a> {
    Filesystem(&'a FilesystemPolicy),
    Network(&'a NetworkPolicy),
    /// A channel that is skipped, kept for the audit trail.
    Skipped { key: String, note: String },
}

#[verifier::ext_equal]
pub enum EntryView {
    Filesystem(FilesystemView),
    Network(NetworkView),
    Skipped { key: Seq<char>, note: Seq<char> },
}

impl<'a> View for PolicyEntry<'a> {
    type V = EntryView;

    open spec fn view(&self) -> EntryView {
        match self {
            PolicyEntry::Filesystem(p) => EntryView::Filesystem(p@),
            PolicyEntry::Network(p) => EntryView::Network(p@),
            PolicyEntry::Skipped { key, note } => EntryView::Skipped { key: key@, note: note@ },
        }
    }
}

/// The policy blocks of a cell.
#[derive(Debug)]
pub struct ChannelReport<'a> {
    pub fractal_cell: String,
    pub policies: Vec<PolicyEntry<'a>>,
}

/// What the network policies of a channel add to a report.
pub open spec fn network_entries(list: Seq<(Seq<char>, NetworkView)>) -> Seq<EntryView> {
    list.map_values(|e: (Seq<char>, NetworkView)| EntryView::Network(e.1))
}

/// What a mapping adds to a report: its filesystem policy, then its network policies.
pub open spec fn mapping_entries(m: MappingView) -> Seq<EntryView> {
    match m {
        MappingView::Mapped(m) => (match m.filesystem {
            Some(p) => seq![EntryView::Filesystem(p)],
            None => Seq::empty(),
        }) + network_entries(m.network_policies),
        MappingView::Skipped(s) => seq![
            EntryView::Skipped {
                key: "_skipped_"@ + s.channel_name,
                note: s.kind + " channel: "@ + s.reason,
            },
        ],
    }
}

fn add_mapping<'a>(policies: &mut Vec<PolicyEntry<'a>>, m: &'a MappingResult)
    ensures
        views(final(policies)@) == views(old(policies)@) + mapping_entries(m@),
{
    let ghost start = views(policies@);
    match m {
        MappingResult::Mapped(mapped) => {
            let ghost mut front = start;
            if let Some(p) = &mapped.filesystem {
                let entry = PolicyEntry::Filesystem(p);
                assert(views(policies@.push(entry)) == start.push(entry@));
                policies.push(entry);
                proof {
                    front = start.push(entry@);
                    assert(front == start + seq![EntryView::Filesystem(p@)]);
                }
            } else {
                assert(front == start + Seq::<EntryView>::empty());
            }
            let list = &mapped.network_policies;
            let ghost all = network_entries(mapped@.network_policies);
            assert(front + all.take(0) == front);
            for i in 0..list.len()
                invariant
                    all.len() == list@.len(),
                    forall|k: int|
                        0 <= k < list@.len() ==> #[trigger] all[k] == EntryView::Network(
                            list@[k].1@,
                        ),
                    views(policies@) == front + all.take(i as int),
            {
                let entry = PolicyEntry::Network(&list[i].1);
                proof {
                    assert(all[i as int] == entry@);
                    assert(views(policies@.push(entry)) == views(policies@).push(entry@));
                    assert((front + all.take(i as int)).push(entry@) == front + all.take(i + 1));
                }
                policies.push(entry);
            }
            assert(all.take(list@.len() as int) == all);
            assert(views(policies@) == start + mapping_entries(m@));
        },
        MappingResult::Skipped(s) => {
            let mut key = "_skipped_".to_owned();
            key.append(s.channel_name.as_str());
            let mut note = s.kind.clone();
            note.append(" channel: ");
            note.append(s.reason.as_str());
            let entry = PolicyEntry::Skipped { key, note };
            assert(views(policies@.push(entry)) == start + seq![entry@]);
            policies.push(entry);
        },
    }
}

/// The report on the channels of a cell.
pub fn format_channel_results<'a>(cell_name: &str, results: &'a Vec<MappingResult>) -> (r:
    ChannelReport<'a>)
    ensures
        r.fractal_cell@ == cell_name@,
        views(r.policies@) == views(results@).flat_map(|m: MappingView| mapping_entries(m)),
{
    let mut policies: Vec<PolicyEntry<'a>> = Vec::new();
    let ghost all = views(results@);
    let ghost expand = |m: MappingView| mapping_entries(m);
    proof {
        assert(all.take(0) == Seq::<MappingView>::empty());
        assert(all.take(0).flat_map(expand) == Seq::<EntryView>::empty());
        assert(views(policies@) == Seq::<EntryView>::empty());
    }
    for i in 0..results.len()
        invariant
            all == views(results@),
            expand == (|m: MappingView| mapping_entries(m)),
            views(policies@) == all.take(i as int).flat_map(expand),
    {
        proof {
            all.lemma_flat_map_take_append(expand, i as int);
        }
        add_mapping(&mut policies, &results[i]);
    }
    assert(all.take(results@.len() as int) == all);
    ChannelReport { fractal_cell: cell_name.to_owned(), policies }
}

/// The note on a channel that is skipped.
pub open spec fn skip_note(m: MappingView) -> Option<Seq<char>> {
    match m {
        MappingView::Mapped(_) => None,
        MappingView::Skipped(s) => Some(
            "Note: "@ + s.channel_name + " ("@ + s.kind + "): "@ + s.reason,
        ),
    }
}

/// The notes on the channels that are skipped.
pub fn skip_notes(results: &Vec<MappingResult>) -> (r: Vec<String>)
    ensures
        texts(r@) == views(results@).filter_map(|m: MappingView| skip_note(m)),
{
    let mut notes: Vec<String> = Vec::new();
    let ghost all = views(results@);
    let ghost pick = |m: MappingView| skip_note(m);
    proof {
        assert(all.take(0).filter_map(pick) == Seq::<Seq<char>>::empty()) by {
            reveal(Seq::filter_map);
        }
    }
    for i in 0..results.len()
        invariant
            all == views(results@),
            pick == (|m: MappingView| skip_note(m)),
            texts(notes@) == all.take(i as int).filter_map(pick),
    {
        proof {
            all.lemma_filter_map_take_succ(pick, i as int);
            assert(pick(all[i as int]) == skip_note(results@[i as int]@));
        }
        let ghost before = texts(notes@);
        match &results[i] {
            MappingResult::Skipped(s) => {
                let mut note = "Note: ".to_owned();
                note.append(s.channel_name.as_str());
                note.append(" (");
                note.append(s.kind.as_str());
                note.append("): ");
                note.append(s.reason.as_str());
                assert(texts(notes@.push(note)) == before.push(note@));
                assert(before + seq![note@] == before.push(note@));
                notes.push(note);
            },
            MappingResult::Mapped(_) => {
                assert(before + Seq::<Seq<char>>::empty() == before);
            },
        }
    }
    assert(all.take(results@.len() as int) == all);
    notes
}

} // verus!
