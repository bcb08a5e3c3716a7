//! What holds of the reports on cells, scaffolds, validations and channels.

use crate::channel_mapper::{mapping, MappingView};
use crate::json::JsonView;
use crate::json_text::{count_json, json_number, pretty_json};
use crate::policy::{FilesystemPolicy, NetworkPolicy};
use crate::report::{
    cell_names, channel_mappings, failed, failure_json, failure_lines, mapping_entries,
    run_cell_view, run_scaffold_view, skip_note, sum_passed, sum_total, summary_json, summary_lines,
    summary_of, validation_view, violation_json, CommandOutput, EntryView, LineView, OutputLine,
    PolicyEntry, SummaryView, ValidationSummary,
};
use crate::schema::{CellView, CheckView, ScaffoldView, ViolationView};
use crate::text::decimal;
use vstd::prelude::*;

verus! {

// Running a cell.

/// How many of how many checks passed.
pub open spec fn passed_of(c: CheckView) -> Seq<char> {
    decimal(c.checks_passed as nat) + "/"@ + decimal(c.checks_total as nat)
}

/// The report on a cell names it, its type and its score. It succeeds exactly where the pattern scan passes:
/// then it has one line for each channel and a closing line, and else one line for each violation, on
/// standard error.
pub proof fn law_report_on_a_cell(
    cell: CellView,
    c: CheckView,
    channels: Seq<MappingView>,
    i: int,
)
    ensures
        ({
            let r = run_cell_view(cell, c, channels);
            let n = r.lines.len();
            &&& r.success == c.pattern_scan.passed
            &&& r.lines[0] == LineView::Stdout(
                "Cell: "@ + cell.identity.name + " v"@ + cell.identity.version,
            )
            &&& r.lines[1] == LineView::Stdout("Type: "@ + cell.identity.cell_type.spec_name())
            &&& r.lines[2] == LineView::Stdout(
                "Constitution: "@ + passed_of(c) + " checks passed"@,
            )
            &&& c.pattern_scan.passed ==> {
                &&& n == 4 + channels.len()
                &&& r.lines[n - 1] == LineView::Stdout(
                    "✓ Cell validated. Run with `openshell sandbox create` to execute."@,
                )
                &&& 0 <= i < channels.len() ==> r.lines[3 + i] == LineView::Stdout(
                    match channels[i] {
                        MappingView::Mapped(m) => "  Channel: "@ + m.channel_name + " → "@ + decimal(
                            m.network_policies.len(),
                        ) + " network policies, "@ + (if m.filesystem is Some {
                            "1"@
                        } else {
                            "0"@
                        }) + " fs policies"@,
                        MappingView::Skipped(s) => "  Channel: "@ + s.channel_name + " (skipped: "@
                            + s.reason + ")"@,
                    },
                )
            }
            &&& !c.pattern_scan.passed ==> {
                &&& n == 4 + c.pattern_scan.violations.len()
                &&& r.lines[3] == LineView::Stderr("❌ Pattern scan FAILED:"@)
                &&& 0 <= i < c.pattern_scan.violations.len() ==> r.lines[4 + i] == LineView::Stderr(
                    "  "@ + "- "@ + c.pattern_scan.violations[i].pattern + " ("@
                        + c.pattern_scan.violations[i].severity.spec_name() + ")"@,
                )
            }
        }),
{
}

/// The channels of a cell are mapped one by one, in order.
pub proof fn law_channels_of_a_reported_cell(cell: CellView, i: int)
    ensures
        channel_mappings(cell).len() == cell.channels.len(),
        0 <= i < cell.channels.len() ==> channel_mappings(cell)[i] == mapping(cell.channels[i]),
{
}

// Running a scaffold.

/// Running a scaffold succeeds exactly where the pattern scan of every one of its cells passes, and the
/// closing line is printed exactly then: one cell that fails is enough, wherever it stands.
pub proof fn law_scaffold_succeeds_iff_every_cell_passes(
    scaffold: ScaffoldView,
    checks: Seq<CheckView>,
)
    requires
        checks.len() == scaffold.cells.len(),
    ensures
        ({
            let r = run_scaffold_view(scaffold, checks);
            let closing = LineView::Stdout(
                "✓ All cells validated. Run with `openshell sandbox create` to execute."@,
            );
            let before = 1 + scaffold.execution_order.len() + checks.len();
            &&& (forall|i: int| 0 <= i < checks.len() ==> (#[trigger] checks[i]).pattern_scan.passed)
                ==> r.success && r.lines.len() == before + 1 && r.lines.last() == closing
            &&& (exists|i: int| 0 <= i < checks.len() && !(#[trigger] checks[i]).pattern_scan.passed)
                ==> !r.success && r.lines.len() == before
        }),
{
}

/// The report on a scaffold gives its name and size, then its execution order, counted from one, and then
/// one line for each cell: its score, or that its scan failed, on standard error.
pub proof fn law_report_on_a_scaffold(scaffold: ScaffoldView, checks: Seq<CheckView>, i: int)
    requires
        checks.len() == scaffold.cells.len(),
    ensures
        ({
            let lines = run_scaffold_view(scaffold, checks).lines;
            let order = scaffold.execution_order;
            &&& lines[0] == LineView::Stdout(
                "Scaffold: "@ + scaffold.name + " ("@ + decimal(scaffold.cells.len()) + " cells)"@,
            )
            &&& 0 <= i < order.len() ==> lines[1 + i] == LineView::Stdout(
                "  "@ + decimal((i + 1) as nat) + ". "@ + order[i],
            )
            &&& 0 <= i < checks.len() ==> lines[1 + order.len() + i] == (
            if checks[i].pattern_scan.passed {
                LineView::Stdout(
                    "  ✓ "@ + scaffold.cells[i].identity.name + " ("@ + passed_of(checks[i]) + ")"@,
                )
            } else {
                LineView::Stderr(
                    "❌ "@ + scaffold.cells[i].identity.name + ": pattern scan FAILED"@,
                )
            })
        }),
{
}

// Validating cells.

/// The failures of a validation are the cells that do not pass the pattern scan, all of them and no others,
/// each under its own name and with its own check, in the order of the cells.
pub proof fn law_failures_are_the_cells_that_fail(names: Seq<Seq<char>>, checks: Seq<CheckView>)
    requires
        names.len() == checks.len(),
    ensures
        failed(names, checks) == Seq::new(
            checks.len(),
            |i: int| (names[i], checks[i]),
        ).filter(|f: (Seq<char>, CheckView)| !f.1.pattern_scan.passed),
    decreases checks.len(),
{
    let fails = |f: (Seq<char>, CheckView)| !f.1.pattern_scan.passed;
    let all = Seq::new(checks.len(), |i: int| (names[i], checks[i]));
    reveal(Seq::filter);
    if checks.len() > 0 {
        let (n, c) = (names.drop_last(), checks.drop_last());
        law_failures_are_the_cells_that_fail(n, c);
        assert(all.drop_last() =~= Seq::new(c.len(), |i: int| (n[i], c[i])));
        assert(all.last() == (names.last(), checks.last()));
        assert(failed(names, checks) =~= all.filter(fails));
    } else {
        assert(failed(names, checks) =~= all.filter(fails));
    }
}

/// Every cell that does not pass the pattern scan is among the failures, and there are as many failures as
/// such cells.
pub proof fn law_every_failing_cell_is_a_failure(
    names: Seq<Seq<char>>,
    checks: Seq<CheckView>,
    name: Seq<char>,
    c: CheckView,
)
    requires
        names.len() == checks.len(),
    ensures
        forall|i: int|
            0 <= i < checks.len() && !(#[trigger] checks[i]).pattern_scan.passed ==> failed(
                names,
                checks,
            ).contains((names[i], checks[i])),
        failed(names.push(name), checks.push(c)).len() == failed(names, checks).len() + (
        if c.pattern_scan.passed {
            0int
        } else {
            1int
        }),
        failed(Seq::empty(), Seq::empty()).len() == 0,
{
    let fails = |f: (Seq<char>, CheckView)| !f.1.pattern_scan.passed;
    let all = Seq::new(checks.len(), |i: int| (names[i], checks[i]));
    law_failures_are_the_cells_that_fail(names, checks);
    assert forall|i: int|
        0 <= i < checks.len() && !(#[trigger] checks[i]).pattern_scan.passed implies failed(
        names,
        checks,
    ).contains((names[i], checks[i])) by {
        all.lemma_filter_contains(fails, i);
    }
    assert(names.push(name).drop_last() =~= names);
    assert(checks.push(c).drop_last() =~= checks);
}

/// The sums of a validation: those of two lists of checks add up, and one check adds its own numbers.
pub proof fn law_sums_add_up(a: Seq<CheckView>, b: Seq<CheckView>, c: CheckView)
    ensures
        sum_total(Seq::empty()) == 0,
        sum_passed(Seq::empty()) == 0,
        sum_total(seq![c]) == c.checks_total,
        sum_passed(seq![c]) == c.checks_passed,
        sum_total(a + b) == sum_total(a) + sum_total(b),
        sum_passed(a + b) == sum_passed(a) + sum_passed(b),
    decreases b.len(),
{
    assert(seq![c].drop_last() =~= Seq::empty());
    reveal_with_fuel(sum_total, 2);
    reveal_with_fuel(sum_passed, 2);
    if b.len() == 0 {
        assert(a + b =~= a);
    } else {
        law_sums_add_up(a, b.drop_last(), c);
        assert((a + b).drop_last() =~= a + b.drop_last());
        assert((a + b).last() == b.last());
    }
}

/// The summary of a validation counts the cells, sums up their checks and lists the failures. The names are
/// those of the cells.
pub proof fn law_summary(names: Seq<Seq<char>>, checks: Seq<CheckView>, cells: Seq<CellView>, i: int)
    ensures
        summary_of(names, checks).cells_validated == checks.len(),
        summary_of(names, checks).checks_total == sum_total(checks),
        summary_of(names, checks).checks_passed == sum_passed(checks),
        summary_of(names, checks).failures == failed(names, checks),
        cell_names(cells).len() == cells.len(),
        0 <= i < cells.len() ==> cell_names(cells)[i] == cells[i].identity.name,
{
}

/// The text of a validation: the number of cells, the sums of their checks, and that all cells pass, or
/// else how many fail, on standard error, and then the failures.
pub proof fn law_text_of_a_validation(s: SummaryView)
    ensures
        ({
            let lines = summary_lines(s);
            &&& lines[0] == LineView::Stdout("Cells validated: "@ + decimal(s.cells_validated))
            &&& lines[1] == LineView::Stdout(
                "Checks: "@ + decimal(s.checks_passed) + "/"@ + decimal(s.checks_total)
                    + " passed"@,
            )
            &&& s.failures.len() == 0 ==> lines.len() == 3 && lines[2] == LineView::Stdout(
                "✓ All cells pass constitutional validation."@,
            )
            &&& s.failures.len() > 0 ==> lines[2] == LineView::Stderr(
                "❌ "@ + decimal(s.failures.len()) + " cells failed:"@,
            ) && lines.skip(3) == s.failures.flat_map(
                |f: (Seq<char>, CheckView)| failure_lines(f),
            )
        }),
{
    if s.failures.len() > 0 {
        assert(summary_lines(s).skip(3) =~= s.failures.flat_map(
            |f: (Seq<char>, CheckView)| failure_lines(f),
        ));
    }
}

/// The text of a failure: the name and score of the cell, and one line for each violation, on standard
/// error.
pub proof fn law_text_of_a_failure(name: Seq<char>, c: CheckView, i: int)
    ensures
        ({
            let lines = failure_lines((name, c));
            let violations = c.pattern_scan.violations;
            &&& lines.len() == 1 + violations.len()
            &&& lines[0] == LineView::Stderr(
                "  "@ + name + ": "@ + passed_of(c) + " checks passed"@,
            )
            &&& 0 <= i < violations.len() ==> lines[1 + i] == LineView::Stderr(
                "    "@ + "- "@ + violations[i].pattern + " ("@ + violations[i].severity.spec_name()
                    + ")"@,
            )
        }),
{
}

/// A validation succeeds in text and in quiet exactly where no cell fails, and always in JSON. In quiet it
/// prints nothing, in JSON one document, and else its text.
pub proof fn law_formats_of_a_validation(s: SummaryView, format: Seq<char>)
    ensures
        format == "json"@ ==> validation_view(s, format).success && validation_view(s, format).lines
            == seq![LineView::Stdout(pretty_json(summary_json(s)))],
        format == "quiet"@ ==> validation_view(s, format).lines.len() == 0,
        format != "json"@ && format != "quiet"@ ==> validation_view(s, format).lines
            == summary_lines(s),
        format != "json"@ ==> (validation_view(s, format).success <==> s.failures.len() == 0),
{
    reveal_strlit("json");
    reveal_strlit("quiet");
    assert("json"@.len() == 4 && "quiet"@.len() == 5);
}

/// The JSON document of a validation has the three counts and the failures, and nothing else.
pub proof fn law_document_of_a_validation(s: SummaryView, key: Seq<char>, i: int)
    ensures
        summary_json(s) is Object,
        summary_json(s).field("cells_validated"@) == Some(count_json(s.cells_validated as u128)),
        summary_json(s).field("checks_total"@) == Some(count_json(s.checks_total as u128)),
        summary_json(s).field("checks_passed"@) == Some(count_json(s.checks_passed as u128)),
        summary_json(s).field("failures"@) matches Some(JsonView::Array(list)) && list.len()
            == s.failures.len() && (0 <= i < list.len() ==> list[i] == failure_json(s.failures[i])),
        summary_json(s).field(key) is Some ==> key == "cells_validated"@ || key == "checks_total"@
            || key == "checks_passed"@ || key == "failures"@,
{
    reveal_strlit("cells_validated");
    reveal_strlit("checks_total");
    reveal_strlit("checks_passed");
    reveal_strlit("failures");
    assert("cells_validated"@.len() == 15 && "checks_total"@.len() == 12);
    assert("checks_passed"@.len() == 13 && "failures"@.len() == 8);
}

/// The JSON document of a failure has the name of the cell, its signature and its violations, each with its
/// pattern, severity and location, and nothing else.
pub proof fn law_document_of_a_failure(
    name: Seq<char>,
    c: CheckView,
    v: ViolationView,
    key: Seq<char>,
    i: int,
)
    ensures
        ({
            let f = failure_json((name, c));
            let violations = c.pattern_scan.violations;
            &&& f.field("cell"@) == Some(JsonView::Text(name))
            &&& f.field("structural_hash"@) == Some(JsonView::Text(c.structural_hash))
            &&& f.field("violations"@) matches Some(JsonView::Array(list)) && list.len()
                == violations.len() && (0 <= i < list.len() ==> list[i] == violation_json(
                violations[i],
            ))
            &&& f.field(key) is Some ==> key == "cell"@ || key == "structural_hash"@ || key
                == "violations"@
        }),
        violation_json(v).field("pattern"@) == Some(JsonView::Text(v.pattern)),
        violation_json(v).field("severity"@) == Some(JsonView::Text(v.severity.spec_name())),
        violation_json(v).field("location"@) == Some(
            match v.location {
                Some(at) => JsonView::Text(at),
                None => JsonView::Null,
            },
        ),
        violation_json(v).field(key) is Some ==> key == "pattern"@ || key == "severity"@ || key
            == "location"@,
{
    reveal_strlit("cell");
    reveal_strlit("structural_hash");
    reveal_strlit("violations");
    reveal_strlit("pattern");
    reveal_strlit("severity");
    reveal_strlit("location");
    assert("cell"@.len() == 4 && "structural_hash"@.len() == 15 && "violations"@.len() == 10);
    assert("pattern"@.len() == 7 && "severity"@[0] == 's' && "location"@[0] == 'l');
    assert("severity"@.len() == 8 && "location"@.len() == 8);
}

/// A count is the JSON number for it; it is null only where there is none.
pub proof fn law_counts_are_numbers(n: u128)
    ensures
        match json_number(n) {
            Some(number) => count_json(n) == JsonView::Number(number),
            None => count_json(n) == JsonView::Null,
        },
{
}

// Channel policies.

/// A mapped channel adds its filesystem policy, if it has one, and then its network policies in order; a
/// skipped one adds a note on why it is skipped.
pub proof fn law_entries_of_a_mapping(m: MappingView, i: int)
    ensures
        match m {
            MappingView::Mapped(m) => {
                let list = mapping_entries(MappingView::Mapped(m));
                let before = if m.filesystem is Some {
                    1int
                } else {
                    0int
                };
                &&& list.len() == before + m.network_policies.len()
                &&& m.filesystem matches Some(p) ==> list[0] == EntryView::Filesystem(p)
                &&& 0 <= i < m.network_policies.len() ==> list[before + i] == EntryView::Network(
                    m.network_policies[i].1,
                )
            },
            MappingView::Skipped(s) => mapping_entries(MappingView::Skipped(s)) == seq![
                EntryView::Skipped {
                    key: "_skipped_"@ + s.channel_name,
                    note: s.kind + " channel: "@ + s.reason,
                },
            ],
        },
        match m {
            MappingView::Mapped(_) => skip_note(m) is None,
            MappingView::Skipped(s) => skip_note(m) == Some(
                "Note: "@ + s.channel_name + " ("@ + s.kind + "): "@ + s.reason,
            ),
        },
{
}

// What the types stand for.

/// Lines, outputs, summaries and entries stand for what they hold.
pub proof fn law_report_views(
    s: String,
    note: String,
    output: CommandOutput,
    summary: ValidationSummary,
    fs: FilesystemPolicy,
    policy: NetworkPolicy,
    i: int,
)
    ensures
        OutputLine::Stdout(s)@ == LineView::Stdout(s@),
        OutputLine::Stderr(s)@ == LineView::Stderr(s@),
        output@.success == output.success,
        output@.lines.len() == output.lines@.len(),
        0 <= i < output.lines@.len() ==> output@.lines[i] == output.lines@[i]@,
        summary@.cells_validated == summary.cells_validated,
        summary@.checks_total == summary.checks_total,
        summary@.checks_passed == summary.checks_passed,
        summary@.failures.len() == summary.failures@.len(),
        0 <= i < summary.failures@.len() ==> summary@.failures[i] == (
            summary.failures@[i].0@,
            summary.failures@[i].1@,
        ),
        PolicyEntry::Filesystem(&fs)@ == EntryView::Filesystem(fs@),
        PolicyEntry::Network(&policy)@ == EntryView::Network(policy@),
        (PolicyEntry::Skipped { key: s, note })@ == (EntryView::Skipped { key: s@, note: note@ }),
{
}

} // verus!
