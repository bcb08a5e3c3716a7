//! Fractal cell runner: executes Fractal cells inside OpenShell sandboxes.
//!
//! Each cell gets its own sandbox instance with policy derived from the cell's channel declarations.
//! Cells in a scaffold execute in topological order, with outputs threaded as inputs to downstream
//! cells.
//!
//! The runner supports pause checkpoints for human-in-the-loop review (e.g., declassifier approval
//! gates).

use crate::channel_mapper::{map_all, mapping, MappingResult, MappingView};
use crate::classification::{covers, highest, highest_level};
use crate::constitution::{any_severity, check, has_severity, shows_banned_text, validate_cell};
use crate::json::{Json, JsonView};
use crate::sandbox::{
    create_sandbox_for_cell, lemma_sandbox_is_not_wired, run_cell_in_sandbox, sandbox_not_wired,
    sandbox_run,
};
use crate::schema::{
    views, CellOutput, CellView, ChannelView, CheckView, ClassificationLevel, ConstitutionalCheck,
    FractalCell, OutputView, PatternViolation, ViolationSeverity, ViolationView,
};
use crate::text::{decimal, decimal_text, join, joined, texts};
use vstd::prelude::*;

verus! {

/// Error types for cell execution.
#[derive(Debug)]
pub enum CellError {
    ConstitutionalViolation(String),
    SandboxError(String),
    Timeout(u32),
    ChannelError(String),
    ClassificationMismatch { input: ClassificationLevel, output: ClassificationLevel },
    Paused(String),
    /// What an I/O error says of itself.
    Io(String),
    Other(String),
}

#[verifier::ext_equal]
pub enum ErrorView {
    ConstitutionalViolation(Seq<char>),
    SandboxError(Seq<char>),
    Timeout(u32),
    ChannelError(Seq<char>),
    ClassificationMismatch { input: ClassificationLevel, output: ClassificationLevel },
    Paused(Seq<char>),
    Io(Seq<char>),
    Other(Seq<char>),
}

impl View for CellError {
    type V = ErrorView;

    open spec fn view(&self) -> ErrorView {
        match self {
            CellError::ConstitutionalViolation(s) => ErrorView::ConstitutionalViolation(s@),
            CellError::SandboxError(s) => ErrorView::SandboxError(s@),
            CellError::Timeout(secs) => ErrorView::Timeout(*secs),
            CellError::ChannelError(s) => ErrorView::ChannelError(s@),
            CellError::ClassificationMismatch { input, output } => {
                ErrorView::ClassificationMismatch { input: *input, output: *output }
            },
            CellError::Paused(s) => ErrorView::Paused(s@),
            CellError::Io(s) => ErrorView::Io(s@),
            CellError::Other(s) => ErrorView::Other(s@),
        }
    }
}

impl ErrorView {
    /// The message of an error.
    pub open spec fn message(self) -> Seq<char> {
        match self {
            ErrorView::ConstitutionalViolation(s) => "Constitutional violation: "@ + s,
            ErrorView::SandboxError(s) => "Sandbox error: "@ + s,
            ErrorView::Timeout(secs) => "Cell timed out after "@ + decimal(secs as nat) + "s"@,
            ErrorView::ChannelError(s) => "Channel error: "@ + s,
            ErrorView::ClassificationMismatch { input, output } => {
                "Classification mismatch: output "@ + output.spec_name() + " must dominate input "@
                    + input.spec_name()
            },
            ErrorView::Paused(s) => "Pipeline paused at checkpoint: "@ + s,
            ErrorView::Io(s) => s,
            ErrorView::Other(s) => s,
        }
    }
}

fn prefixed(prefix: &str, s: &str) -> (r: String)
    ensures
        r@ == prefix@ + s@,
{
    let mut out = prefix.to_owned();
    out.append(s);
    out
}

impl CellError {
    /// The message of the error.
    pub fn message(&self) -> (r: String)
        ensures
            r@ == self@.message(),
    {
        match self {
            CellError::ConstitutionalViolation(s) => prefixed(
                "Constitutional violation: ",
                s.as_str(),
            ),
            CellError::SandboxError(s) => prefixed("Sandbox error: ", s.as_str()),
            CellError::Timeout(secs) => {
                let mut out = prefixed(
                    "Cell timed out after ",
                    decimal_text(*secs as u128).as_str(),
                );
                out.append("s");
                out
            },
            CellError::ChannelError(s) => prefixed("Channel error: ", s.as_str()),
            CellError::ClassificationMismatch { input, output } => {
                let mut out = prefixed("Classification mismatch: output ", output.name());
                out.append(" must dominate input ");
                out.append(input.name());
                out
            },
            CellError::Paused(s) => prefixed("Pipeline paused at checkpoint: ", s.as_str()),
            CellError::Io(s) => s.clone(),
            CellError::Other(s) => s.clone(),
        }
    }
}

/// What the result of executing a cell stands for.
pub open spec fn outcome_view(r: Result<CellOutput, CellError>) -> Result<OutputView, ErrorView> {
    match r {
        Ok(output) => Ok(output@),
        Err(e) => Err(e@),
    }
}

/// What the result of providing a sandbox stands for.
pub open spec fn sandbox_view(r: Result<(), CellError>) -> Result<(), ErrorView> {
    match r {
        Ok(_) => Ok(()),
        Err(e) => Err(e@),
    }
}

// Constitutional validation.

/// How a violation is named to the caller: the pattern and where it stands.
pub open spec fn violation_note(v: ViolationView) -> Seq<char> {
    v.pattern + " ("@ + match v.location {
        Some(location) => location,
        None => "unknown"@,
    } + ")"@
}

/// The violations that block, named.
pub open spec fn block_notes(violations: Seq<ViolationView>) -> Seq<Seq<char>> {
    violations.filter(|v: ViolationView| v.severity == ViolationSeverity::Block).map_values(
        |v: ViolationView| violation_note(v),
    )
}

/// Tells whether a human has approved a cell as a declassifier.
pub open spec fn approved(check: CheckView) -> bool {
    check.declassifier_approved == Some(true)
}

/// How many failed checks do not count against a cell: logging hygiene, since warnings do not block, and
/// taint inheritance for an approved declassifier.
pub open spec fn excused(check: CheckView) -> int {
    (if has_severity(check.pattern_scan.violations, ViolationSeverity::Warn) {
        1int
    } else {
        0int
    }) + (if approved(check) && !check.classification_valid {
        1int
    } else {
        0int
    })
}

/// A cell is admitted if it passes the pattern scan, and every other check but those that are excused.
pub open spec fn admitted(check: CheckView) -> bool {
    check.pattern_scan.passed && check.checks_passed + excused(check) >= check.checks_total
}

/// Why a cell that is not admitted is refused.
pub open spec fn refusal(cell: CellView, check: CheckView) -> ErrorView {
    ErrorView::ConstitutionalViolation(
        "Cell '"@ + cell.identity.name + "' failed constitutional checks: "@ + joined(
            block_notes(check.pattern_scan.violations),
            ", "@,
        ) + ". Checks passed: "@ + decimal(check.checks_passed as nat) + "/"@ + decimal(
            check.checks_total as nat,
        ) + "."@,
    )
}

fn note_blocks(violations: &Vec<PatternViolation>) -> (r: Vec<String>)
    ensures
        texts(r@) == block_notes(views(violations@)),
{
    let mut out: Vec<String> = Vec::new();
    let ghost all = views(violations@);
    let ghost blocks = |v: ViolationView| v.severity == ViolationSeverity::Block;
    proof {
        assert(all.take(0).filter(blocks) == Seq::<ViolationView>::empty()) by {
            reveal(Seq::filter);
        }
        assert(texts(out@) == block_notes(all.take(0)));
    }
    for i in 0..violations.len()
        invariant
            all == views(violations@),
            blocks == (|v: ViolationView| v.severity == ViolationSeverity::Block),
            texts(out@) == block_notes(all.take(i as int)),
    {
        let ghost v = all[i as int];
        let ghost earlier = all.take(i as int).filter(blocks);
        proof {
            assert(all.take(i + 1).filter(blocks) == if blocks(v) {
                earlier.push(v)
            } else {
                earlier
            }) by {
                reveal(Seq::filter);
                assert(all.take(i + 1).drop_last() == all.take(i as int));
            }
        }
        if violations[i].severity == ViolationSeverity::Block {
            let mut note = violations[i].pattern.clone();
            note.append(" (");
            match &violations[i].location {
                Some(location) => {
                    note.append(location.as_str());
                },
                None => {
                    note.append("unknown");
                },
            }
            note.append(")");
            proof {
                assert(note@ == violation_note(v));
                assert(texts(out@.push(note)) == texts(out@).push(note@));
                assert(block_notes(all.take(i + 1)) == block_notes(all.take(i as int)).push(note@));
            }
            out.push(note);
        } else {
            assert(block_notes(all.take(i + 1)) == block_notes(all.take(i as int)));
        }
    }
    assert(all.take(violations@.len() as int) == all);
    out
}

fn is_approved(check: &ConstitutionalCheck) -> (r: bool)
    ensures
        r == approved(check@),
{
    match check.declassifier_approved {
        Some(decision) => decision,
        None => false,
    }
}

/// Refuses a cell that does not pass the checks it has to.
pub fn gate_cell(cell: &FractalCell, check: &ConstitutionalCheck) -> (r: Result<(), CellError>)
    ensures
        sandbox_view(r) == if admitted(check@) {
            Ok::<(), ErrorView>(())
        } else {
            Err::<(), ErrorView>(refusal(cell@, check@))
        },
{
    let warned: u16 = if any_severity(&check.pattern_scan.violations, ViolationSeverity::Warn) {
        1
    } else {
        0
    };
    let declassified: u16 = if is_approved(check) && !check.classification_valid {
        1
    } else {
        0
    };
    if check.pattern_scan.passed && check.checks_passed as u16 + warned + declassified
        >= check.checks_total as u16 {
        return Ok(());
    }
    let blocks = note_blocks(&check.pattern_scan.violations);
    let mut message = "Cell '".to_owned();
    message.append(cell.identity.name.as_str());
    message.append("' failed constitutional checks: ");
    message.append(join(&blocks, ", ").as_str());
    message.append(". Checks passed: ");
    message.append(decimal_text(check.checks_passed as u128).as_str());
    message.append("/");
    message.append(decimal_text(check.checks_total as u128).as_str());
    message.append(".");
    Err(CellError::ConstitutionalViolation(message))
}

// Channel to policy mapping.

/// The anomalies of a mapping.
pub open spec fn anomalies_of(m: MappingView) -> Seq<Seq<char>> {
    match m {
        MappingView::Mapped(mapped) => mapped.anomalies,
        MappingView::Skipped(_) => Seq::empty(),
    }
}

/// The anomalies of the channels that are mapped.
pub fn policy_anomalies(results: &Vec<MappingResult>) -> (r: Vec<String>)
    ensures
        texts(r@) == views(results@).flat_map(|m: MappingView| anomalies_of(m)),
{
    let mut out: Vec<String> = Vec::new();
    let ghost all = views(results@);
    let ghost pick = |m: MappingView| anomalies_of(m);
    proof {
        assert(all.take(0) == Seq::<MappingView>::empty());
        assert(all.take(0).flat_map(pick) == Seq::<Seq<char>>::empty());
        assert(texts(out@) == Seq::<Seq<char>>::empty());
    }
    for i in 0..results.len()
        invariant
            all == views(results@),
            pick == (|m: MappingView| anomalies_of(m)),
            texts(out@) == all.take(i as int).flat_map(pick),
    {
        proof {
            all.lemma_flat_map_take_append(pick, i as int);
        }
        let ghost start = texts(out@);
        match &results[i] {
            MappingResult::Mapped(m) => {
                let ghost more = texts(m.anomalies@);
                assert(start + more.take(0) == start);
                for j in 0..m.anomalies.len()
                    invariant
                        more == texts(m.anomalies@),
                        texts(out@) == start + more.take(j as int),
                {
                    let one = m.anomalies[j].clone();
                    proof {
                        assert(texts(out@.push(one)) == texts(out@).push(one@));
                        assert((start + more.take(j as int)).push(one@) == start + more.take(
                            j + 1,
                        ));
                    }
                    out.push(one);
                }
                assert(more.take(m.anomalies@.len() as int) == more);
            },
            MappingResult::Skipped(_) => {
                assert(start + Seq::<Seq<char>>::empty() == start);
            },
        }
    }
    assert(all.take(results@.len() as int) == all);
    out
}

/// What a cell is run under: its check, the mapping of its channels and the anomalies of the mapping.
#[derive(Debug)]
pub struct CellPlan {
    pub check: ConstitutionalCheck,
    pub channels: Vec<MappingResult>,
    pub anomalies: Vec<String>,
}

#[verifier::ext_equal]
pub struct PlanView {
    pub check: CheckView,
    pub channels: Seq<MappingView>,
    pub anomalies: Seq<Seq<char>>,
}

impl View for CellPlan {
    type V = PlanView;

    open spec fn view(&self) -> PlanView {
        PlanView {
            check: self.check@,
            channels: views(self.channels@),
            anomalies: texts(self.anomalies@),
        }
    }
}

/// The plan of a cell: its channels are mapped in order, and the anomalies of the mapping are collected.
pub open spec fn plan_of(cell: CellView, check: CheckView) -> PlanView {
    let channels = cell.channels.map_values(|c: ChannelView| mapping(c));
    PlanView {
        check,
        channels,
        anomalies: channels.flat_map(|m: MappingView| anomalies_of(m)),
    }
}

/// Prepares a cell whose check is given: refuses it, or maps its channels.
pub fn plan_cell(cell: &FractalCell, check: ConstitutionalCheck) -> (r: Result<CellPlan, CellError>)
    ensures
        match r {
            Ok(plan) => admitted(check@) && plan@ == plan_of(cell@, check@),
            Err(e) => !admitted(check@) && e@ == refusal(cell@, check@),
        },
{
    match gate_cell(cell, &check) {
        Err(e) => Err(e),
        Ok(_) => {
            let channels = map_all(cell.channels.as_slice());
            let anomalies = policy_anomalies(&channels);
            Ok(CellPlan { check, channels, anomalies })
        },
    }
}

// Execution.

/// Runs a cell in a sandbox of its own, under the policies of its plan.
fn run_planned(cell: &FractalCell, plan: &CellPlan, input: &Json) -> (r: Result<
    CellOutput,
    CellError,
>)
    requires
        plan@ == plan_of(cell@, plan@.check),
        admitted(plan@.check),
    ensures
        outcome_view(r) == sandbox_run(cell@, plan@, input@),
{
    match create_sandbox_for_cell(cell, plan) {
        Err(e) => Err(e),
        Ok(_) => run_cell_in_sandbox(cell, input),
    }
}

/// What a run of a cell comes to. An output that is less sensitive than the input of the cell is a
/// mismatch, unless the cell is an approved declassifier.
pub open spec fn concluded(
    cell: CellView,
    check: CheckView,
    run: Result<OutputView, ErrorView>,
) -> Result<OutputView, ErrorView> {
    match run {
        Err(e) => Err(e),
        Ok(output) => if approved(check) || covers(output.classification, cell.contract.input) {
            Ok(output)
        } else {
            Err(
                ErrorView::ClassificationMismatch {
                    input: highest(cell.contract.input)->0,
                    output: output.classification,
                },
            )
        },
    }
}

/// Holds the level of an output against the highest level of the input of its cell.
fn verify_classification(cell: &FractalCell, output: &CellOutput) -> (r: Result<(), CellError>)
    ensures
        match r {
            Ok(_) => covers(output@.classification, cell@.contract.input),
            Err(e) => !covers(output@.classification, cell@.contract.input) && e@
                == (ErrorView::ClassificationMismatch {
                input: highest(cell@.contract.input)->0,
                output: output@.classification,
            }),
        },
{
    match highest_level(&cell.contract.input) {
        None => Ok(()),
        Some(top) => if output.classification.dominates(&top) {
            Ok(())
        } else {
            Err(
                CellError::ClassificationMismatch {
                    input: top,
                    output: output.classification,
                },
            )
        },
    }
}

/// Concludes the run of a cell that was executed under a check.
pub fn conclude_cell(
    cell: &FractalCell,
    check: &ConstitutionalCheck,
    run: Result<CellOutput, CellError>,
) -> (r: Result<CellOutput, CellError>)
    ensures
        outcome_view(r) == concluded(cell@, check@, outcome_view(run)),
{
    match run {
        Err(e) => Err(e),
        Ok(output) => {
            if is_approved(check) {
                return Ok(output);
            }
            match verify_classification(cell, &output) {
                Err(e) => Err(e),
                Ok(_) => Ok(output),
            }
        },
    }
}

/// The outcome of a cell, given its check and what came of running it: a cell that is not admitted is
/// refused, whatever a run would give.
pub open spec fn outcome(
    cell: CellView,
    check: CheckView,
    run: Result<OutputView, ErrorView>,
) -> Result<OutputView, ErrorView> {
    if admitted(check) {
        concluded(cell, check, run)
    } else {
        Err(refusal(cell, check))
    }
}

/// The outcome of executing a cell on an input: what its run under its plan comes to.
pub open spec fn cell_outcome(cell: CellView, input: JsonView) -> Result<OutputView, ErrorView> {
    outcome(cell, check(cell), sandbox_run(cell, plan_of(cell, check(cell)), input))
}

/// Executes a Fractal cell inside an OpenShell sandbox.
///
/// # Flow
/// 1. Constitutional validation: the cell must pass all checks; warnings alone do not block
/// 2. Channel to policy mapping: channel scopes become sandbox policies
/// 3. Sandbox creation: a sandbox with the derived policies
/// 4. Cell execution
/// 5. Output collection: the result is captured and its classification verified
///
/// A cell whose logic holds a banned text is refused as a constitutional violation. A cell that is
/// admitted is told that sandboxes are not wired.
pub fn execute_cell(cell: &FractalCell, input: Json) -> (r: Result<CellOutput, CellError>)
    ensures
        outcome_view(r) == cell_outcome(cell@, input@),
        admitted(check(cell@)) ==> outcome_view(r) == Err::<OutputView, ErrorView>(
            sandbox_not_wired(),
        ),
        shows_banned_text(cell@.logic) ==> r matches Err(CellError::ConstitutionalViolation(_)),
{
    match plan_cell(cell, validate_cell(cell)) {
        Err(e) => Err(e),
        Ok(plan) => {
            let run = run_planned(cell, &plan, &input);
            proof {
                lemma_sandbox_is_not_wired(cell@, plan@, input@, outcome_view(run));
            }
            conclude_cell(cell, &plan.check, run)
        },
    }
}

} // verus!
