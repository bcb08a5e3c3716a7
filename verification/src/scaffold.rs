//! Scaffold pipelines: cells executed in order, each on the output of the one before it.
//!
//! A run is a state that hands out the next cell and takes back its output, so that whoever executes
//! the cells decides nothing about the pipeline.

use crate::cell_runner::{cell_outcome, execute_cell, CellError, ErrorView};
use crate::json::{Json, JsonView};
use crate::outside::millis_since_epoch;
use crate::schema::{
    opt_view, views, CellOutput, CellView, FractalCell, FractalScaffold, OutputView, ScaffoldView,
};
use crate::text::{holds_text, padded_hex, padded_hex_text, same_text};
use vstd::prelude::*;

verus! {

/// Result of executing a scaffold pipeline.
#[derive(Debug)]
pub struct ScaffoldResult {
    pub final_output: CellOutput,
    pub cells_executed: u32,
    pub paused_at: Option<String>,
    pub run_id: String,
}

#[verifier::ext_equal]
pub struct ResultView {
    pub final_output: OutputView,
    pub cells_executed: nat,
    pub paused_at: Option<Seq<char>>,
    pub run_id: Seq<char>,
}

impl View for ScaffoldResult {
    type V = ResultView;

    open spec fn view(&self) -> ResultView {
        ResultView {
            final_output: self.final_output@,
            cells_executed: self.cells_executed as nat,
            paused_at: opt_view(self.paused_at),
            run_id: self.run_id@,
        }
    }
}

/// A pipeline under way: the outputs by cell name, and how many cells were executed. Of two outputs
/// under one name, the later one counts.
#[derive(Debug)]
pub struct ScaffoldRun {
    outputs: Vec<(String, CellOutput)>,
    cells_executed: u32,
}

#[verifier::ext_equal]
pub struct RunView {
    pub outputs: Map<Seq<char>, OutputView>,
    pub cells_executed: nat,
}

spec fn outputs_view(outputs: Seq<(String, CellOutput)>) -> Map<Seq<char>, OutputView>
    decreases outputs.len(),
{
    if outputs.len() == 0 {
        Map::empty()
    } else {
        outputs_view(outputs.drop_last()).insert(outputs.last().0@, outputs.last().1@)
    }
}

proof fn lemma_outputs_last(outputs: Seq<(String, CellOutput)>, name: Seq<char>, at: int)
    requires
        -1 <= at < outputs.len(),
        at >= 0 ==> outputs[at].0@ == name,
        forall|j: int| at < j < outputs.len() ==> (#[trigger] outputs[j]).0@ != name,
    ensures
        at < 0 ==> !outputs_view(outputs).contains_key(name),
        at >= 0 ==> outputs_view(outputs).contains_key(name) && outputs_view(outputs)[name]
            == outputs[at].1@,
    decreases outputs.len(),
{
    if outputs.len() > 0 && at < outputs.len() - 1 {
        assert(outputs[outputs.len() - 1].0@ != name);
        lemma_outputs_last(outputs.drop_last(), name, at);
    }
}

impl View for ScaffoldRun {
    type V = RunView;

    closed spec fn view(&self) -> RunView {
        RunView {
            outputs: outputs_view(self.outputs@),
            cells_executed: self.cells_executed as nat,
        }
    }
}

/// Where the cell of a name stands; the last one counts.
pub open spec fn cell_at(cells: Seq<CellView>, name: Seq<char>) -> Option<int>
    decreases cells.len(),
{
    if cells.len() == 0 {
        None
    } else if cells.last().identity.name == name {
        Some(cells.len() - 1)
    } else {
        cell_at(cells.drop_last(), name)
    }
}

/// A cell that is found has the name that was sought, and is the last that has it; where none is
/// found, no cell has the name.
pub proof fn lemma_cell_at(cells: Seq<CellView>, name: Seq<char>)
    ensures
        match cell_at(cells, name) {
            Some(i) => {
                &&& 0 <= i < cells.len()
                &&& cells[i].identity.name == name
                &&& forall|j: int| i < j < cells.len() ==> (#[trigger] cells[j]).identity.name != name
            },
            None => forall|j: int|
                0 <= j < cells.len() ==> (#[trigger] cells[j]).identity.name != name,
        },
    decreases cells.len(),
{
    if cells.len() > 0 && cells.last().identity.name != name {
        let shorter = cells.drop_last();
        lemma_cell_at(shorter, name);
        assert forall|j: int|
            0 <= j < cells.len() && (match cell_at(shorter, name) {
                Some(i) => j > i,
                None => true,
            }) implies (#[trigger] cells[j]).identity.name != name by {
            if j < cells.len() - 1 {
                assert(shorter[j].identity.name != name);
            }
        }
    }
}

/// Finds the cell of a name.
pub fn find_cell(cells: &Vec<FractalCell>, name: &str) -> (r: Option<usize>)
    ensures
        match r {
            Some(i) => i < cells@.len() && cell_at(views(cells@), name@) == Some(i as int),
            None => cell_at(views(cells@), name@) is None,
        },
{
    let ghost all = views(cells@);
    let mut i: usize = cells.len();
    assert(all.take(i as int) == all);
    while i > 0
        invariant
            i <= cells@.len(),
            all == views(cells@),
            cell_at(all, name@) == cell_at(all.take(i as int), name@),
        decreases i,
    {
        i = i - 1;
        assert(all.take(i + 1).drop_last() == all.take(i as int));
        assert(all.take(i + 1).last() == cells@[i as int]@);
        if same_text(cells[i].identity.name.as_str(), name) {
            return Some(i);
        }
    }
    assert(all.take(0).len() == 0);
    None
}

/// The state before the first cell.
pub open spec fn start() -> RunView {
    RunView { outputs: Map::empty(), cells_executed: 0 }
}

/// The state after the next cell gave `output`.
pub open spec fn advance(scaffold: ScaffoldView, run: RunView, output: OutputView) -> RunView {
    RunView {
        outputs: run.outputs.insert(
            scaffold.execution_order[run.cells_executed as int],
            output,
        ),
        cells_executed: run.cells_executed + 1,
    }
}

/// The input of the next cell: the initial input for the first cell, and then the data that is kept
/// under the name of the cell before.
pub open spec fn next_input(scaffold: ScaffoldView, run: RunView, initial: JsonView) -> JsonView {
    if run.cells_executed == 0 {
        initial
    } else {
        let name = scaffold.execution_order[run.cells_executed - 1];
        if run.outputs.contains_key(name) {
            run.outputs[name].data
        } else {
            JsonView::Object(Map::empty())
        }
    }
}

/// What is said of a cell of the execution order that the scaffold does not have.
pub open spec fn not_found(name: Seq<char>) -> ErrorView {
    ErrorView::Other("Cell '"@ + name + "' in execution order not found in scaffold"@)
}

/// The result of a run whose last cell was just executed.
pub open spec fn result_of(
    scaffold: ScaffoldView,
    run: RunView,
    paused: bool,
    run_id: Seq<char>,
) -> ResultView {
    let name = scaffold.execution_order[run.cells_executed - 1];
    ResultView {
        final_output: run.outputs[name],
        cells_executed: run.cells_executed,
        paused_at: if paused {
            Some(name)
        } else {
            None
        },
        run_id,
    }
}

impl ScaffoldRun {
    /// A run before its first cell.
    pub fn new() -> (r: ScaffoldRun)
        ensures
            r@ == start(),
    {
        ScaffoldRun { outputs: Vec::new(), cells_executed: 0 }
    }

    fn output_of(&self, name: &str) -> (r: Option<&CellOutput>)
        ensures
            match r {
                Some(o) => self@.outputs.contains_key(name@) && self@.outputs[name@] == o@,
                None => !self@.outputs.contains_key(name@),
            },
    {
        let mut i: usize = self.outputs.len();
        while i > 0
            invariant
                i <= self.outputs@.len(),
                forall|j: int|
                    i <= j < self.outputs@.len() ==> (#[trigger] self.outputs@[j]).0@ != name@,
            decreases i,
        {
            i = i - 1;
            if same_text(self.outputs[i].0.as_str(), name) {
                proof {
                    lemma_outputs_last(self.outputs@, name@, i as int);
                }
                return Some(&self.outputs[i].1);
            }
        }
        proof {
            lemma_outputs_last(self.outputs@, name@, -1);
        }
        None
    }

    /// The next cell of a pipeline that has one left, by its place among the cells, and its input.
    pub fn next_cell(&self, scaffold: &FractalScaffold, initial: &Json) -> (r: Result<
        (usize, Json),
        CellError,
    >)
        requires
            self@.cells_executed < scaffold@.execution_order.len(),
        ensures
            ({
                let name = scaffold@.execution_order[self@.cells_executed as int];
                match r {
                    Ok((i, input)) => {
                        &&& i < scaffold.cells@.len()
                        &&& cell_at(scaffold@.cells, name) == Some(i as int)
                        &&& input@ == next_input(scaffold@, self@, initial@)
                    },
                    Err(e) => cell_at(scaffold@.cells, name) is None && e@ == not_found(name),
                }
            }),
    {
        let at = self.cells_executed as usize;
        let name = scaffold.execution_order[at].as_str();
        match find_cell(&scaffold.cells, name) {
            None => {
                let mut message = "Cell '".to_owned();
                message.append(name);
                message.append("' in execution order not found in scaffold");
                Err(CellError::Other(message))
            },
            Some(i) => {
                let input = if at == 0 {
                    initial.clone()
                } else {
                    match self.output_of(scaffold.execution_order[at - 1].as_str()) {
                        Some(output) => output.data.clone(),
                        None => Json::Object(Vec::new()),
                    }
                };
                Ok((i, input))
            },
        }
    }

    /// Keeps the output of the next cell. Tells whether the pipeline pauses after it.
    pub fn record(&mut self, scaffold: &FractalScaffold, output: CellOutput) -> (paused: bool)
        requires
            old(self)@.cells_executed < scaffold@.execution_order.len(),
            scaffold@.execution_order.len() <= u32::MAX,
        ensures
            final(self)@ == advance(scaffold@, old(self)@, output@),
            paused == scaffold@.pause_after.contains(
                scaffold@.execution_order[old(self)@.cells_executed as int],
            ),
    {
        let at = self.cells_executed as usize;
        let name = scaffold.execution_order[at].clone();
        let paused = holds_text(&scaffold.pause_after, name.as_str());
        let entry = (name, output);
        proof {
            assert(self.outputs@.push(entry).drop_last() == self.outputs@);
        }
        self.outputs.push(entry);
        self.cells_executed = self.cells_executed + 1;
        paused
    }

    /// The result of a run whose last cell was just executed.
    pub fn finish(&self, scaffold: &FractalScaffold, paused: bool, run_id: String) -> (r:
        ScaffoldResult)
        requires
            0 < self@.cells_executed <= scaffold@.execution_order.len(),
            self@.outputs.contains_key(scaffold@.execution_order[self@.cells_executed - 1]),
        ensures
            r@ == result_of(scaffold@, self@, paused, run_id@),
    {
        let name = scaffold.execution_order[self.cells_executed as usize - 1].clone();
        let final_output = self.output_of(name.as_str()).unwrap().clone();
        ScaffoldResult {
            final_output,
            cells_executed: self.cells_executed,
            paused_at: if paused {
                Some(name)
            } else {
                None
            },
            run_id,
        }
    }
}

// Run identifiers.

/// The identifier of a run that starts at a time, in milliseconds since the Unix epoch.
pub open spec fn run_id(millis: nat) -> Seq<char> {
    padded_hex(millis, 16) + "-"@ + padded_hex(millis % 0xFFFF, 4)
}

/// The identifier of a run that starts at a time.
pub fn run_id_at(millis: u128) -> (r: String)
    ensures
        r@ == run_id(millis as nat),
{
    let mut out = padded_hex_text(millis, 16);
    out.append("-");
    out.append(padded_hex_text(millis % 0xFFFF, 4).as_str());
    out
}

/// The identifier of a run that starts now. A clock that is set before the Unix epoch counts as set to it.
pub fn uuid_v7() -> (r: String)
    ensures
        exists|millis: u128| r@ == #[trigger] run_id(millis as nat),
{
    let millis: u128 = match millis_since_epoch() {
        Some(millis) => millis,
        None => 0,
    };
    let id = run_id_at(millis);
    assert(id@ == run_id(millis as nat));
    id
}

// Execution.

/// The result of a pipeline from a state on, where `execute` gives the outcome of each cell on its
/// input.
pub open spec fn pipeline(
    scaffold: ScaffoldView,
    run: RunView,
    initial: JsonView,
    run_id: Seq<char>,
    execute: spec_fn(CellView, JsonView) -> Result<OutputView, ErrorView>,
) -> Result<ResultView, ErrorView>
    decreases scaffold.execution_order.len() - run.cells_executed,
{
    if run.cells_executed >= scaffold.execution_order.len() {
        Ok(result_of(scaffold, run, false, run_id))
    } else {
        let name = scaffold.execution_order[run.cells_executed as int];
        match cell_at(scaffold.cells, name) {
            None => Err(not_found(name)),
            Some(i) => match execute(scaffold.cells[i], next_input(scaffold, run, initial)) {
                Err(e) => Err(e),
                Ok(output) => {
                    let next = advance(scaffold, run, output);
                    if scaffold.pause_after.contains(name) {
                        Ok(result_of(scaffold, next, true, run_id))
                    } else {
                        pipeline(scaffold, next, initial, run_id, execute)
                    }
                },
            },
        }
    }
}

/// What the result of a pipeline stands for.
pub open spec fn scaffold_view(r: Result<ScaffoldResult, CellError>) -> Result<
    ResultView,
    ErrorView,
> {
    match r {
        Ok(result) => Ok(result@),
        Err(e) => Err(e@),
    }
}

/// Executes a scaffold pipeline under the given run identifier.
pub fn execute_scaffold_as(scaffold: &FractalScaffold, initial: Json, run_id: String) -> (r: Result<
    ScaffoldResult,
    CellError,
>)
    requires
        0 < scaffold@.execution_order.len() <= u32::MAX,
    ensures
        scaffold_view(r) == pipeline(
            scaffold@,
            start(),
            initial@,
            run_id@,
            |c: CellView, input: JsonView| cell_outcome(c, input),
        ),
{
    let ghost execute = |c: CellView, input: JsonView| cell_outcome(c, input);
    let mut run = ScaffoldRun::new();
    let total = scaffold.execution_order.len();
    let mut done: usize = 0;
    while done < total
        invariant
            total == scaffold@.execution_order.len(),
            0 < total <= u32::MAX,
            done <= total,
            done == run@.cells_executed,
            execute == (|c: CellView, input: JsonView| cell_outcome(c, input)),
            done > 0 ==> run@.outputs.contains_key(scaffold@.execution_order[done - 1]),
            pipeline(scaffold@, start(), initial@, run_id@, execute) == pipeline(
                scaffold@,
                run@,
                initial@,
                run_id@,
                execute,
            ),
        decreases total - done,
    {
        let (i, input) = match run.next_cell(scaffold, &initial) {
            Ok(next) => next,
            Err(e) => {
                return Err(e);
            },
        };
        match execute_cell(&scaffold.cells[i], input) {
            Err(e) => {
                return Err(e);
            },
            Ok(output) => {
                let paused = run.record(scaffold, output);
                done = done + 1;
                if paused {
                    return Ok(run.finish(scaffold, true, run_id));
                }
            },
        }
    }
    Ok(run.finish(scaffold, false, run_id))
}

/// Executes an entire scaffold pipeline in topological order.
///
/// Cells are executed sequentially in the order of the scaffold. Outputs from upstream cells are
/// threaded as inputs to downstream cells. Supports pause checkpoints for human-in-the-loop review.
pub fn execute_scaffold(scaffold: &FractalScaffold, initial_input: Json) -> (r: Result<
    ScaffoldResult,
    CellError,
>)
    requires
        0 < scaffold@.execution_order.len() <= u32::MAX,
    ensures
        exists|millis: u128|
            scaffold_view(r) == pipeline(
                scaffold@,
                start(),
                initial_input@,
                #[trigger] run_id(millis as nat),
                |c: CellView, input: JsonView| cell_outcome(c, input),
            ),
{
    execute_scaffold_as(scaffold, initial_input, uuid_v7())
}

} // verus!
