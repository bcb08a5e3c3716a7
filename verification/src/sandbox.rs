//! The sandboxes that cells run in.
//!
//! What a sandbox answers is closed to the rest of the library: whoever runs a cell is held to ask for
//! the sandbox of its plan and to hand on its input, whatever the answer is.

use crate::cell_runner::{
    admitted, outcome_view, plan_of, sandbox_view, CellError, CellPlan, ErrorView, PlanView,
};
use crate::json::{Json, JsonView};
use crate::schema::{
    CellHealth, CellOutput, CellView, ClassificationLevel, FractalCell, HealthStatus, OutputView,
};
use vstd::prelude::*;

verus! {

/// What the sandbox manager answers until it is wired.
pub open spec fn sandbox_not_wired() -> ErrorView {
    ErrorView::Other(
        "Sandbox creation via OpenShell runtime is not yet wired. Cells execute via the Fractal npm runtime (Javy Wasm void) by default. Install OpenShell and rebuild for kernel-level sandboxing."@,
    )
}

/// Whether there is a sandbox for a cell under the policies of a plan.
pub closed spec fn sandbox_answer(cell: CellView, plan: PlanView) -> Result<(), ErrorView> {
    Err(sandbox_not_wired())
}

/// What a cell gives for an input in its sandbox.
pub closed spec fn sandbox_output(cell: CellView, input: JsonView) -> Result<OutputView, ErrorView> {
    Ok(
        OutputView {
            data: input,
            classification: ClassificationLevel::Public,
            health: CellHealth { status: HealthStatus::Healthy, budget_remaining: 100 },
        },
    )
}

/// What comes of running a cell on an input in a sandbox of its own, under the policies of a plan.
pub open spec fn sandbox_run(cell: CellView, plan: PlanView, input: JsonView) -> Result<
    OutputView,
    ErrorView,
> {
    match sandbox_answer(cell, plan) {
        Err(e) => Err(e),
        Ok(_) => sandbox_output(cell, input),
    }
}

/// No sandbox is wired: the run of a cell is always answered so.
pub proof fn lemma_sandbox_is_not_wired(
    cell: CellView,
    plan: PlanView,
    input: JsonView,
    run: Result<OutputView, ErrorView>,
)
    requires
        run == sandbox_run(cell, plan, input),
    ensures
        run == Err::<OutputView, ErrorView>(sandbox_not_wired()),
{
}

/// In a sandbox the input of a cell is handed through, public and healthy: the logic of a cell is
/// executed by the Fractal runtime.
pub proof fn law_output_is_staged(cell: CellView, input: JsonView)
    ensures
        sandbox_output(cell, input) == Ok::<OutputView, ErrorView>(
            OutputView {
                data: input,
                classification: ClassificationLevel::Public,
                health: CellHealth { status: HealthStatus::Healthy, budget_remaining: 100 },
            },
        ),
{
}

/// Asks for a sandbox for a cell, under the policies of its plan.
pub(crate) fn create_sandbox_for_cell(cell: &FractalCell, plan: &CellPlan) -> (r: Result<
    (),
    CellError,
>)
    requires
        plan@ == plan_of(cell@, plan@.check),
        admitted(plan@.check),
    ensures
        sandbox_view(r) == sandbox_answer(cell@, plan@),
{
    Err(
        CellError::Other(
            "Sandbox creation via OpenShell runtime is not yet wired. Cells execute via the Fractal npm runtime (Javy Wasm void) by default. Install OpenShell and rebuild for kernel-level sandboxing.".to_owned(),
        ),
    )
}

/// Runs a cell on an input in the sandbox that was created for it.
pub(crate) fn run_cell_in_sandbox(_cell: &FractalCell, input: &Json) -> (r: Result<
    CellOutput,
    CellError,
>)
    ensures
        outcome_view(r) == sandbox_output(_cell@, input@),
{
    Ok(
        CellOutput {
            data: input.clone(),
            classification: ClassificationLevel::Public,
            health: CellHealth { status: HealthStatus::Healthy, budget_remaining: 100 },
        },
    )
}

} // verus!
