//! The pipeline-composition engine: a homogeneous interface for anything that
//! can be run with an optional prior output, and a runner that executes an
//! ordered list of such stages, feeding each stage's captured output to the
//! next and halting the chain as soon as a stage's error text is non-empty.

use vstd::prelude::*;

use crate::errors::ExecError;
use crate::errors::StageError;
use crate::output::Output;

verus! {

/// Anything that can be run as one pipeline stage: with no input, or with the
/// prior stage's captured output fed to its input stream.
pub trait Executable: Sized {
    /// The stage's result as a function of its pre-state and the prior
    /// stage's captured output.
    spec fn exec_spec(&self, input: Option<Output>) -> Result<Output, ExecError>;

    /// The chain's short-circuit rule: handed a prior output whose error text
    /// is non-empty, a stage fails with that text carried verbatim, before
    /// any of its own work.
    proof fn exec_spec_short_circuits(&self, input: Option<Output>)
        ensures
            input matches Some(prev) ==> prev.stderr@.len() > 0 ==> (self.exec_spec(input)
                matches Err(ExecError::Upstream { text }) && text@ == prev.stderr@),
    ;

    /// Runs the stage once: spawn, feed the prior output text (if any) to the
    /// input stream, drain the output and error streams to completion.
    fn exec(&mut self, input: Option<Output>) -> (r: Result<Output, ExecError>)
        ensures
            r == old(self).exec_spec(input),
    ;
}

/// Decides what a freshly spawned stage receives on its input stream, given
/// the prior stage's captured output: nothing without a prior stage; a
/// poisoned upstream (non-empty error text) fails the call with that text
/// before any byte is written; otherwise the prior output text is handed over
/// in full.
pub fn plan_stdin(input: Option<Output>) -> (r: Result<Option<String>, ExecError>)
    ensures
        match input {
            None => r == Ok::<Option<String>, ExecError>(None::<String>),
            Some(prev) => if prev.stderr@.len() > 0 {
                r matches Err(ExecError::Upstream { text }) && text@ == prev.stderr@
            } else {
                r matches Ok(Some(s)) && s@ == prev.stdout@
            },
        },
{
    match input {
        None => Ok(None),
        Some(prev) => {
            let Output { stdout, stderr } = prev;
            if !stderr.as_str().is_empty() {
                Err(ExecError::Upstream { text: stderr })
            } else {
                Ok(Some(stdout))
            }
        },
    }
}

/// A stage whose output is fixed at construction: run with a clean input it
/// produces its canned output; run on a poisoned upstream it short-circuits
/// like every stage.
#[derive(Debug)]
pub struct CannedStage {
    output: Output,
}

impl CannedStage {
    /// A stage that will produce the given output and error text.
    pub fn new(stdout: &str, stderr: &str) -> (r: Self)
        ensures
            r.canned().stdout@ == stdout@,
            r.canned().stderr@ == stderr@,
    {
        CannedStage { output: Output::from_process_output(stdout, stderr) }
    }

    /// The output this stage produces when it runs cleanly.
    pub closed spec fn canned(&self) -> Output {
        self.output
    }
}

impl Executable for CannedStage {
    open spec fn exec_spec(&self, input: Option<Output>) -> Result<Output, ExecError> {
        match input {
            Some(prev) => if prev.stderr@.len() > 0 {
                Err(ExecError::Upstream { text: prev.stderr })
            } else {
                Ok(self.canned())
            },
            None => Ok(self.canned()),
        }
    }

    proof fn exec_spec_short_circuits(&self, input: Option<Output>) {
    }

    fn exec(&mut self, input: Option<Output>) -> (r: Result<Output, ExecError>) {
        match input {
            Some(prev) => {
                let Output { stdout: _, stderr } = prev;
                if !stderr.as_str().is_empty() {
                    Err(ExecError::Upstream { text: stderr })
                } else {
                    Ok(self.output.clone())
                }
            },
            None => Ok(self.output.clone()),
        }
    }
}

/// What running the stages in order from the given input yields, counting
/// stages from `idx`: the first stage's result on the input; then, unless
/// this was the last stage, either the halt that non-empty error text forces
/// — annotated with the index of the stage that produced the text — or the
/// rest of the chain run on that output.
pub open spec fn spec_run_from<E: Executable>(
    stages: Seq<E>,
    input: Option<Output>,
    idx: int,
) -> Result<Output, StageError>
    decreases stages.len(),
{
    if stages.len() == 0 {
        arbitrary()
    } else {
        match stages[0].exec_spec(input) {
            Err(e) => Err(StageError { stage: idx as usize, error: e }),
            Ok(out) => if stages.len() == 1 {
                Ok(out)
            } else if out.stderr@.len() > 0 {
                Err(
                    StageError {
                        stage: idx as usize,
                        error: ExecError::Upstream { text: out.stderr },
                    },
                )
            } else {
                spec_run_from(stages.drop_first(), Some(out), idx + 1)
            },
        }
    }
}

/// Runs one stage standalone: no piped input.
pub fn run_standalone<E: Executable>(stage: &mut E) -> (r: Result<Output, ExecError>)
    ensures
        r == old(stage).exec_spec(None::<Output>),
{
    stage.exec(None)
}

/// Runs an ordered, non-empty list of stages as a pipeline: each stage in
/// turn, the captured output of one fed to the next, halting on the first
/// failure — a stage's own error, or the non-empty error text that poisons
/// the chain before the next stage runs at all. Every failure is annotated
/// with the index of the stage it belongs to. The stages are consumed: each
/// is executed exactly once.
#[verifier::loop_isolation(false)]
pub fn run_pipeline<E: Executable>(stages: Vec<E>) -> (r: Result<Output, StageError>)
    requires
        stages@.len() >= 1,
    ensures
        r == spec_run_from(stages@, None::<Output>, 0),
{
    let ghost all = stages@;
    let n = stages.len();
    let mut rest = stages;
    let mut prev: Option<Output> = None;
    let mut idx: usize = 0;
    loop
        invariant
            rest@.len() >= 1,
            idx + rest@.len() == all.len(),
            all.len() == n,
            spec_run_from(all, None::<Output>, 0) == spec_run_from(rest@, prev, idx as int),
        decreases rest@.len(),
    {
        let ghost stages_pre = rest@;
        let ghost prev0 = prev;
        let mut stage = rest.remove(0);
        let ghost stage0 = stage;
        proof {
            assert(rest@ =~= stages_pre.drop_first());
            assert(stage0 == stages_pre[0]);
        }
        let res = stage.exec(prev);
        proof {
            assert(res == stages_pre[0].exec_spec(prev0));
        }
        match res {
            Err(e) => {
                return Err(StageError { stage: idx, error: e });
            },
            Ok(out) => {
                if rest.len() == 0 {
                    return Ok(out);
                }
                if !out.stderr.as_str().is_empty() {
                    return Err(
                        StageError { stage: idx, error: ExecError::Upstream { text: out.stderr } },
                    );
                }
                proof {
                    assert(spec_run_from(stages_pre, prev0, idx as int) == spec_run_from(
                        stages_pre.drop_first(),
                        Some(out),
                        idx + 1,
                    ));
                }
                prev = Some(out);
                idx = idx + 1;
            },
        }
    }
}

/// A single-stage pipeline yields exactly what running that one stage
/// standalone yields: the same captured output byte for byte, and a failure
/// only annotated as belonging to the first stage.
pub proof fn lemma_single_stage_pipeline<E: Executable>(stages: Seq<E>)
    requires
        stages.len() == 1,
    ensures
        spec_run_from(stages, None::<Output>, 0) == match stages[0].exec_spec(None::<Output>) {
            Ok(out) => Ok::<Output, StageError>(out),
            Err(e) => Err::<Output, StageError>(StageError { stage: 0, error: e }),
        },
{
}

/// A stage that produces non-empty error text halts the chain: the pipeline
/// fails with that stage's index and its error text carried verbatim, and
/// nothing after that stage is consulted — any pipeline that starts with the
/// same stage fails the same way.
pub proof fn lemma_upstream_error_halts<E: Executable>(stages: Seq<E>, out0: Output)
    requires
        stages.len() >= 2,
        stages[0].exec_spec(None::<Output>) == Ok::<Output, ExecError>(out0),
        out0.stderr@.len() > 0,
    ensures
        spec_run_from(stages, None::<Output>, 0) == Err::<Output, StageError>(
            StageError { stage: 0, error: ExecError::Upstream { text: out0.stderr } },
        ),
        forall|others: Seq<E>|
            others.len() >= 2 && others[0] == stages[0] ==> #[trigger] spec_run_from(
                others,
                None::<Output>,
                0,
            ) == spec_run_from(stages, None::<Output>, 0),
{
}

} // verus!
