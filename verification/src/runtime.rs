use vstd::prelude::*;
use vstd::string::StringExecFns;

use crate::actions::{ActionExecutor, ActionReport, PlannedAction};
use crate::backend::HostBackend;
use crate::json::{json_of, json_text_of, json_to_text, model_fields, parse_json, Json, JsonV};
use crate::text::{bootstrap_summary, summary_of, summary_text};

verus! {

/// The hard ceiling on guest iterations in one run: a misbehaving or
/// adversarial guest must never keep the host looping.
pub const MAX_HOST_STEPS: u32 = 8;

/// What the guest sees at each step: the step index, a short summary of
/// what just happened, and a JSON-encoded payload.
#[derive(Clone, Debug)]
pub struct Observation {
    pub step: u32,
    pub summary: String,
    pub data: String,
}

/// A continuation: the guest's reasoning and the actions it requests.
#[derive(Debug)]
pub struct ContinuePlan {
    pub thought: String,
    pub actions: Vec<PlannedAction>,
}

/// A completion: why the guest stopped and its final result.
#[derive(Clone, Debug)]
pub struct CompletePlan {
    pub reason: String,
    pub outcome: String,
}

/// The guest's reply: carry on with actions, or finish.
#[derive(Debug)]
pub enum StepResponse {
    Continue(ContinuePlan),
    Complete(CompletePlan),
}

/// A guest-level failure, with a hint whether an outer caller may retry
/// the whole run.
#[derive(Clone, Debug)]
pub struct AgentError {
    pub retryable: bool,
    pub message: String,
}

/// The planning component's entire boundary: one step call, taking the task
/// and the current observation, answering with a response or a failure.
/// The component itself runs outside this library and promises nothing.
pub trait Planner {
    fn step(&mut self, task: &str, observation: &Observation) -> Result<StepResponse, AgentError>;
}

/// How one run ended, and after how many guest iterations.
#[derive(Debug)]
pub enum RunOutcome {
    Completed { reason: String, outcome: String, steps: u32 },
    Failed { error: String, retryable: bool, steps: u32 },
}

/// The rendered retryable flag inside a guest-failure message.
pub open spec fn spec_flag_text(retryable: bool) -> Seq<char> {
    if retryable {
        "true"@
    } else {
        "false"@
    }
}

/// The run-fatal message for a guest failure.
pub fn agent_failure(err: AgentError) -> (r: String)
    ensures
        r@ == "agent-core reported error (retryable="@ + (if err.retryable {
            "true"@
        } else {
            "false"@
        }) + "): "@ + err.message@,
{
    let flag: &str = if err.retryable {
        "true"
    } else {
        "false"
    };
    String::from_str("agent-core reported error (retryable=").concat(flag).concat("): ").concat(
        err.message.as_str(),
    )
}

/// Checks that a text is JSON and re-encodes it in canonical form.
pub fn validate_json(input: &str) -> (r: Result<String, String>)
    ensures
        r is Ok <==> json_of(input@) is Some,
        r matches Result::Ok(s) ==> s@ == json_text_of(json_of(input@)->Some_0) && json_of(s@)
            == json_of(input@),
        r matches Result::Err(m) ==> m@ == "observation is not valid JSON: "@ + input@,
{
    match parse_json(input) {
        Some(doc) => Result::Ok(json_to_text(&doc)),
        None => Result::Err(String::from_str("observation is not valid JSON: ").concat(input)),
    }
}

/// How many of the first `i` reports failed.
pub open spec fn spec_failures_to(s: Seq<ActionReport>, i: int) -> int
    decreases i,
{
    if i <= 0 {
        0
    } else {
        spec_failures_to(s, i - 1) + if !s[i - 1].success {
            1int
        } else {
            0int
        }
    }
}

/// Counts the failed reports of a batch.
pub fn count_failures(reports: &Vec<ActionReport>) -> (r: usize)
    ensures
        r == spec_failures_to(reports@, reports@.len() as int),
        r <= reports@.len(),
{
    let n = reports.len();
    let mut count: usize = 0;
    let mut i: usize = 0;
    while i < n
        invariant
            0 <= i <= n,
            n == reports@.len(),
            count == spec_failures_to(reports@, i as int),
            count <= i,
        decreases n - i,
    {
        if !reports[i].success {
            count = count + 1;
        }
        i = i + 1;
    }
    count
}

/// The one-line summary of a finished batch.
pub fn summarize_reports(reports: &Vec<ActionReport>) -> (r: String)
    ensures
        reports@.len() == 0 ==> r@ == "planner returned no actions"@,
        reports@.len() > 0 ==> r@ == summary_of(
            reports@.len() as int,
            spec_failures_to(reports@, reports@.len() as int),
        ),
{
    if reports.len() == 0 {
        return String::from_str("planner returned no actions");
    }
    let failures = count_failures(reports);
    summary_text(reports.len(), failures)
}

/// One report's JSON form in the next observation.
pub open spec fn spec_report_json(rep: ActionReport) -> JsonV {
    JsonV::Obj(
        seq![
            ("capability"@, JsonV::Str(rep.capability@)),
            ("success"@, JsonV::Bool(rep.success)),
            ("output"@, rep.output@),
            (
                "error"@,
                match rep.error {
                    Some(m) => JsonV::Str(m@),
                    None => JsonV::Null,
                },
            ),
        ],
    )
}

/// Builds one report's JSON form.
pub fn report_json(rep: ActionReport) -> (r: Json)
    ensures
        r@ == spec_report_json(rep),
{
    let ghost rep0 = rep;
    let error_json = match rep.error {
        Some(m) => Json::Str(m),
        None => Json::Null,
    };
    let mut fields: Vec<(String, Json)> = Vec::new();
    fields.push((String::from_str("capability"), Json::Str(rep.capability)));
    fields.push((String::from_str("success"), Json::Bool(rep.success)));
    fields.push((String::from_str("output"), rep.output));
    fields.push((String::from_str("error"), error_json));
    let ghost fv = fields@;
    let r = Json::Obj(fields);
    proof {
        crate::json::lemma_model_fields_len(fv);
        let m = model_fields(fv);
        assert(m[0] == (fv[0].0@, fv[0].1.model()));
        assert(m[1] == (fv[1].0@, fv[1].1.model()));
        assert(m[2] == (fv[2].0@, fv[2].1.model()));
        assert(m[3] == (fv[3].0@, fv[3].1.model()));
        assert(m =~= spec_report_json(rep0)->Obj_0);
    }
    r
}

/// The next observation's payload: the full report list, JSON-encoded.
pub fn build_action_observation(reports: Vec<ActionReport>) -> (r: String)
    ensures
        r@ == json_text_of(
            JsonV::Obj(
                seq![
                    (
                        "actions"@,
                        JsonV::Arr(reports@.map_values(|rep: ActionReport| spec_report_json(rep))),
                    ),
                ],
            ),
        ),
{
    let ghost orig = reports@;
    let mut rest = reports;
    let mut items: Vec<Json> = Vec::new();
    let mut i: usize = 0;
    let n = rest.len();
    while i < n
        invariant
            0 <= i <= n,
            n == orig.len(),
            rest@ == orig.subrange(i as int, n as int),
            items@.len() == i,
            forall|k: int| 0 <= k < i ==> (#[trigger] items@[k])@ == spec_report_json(orig[k]),
        decreases n - i,
    {
        let rep = rest.remove(0);
        proof {
            assert(rep == orig[i as int]);
            assert(rest@ =~= orig.subrange(i as int + 1, n as int));
        }
        items.push(report_json(rep));
        i = i + 1;
    }
    let ghost iv = items@;
    let mut fields: Vec<(String, Json)> = Vec::new();
    fields.push((String::from_str("actions"), Json::Arr(items)));
    let ghost fv = fields@;
    let doc = Json::Obj(fields);
    proof {
        crate::json::lemma_model_fields_len(fv);
        crate::json::lemma_model_items_len(iv);
        let m = model_fields(fv);
        assert(m[0] == (fv[0].0@, fv[0].1.model()));
        let mapped = orig.map_values(|rep: ActionReport| spec_report_json(rep));
        assert forall|k: int| 0 <= k < iv.len() implies crate::json::model_items(iv)[k]
            == mapped[k] by {
            assert(crate::json::model_items(iv)[k] == iv[k].model());
            assert(mapped[k] == spec_report_json(orig[k]));
        }
        assert(crate::json::model_items(iv) =~= mapped);
        assert(m =~= seq![("actions"@, JsonV::Arr(mapped))]);
    }
    json_to_text(&doc)
}

/// The orchestrator's decision for one guest reply on iteration
/// `iteration`: finish the run, or execute the requested batch.
#[derive(Debug)]
pub enum Transition {
    Finished(RunOutcome),
    Execute(Vec<PlannedAction>),
}

/// Decides what one guest reply does to the run. A guest failure is
/// run-fatal, keeping the failure's text and its retryable hint; a
/// completion ends the run successfully after this, the `iteration + 1`-th,
/// guest call; a continuation without actions is a protocol violation and
/// run-fatal; a continuation with actions has exactly those actions
/// executed as the next batch.
pub fn step_transition(result: Result<StepResponse, AgentError>, iteration: u32) -> (t: Transition)
    requires
        iteration < u32::MAX,
    ensures
        t matches Transition::Finished(o) ==> (o matches RunOutcome::Failed {
            error,
            retryable,
            steps,
        } ==> (steps == iteration && ((!retryable && error@
            == "planner returned a continuation with no actions"@) || (exists|msg: Seq<char>|
            error@ == #[trigger] ("agent-core reported error (retryable="@ + spec_flag_text(
            retryable,
        ) + "): "@ + msg))))),
        match result {
            Result::Err(err) => t matches Transition::Finished(o) && (o
                matches RunOutcome::Failed { error, retryable, steps } && retryable
                == err.retryable && steps == iteration && error@
                == "agent-core reported error (retryable="@ + (if err.retryable {
                "true"@
            } else {
                "false"@
            }) + "): "@ + err.message@),
            Result::Ok(StepResponse::Complete(done)) => t matches Transition::Finished(o) && (o
                matches RunOutcome::Completed { reason, outcome, steps } && reason == done.reason
                && outcome == done.outcome && steps == iteration + 1),
            Result::Ok(StepResponse::Continue(plan)) => if plan.actions@.len() == 0 {
                t matches Transition::Finished(o) && (o matches RunOutcome::Failed {
                    error,
                    retryable,
                    steps,
                } && !retryable && steps == iteration && error@
                    == "planner returned a continuation with no actions"@)
            } else {
                t matches Transition::Execute(actions) && actions == plan.actions
            },
        },
{
    match result {
        Result::Err(err) => {
            let retryable = err.retryable;
            let ghost message = err.message@;
            let error = agent_failure(err);
            proof {
                assert(exists|msg: Seq<char>|
                    error@ == #[trigger] ("agent-core reported error (retryable="@
                        + spec_flag_text(retryable) + "): "@ + msg)) by {
                    assert(error@ == "agent-core reported error (retryable="@ + spec_flag_text(
                        retryable,
                    ) + "): "@ + message);
                }
            }
            Transition::Finished(RunOutcome::Failed { error, retryable, steps: iteration })
        },
        Result::Ok(StepResponse::Complete(done)) => Transition::Finished(
            RunOutcome::Completed {
                reason: done.reason,
                outcome: done.outcome,
                steps: iteration + 1,
            },
        ),
        Result::Ok(StepResponse::Continue(plan)) => {
            if plan.actions.len() == 0 {
                Transition::Finished(
                    RunOutcome::Failed {
                        error: String::from_str("planner returned a continuation with no actions"),
                        retryable: false,
                        steps: iteration,
                    },
                )
            } else {
                Transition::Execute(plan.actions)
            }
        },
    }
}

/// The observation the guest sees after a batch: the step index advanced
/// (saturating), the batch summarized, and the full report list, in order,
/// as the JSON payload.
pub fn next_observation(step: u32, reports: Vec<ActionReport>) -> (o: Observation)
    ensures
        o.step == (if step < u32::MAX {
            (step + 1) as u32
        } else {
            u32::MAX
        }),
        reports@.len() == 0 ==> o.summary@ == "planner returned no actions"@,
        reports@.len() > 0 ==> o.summary@ == summary_of(
            reports@.len() as int,
            spec_failures_to(reports@, reports@.len() as int),
        ),
        o.data@ == json_text_of(
            JsonV::Obj(
                seq![
                    (
                        "actions"@,
                        JsonV::Arr(reports@.map_values(|rep: ActionReport| spec_report_json(rep))),
                    ),
                ],
            ),
        ),
{
    let summary = summarize_reports(&reports);
    let data = build_action_observation(reports);
    let next: u32 = if step < u32::MAX {
        step + 1
    } else {
        u32::MAX
    };
    Observation { step: next, summary, data }
}

/// Drives the guest across a bounded number of iterations, deciding each
/// reply through `step_transition`: each continuation's actions are
/// executed as a batch and become the next observation through
/// `next_observation`; a completion or a failure ends the run; exhausting
/// the bound ends it as failed, citing the last observation's summary.
/// The loop always terminates, after at most `MAX_HOST_STEPS` iterations.
pub fn run_step<P: Planner, B: HostBackend>(
    planner: &mut P,
    executor: &mut ActionExecutor<B>,
    task: &str,
    initial_step: u32,
    observation_text: &str,
) -> (r: RunOutcome)
    requires
        old(executor).wf(),
    ensures
        final(executor).wf(),
        final(executor).state.config == old(executor).state.config,
        final(executor).state.resources.contents() == old(executor).state.resources.contents(),
        match r {
            RunOutcome::Completed { steps, .. } => steps <= MAX_HOST_STEPS,
            RunOutcome::Failed { steps, .. } => steps <= MAX_HOST_STEPS,
        },
        json_of(observation_text@) is None ==> (r matches RunOutcome::Failed {
            error,
            retryable,
            steps,
        } && error@ == "observation is not valid JSON: "@ + observation_text@ && !retryable
            && steps == 0),
        r matches RunOutcome::Failed { error, retryable, steps } ==> (steps == MAX_HOST_STEPS
            ==> (!retryable && exists|sum: Seq<char>|
            error@ == "planner did not complete within the step bound (last summary: "@ + sum
                + ")"@)),
        r matches RunOutcome::Failed { error, retryable, steps } ==> (steps < MAX_HOST_STEPS ==> (
        (steps == 0 && !retryable && json_of(observation_text@) is None && error@
            == "observation is not valid JSON: "@ + observation_text@) || (!retryable && error@
            == "planner returned a continuation with no actions"@) || (exists|msg: Seq<char>|
            error@ == #[trigger] ("agent-core reported error (retryable="@ + spec_flag_text(
            retryable,
        ) + "): "@ + msg)))),
{
    let observation_json = match validate_json(observation_text) {
        Result::Ok(s) => s,
        Result::Err(m) => {
            return RunOutcome::Failed { error: m, retryable: false, steps: 0 };
        },
    };
    let mut observation = Observation {
        step: initial_step,
        summary: bootstrap_summary(initial_step),
        data: observation_json,
    };
    let mut iteration: u32 = 0;
    while iteration < MAX_HOST_STEPS
        invariant
            0 <= iteration <= MAX_HOST_STEPS,
            executor.wf(),
            executor.state.config == old(executor).state.config,
            executor.state.resources.contents() == old(executor).state.resources.contents(),
            json_of(observation_text@) is Some,
        decreases MAX_HOST_STEPS - iteration,
    {
        let result = planner.step(task, &observation);
        match step_transition(result, iteration) {
            Transition::Finished(outcome) => {
                return outcome;
            },
            Transition::Execute(actions) => {
                let reports = executor.execute(&actions);
                observation = next_observation(observation.step, reports);
            },
        }
        iteration = iteration + 1;
    }
    let error = String::from_str("planner did not complete within the step bound (last summary: ")
        .concat(observation.summary.as_str()).concat(")");
    proof {
        assert(exists|sum: Seq<char>|
            error@ == "planner did not complete within the step bound (last summary: "@ + sum
                + ")"@) by {
            assert(error@ == "planner did not complete within the step bound (last summary: "@
                + observation.summary@ + ")"@);
        }
    }
    RunOutcome::Failed { error, retryable: false, steps: iteration }
}

} // verus!
