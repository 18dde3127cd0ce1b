use vstd::prelude::*;
use vstd::string::StringExecFns;

use crate::errs::{CapabilityError, CapabilityErrorCode};
use crate::json::{json_of, json_text_of, json_to_text, obj_fields, obj_get, parse_json,
    spec_obj_get, Json, JsonV};
use crate::runtime::{AgentError, CompletePlan, ContinuePlan, Observation, StepResponse};
use crate::actions::PlannedAction;
use crate::text::{str_eq, user_prompt_of, user_message_text};

verus! {

/// The fixed instructions handed to the planning model.
pub const SYSTEM_PROMPT: &'static str = "You are an expert automation planner operating inside a secure agent runtime.\nRespond ONLY with JSON matching this schema:\n{\n  \"status\": \"continue\" | \"complete\",\n  \"thought\": \"human-readable reasoning\",\n  \"actions\": [\n     { \"capability\": \"fs.list_dir\" | \"proc.spawn\" | \"fs.read_file\",\n       \"input\": { ... json arguments ... }\n     }\n  ],\n  \"result\": { ... final result json when status == \"complete\" },\n  \"reason\": \"short explanation when status == \\\"complete\\\"\"\n}\nWhen status is \\\"continue\\\" you MUST include at least one action describing the next capability call.\nCapabilities available:\n- fs.list_dir { \"path\": \"<relative path>\" }\n- fs.read_file { \"path\": \"<relative path>\", \"max_bytes\": 4096 }\n- proc.spawn { \"command\": \"<program>\", \"args\": [\"...\"] }\nAlways keep paths relative to the provided workspace.";

/// Who said one message of a planning-model conversation.
#[derive(Clone, Copy, Debug, PartialEq, Eq, Structural)]
pub enum Role {
    System,
    User,
    Assistant,
}

/// One message of a planning-model conversation.
#[derive(Clone, Debug)]
pub struct Message {
    pub role: Role,
    pub content: String,
    pub name: Option<String>,
}

/// A failure inside the planning component, with a retryability hint.
#[derive(Clone, Debug)]
pub struct AgentErr {
    pub retryable: bool,
    pub message: String,
}

impl AgentErr {
    /// A failure with an explicit retryability hint.
    pub fn new(retryable: bool, message: String) -> (r: AgentErr)
        ensures
            r.retryable == retryable,
            r.message == message,
    {
        AgentErr { retryable, message }
    }

    /// A failure no retry can fix.
    pub fn fatal(message: String) -> (r: AgentErr)
        ensures
            !r.retryable,
            r.message == message,
    {
        AgentErr::new(false, message)
    }
}

/// Turns a capability failure during `op` into a planning failure, naming
/// the failure's kind; only a transient backend problem is worth retrying.
pub fn cap_err(op: &str, err: CapabilityError) -> (r: AgentErr)
    ensures
        r.retryable == (err.code == CapabilityErrorCode::Unavailable),
        r.message@ == op@ + " failed: "@ + err.message@ + " ("@ + crate::errs::spec_code_text(
            err.code,
        ) + ")"@,
{
    let retryable = match err.code {
        CapabilityErrorCode::Unavailable => true,
        _ => false,
    };
    let message = String::from_str(op).concat(" failed: ").concat(err.message.as_str()).concat(
        " (",
    ).concat(crate::errs::code_text(err.code)).concat(")");
    AgentErr::new(retryable, message)
}

/// The wire form of a planning failure.
pub fn agent_error(err: AgentErr) -> (r: AgentError)
    ensures
        r.retryable == err.retryable,
        r.message == err.message,
{
    AgentError { retryable: err.retryable, message: err.message }
}

/// The two messages of every planning request: the fixed instructions, and
/// the task with the current observation.
pub fn build_messages(task: &str, observation: &Observation) -> (r: Vec<Message>)
    ensures
        r@.len() == 2,
        r@[0].role == Role::System,
        r@[0].content@ == SYSTEM_PROMPT@,
        r@[0].name is None,
        r@[1].role == Role::User,
        r@[1].content@ == user_prompt_of(
            task@,
            observation.step as int,
            observation.summary@,
            observation.data@,
        ),
        r@[1].name is None,
{
    let mut out: Vec<Message> = Vec::new();
    out.push(Message { role: Role::System, content: String::from_str(SYSTEM_PROMPT), name: None });
    out.push(
        Message {
            role: Role::User,
            content: user_message_text(
                task,
                observation.step,
                observation.summary.as_str(),
                observation.data.as_str(),
            ),
            name: None,
        },
    );
    out
}

/// One action the planning model asked for, before encoding.
#[derive(Debug)]
pub struct LlmAction {
    pub capability: String,
    pub input: Json,
}

/// Re-encodes a requested action for the executor, with no audit tag.
pub fn to_planned_action(action: LlmAction) -> (r: PlannedAction)
    ensures
        r.capability == action.capability,
        r.input@ == json_text_of(action.input@),
        r.audit_tag is None,
{
    let input = json_to_text(&action.input);
    PlannedAction { capability: action.capability, input, audit_tag: None }
}

/// One requested action's capability name, when the item is well-formed.
pub open spec fn spec_action_capability(item: JsonV) -> Option<Seq<char>> {
    match item {
        JsonV::Obj(fields) => match spec_obj_get(fields, "capability"@) {
            Some(JsonV::Str(c)) => Some(c),
            _ => None,
        },
        _ => None,
    }
}

/// One requested action's re-encoded input: a missing input becomes null.
pub open spec fn spec_action_input(item: JsonV) -> Seq<char> {
    match item {
        JsonV::Obj(fields) => match spec_obj_get(fields, "input"@) {
            Some(v) => json_text_of(v),
            None => "null"@,
        },
        _ => "null"@,
    }
}

/// Why a requested action list is refused, if it is: an item that is not an
/// object, or one without a text capability name.
pub open spec fn spec_actions_rejection(items: Seq<JsonV>) -> Option<Seq<char>>
    decreases items.len(),
{
    if items.len() == 0 {
        None
    } else {
        match items[0] {
            JsonV::Obj(fields) => match spec_obj_get(fields, "capability"@) {
                Some(JsonV::Str(c)) => spec_actions_rejection(items.drop_first()),
                _ => Some("LLM action has no `capability`"@),
            },
            _ => Some("LLM action is not an object"@),
        }
    }
}

/// The reply's reasoning text, when it carries one.
pub open spec fn spec_thought(fields: Seq<(Seq<char>, JsonV)>) -> Option<Seq<char>> {
    match spec_obj_get(fields, "thought"@) {
        Some(JsonV::Str(t)) => Some(t),
        _ => None,
    }
}

/// Why the whole reply is refused as a fatal planning failure, if it is.
pub open spec fn spec_plan_rejection(inp: Option<JsonV>) -> Option<Seq<char>> {
    match inp {
        None => Some("failed to parse LLM response"@),
        Some(doc) => match doc {
            JsonV::Obj(fields) => match spec_obj_get(fields, "status"@) {
                Some(JsonV::Str(st)) => if st == "continue"@ {
                    match spec_obj_get(fields, "actions"@) {
                        Some(JsonV::Arr(items)) => if items.len() == 0 {
                            Some("LLM returned no actions"@)
                        } else {
                            spec_actions_rejection(items)
                        },
                        Some(_) => Some("LLM continuation missing actions"@),
                        None => Some("LLM continuation missing actions"@),
                    }
                } else if st == "complete"@ {
                    None
                } else {
                    Some("LLM response has an unknown `status`"@)
                },
                Some(_) => Some("LLM response has no `status`"@),
                None => Some("LLM response has no `status`"@),
            },
            _ => Some("LLM response is not a JSON object"@),
        },
    }
}

/// A prefix of well-formed items pins where the first bad one is rejected.
proof fn lemma_actions_rejection_at(items: Seq<JsonV>, i: int)
    requires
        0 <= i < items.len(),
        spec_action_capability(items[i]) is None,
        forall|k: int| 0 <= k < i ==> #[trigger] spec_action_capability(items[k]) is Some,
    ensures
        spec_actions_rejection(items) matches Some(msg) && msg == (match items[i] {
            JsonV::Obj(_) => "LLM action has no `capability`"@,
            _ => "LLM action is not an object"@,
        }),
    decreases i,
{
    if i > 0 {
        let rest = items.drop_first();
        assert forall|k: int| 0 <= k < i - 1 implies #[trigger] spec_action_capability(rest[k])
            is Some by {
            assert(rest[k] == items[k + 1]);
        }
        assert(rest[i - 1] == items[i]);
        assert(spec_action_capability(items[0]) is Some);
        lemma_actions_rejection_at(rest, i - 1);
    }
}

/// All-well-formed items are never rejected.
proof fn lemma_actions_rejection_none(items: Seq<JsonV>)
    requires
        forall|k: int|
            0 <= k < items.len() ==> #[trigger] spec_action_capability(items[k]) is Some,
    ensures
        spec_actions_rejection(items) is None,
    decreases items.len(),
{
    if items.len() > 0 {
        let rest = items.drop_first();
        assert forall|k: int| 0 <= k < rest.len() implies #[trigger] spec_action_capability(
            rest[k],
        ) is Some by {
            assert(rest[k] == items[k + 1]);
        }
        assert(spec_action_capability(items[0]) is Some);
        lemma_actions_rejection_none(rest);
    }
}

/// Interprets the planning model's reply: a JSON envelope that either
/// continues with a non-empty action list or completes with an outcome.
/// A malformed reply, an unknown status, or a continuation without actions
/// is a fatal planning failure; a returned continuation carries exactly the
/// requested actions, re-encoded, in order.
pub fn plan_from_completion(content: &str) -> (r: Result<StepResponse, AgentErr>)
    ensures
        match spec_plan_rejection(json_of(content@)) {
            Some(msg) => r matches Result::Err(e) && !e.retryable && e.message@ == msg,
            None => r matches Result::Ok(resp) && (json_of(content@) matches Some(doc) && (
            doc matches JsonV::Obj(fields) && (match spec_obj_get(fields, "status"@) {
                Some(JsonV::Str(st)) => ((resp matches StepResponse::Complete(_)) <==> st
                    == "complete"@) && ((resp matches StepResponse::Continue(_)) <==> st
                    == "continue"@),
                _ => false,
            }) && match resp {
                StepResponse::Continue(plan) => {
                    &&& plan.actions@.len() > 0
                    &&& plan.thought@ == match spec_thought(fields) {
                        Some(t) => t,
                        None => "No reasoning provided."@,
                    }
                    &&& spec_obj_get(fields, "actions"@) matches Some(av) && (
                    av matches JsonV::Arr(items) && plan.actions@.len() == items.len() && forall|
                        k: int,
                    |
                        0 <= k < items.len() ==> (Some(
                            (#[trigger] plan.actions@[k]).capability@,
                        ) == spec_action_capability(items[k]) && plan.actions@[k].input@
                            == spec_action_input(items[k])))
                },
                StepResponse::Complete(done) => {
                    &&& done.reason@ == match spec_obj_get(fields, "reason"@) {
                        Some(JsonV::Str(sr)) => sr,
                        _ => match spec_thought(fields) {
                            Some(t) => t,
                            None => "task complete"@,
                        },
                    }
                    &&& done.outcome@ == match spec_obj_get(fields, "result"@) {
                        Some(v) => json_text_of(v),
                        None => "null"@,
                    }
                },
            })),
        },
{
    let doc = match parse_json(content) {
        Some(d) => d,
        None => {
            return Result::Err(AgentErr::fatal(String::from_str("failed to parse LLM response")));
        },
    };
    let fields = match obj_fields(&doc) {
        Some(f) => f,
        None => {
            return Result::Err(
                AgentErr::fatal(String::from_str("LLM response is not a JSON object")),
            );
        },
    };
    let status = match obj_get(fields, "status") {
        Some(j) => match j {
            Json::Str(s) => s.clone(),
            _ => {
                return Result::Err(
                    AgentErr::fatal(String::from_str("LLM response has no `status`")),
                );
            },
        },
        None => {
            return Result::Err(AgentErr::fatal(String::from_str("LLM response has no `status`")));
        },
    };
    let thought: Option<String> = match obj_get(fields, "thought") {
        Some(j) => match j {
            Json::Str(s) => Some(s.clone()),
            _ => None,
        },
        None => None,
    };
    if str_eq(status.as_str(), "continue") {
        proof {
            reveal_strlit("continue");
            reveal_strlit("complete");
            assert("continue"@ != "complete"@) by {
                assert("continue"@[2] == 'n');
                assert("complete"@[2] == 'm');
            }
        }
        let items = match obj_get(fields, "actions") {
            Some(j) => match j {
                Json::Arr(items) => items,
                _ => {
                    return Result::Err(
                        AgentErr::fatal(String::from_str("LLM continuation missing actions")),
                    );
                },
            },
            None => {
                return Result::Err(
                    AgentErr::fatal(String::from_str("LLM continuation missing actions")),
                );
            },
        };
        if items.len() == 0 {
            return Result::Err(AgentErr::fatal(String::from_str("LLM returned no actions")));
        }
        let ghost items_model = crate::json::model_items(items@);
        let ghost fm = crate::json::model_fields(fields@);
        proof {
            crate::json::lemma_model_items_len(items@);
        }
        let n = items.len();
        let mut planned: Vec<PlannedAction> = Vec::new();
        let mut i: usize = 0;
        while i < n
            invariant
                0 <= i <= n,
                n == items@.len(),
                n > 0,
                planned@.len() == i,
                json_of(content@) == Some(JsonV::Obj(fm)),
                spec_obj_get(fm, "status"@) == Some(JsonV::Str(status@)),
                status@ == "continue"@,
                spec_obj_get(fm, "actions"@) == Some(JsonV::Arr(items_model)),
                items_model == crate::json::model_items(items@),
                items_model.len() == n,
                forall|k: int| 0 <= k < n ==> #[trigger] items_model[k] == items@[k].model(),
                forall|k: int|
                    0 <= k < i ==> (Some((#[trigger] planned@[k]).capability@)
                        == spec_action_capability(items_model[k]) && planned@[k].input@
                        == spec_action_input(items_model[k]) && planned@[k].audit_tag is None),
            decreases n - i,
        {
            let item = &items[i];
            let action_fields = match obj_fields(item) {
                Some(f) => f,
                None => {
                    proof {
                        assert forall|k: int| 0 <= k < i implies #[trigger] spec_action_capability(
                            items_model[k],
                        ) is Some by {
                            assert(Some(planned@[k].capability@) == spec_action_capability(
                                items_model[k],
                            ));
                        }
                        assert(items_model[i as int] == items@[i as int].model());
                        lemma_actions_rejection_at(items_model, i as int);
                    }
                    return Result::Err(
                        AgentErr::fatal(String::from_str("LLM action is not an object")),
                    );
                },
            };
            let capability = match obj_get(action_fields, "capability") {
                Some(j) => match j {
                    Json::Str(c) => c.clone(),
                    _ => {
                        proof {
                            assert forall|k: int|
                                0 <= k < i implies #[trigger] spec_action_capability(
                                items_model[k],
                            ) is Some by {
                                assert(Some(planned@[k].capability@) == spec_action_capability(
                                    items_model[k],
                                ));
                            }
                            assert(items_model[i as int] == items@[i as int].model());
                            lemma_actions_rejection_at(items_model, i as int);
                        }
                        return Result::Err(
                            AgentErr::fatal(String::from_str("LLM action has no `capability`")),
                        );
                    },
                },
                None => {
                    proof {
                        assert forall|k: int| 0 <= k < i implies #[trigger] spec_action_capability(
                            items_model[k],
                        ) is Some by {
                            assert(Some(planned@[k].capability@) == spec_action_capability(
                                items_model[k],
                            ));
                        }
                        assert(items_model[i as int] == items@[i as int].model());
                        lemma_actions_rejection_at(items_model, i as int);
                    }
                    return Result::Err(
                        AgentErr::fatal(String::from_str("LLM action has no `capability`")),
                    );
                },
            };
            let input_text = match obj_get(action_fields, "input") {
                Some(j) => json_to_text(j),
                None => String::from_str("null"),
            };
            planned.push(PlannedAction { capability, input: input_text, audit_tag: None });
            i = i + 1;
        }
        proof {
            assert forall|k: int| 0 <= k < items_model.len() implies
                #[trigger] spec_action_capability(items_model[k]) is Some by {
                assert(Some(planned@[k].capability@) == spec_action_capability(items_model[k]));
            }
            lemma_actions_rejection_none(items_model);
        }
        let thought_text = match thought {
            Some(t) => t,
            None => String::from_str("No reasoning provided."),
        };
        Result::Ok(StepResponse::Continue(ContinuePlan { thought: thought_text, actions: planned }))
    } else if str_eq(status.as_str(), "complete") {
        let reason = match obj_get(fields, "reason") {
            Some(j) => match j {
                Json::Str(s) => s.clone(),
                _ => match thought {
                    Some(t) => t,
                    None => String::from_str("task complete"),
                },
            },
            None => match thought {
                Some(t) => t,
                None => String::from_str("task complete"),
            },
        };
        let outcome = match obj_get(fields, "result") {
            Some(j) => json_to_text(j),
            None => String::from_str("null"),
        };
        Result::Ok(StepResponse::Complete(CompletePlan { reason, outcome }))
    } else {
        Result::Err(AgentErr::fatal(String::from_str("LLM response has an unknown `status`")))
    }
}

} // verus!
