use wasi_warden::agent::{agent_error, build_messages, cap_err, plan_from_completion, AgentErr,
    Role, SYSTEM_PROMPT};
use wasi_warden::errs::{capability_error, CapabilityErrorCode};
use wasi_warden::runtime::{agent_failure, validate_json, AgentError, Observation, StepResponse};

#[test]
fn messages_carry_prompt_then_task() {
    let obs = Observation {
        step: 3,
        summary: "executed 1 action(s) with 0 failure(s)".to_string(),
        data: "{}".to_string(),
    };
    let msgs = build_messages("find the report", &obs);
    assert_eq!(msgs.len(), 2);
    assert!(matches!(msgs[0].role, Role::System));
    assert_eq!(msgs[0].content, SYSTEM_PROMPT);
    assert!(matches!(msgs[1].role, Role::User));
    assert!(msgs[1].content.contains("find the report"));
    assert!(msgs[1].content.contains("Current step #: 3"));
}

#[test]
fn continuation_with_actions_is_accepted() {
    let reply = "{\"status\":\"continue\",\"thought\":\"look around\",\"actions\":[{\"capability\":\"fs.list_dir\",\"input\":{\"path\":\"docs\"}}]}";
    match plan_from_completion(reply).unwrap() {
        StepResponse::Continue(plan) => {
            assert_eq!(plan.thought, "look around");
            assert_eq!(plan.actions.len(), 1);
            assert_eq!(plan.actions[0].capability, "fs.list_dir");
            assert_eq!(plan.actions[0].input, "{\"path\":\"docs\"}");
            assert!(plan.actions[0].audit_tag.is_none());
        },
        other => panic!("expected a continuation, got {:?}", other),
    }
}

#[test]
fn continuation_without_actions_is_fatal() {
    let reply = "{\"status\":\"continue\",\"thought\":\"hmm\",\"actions\":[]}";
    let e = plan_from_completion(reply).err().unwrap();
    assert!(!e.retryable);
    assert_eq!(e.message, "LLM returned no actions");
    let reply2 = "{\"status\":\"continue\",\"thought\":\"hmm\"}";
    let e2 = plan_from_completion(reply2).err().unwrap();
    assert_eq!(e2.message, "LLM continuation missing actions");
}

#[test]
fn completion_takes_reason_and_outcome() {
    let reply = "{\"status\":\"complete\",\"reason\":\"all done\",\"result\":{\"ok\":true}}";
    match plan_from_completion(reply).unwrap() {
        StepResponse::Complete(done) => {
            assert_eq!(done.reason, "all done");
            assert_eq!(done.outcome, "{\"ok\":true}");
        },
        other => panic!("expected completion, got {:?}", other),
    }
    let bare = "{\"status\":\"complete\"}";
    match plan_from_completion(bare).unwrap() {
        StepResponse::Complete(done) => {
            assert_eq!(done.reason, "task complete");
            assert_eq!(done.outcome, "null");
        },
        other => panic!("expected completion, got {:?}", other),
    }
}

#[test]
fn unparseable_reply_is_fatal() {
    let e = plan_from_completion("no json at all").err().unwrap();
    assert!(!e.retryable);
    assert_eq!(e.message, "failed to parse LLM response");
}

#[test]
fn capability_errors_map_to_agent_errors() {
    let transient = capability_error(CapabilityErrorCode::Unavailable, "backend busy");
    let e = cap_err("llm.complete", transient);
    assert!(e.retryable);
    assert_eq!(e.message, "llm.complete failed: backend busy (Unavailable)");

    let denied = capability_error(CapabilityErrorCode::Denied, "not allowed");
    let e2 = cap_err("llm.complete", denied);
    assert!(!e2.retryable);
    assert_eq!(e2.message, "llm.complete failed: not allowed (Denied)");

    let wire = agent_error(AgentErr::new(true, "m".to_string()));
    assert!(wire.retryable);
    assert_eq!(wire.message, "m");
    let fatal = AgentErr::fatal("boom".to_string());
    assert!(!fatal.retryable);
}

#[test]
fn run_failures_carry_the_retry_hint_in_text() {
    let msg = agent_failure(AgentError { retryable: true, message: "socket closed".to_string() });
    assert_eq!(msg, "agent-core reported error (retryable=true): socket closed");
}

#[test]
fn observations_must_be_json() {
    assert_eq!(validate_json("{\"a\": 1}").unwrap(), "{\"a\":1}");
    assert!(validate_json("3.25").is_ok(), "a float-bearing observation is still JSON");
    assert!(validate_json("{\"score\": 0.5}").is_ok());
    assert_eq!(
        validate_json("{oops").err().unwrap(),
        "observation is not valid JSON: {oops",
    );
}
