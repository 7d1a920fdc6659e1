use agent_platform::agent::{AgentService, MemoryRecord};
use agent_platform::api::{
    after_memory, after_model, after_save, begin_chat, clamp_run_limit, tool_envelope,
    validate_prompt, ApiError, ChatRequest, ChatStep, HealthResponse, CHAT_MEMORY_RUNS,
};
use agent_platform::model::ModelError;
use serde_json::Value;

fn request(prompt: &str) -> ChatRequest {
    ChatRequest { prompt: prompt.to_string() }
}

fn step_for(prompt: &str) -> Result<ChatStep, ApiError> {
    let agent = AgentService::new();
    let session = begin_chat(&request(prompt)).expect("prompt accepted");
    after_memory(&agent, &session, Ok(Vec::new()))
}

fn envelope_of(step: Result<ChatStep, ApiError>) -> Value {
    match step {
        Ok(ChatStep::SaveRun { response }) => {
            serde_json::from_str(&response).expect("tool envelope must be valid json")
        }
        other => panic!("expected a tool answer, got {:?}", other),
    }
}

#[test]
fn chat_rejects_empty_prompt() {
    let err = begin_chat(&request("   ")).unwrap_err();
    assert_eq!(err.status_code(), 400);
    let body = err.body();
    assert_eq!(body.error, "prompt cannot be empty");
    assert!(validate_prompt("\u{3000}\t\n").is_err());
    assert!(validate_prompt(" x ").is_ok());
}

#[test]
fn chat_routes_arithmetic_to_tool_without_calling_model() {
    let envelope = envelope_of(step_for("please add 7 and 35"));
    assert_eq!(envelope["tool_name"], "add");
    assert_eq!(envelope["result"]["value"], 42);
    assert!(envelope["confidence"].as_f64().is_some());
}

#[test]
fn chat_routes_calculator_to_tool() {
    let envelope = envelope_of(step_for("calc 2 + 3 * 4"));
    assert_eq!(envelope["tool_name"], "calculator");
    assert_eq!(envelope["result"]["expression"], "2 + 3 * 4");
    assert_eq!(envelope["result"]["value"].as_f64(), Some(14.0));
}

#[test]
fn chat_falls_back_to_model_for_open_ended_prompts() {
    let agent = AgentService::new();
    match step_for("what is the meaning of life?") {
        Ok(ChatStep::AskModel { user_prompt, system_prompt }) => {
            assert_eq!(user_prompt, "what is the meaning of life?");
            assert_eq!(system_prompt, agent.system_prompt());
        }
        other => panic!("expected the model, got {:?}", other),
    }
    assert_eq!(after_model(Ok("the meaning is 42".to_string())).unwrap(), "the meaning is 42");
}

#[test]
fn session_ids_are_hyphenated_uuids() {
    let s = begin_chat(&request("hello")).unwrap();
    assert_eq!(s.session_id.len(), 36);
    assert_eq!(s.session_id.as_bytes()[8], b'-');
    assert_eq!(s.session_id.as_bytes()[14], b'4');
    assert!(b"89ab".contains(&s.session_id.as_bytes()[19]));
    assert_eq!(
        uuid::Uuid::parse_str(&s.session_id).unwrap().get_version_num(),
        4
    );
    assert_eq!(s.prompt, "hello");
    let t = begin_chat(&request("hello")).unwrap();
    assert_ne!(s.session_id, t.session_id);
}

#[test]
fn memory_envelope_escapes_text() {
    let agent = AgentService::new();
    let session = begin_chat(&request("what did I just ask")).unwrap();
    let memory = vec![MemoryRecord {
        created_at: "t".to_string(),
        user_prompt: "say \"hi\"\n\\ \u{1}".to_string(),
        response: "r".to_string(),
    }];
    let envelope = envelope_of(after_memory(&agent, &session, Ok(memory)));
    assert_eq!(envelope["tool_name"], "memory");
    assert_eq!(envelope["result"]["user_prompt"], "say \"hi\"\n\\ \u{1}");
}

#[test]
fn failures_map_to_api_errors() {
    let agent = AgentService::new();
    let session = begin_chat(&request("add 1 2")).unwrap();
    match after_memory(&agent, &session, Err("db down".to_string())) {
        Err(ApiError::Internal(m)) => assert_eq!(m, "db down"),
        other => panic!("{:?}", other),
    }
    match step_for("add 2147483647 1") {
        Err(e) => {
            assert_eq!(e.status_code(), 500);
            assert_eq!(e.client_message(), "internal server error");
        }
        other => panic!("{:?}", other),
    }
    match after_model(Err(ModelError::Request("boom".to_string()))) {
        Err(ApiError::External(m)) => assert_eq!(m, "model request failed: boom"),
        other => panic!("{:?}", other),
    }
    let e = ApiError::External("x".to_string());
    assert_eq!(e.status_code(), 502);
    assert_eq!(e.client_message(), "x");
    match after_save(session.clone(), "resp".to_string(), Err("disk".to_string())) {
        Err(ApiError::Internal(m)) => assert_eq!(m, "disk"),
        other => panic!("{:?}", other),
    }
    let ok = after_save(session.clone(), "resp".to_string(), Ok(())).unwrap();
    assert_eq!(ok.response, "resp");
    assert_eq!(ok.session_id, session.session_id);
}

#[test]
fn recent_runs_clamps_limit_above_max() {
    assert_eq!(clamp_run_limit(9_999), 100);
    assert_eq!(clamp_run_limit(i64::MAX), 100);
}

#[test]
fn recent_runs_clamps_zero_to_minimum_one() {
    assert_eq!(clamp_run_limit(0), 1);
    assert_eq!(clamp_run_limit(-5), 1);
    assert_eq!(clamp_run_limit(10), 10);
    assert_eq!(CHAT_MEMORY_RUNS, 5);
}

#[test]
fn health_returns_ok_status() {
    assert_eq!(HealthResponse::ok().status, "ok");
}

#[test]
fn add_envelope_is_exact() {
    let agent_platform_outcome = agent_platform::agent::ToolOutcome::Add { x: 7, y: 35, value: 42 };
    assert_eq!(
        tool_envelope(&agent_platform_outcome),
        "{\"tool_name\":\"add\",\"result\":{\"x\":7,\"y\":35,\"value\":42},\"confidence\":1.0}"
    );
}
