use agent_platform::agent::{
    parse_add, parse_operands, parse_subtract, route_tools, AddTool, AgentService, MathToolError,
    MemoryRecord, OperationArgs, SubtractTool, ToolContext, ToolError, ToolOutcome,
};
use agent_platform::calc::CalcError;

#[test]
fn lib_routes_add_tool() {
    let service = AgentService::new();
    let out = service
        .run_tools_if_needed("please add 2 and 5", &ToolContext::default())
        .expect("tool execution should succeed");
    assert_eq!(out.as_deref(), Some("Tool result: 7"));
}

#[test]
fn tool_routing_routes_add_tool() {
    let service = AgentService::new();
    let out = service
        .run_tools_if_needed("please add 2 and 5", &ToolContext::default())
        .expect("tool execution should succeed");
    assert_eq!(out.as_deref(), Some("Tool result: 7"));
}

#[test]
fn routes_calculator_tool() {
    let service = AgentService::new();
    let out = service
        .run_tools_if_needed("calc 2 + 3 * 4", &ToolContext::default())
        .expect("calculator should succeed");
    assert_eq!(out.as_deref(), Some("Tool result: 14"));
}

#[test]
fn routes_subtract_tool() {
    let service = AgentService::new();
    let out = service
        .run_tools_if_needed("Subtract 10 from 3", &ToolContext::default())
        .expect("tool execution should succeed");
    assert_eq!(out.as_deref(), Some("Tool result: 7"));
}

#[test]
fn open_ended_prompt_uses_no_tool() {
    let service = AgentService::new();
    let out = service
        .run_tools_if_needed("what is the meaning of life?", &ToolContext::default())
        .expect("no tool, no error");
    assert_eq!(out, None);
}

#[test]
fn add_needs_two_integers() {
    assert_eq!(parse_add("add 5"), None);
    assert_eq!(parse_add("add five and 6"), None);
    assert_eq!(parse_add("please ADD 2 and 5"), Some((2, 5)));
    assert_eq!(parse_add("add -4 +9 12"), Some((-4, 9)));
    assert_eq!(parse_add("2 3"), None);
}

#[test]
fn words_must_be_whole_integers() {
    assert_eq!(parse_add("add 2, 5 and 8"), Some((5, 8)));
    assert_eq!(parse_add("add 99999999999 1 2"), Some((1, 2)));
    assert_eq!(parse_add("add\t7\u{3000}8"), Some((7, 8)));
}

#[test]
fn subtract_keyword_is_found_in_any_case() {
    assert_eq!(parse_subtract("SUBTRACT 9 4"), Some((9, 4)));
    assert_eq!(parse_subtract("sub 9 4"), None);
}

#[test]
fn operands_follow_the_lowered_text() {
    assert_eq!(parse_operands("ADD 1 2", "add 1 2", "add"), Some((1, 2)));
    assert_eq!(parse_operands("ADD 1 2", "ADD 1 2", "add"), None);
}

#[test]
fn add_overflow_is_a_math_error() {
    assert_eq!(AddTool.call(OperationArgs { x: i32::MAX, y: 1 }), Err(MathToolError));
    assert_eq!(AddTool.call(OperationArgs { x: 40, y: 2 }), Ok(42));
    assert_eq!(SubtractTool.call(OperationArgs { x: i32::MIN, y: 1 }), Err(MathToolError));
    assert_eq!(SubtractTool.call(OperationArgs { x: 3, y: 10 }), Ok(-7));
    let service = AgentService::new();
    let r = service.run_tools_if_needed("add 2147483647 1", &ToolContext::default());
    assert_eq!(r, Err(ToolError::Math(MathToolError)));
}

#[test]
fn calculator_errors_are_reported() {
    let service = AgentService::new();
    let r = service.run_tools_if_needed("calc 1 / 0", &ToolContext::default());
    assert_eq!(r, Err(ToolError::Calculator(CalcError::DivisionByZero)));
    let r = service.run_tools_if_needed("Calculate (2 + 3", &ToolContext::default());
    assert_eq!(r, Err(ToolError::Calculator(CalcError::Syntax)));
}

#[test]
fn calculate_word_routes_to_calculator() {
    let service = AgentService::new();
    let out = service
        .run_tools_if_needed("  CALCULATE (10 + 5) / 3  ", &ToolContext::default())
        .expect("calculator should succeed");
    assert_eq!(out.as_deref(), Some("Tool result: 5"));
}

#[test]
fn memory_tool_recalls_latest_prompt() {
    let service = AgentService::new();
    let ctx = ToolContext {
        memory: vec![
            MemoryRecord {
                created_at: "2024-01-02T00:00:00+00:00".to_string(),
                user_prompt: "tell me a joke".to_string(),
                response: "no".to_string(),
            },
            MemoryRecord {
                created_at: "2024-01-01T00:00:00+00:00".to_string(),
                user_prompt: "older".to_string(),
                response: "r".to_string(),
            },
        ],
    };
    let out = service
        .run_tools_if_needed("What did I just ask?", &ctx)
        .expect("memory tool");
    assert_eq!(out.as_deref(), Some("Tool result: tell me a joke"));
    let out = service
        .run_tools_if_needed("What did I just ask?", &ToolContext::default())
        .expect("no memory, no tool");
    assert_eq!(out, None);
}

#[test]
fn route_reports_the_chosen_tool() {
    let ctx = ToolContext::new();
    match route_tools("please add 7 and 35", "please add 7 and 35", &ctx) {
        Ok(Some(ToolOutcome::Add { x, y, value })) => {
            assert_eq!((x, y, value), (7, 35, 42));
        }
        other => panic!("unexpected {:?}", other),
    }
    match route_tools("calc 2 + 3 * 4", "calc 2 + 3 * 4", &ctx) {
        Ok(Some(ToolOutcome::Calculator { expression, value })) => {
            assert_eq!(expression, "2 + 3 * 4");
            assert_eq!(value, 14);
        }
        other => panic!("unexpected {:?}", other),
    }
}

#[test]
fn system_prompt_is_the_default() {
    let service = AgentService::default();
    assert_eq!(
        service.system_prompt(),
        "You are a reliable Rust LLM assistant. Prefer tool usage for arithmetic and retrieval tasks."
    );
}

#[test]
fn tools_describe_themselves() {
    assert_eq!(AddTool.name(), "add");
    assert_eq!(SubtractTool.name(), "subtract");
    assert_eq!(AddTool.description(), "Add x and y together");
    assert_eq!(SubtractTool.description(), "Subtract y from x");
    let schema: serde_json::Value =
        serde_json::from_str(agent_platform::agent::operation_args_schema()).unwrap();
    assert_eq!(schema["required"][0], "x");
    assert_eq!(schema["required"][1], "y");
    assert_eq!(schema["properties"]["x"]["type"], "number");
}

#[test]
fn tool_reply_value_reads_back() {
    let service = AgentService::new();
    for (prompt, value) in [("add -40 2", -38i64), ("subtract 5 9", -4), ("calc 6 * 7", 42)] {
        let out = service
            .run_tools_if_needed(prompt, &ToolContext::default())
            .unwrap()
            .unwrap();
        let rest = out.strip_prefix("Tool result: ").expect("reply prefix");
        assert_eq!(rest.parse::<i64>().unwrap(), value);
    }
}
